//! The daemons that are connected to the coordinator.

use vstd::prelude::*;

use crate::ids::{named_before, DaemonId};
use crate::message::IpAddr;
use crate::ordered::{entry_at, has_entry, lemma_entry, OrderedKey, SortedMap};
use crate::text::{lemma_opt_text_order, opt_text};

verus! {

/// What the coordinator knows of the connection to a daemon.
pub struct DaemonConnection {
    /// The address at the other end, if it can be told.
    pub peer_ip: Option<IpAddr>,
}

/// The connected daemons, in the order of their identifiers.
pub struct DaemonConnections {
    pub daemons: SortedMap<DaemonId, DaemonConnection>,
}

/// The first of the daemons that was started for the given machine, or without a machine
/// name if none is given.
pub open spec fn first_daemon(
    daemons: Seq<(DaemonId, DaemonConnection)>,
    machine: Option<Seq<char>>,
) -> Option<DaemonId>
    decreases daemons.len(),
{
    if daemons.len() == 0 {
        None
    } else if opt_text(daemons[0].0.machine_id) == machine {
        Some(daemons[0].0)
    } else {
        first_daemon(daemons.drop_first(), machine)
    }
}

/// The first daemon for a machine is one of the daemons and was started for that machine; if
/// there is none, no daemon was.
pub proof fn lemma_first_daemon(
    daemons: Seq<(DaemonId, DaemonConnection)>,
    machine: Option<Seq<char>>,
)
    ensures
        match first_daemon(daemons, machine) {
            Some(daemon) => opt_text(daemon.machine_id) == machine && exists|i: int|
                0 <= i < daemons.len() && (#[trigger] daemons[i]).0 == daemon,
            None => forall|i: int|
                0 <= i < daemons.len() ==> opt_text((#[trigger] daemons[i]).0.machine_id)
                    != machine,
        },
    decreases daemons.len(),
{
    if daemons.len() > 0 {
        let rest = daemons.drop_first();
        lemma_first_daemon(rest, machine);
        if opt_text(daemons[0].0.machine_id) != machine {
            match first_daemon(rest, machine) {
                Some(daemon) => {
                    let i = choose|i: int|
                        0 <= i < rest.len() && (#[trigger] rest[i]).0 == daemon;
                    assert(daemons[i + 1].0 == daemon);
                },
                None => {
                    assert forall|i: int| 0 <= i < daemons.len() implies opt_text(
                        (#[trigger] daemons[i]).0.machine_id,
                    ) != machine by {
                        if i > 0 {
                            assert(daemons[i] == rest[i - 1]);
                        }
                    }
                },
            }
        }
    }
}

impl DaemonConnections {
    /// Every daemon is listed once, in the order of the identifiers.
    pub open spec fn wf(&self) -> bool {
        self.daemons.wf()
    }

    /// The daemon that handles nodes for the given machine, or, without one, nodes that may
    /// run anywhere.
    pub open spec fn daemon_for(&self, machine: Option<Seq<char>>) -> Option<DaemonId> {
        first_daemon(self.daemons.entries(), machine)
    }

    /// No daemons.
    pub fn new() -> (r: Self)
        ensures
            r.wf(),
            r.daemons.entries().len() == 0,
    {
        DaemonConnections { daemons: SortedMap::new() }
    }

    /// Adds a daemon, in place of an earlier connection of the same daemon.
    pub fn add_connection(&mut self, daemon_id: DaemonId, connection: DaemonConnection)
        requires
            old(self).wf(),
        ensures
            final(self).wf(),
            final(self).daemons@ == old(self).daemons@.insert(daemon_id.id(), connection),
    {
        self.daemons.insert(daemon_id, connection);
    }

    /// The connection of a daemon.
    pub fn get(&self, daemon_id: &DaemonId) -> (r: Option<&DaemonConnection>)
        requires
            self.wf(),
        ensures
            r is Some == self.daemons@.contains_key(daemon_id.id()),
            r is Some ==> *r->0 == self.daemons@[daemon_id.id()],
    {
        self.daemons.get(daemon_id)
    }

    /// Whether no daemon is connected.
    pub fn is_empty(&self) -> (r: bool)
        ensures
            r == (self.daemons.entries().len() == 0),
    {
        self.daemons.len() == 0
    }

    /// The identifiers of the connected daemons.
    pub fn keys(&self) -> (r: SortedMap<DaemonId, ()>)
        requires
            self.wf(),
        ensures
            r.wf(),
            r@.dom() =~= self.daemons@.dom(),
    {
        let mut r: SortedMap<DaemonId, ()> = SortedMap::new();
        let mut i: usize = 0;
        while i < self.daemons.len()
            invariant
                self.wf(),
                r.wf(),
                i <= self.daemons.entries().len(),
                forall|id: (Option<Seq<char>>, u128)| #[trigger]
                    r@.contains_key(id) <==> exists|j: int|
                        0 <= j < i && (#[trigger] self.daemons.entries()[j]).0.id() == id,
            decreases self.daemons.entries().len() - i,
        {
            let ghost seen = r@;
            let daemon = &self.daemons.entry(i).0;
            r.insert(daemon.clone(), ());
            assert forall|id: (Option<Seq<char>>, u128)| #[trigger]
                r@.contains_key(id) <==> exists|j: int|
                    0 <= j < i + 1 && (#[trigger] self.daemons.entries()[j]).0.id() == id by {
                assert(r@.contains_key(id) <==> id == daemon.id() || seen.contains_key(id));
                assert(self.daemons.entries()[i as int].0.id() == daemon.id());
            }
            i = i + 1;
        }
        assert forall|id: (Option<Seq<char>>, u128)| #[trigger]
            r@.contains_key(id) == self.daemons@.contains_key(id) by {
            let entries = self.daemons.entries();
            if r@.contains_key(id) {
                let j = choose|j: int|
                    0 <= j < i && (#[trigger] self.daemons.entries()[j]).0.id() == id;
                lemma_entry(entries, j);
            }
            if self.daemons@.contains_key(id) {
                assert(has_entry(entries, id));
                let j = choose|j: int| entry_at(entries, id, j);
                assert(entries[j].0.id() == id);
            }
        }
        r
    }

    /// The first daemon that was started for the given machine.
    pub fn get_matching_daemon_id(&self, machine: &str) -> (r: Option<DaemonId>)
        ensures
            r == self.daemon_for(Some(machine@)),
    {
        let ghost entries = self.daemons.entries();
        let mut i: usize = 0;
        assert(entries.skip(0) =~= entries);
        while i < self.daemons.len()
            invariant
                entries == self.daemons.entries(),
                i <= entries.len(),
                self.daemon_for(Some(machine@)) == first_daemon(
                    entries.skip(i as int),
                    Some(machine@),
                ),
            decreases entries.len() - i,
        {
            let daemon = &self.daemons.entry(i).0;
            if daemon.matches_machine_id(machine) {
                return Some(daemon.clone());
            }
            assert(entries.skip(i as int).drop_first() =~= entries.skip(i + 1));
            i = i + 1;
        }
        None
    }

    /// The daemons that were started without a machine name.
    pub fn unnamed(&self) -> (r: Vec<DaemonId>)
        ensures
            r@ == self.daemons.entries().map_values(
                |e: (DaemonId, DaemonConnection)| e.0,
            ).filter(|daemon: DaemonId| daemon.machine_id is None),
            self.daemon_for(None) == (if r@.len() == 0 {
                None
            } else {
                Some(r@[0])
            }),
    {
        let ghost entries = self.daemons.entries();
        let ghost ids = entries.map_values(|e: (DaemonId, DaemonConnection)| e.0);
        let ghost nameless = |daemon: DaemonId| daemon.machine_id is None;
        let mut r: Vec<DaemonId> = Vec::new();
        let mut i: usize = 0;
        assert(entries.skip(0) =~= entries);
        assert(ids.take(0).filter(nameless) =~= Seq::<DaemonId>::empty()) by {
            reveal(Seq::filter);
        }
        while i < self.daemons.len()
            invariant
                entries == self.daemons.entries(),
                ids == entries.map_values(|e: (DaemonId, DaemonConnection)| e.0),
                nameless == (|daemon: DaemonId| daemon.machine_id is None),
                i <= entries.len(),
                r@ == ids.take(i as int).filter(nameless),
                self.daemon_for(None) == (if r@.len() == 0 {
                    first_daemon(entries.skip(i as int), None)
                } else {
                    Some(r@[0])
                }),
            decreases entries.len() - i,
        {
            let daemon = &self.daemons.entry(i).0;
            proof {
                let shorter = ids.take(i as int);
                assert(ids.take(i + 1) =~= shorter.push(*daemon));
                shorter.lemma_filter_push(*daemon, nameless);
                assert(entries.skip(i as int).drop_first() =~= entries.skip(i + 1));
            }
            if daemon.machine_id.is_none() {
                r.push(daemon.clone());
            }
            i = i + 1;
        }
        assert(ids.take(i as int) =~= ids);
        r
    }
}

/// For a machine that some connected daemon was started for, the daemon with the smallest
/// identifier among them is taken; for another one none is. Without a machine, the same holds of
/// the daemons that were started without a machine name.
pub proof fn law_first_daemon_of_a_machine_is_taken(
    connections: DaemonConnections,
    machine: Option<Seq<char>>,
)
    requires
        connections.wf(),
    ensures
        match connections.daemon_for(machine) {
            Some(daemon) => {
                &&& connections.daemons@.contains_key((machine, daemon.uuid))
                &&& match daemon.machine_id {
                    Some(name) => machine == Some(name@),
                    None => machine is None,
                }
                &&& forall|uuid: u128| #[trigger]
                    connections.daemons@.contains_key((machine, uuid)) ==> daemon.uuid <= uuid
            },
            None => forall|uuid: u128| !connections.daemons@.contains_key((machine, uuid)),
        },
{
    let entries = connections.daemons.entries();
    lemma_first_daemon(entries, machine);
    match connections.daemon_for(machine) {
        Some(daemon) => {
            let p = lemma_first_daemon_position(entries, machine);
            lemma_entry(entries, p);
            assert forall|uuid: u128| #[trigger]
                connections.daemons@.contains_key((machine, uuid)) implies daemon.uuid <= uuid by {
                assert(has_entry(entries, (machine, uuid)));
                let q = choose|q: int| entry_at(entries, (machine, uuid), q);
                assert(entries[q].0.id() == (machine, uuid));
                if q > p {
                    assert(named_before(entries[p].0.id(), entries[q].0.id()));
                    lemma_opt_text_order(machine, machine, machine);
                }
            }
        },
        None => {
            assert forall|uuid: u128| !connections.daemons@.contains_key((machine, uuid)) by {
                if connections.daemons@.contains_key((machine, uuid)) {
                    assert(has_entry(entries, (machine, uuid)));
                    let q = choose|q: int| entry_at(entries, (machine, uuid), q);
                    assert(entries[q].0.id() == (machine, uuid));
                }
            }
        },
    }
}

/// Where the first daemon for a machine stands: before it there is none for the machine.
proof fn lemma_first_daemon_position(
    daemons: Seq<(DaemonId, DaemonConnection)>,
    machine: Option<Seq<char>>,
) -> (p: int)
    requires
        first_daemon(daemons, machine) is Some,
    ensures
        0 <= p < daemons.len(),
        Some(daemons[p].0) == first_daemon(daemons, machine),
        forall|i: int|
            #![trigger daemons[i]]
            0 <= i < p ==> opt_text(daemons[i].0.machine_id) != machine,
    decreases daemons.len(),
{
    if opt_text(daemons[0].0.machine_id) == machine {
        0
    } else {
        let rest = daemons.drop_first();
        let p = lemma_first_daemon_position(rest, machine);
        assert forall|i: int| #![trigger daemons[i]] 0 <= i < p + 1 implies opt_text(
            daemons[i].0.machine_id,
        ) != machine by {
            if i > 0 {
                assert(daemons[i] == rest[i - 1]);
            }
        }
        p + 1
    }
}

} // verus!

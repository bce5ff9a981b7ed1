//! Planning and executing the spawn of a dataflow on the connected daemons.

use itertools::Itertools;
use vstd::prelude::*;

use crate::daemons::{
    law_first_daemon_of_a_machine_is_taken, lemma_first_daemon, DaemonConnections,
};
use crate::ids::{
    daemon_text, new_dataflow_id, uuid_standard_layout, uuid_version, BuildId, DaemonId,
    DataflowId, NodeId, SessionId,
};
use crate::message::{nodes_by_name, Descriptor, FilePath, ResolvedNode};
use crate::ordered::{entry_at, has_entry, lemma_entry, OrderedKey, SortedMap};
use crate::text::{
    enclosed, lemma_same_frame, lemma_same_start, no_texts, opt_text, push_text, same_frame, texts,
};

verus! {

/// What a spawn takes over from the request that asked for it.
pub struct SpawnOptions {
    pub build_id: Option<BuildId>,
    pub session_id: SessionId,
    pub local_working_dir: Option<FilePath>,
    pub uv: bool,
    pub write_events_to: Option<FilePath>,
}

/// Tells a daemon to spawn some of the nodes of a dataflow.
pub struct SpawnDataflowNodes<'a> {
    pub build_id: Option<BuildId>,
    pub session_id: SessionId,
    pub dataflow_id: DataflowId,
    pub local_working_dir: &'a Option<FilePath>,
    pub nodes: &'a SortedMap<NodeId, ResolvedNode>,
    pub dataflow_descriptor: &'a Descriptor,
    pub spawn_nodes: Vec<NodeId>,
    pub uv: bool,
    pub write_events_to: &'a Option<FilePath>,
}

/// Why a dataflow cannot be planned.
#[derive(Debug)]
pub enum PlanError {
    /// The dataflow's description is not valid.
    Resolve(String),
    /// No daemon was started for a machine that a node asks for.
    NoMatchingDaemon(String),
    /// A node may run anywhere, but no daemon was started without a machine name.
    NoUnnamedDaemon,
    /// A spawn command could not be encoded.
    Encode(String),
}

/// The texts by which it is told that a dataflow cannot be planned, from the outermost to the
/// cause. A machine appears in them as `machine`.
pub open spec fn plan_error_chain(error: PlanError, machine: Seq<char>) -> Seq<Seq<char>> {
    match error {
        PlanError::Resolve(text) => seq![text@],
        PlanError::NoMatchingDaemon(_) => seq![
            "failed to resolve daemon for machine `Some("@ + machine + ")`"@,
            "no matching daemon for machine id "@ + machine,
        ],
        PlanError::NoUnnamedDaemon => seq![
            "failed to resolve daemon for machine `None`"@,
            "no unnamed daemon connections"@,
        ],
        PlanError::Encode(text) => seq![text@],
    }
}

impl PlanError {
    /// The texts by which the failure is told, from the outermost to the cause. `machine` is how
    /// the name of the machine without a daemon is written out.
    pub fn chain(&self, machine: &str) -> (r: Vec<String>)
        ensures
            texts(r@) == plan_error_chain(*self, machine@),
    {
        let mut r = no_texts();
        match self {
            PlanError::Resolve(text) => push_text(&mut r, text.clone()),
            PlanError::NoMatchingDaemon(_) => {
                let outer = enclosed(
                    "failed to resolve daemon for machine `Some(",
                    machine,
                    ")`",
                );
                push_text(&mut r, outer);
                let mut inner = "no matching daemon for machine id ".to_owned();
                inner.append(machine);
                push_text(&mut r, inner);
            },
            PlanError::NoUnnamedDaemon => {
                push_text(&mut r, "failed to resolve daemon for machine `None`".to_owned());
                push_text(&mut r, "no unnamed daemon connections".to_owned());
            },
            PlanError::Encode(text) => push_text(&mut r, text.clone()),
        }
        assert(texts(r@) =~= plan_error_chain(*self, machine@));
        r
    }
}

/// What to do to spawn a dataflow.
pub struct DataflowPlan {
    pub uuid: DataflowId,
    pub daemons: SortedMap<DaemonId, ()>,
    pub nodes: SortedMap<NodeId, ResolvedNode>,
    pub node_to_daemon: SortedMap<NodeId, DaemonId>,
    pub daemon_messages: Vec<(DaemonId, Vec<u8>)>,
}

/// The part of a plan that depends on the daemons.
pub struct PlannedSpawns {
    pub daemons: SortedMap<DaemonId, ()>,
    pub node_to_daemon: SortedMap<NodeId, DaemonId>,
    pub daemon_messages: Vec<(DaemonId, Vec<u8>)>,
}

/// Nodes that ask for the same machine, with the machine.
pub type NodeGroup<'a> = (Option<&'a String>, Vec<&'a ResolvedNode>);

/// The machine of a group of nodes.
pub open spec fn group_machine(group: NodeGroup) -> Option<Seq<char>> {
    match group.0 {
        Some(machine) => Some(machine@),
        None => None,
    }
}

/// Whether the groups sort the nodes by machine: one group for each machine that a node asks
/// for, with the nodes that ask for it, in their order.
pub open spec fn is_grouping(nodes: Seq<&ResolvedNode>, groups: Seq<NodeGroup>) -> bool {
    &&& forall|i: int, j: int|
        #![trigger groups[i], groups[j]]
        0 <= i < j < groups.len() ==> group_machine(groups[i]) != group_machine(groups[j])
    &&& forall|i: int|
        #![trigger groups[i]]
        0 <= i < groups.len() ==> groups[i].1@.len() > 0 && groups[i].1@ == nodes.filter(
            |n: &ResolvedNode| n.wanted_machine() == group_machine(groups[i]),
        )
    &&& forall|q: int|
        #![trigger nodes[q]]
        0 <= q < nodes.len() ==> exists|i: int|
            0 <= i < groups.len() && group_machine(#[trigger] groups[i])
                == nodes[q].wanted_machine()
}

/// `itertools::Itertools::into_group_map_by`, by machine: every node goes to the group of the
/// machine that it asks for, behind those that went there before; a machine that no node asks
/// for has no group. The groups come in the order of a walk of a hash map, of which nothing
/// is said.
#[verifier::external_body]
fn group_by_machine<'a>(nodes: Vec<&'a ResolvedNode>) -> (r: Vec<NodeGroup<'a>>)
    ensures
        is_grouping(nodes@, r@),
{
    nodes.into_iter().into_group_map_by(|node| node.machine()).into_iter().collect()
}

/// Whether the nodes have names of their own.
pub open spec fn distinct_names(nodes: Seq<&ResolvedNode>) -> bool {
    forall|a: int, b: int|
        #![trigger nodes[a], nodes[b]]
        0 <= a < nodes.len() && 0 <= b < nodes.len() && nodes[a].id@ == nodes[b].id@ ==> a == b
}

/// A member of a group is one of the nodes and asks for the machine of the group.
proof fn lemma_group_member(nodes: Seq<&ResolvedNode>, groups: Seq<NodeGroup>, i: int, j: int)
    requires
        is_grouping(nodes, groups),
        0 <= i < groups.len(),
        0 <= j < groups[i].1@.len(),
    ensures
        nodes.contains(groups[i].1@[j]),
        groups[i].1@[j].wanted_machine() == group_machine(groups[i]),
{
    let asks = |n: &ResolvedNode| n.wanted_machine() == group_machine(groups[i]);
    nodes.lemma_filter_pred(asks, j);
    nodes.lemma_filter_contains_rev(asks, groups[i].1@[j]);
}

/// Every node is a member of the group of the machine that it asks for.
proof fn lemma_node_has_group(nodes: Seq<&ResolvedNode>, groups: Seq<NodeGroup>, q: int) -> (r: (
    int,
    int,
))
    requires
        is_grouping(nodes, groups),
        0 <= q < nodes.len(),
    ensures
        0 <= r.0 < groups.len(),
        0 <= r.1 < groups[r.0].1@.len(),
        groups[r.0].1@[r.1] == nodes[q],
{
    let i = choose|i: int|
        0 <= i < groups.len() && group_machine(#[trigger] groups[i]) == nodes[q].wanted_machine();
    let asks = |n: &ResolvedNode| n.wanted_machine() == group_machine(groups[i]);
    nodes.lemma_filter_contains(asks, q);
    assert(groups[i].1@.contains(nodes[q]));
    let j = choose|j: int| 0 <= j < groups[i].1@.len() && groups[i].1@[j] == nodes[q];
    (i, j)
}

/// However the groups come, each node is in exactly one of them, and there once: it is
/// spawned exactly once.
pub proof fn law_each_node_is_spawned_once(
    nodes: Seq<&ResolvedNode>,
    groups: Seq<NodeGroup>,
    q: int,
)
    requires
        is_grouping(nodes, groups),
        distinct_names(nodes),
        0 <= q < nodes.len(),
    ensures
        exists|i: int, j: int|
            0 <= i < groups.len() && 0 <= j < groups[i].1@.len() && (
            #[trigger] groups[i].1@[j]).id@ == nodes[q].id@,
        forall|i: int, j: int, k: int, l: int|
            #![trigger groups[i].1@[j], groups[k].1@[l]]
            0 <= i < groups.len() && 0 <= j < groups[i].1@.len() && 0 <= k < groups.len() && 0 <= l
                < groups[k].1@.len() && groups[i].1@[j].id@ == nodes[q].id@
                && groups[k].1@[l].id@ == nodes[q].id@ ==> i == k && j == l,
{
    let (i0, j0) = lemma_node_has_group(nodes, groups, q);
    assert(groups[i0].1@[j0].id@ == nodes[q].id@);
    assert forall|i: int, j: int, k: int, l: int|
        #![trigger groups[i].1@[j], groups[k].1@[l]]
        0 <= i < groups.len() && 0 <= j < groups[i].1@.len() && 0 <= k < groups.len() && 0 <= l
            < groups[k].1@.len() && groups[i].1@[j].id@ == nodes[q].id@ && groups[k].1@[l].id@
            == nodes[q].id@ implies i == k && j == l by {
        lemma_group_member(nodes, groups, i, j);
        lemma_group_member(nodes, groups, k, l);
        let a = choose|a: int| 0 <= a < nodes.len() && nodes[a] == groups[i].1@[j];
        let b = choose|b: int| 0 <= b < nodes.len() && nodes[b] == groups[k].1@[l];
        assert(nodes[a].id@ == nodes[q].id@);
        assert(nodes[b].id@ == nodes[q].id@);
        assert(a == q && b == q);
        if i < k {
            assert(group_machine(groups[i]) != group_machine(groups[k]));
        } else if k < i {
            assert(group_machine(groups[k]) != group_machine(groups[i]));
        }
        let asks = |n: &ResolvedNode| n.wanted_machine() == group_machine(groups[i]);
        assert(nodes.no_duplicates()) by {
            assert forall|x: int, y: int|
                0 <= x < nodes.len() && 0 <= y < nodes.len() && x != y implies nodes[x]
                != nodes[y] by {
                if nodes[x] == nodes[y] {
                    assert(nodes[x].id@ == nodes[y].id@);
                }
            }
        }
        lemma_filter_no_duplicates(nodes, asks);
        assert(groups[i].1@.no_duplicates());
    }
}

/// Leaving items out of a sequence without duplicates leaves none in it.
proof fn lemma_filter_no_duplicates<A>(s: Seq<A>, keep: spec_fn(A) -> bool)
    requires
        s.no_duplicates(),
    ensures
        s.filter(keep).no_duplicates(),
    decreases s.len(),
{
    reveal(Seq::filter);
    if s.len() > 0 {
        let shorter = s.drop_last();
        lemma_filter_no_duplicates(shorter, keep);
        if keep(s.last()) {
            assert forall|i: int| 0 <= i < shorter.filter(keep).len() implies shorter.filter(
                keep,
            )[i] != s.last() by {
                shorter.lemma_filter_contains_rev(keep, shorter.filter(keep)[i]);
                let a = choose|a: int|
                    0 <= a < shorter.len() && shorter[a] == shorter.filter(keep)[i];
                assert(s[a] == shorter[a]);
            }
        }
    }
}

/// Whether `command` tells a daemon to spawn the nodes of a group.
pub open spec fn is_spawn_command(
    command: SpawnDataflowNodes,
    uuid: DataflowId,
    options: SpawnOptions,
    dataflow: Descriptor,
    nodes: SortedMap<NodeId, ResolvedNode>,
    group: NodeGroup,
) -> bool {
    &&& command.build_id == options.build_id
    &&& command.session_id == options.session_id
    &&& command.dataflow_id == uuid
    &&& *command.local_working_dir == options.local_working_dir
    &&& *command.nodes == nodes
    &&& *command.dataflow_descriptor == dataflow
    &&& command.spawn_nodes@ == group.1@.map_values(|n: &ResolvedNode| n.id)
    &&& command.uv == options.uv
    &&& *command.write_events_to == options.write_events_to
}

/// Everything a spawn is planned from, but for the daemons and the groups.
pub struct SpawnSource {
    pub uuid: DataflowId,
    pub options: SpawnOptions,
    pub dataflow: Descriptor,
    pub nodes: SortedMap<NodeId, ResolvedNode>,
}

/// Whether encoding the spawn command for a group can end with `outcome`.
pub open spec fn encodes<F: Fn(&SpawnDataflowNodes) -> Result<Vec<u8>, String>>(
    encode: F,
    source: SpawnSource,
    group: NodeGroup,
    outcome: Result<Vec<u8>, String>,
) -> bool {
    exists|command: SpawnDataflowNodes|
        is_spawn_command(
            command,
            source.uuid,
            source.options,
            source.dataflow,
            source.nodes,
            group,
        ) && #[trigger] call_ensures(encode, (&command,), outcome)
}

/// Finds the daemon for a machine, or, without a machine, one for nodes that may run anywhere.
pub fn resolve_daemon_for_machine(
    daemon_connections: &DaemonConnections,
    machine: Option<&String>,
) -> (r: Result<DaemonId, PlanError>)
    ensures
        match r {
            Ok(daemon) => daemon_connections.daemon_for(
                match machine {
                    Some(machine) => Some(machine@),
                    None => None,
                },
            ) == Some(daemon),
            Err(PlanError::NoMatchingDaemon(name)) => machine is Some && name@ == machine->0@
                && daemon_connections.daemon_for(Some(name@)) is None,
            Err(PlanError::NoUnnamedDaemon) => machine is None && daemon_connections.daemon_for(
                None,
            ) is None,
            Err(_) => false,
        },
{
    match machine {
        Some(machine) => match daemon_connections.get_matching_daemon_id(machine.as_str()) {
            Some(daemon) => Ok(daemon),
            None => Err(PlanError::NoMatchingDaemon(machine.clone())),
        },
        None => {
            let mut unnamed = daemon_connections.unnamed();
            if unnamed.len() > 0 {
                Ok(unnamed.swap_remove(0))
            } else {
                Err(PlanError::NoUnnamedDaemon)
            }
        },
    }
}

/// Whether a node is mapped to the daemon for the machine that it asks for.
pub open spec fn is_assigned(
    node_to_daemon: Map<Seq<char>, DaemonId>,
    node: &ResolvedNode,
    connections: DaemonConnections,
) -> bool {
    node_to_daemon.contains_key(node.id@) && Some(node_to_daemon[node.id@])
        == connections.daemon_for(node.wanted_machine())
}

/// Whether the spawns are those for the groups: for each group a message to the daemon of its
/// machine, the encoded command for it; every node mapped to its daemon; and the daemons that
/// get a message.
pub open spec fn spawns_planned<F: Fn(&SpawnDataflowNodes) -> Result<Vec<u8>, String>>(
    spawns: PlannedSpawns,
    encode: F,
    source: SpawnSource,
    nodes: Seq<&ResolvedNode>,
    groups: Seq<NodeGroup>,
    connections: DaemonConnections,
) -> bool {
    &&& spawns.daemons.wf()
    &&& spawns.node_to_daemon.wf()
    &&& spawns.daemon_messages@.len() == groups.len()
    &&& forall|i: int|
        #![trigger spawns.daemon_messages@[i]]
        0 <= i < groups.len() ==> connections.daemon_for(group_machine(groups[i])) == Some(
            spawns.daemon_messages@[i].0,
        ) && encodes(encode, source, groups[i], Ok(spawns.daemon_messages@[i].1))
    &&& forall|q: int|
        #![trigger nodes[q]]
        0 <= q < nodes.len() ==> is_assigned(spawns.node_to_daemon@, nodes[q], connections)
    &&& forall|name: Seq<char>| #[trigger]
        spawns.node_to_daemon@.contains_key(name) ==> exists|q: int|
            0 <= q < nodes.len() && (#[trigger] nodes[q]).id@ == name
    &&& forall|id: (Option<Seq<char>>, u128)| #[trigger]
        spawns.daemons@.contains_key(id) <==> exists|i: int|
            0 <= i < spawns.daemon_messages@.len() && (#[trigger] spawns.daemon_messages@[i]).0.id()
                == id
}

/// Whether the first `n` groups can be planned.
pub open spec fn groups_planned<F: Fn(&SpawnDataflowNodes) -> Result<Vec<u8>, String>>(
    encode: F,
    source: SpawnSource,
    groups: Seq<NodeGroup>,
    connections: DaemonConnections,
    n: int,
) -> bool {
    forall|i: int|
        #![trigger groups[i]]
        0 <= i < n ==> connections.daemon_for(group_machine(groups[i])) is Some && exists|
            bytes: Vec<u8>,
        | #[trigger]
            encodes(encode, source, groups[i], Ok(bytes))
}

/// Whether planning fails with `error` at the first group that cannot be planned: because
/// there is no daemon for it, or, where there is one, because its command cannot be encoded.
pub open spec fn planning_fails<F: Fn(&SpawnDataflowNodes) -> Result<Vec<u8>, String>>(
    error: PlanError,
    encode: F,
    source: SpawnSource,
    groups: Seq<NodeGroup>,
    connections: DaemonConnections,
) -> bool {
    exists|i: int|
        #![trigger groups[i]]
        0 <= i < groups.len() && groups_planned(encode, source, groups, connections, i) && match error {
            PlanError::NoMatchingDaemon(name) => group_machine(groups[i]) == Some(name@)
                && connections.daemon_for(Some(name@)) is None,
            PlanError::NoUnnamedDaemon => group_machine(groups[i]) is None
                && connections.daemon_for(None) is None,
            PlanError::Encode(text) => connections.daemon_for(group_machine(groups[i])) is Some
                && encodes(encode, source, groups[i], Err(text)),
            PlanError::Resolve(_) => false,
        }
}

/// Whether every group has a daemon and its command can only be encoded successfully.
pub open spec fn plannable<F: Fn(&SpawnDataflowNodes) -> Result<Vec<u8>, String>>(
    encode: F,
    source: SpawnSource,
    groups: Seq<NodeGroup>,
    connections: DaemonConnections,
) -> bool {
    forall|i: int|
        #![trigger groups[i]]
        0 <= i < groups.len() ==> connections.daemon_for(group_machine(groups[i])) is Some
            && forall|outcome: Result<Vec<u8>, String>| #[trigger]
            encodes(encode, source, groups[i], outcome) ==> outcome is Ok
}

/// Plans the spawns for the nodes, sorted by machine: finds the daemon for each group and
/// encodes the command for it with `encode`, and stops at the first failure.
pub fn plan_spawns<F: Fn(&SpawnDataflowNodes) -> Result<Vec<u8>, String>>(
    uuid: DataflowId,
    options: &SpawnOptions,
    dataflow: &Descriptor,
    nodes: &SortedMap<NodeId, ResolvedNode>,
    groups: &Vec<NodeGroup>,
    daemon_connections: &DaemonConnections,
    encode: &F,
) -> (r: Result<PlannedSpawns, PlanError>)
    requires
        nodes_by_name(*nodes),
        is_grouping(node_values(*nodes), groups@),
        forall|command: SpawnDataflowNodes| call_requires(*encode, (&command,)),
    ensures
        match r {
            Ok(spawns) => spawns_planned(
                spawns,
                *encode,
                (SpawnSource { uuid, options: *options, dataflow: *dataflow, nodes: *nodes }),
                node_values(*nodes),
                groups@,
                *daemon_connections,
            ),
            Err(error) => planning_fails(
                error,
                *encode,
                (SpawnSource { uuid, options: *options, dataflow: *dataflow, nodes: *nodes }),
                groups@,
                *daemon_connections,
            ),
        },
        plannable(
            *encode,
            (SpawnSource { uuid, options: *options, dataflow: *dataflow, nodes: *nodes }),
            groups@,
            *daemon_connections,
        ) ==> r is Ok,
{
    let ghost source = SpawnSource {
        uuid,
        options: *options,
        dataflow: *dataflow,
        nodes: *nodes,
    };
    let ghost values = node_values(*nodes);
    let ghost connections = *daemon_connections;
    proof {
        lemma_distinct_names(*nodes);
    }
    let mut daemons: SortedMap<DaemonId, ()> = SortedMap::new();
    let mut node_to_daemon: SortedMap<NodeId, DaemonId> = SortedMap::new();
    let mut daemon_messages: Vec<(DaemonId, Vec<u8>)> = Vec::new();
    let mut i: usize = 0;
    while i < groups.len()
        invariant
            i <= groups@.len(),
            is_grouping(values, groups@),
            distinct_names(values),
            values == node_values(*nodes),
            connections == *daemon_connections,
            source == (SpawnSource {
                uuid,
                options: *options,
                dataflow: *dataflow,
                nodes: *nodes,
            }),
            forall|command: SpawnDataflowNodes| call_requires(*encode, (&command,)),
            daemons.wf(),
            node_to_daemon.wf(),
            daemon_messages@.len() == i,
            groups_planned(*encode, source, groups@, connections, i as int),
            forall|k: int|
                #![trigger daemon_messages@[k]]
                0 <= k < i ==> connections.daemon_for(group_machine(groups@[k])) == Some(
                    daemon_messages@[k].0,
                ) && encodes(*encode, source, groups@[k], Ok(daemon_messages@[k].1)),
            forall|k: int, l: int|
                #![trigger groups@[k].1@[l]]
                0 <= k < i && 0 <= l < groups@[k].1@.len() ==> is_assigned(
                    node_to_daemon@,
                    groups@[k].1@[l],
                    connections,
                ),
            forall|name: Seq<char>| #[trigger]
                node_to_daemon@.contains_key(name) ==> exists|q: int|
                    0 <= q < values.len() && (#[trigger] values[q]).id@ == name,
            forall|id: (Option<Seq<char>>, u128)| #[trigger]
                daemons@.contains_key(id) <==> exists|k: int|
                    0 <= k < daemon_messages@.len() && (#[trigger] daemon_messages@[k]).0.id()
                        == id,
        decreases groups@.len() - i,
    {
        let nodes_on_machine = &groups[i].1;
        let ghost group = groups@[i as int];
        let spawn_nodes = names_of(nodes_on_machine);
        let daemon_id = match resolve_daemon_for_machine(daemon_connections, groups[i].0) {
            Ok(daemon_id) => daemon_id,
            Err(error) => {
                return Err(error);
            },
        };
        let command = SpawnDataflowNodes {
            build_id: options.build_id,
            session_id: options.session_id,
            dataflow_id: uuid,
            local_working_dir: &options.local_working_dir,
            nodes,
            dataflow_descriptor: dataflow,
            spawn_nodes,
            uv: options.uv,
            write_events_to: &options.write_events_to,
        };
        assert(is_spawn_command(command, uuid, *options, *dataflow, *nodes, group));
        let message = match encode(&command) {
            Ok(message) => message,
            Err(text) => {
                assert(encodes(*encode, source, group, Err(text)));
                return Err(PlanError::Encode(text));
            },
        };
        assert(encodes(*encode, source, group, Ok(message)));
        let ghost sent = daemon_messages@;
        let ghost seen = daemons@;
        daemon_messages.push((daemon_id.clone(), message));
        daemons.insert(daemon_id.clone(), ());
        assert forall|id: (Option<Seq<char>>, u128)| #[trigger]
            daemons@.contains_key(id) <==> exists|k: int|
                0 <= k < daemon_messages@.len() && (#[trigger] daemon_messages@[k]).0.id() == id by {
            assert(daemons@.contains_key(id) <==> id == daemon_id.id() || seen.contains_key(id));
            if seen.contains_key(id) {
                let k = choose|k: int| 0 <= k < sent.len() && (#[trigger] sent[k]).0.id() == id;
                assert(daemon_messages@[k].0.id() == id);
            }
            if id == daemon_id.id() {
                assert(daemon_messages@[i as int].0.id() == id);
            }
            if exists|k: int|
                0 <= k < daemon_messages@.len() && (#[trigger] daemon_messages@[k]).0.id() == id {
                let k = choose|k: int|
                    0 <= k < daemon_messages@.len() && (#[trigger] daemon_messages@[k]).0.id()
                        == id;
                if k < i {
                    assert(sent[k].0.id() == id);
                }
            }
        }
        assign_nodes(
            nodes_on_machine,
            &daemon_id,
            &mut node_to_daemon,
            Ghost(values),
            Ghost(groups@),
            Ghost(i as int),
            Ghost(connections),
        );
        i = i + 1;
    }
    proof {
        assert forall|q: int|
            #![trigger values[q]]
            0 <= q < values.len() implies is_assigned(
            node_to_daemon@,
            values[q],
            connections,
        ) by {
            let (k, l) = lemma_node_has_group(values, groups@, q);
            assert(groups@[k].1@[l] == values[q]);
        }
    }
    Ok(PlannedSpawns { daemons, node_to_daemon, daemon_messages })
}

/// Maps the nodes of a group to their daemon.
fn assign_nodes(
    nodes_on_machine: &Vec<&ResolvedNode>,
    daemon_id: &DaemonId,
    node_to_daemon: &mut SortedMap<NodeId, DaemonId>,
    Ghost(values): Ghost<Seq<&ResolvedNode>>,
    Ghost(groups): Ghost<Seq<NodeGroup>>,
    Ghost(i): Ghost<int>,
    Ghost(connections): Ghost<DaemonConnections>,
)
    requires
        is_grouping(values, groups),
        distinct_names(values),
        0 <= i < groups.len(),
        *nodes_on_machine == groups[i].1,
        connections.daemon_for(group_machine(groups[i])) == Some(*daemon_id),
        old(node_to_daemon).wf(),
        forall|k: int, l: int|
            #![trigger groups[k].1@[l]]
            0 <= k < i && 0 <= l < groups[k].1@.len() ==> is_assigned(
                old(node_to_daemon)@,
                groups[k].1@[l],
                connections,
            ),
        forall|name: Seq<char>| #[trigger]
            old(node_to_daemon)@.contains_key(name) ==> exists|q: int|
                0 <= q < values.len() && (#[trigger] values[q]).id@ == name,
    ensures
        final(node_to_daemon).wf(),
        forall|k: int, l: int|
            #![trigger groups[k].1@[l]]
            0 <= k < i + 1 && 0 <= l < groups[k].1@.len() ==> is_assigned(
                final(node_to_daemon)@,
                groups[k].1@[l],
                connections,
            ),
        forall|name: Seq<char>| #[trigger]
            final(node_to_daemon)@.contains_key(name) ==> exists|q: int|
                0 <= q < values.len() && (#[trigger] values[q]).id@ == name,
{
    let mut j: usize = 0;
    while j < nodes_on_machine.len()
        invariant
            is_grouping(values, groups),
            distinct_names(values),
            0 <= i < groups.len(),
            *nodes_on_machine == groups[i].1,
            connections.daemon_for(group_machine(groups[i])) == Some(*daemon_id),
            j <= nodes_on_machine@.len(),
            node_to_daemon.wf(),
            forall|k: int, l: int|
                #![trigger groups[k].1@[l]]
                0 <= l < groups[k].1@.len() && (0 <= k < i || (k == i && l < j)) ==> is_assigned(
                    node_to_daemon@,
                    groups[k].1@[l],
                    connections,
                ),
            forall|name: Seq<char>| #[trigger]
                node_to_daemon@.contains_key(name) ==> exists|q: int|
                    0 <= q < values.len() && (#[trigger] values[q]).id@ == name,
        decreases nodes_on_machine@.len() - j,
    {
        let node = nodes_on_machine[j];
        let ghost before = node_to_daemon@;
        node_to_daemon.insert(node.id.clone(), daemon_id.clone());
        proof {
            assert(groups[i].1@[j as int] == node);
            lemma_group_member(values, groups, i, j as int);
            let a = choose|a: int| 0 <= a < values.len() && values[a] == node;
            assert(values[a].id@ == node.id@);
            assert forall|k: int, l: int|
                #![trigger groups[k].1@[l]]
                0 <= l < groups[k].1@.len() && (0 <= k < i || (k == i && l
                    < j + 1)) implies is_assigned(
                node_to_daemon@,
                groups[k].1@[l],
                connections,
            ) by {
                let other = groups[k].1@[l];
                lemma_group_member(values, groups, k, l);
                let b = choose|b: int| 0 <= b < values.len() && values[b] == other;
                if other.id@ == node.id@ {
                    assert(values[a].id@ == values[b].id@);
                    assert(a == b);
                }
            }
            assert forall|name: Seq<char>| #[trigger]
                node_to_daemon@.contains_key(name) implies exists|q: int|
                0 <= q < values.len() && (#[trigger] values[q]).id@ == name by {
                if name != node.id@ {
                    assert(before.contains_key(name));
                }
            }
        }
        j = j + 1;
    }
}

/// The names of nodes.
fn names_of(nodes: &Vec<&ResolvedNode>) -> (r: Vec<NodeId>)
    ensures
        r@ == nodes@.map_values(|n: &ResolvedNode| n.id),
{
    let mut r: Vec<NodeId> = Vec::new();
    let mut i: usize = 0;
    while i < nodes.len()
        invariant
            i <= nodes@.len(),
            r@ == nodes@.take(i as int).map_values(|n: &ResolvedNode| n.id),
        decreases nodes@.len() - i,
    {
        r.push(nodes[i].id.clone());
        assert(nodes@.take(i + 1) =~= nodes@.take(i as int).push(nodes@[i as int]));
        i = i + 1;
    }
    assert(nodes@.take(i as int) =~= nodes@);
    r
}

/// The nodes in the order of their names.
pub open spec fn node_values(nodes: SortedMap<NodeId, ResolvedNode>) -> Seq<&'static ResolvedNode> {
    Seq::new(nodes.entries().len(), |i: int| &nodes.entries()[i].1)
}

/// Nodes that are listed under their own names have different names.
proof fn lemma_distinct_names(nodes: SortedMap<NodeId, ResolvedNode>)
    requires
        nodes_by_name(nodes),
    ensures
        distinct_names(node_values(nodes)),
{
    let values = node_values(nodes);
    assert forall|a: int, b: int|
        #![trigger values[a], values[b]]
        0 <= a < values.len() && 0 <= b < values.len() && values[a].id@
            == values[b].id@ implies a == b by {
        let entries = nodes.entries();
        assert(entries[a].0.id() == entries[b].0.id());
        lemma_entry(entries, a);
        assert(entry_at(entries, entries[a].0.id(), b));
    }
}

/// Whether a plan is one for the nodes, under some grouping of them by machine.
pub open spec fn is_plan<F: Fn(&SpawnDataflowNodes) -> Result<Vec<u8>, String>>(
    plan: DataflowPlan,
    encode: F,
    options: SpawnOptions,
    dataflow: Descriptor,
    nodes: SortedMap<NodeId, ResolvedNode>,
    connections: DaemonConnections,
) -> bool {
    &&& plan.nodes == nodes
    &&& uuid_version(plan.uuid) == 7
    &&& uuid_standard_layout(plan.uuid)
    &&& exists|groups: Seq<NodeGroup>|
        #![trigger is_grouping(node_values(nodes), groups)]
        is_grouping(node_values(nodes), groups) && spawns_planned(
            (PlannedSpawns {
                daemons: plan.daemons,
                node_to_daemon: plan.node_to_daemon,
                daemon_messages: plan.daemon_messages,
            }),
            encode,
            (SpawnSource { uuid: plan.uuid, options, dataflow, nodes }),
            node_values(nodes),
            groups,
            connections,
        )
}

/// Whether the nodes cannot be planned under some grouping of them by machine.
pub open spec fn is_plan_error<F: Fn(&SpawnDataflowNodes) -> Result<Vec<u8>, String>>(
    error: PlanError,
    encode: F,
    options: SpawnOptions,
    dataflow: Descriptor,
    nodes: SortedMap<NodeId, ResolvedNode>,
    connections: DaemonConnections,
) -> bool {
    exists|uuid: DataflowId, groups: Seq<NodeGroup>|
        #![trigger is_grouping(node_values(nodes), groups), uuid_version(uuid)]
        uuid_version(uuid) == 7 && uuid_standard_layout(uuid) && is_grouping(
            node_values(nodes),
            groups,
        ) && planning_fails(
            error,
            encode,
            (SpawnSource { uuid, options, dataflow, nodes }),
            groups,
            connections,
        )
}

/// Plans a dataflow spawn without sending any command to a daemon yet: draws the dataflow's
/// identifier, sorts the resolved nodes by machine and plans the spawns.
///
/// `resolved` are the nodes with their aliases resolved, or why the description is not valid;
/// `encode` turns a command into the message for the daemon.
pub fn plan_dataflow<F: Fn(&SpawnDataflowNodes) -> Result<Vec<u8>, String>>(
    options: &SpawnOptions,
    dataflow: &Descriptor,
    resolved: Result<SortedMap<NodeId, ResolvedNode>, String>,
    daemon_connections: &DaemonConnections,
    encode: &F,
) -> (r: Result<DataflowPlan, PlanError>)
    requires
        resolved is Ok ==> nodes_by_name(resolved->Ok_0),
        forall|command: SpawnDataflowNodes| call_requires(*encode, (&command,)),
    ensures
        match (resolved, r) {
            (Err(text), _) => r == Err::<DataflowPlan, PlanError>(PlanError::Resolve(text)),
            (Ok(nodes), Ok(plan)) => is_plan(
                plan,
                *encode,
                *options,
                *dataflow,
                nodes,
                *daemon_connections,
            ),
            (Ok(nodes), Err(error)) => is_plan_error(
                error,
                *encode,
                *options,
                *dataflow,
                nodes,
                *daemon_connections,
            ),
        },
        resolved is Ok && (forall|q: int|
            #![trigger node_values(resolved->Ok_0)[q]]
            0 <= q < node_values(resolved->Ok_0).len() ==> daemon_connections.daemon_for(
                node_values(resolved->Ok_0)[q].wanted_machine(),
            ) is Some) && (forall|command: SpawnDataflowNodes, outcome: Result<Vec<u8>, String>|
         #[trigger]
            call_ensures(*encode, (&command,), outcome) ==> outcome is Ok) ==> r is Ok,
{
    let nodes = match resolved {
        Ok(nodes) => nodes,
        Err(text) => {
            return Err(PlanError::Resolve(text));
        },
    };
    let uuid = new_dataflow_id();
    let values = nodes.values();
    assert(values@ =~= node_values(nodes));
    let groups = group_by_machine(values);
    proof {
        let all = node_values(nodes);
        if (forall|q: int|
            #![trigger all[q]]
            0 <= q < all.len() ==> daemon_connections.daemon_for(all[q].wanted_machine()) is Some)
            && (forall|command: SpawnDataflowNodes, outcome: Result<Vec<u8>, String>| #[trigger]
            call_ensures(*encode, (&command,), outcome) ==> outcome is Ok) {
            assert forall|i: int| #![trigger groups@[i]] 0 <= i < groups@.len() implies
                daemon_connections.daemon_for(group_machine(groups@[i])) is Some by {
                lemma_group_member(all, groups@, i, 0);
                let q = choose|q: int| 0 <= q < all.len() && all[q] == groups@[i].1@[0];
                assert(daemon_connections.daemon_for(all[q].wanted_machine()) is Some);
            }
        }
    }
    match plan_spawns(uuid, options, dataflow, &nodes, &groups, daemon_connections, encode) {
        Ok(spawns) => Ok(
            DataflowPlan {
                uuid,
                daemons: spawns.daemons,
                nodes,
                node_to_daemon: spawns.node_to_daemon,
                daemon_messages: spawns.daemon_messages,
            },
        ),
        Err(error) => Err(error),
    }
}

/// No daemon gets more than one message of a plan.
pub proof fn law_one_message_per_daemon<F: Fn(&SpawnDataflowNodes) -> Result<Vec<u8>, String>>(
    plan: DataflowPlan,
    encode: F,
    options: SpawnOptions,
    dataflow: Descriptor,
    nodes: SortedMap<NodeId, ResolvedNode>,
    connections: DaemonConnections,
    i: int,
    j: int,
)
    requires
        is_plan(plan, encode, options, dataflow, nodes, connections),
        0 <= i < j < plan.daemon_messages@.len(),
    ensures
        plan.daemon_messages@[i].0.id() != plan.daemon_messages@[j].0.id(),
{
    let spawns = PlannedSpawns {
        daemons: plan.daemons,
        node_to_daemon: plan.node_to_daemon,
        daemon_messages: plan.daemon_messages,
    };
    let source = SpawnSource { uuid: plan.uuid, options, dataflow, nodes };
    let groups = choose|groups: Seq<NodeGroup>|
        #![trigger is_grouping(node_values(nodes), groups)]
        is_grouping(node_values(nodes), groups) && spawns_planned(
            spawns,
            encode,
            source,
            node_values(nodes),
            groups,
            connections,
        );
    assert(spawns.daemon_messages@[i].0 == plan.daemon_messages@[i].0);
    assert(spawns.daemon_messages@[j].0 == plan.daemon_messages@[j].0);
    assert(group_machine(groups[i]) != group_machine(groups[j]));
    lemma_first_daemon(connections.daemons.entries(), group_machine(groups[i]));
    lemma_first_daemon(connections.daemons.entries(), group_machine(groups[j]));
}

/// A plan maps every node, and no other name, to a connected daemon that was started for the
/// machine that the node asks for, or without a machine name if it asks for none; the daemons
/// of the plan are the ones that nodes are mapped to, and the ones that get a message.
pub proof fn law_plan_covers_every_node<F: Fn(&SpawnDataflowNodes) -> Result<Vec<u8>, String>>(
    plan: DataflowPlan,
    encode: F,
    options: SpawnOptions,
    dataflow: Descriptor,
    nodes: SortedMap<NodeId, ResolvedNode>,
    connections: DaemonConnections,
)
    requires
        nodes_by_name(nodes),
        connections.wf(),
        is_plan(plan, encode, options, dataflow, nodes, connections),
    ensures
        plan.node_to_daemon@.dom() =~= nodes@.dom(),
        forall|name: Seq<char>| #[trigger]
            nodes@.contains_key(name) ==> opt_text(plan.node_to_daemon@[name].machine_id)
                == nodes@[name].wanted_machine() && connections.daemons@.contains_key(
                plan.node_to_daemon@[name].id(),
            ),
        forall|id: (Option<Seq<char>>, u128)| #[trigger]
            plan.daemons@.contains_key(id) <==> exists|name: Seq<char>|
                nodes@.contains_key(name) && #[trigger] plan.node_to_daemon@[name].id() == id,
        forall|id: (Option<Seq<char>>, u128)| #[trigger]
            plan.daemons@.contains_key(id) <==> exists|i: int|
                0 <= i < plan.daemon_messages@.len() && (#[trigger] plan.daemon_messages@[i]).0.id()
                    == id,
{
    let values = node_values(nodes);
    let entries = nodes.entries();
    let spawns = PlannedSpawns {
        daemons: plan.daemons,
        node_to_daemon: plan.node_to_daemon,
        daemon_messages: plan.daemon_messages,
    };
    let source = SpawnSource { uuid: plan.uuid, options, dataflow, nodes };
    let groups = choose|groups: Seq<NodeGroup>|
        #![trigger is_grouping(node_values(nodes), groups)]
        is_grouping(node_values(nodes), groups) && spawns_planned(
            spawns,
            encode,
            source,
            node_values(nodes),
            groups,
            connections,
        );
    assert(spawns_planned(spawns, encode, source, values, groups, connections));
    assert forall|name: Seq<char>| #[trigger]
        nodes@.contains_key(name) <==> plan.node_to_daemon@.contains_key(name) by {
        if nodes@.contains_key(name) {
            assert(has_entry(entries, name));
            let q = choose|q: int| entry_at(entries, name, q);
            assert(is_assigned(plan.node_to_daemon@, values[q], connections));
        }
        if plan.node_to_daemon@.contains_key(name) {
            let q = choose|q: int| 0 <= q < values.len() && (#[trigger] values[q]).id@ == name;
            lemma_entry(entries, q);
        }
    }
    assert forall|name: Seq<char>| #[trigger] nodes@.contains_key(name) implies opt_text(
        plan.node_to_daemon@[name].machine_id,
    ) == nodes@[name].wanted_machine() && connections.daemons@.contains_key(
        plan.node_to_daemon@[name].id(),
    ) && plan.daemons@.contains_key(plan.node_to_daemon@[name].id()) by {
        assert(has_entry(entries, name));
        let q = choose|q: int| entry_at(entries, name, q);
        lemma_entry(entries, q);
        assert(is_assigned(plan.node_to_daemon@, values[q], connections));
        let daemon = plan.node_to_daemon@[name];
        lemma_first_daemon(connections.daemons.entries(), values[q].wanted_machine());
        let d = choose|d: int|
            0 <= d < connections.daemons.entries().len() && (
            #[trigger] connections.daemons.entries()[d]).0 == daemon;
        lemma_entry(connections.daemons.entries(), d);
        let (k, l) = lemma_node_has_group(values, groups, q);
        lemma_group_member(values, groups, k, l);
        assert(spawns.daemon_messages@[k].0 == daemon);
    }
    assert forall|id: (Option<Seq<char>>, u128)| #[trigger]
        plan.daemons@.contains_key(id) implies exists|name: Seq<char>|
        nodes@.contains_key(name) && #[trigger] plan.node_to_daemon@[name].id() == id by {
        let k = choose|k: int|
            0 <= k < spawns.daemon_messages@.len() && (
            #[trigger] spawns.daemon_messages@[k]).0.id() == id;
        lemma_group_member(values, groups, k, 0);
        let q = choose|q: int| 0 <= q < values.len() && values[q] == groups[k].1@[0];
        assert(is_assigned(plan.node_to_daemon@, values[q], connections));
        lemma_entry(entries, q);
        assert(plan.node_to_daemon@[values[q].id@].id() == id);
    }
}

/// What a daemon answers to a command.
#[derive(Debug)]
pub enum DaemonCoordinatorReply {
    TriggerSpawnResult(Result<(), String>),
    /// An answer to another kind of command, as text.
    Other(String),
}

/// Why a spawn command did not take effect on a daemon.
#[derive(Debug)]
pub enum SpawnError {
    /// The daemon is not connected.
    NoConnection,
    /// The command could not be sent.
    Send(String),
    /// No answer could be received.
    Receive(String),
    /// The answer could not be understood.
    Decode(String),
    /// The daemon reported an error.
    Refused(String),
    /// The daemon answered another kind of command.
    UnexpectedReply,
}

/// The texts by which it is told that a spawn command did not take effect on a daemon, from the
/// outermost to the cause.
pub open spec fn spawn_error_chain(error: SpawnError, daemon_id: DaemonId) -> Seq<Seq<char>> {
    match error {
        SpawnError::NoConnection => seq![
            "no daemon connection for daemon `"@ + daemon_text(daemon_id) + "`"@,
        ],
        SpawnError::Send(cause) => seq!["failed to send spawn message to daemon"@, cause@],
        SpawnError::Receive(cause) => seq!["failed to receive spawn reply from daemon"@, cause@],
        SpawnError::Decode(cause) => seq![
            "failed to deserialize spawn reply from daemon"@,
            cause@,
        ],
        SpawnError::Refused(cause) => seq!["daemon returned an error"@, cause@],
        SpawnError::UnexpectedReply => seq!["unexpected reply"@],
    }
}

/// Adds the texts by which it is told that a spawn command did not take effect on a daemon.
fn push_spawn_error(list: &mut Vec<String>, error: &SpawnError, daemon_id: &DaemonId)
    ensures
        texts(final(list)@) == texts(old(list)@) + spawn_error_chain(*error, *daemon_id),
{
    match error {
        SpawnError::NoConnection => {
            let text = enclosed(
                "no daemon connection for daemon `",
                daemon_id.text().as_str(),
                "`",
            );
            push_text(list, text);
        },
        SpawnError::Send(cause) => {
            push_text(list, "failed to send spawn message to daemon".to_owned());
            push_text(list, cause.clone());
        },
        SpawnError::Receive(cause) => {
            push_text(list, "failed to receive spawn reply from daemon".to_owned());
            push_text(list, cause.clone());
        },
        SpawnError::Decode(cause) => {
            push_text(list, "failed to deserialize spawn reply from daemon".to_owned());
            push_text(list, cause.clone());
        },
        SpawnError::Refused(cause) => {
            push_text(list, "daemon returned an error".to_owned());
            push_text(list, cause.clone());
        },
        SpawnError::UnexpectedReply => push_text(list, "unexpected reply".to_owned()),
    }
    assert(texts(list@) =~= texts(old(list)@) + spawn_error_chain(*error, *daemon_id));
}

impl SpawnError {
    /// The texts by which the failure on the daemon is told, from the outermost to the cause.
    pub fn chain(&self, daemon_id: &DaemonId) -> (r: Vec<String>)
        ensures
            texts(r@) == spawn_error_chain(*self, *daemon_id),
    {
        let mut r = no_texts();
        push_spawn_error(&mut r, self, daemon_id);
        assert(texts(r@) =~= spawn_error_chain(*self, *daemon_id));
        r
    }
}

/// Where a spawn command stands: what is waited for.
#[derive(Clone, Copy, Debug, PartialEq, Eq, Structural)]
pub enum SpawnStage {
    Sending,
    Receiving,
    Decoding,
    Ended,
}

/// What happened to a spawn command.
pub enum SpawnEvent {
    /// The command was sent, or could not be.
    Sent(Result<(), String>),
    /// The answer was received, or could not be.
    Received(Result<Vec<u8>, String>),
    /// The answer was decoded, or could not be.
    Decoded(Result<DaemonCoordinatorReply, String>),
}

/// What to do next for a spawn command.
pub enum SpawnStep<'a> {
    /// Send the bytes to the daemon.
    Send(&'a Vec<u8>),
    /// Wait for the daemon's answer.
    Receive,
    /// Decode the daemon's answer.
    Decode(Vec<u8>),
    /// Nothing: the command has ended this way.
    Done(Result<(), SpawnError>),
}

/// Whether an event can happen to a command that stands there.
pub open spec fn spawn_fits(stage: SpawnStage, event: SpawnEvent) -> bool {
    match stage {
        SpawnStage::Sending => event is Sent,
        SpawnStage::Receiving => event is Received,
        SpawnStage::Decoding => event is Decoded,
        SpawnStage::Ended => false,
    }
}

/// How a command starts: it is sent as it is, if the daemon is connected.
pub open spec fn spawn_start<'a>(connected: bool, message: &'a Vec<u8>) -> (
    SpawnStage,
    SpawnStep<'a>,
) {
    if connected {
        (SpawnStage::Sending, SpawnStep::Send(message))
    } else {
        (SpawnStage::Ended, SpawnStep::Done(Err(SpawnError::NoConnection)))
    }
}

/// How a command goes on after an event: its answer is received and decoded, and only the answer
/// that the daemon took it ends it well.
pub open spec fn spawn_next<'a>(event: SpawnEvent) -> (SpawnStage, SpawnStep<'a>) {
    match event {
        SpawnEvent::Sent(Ok(_)) => (SpawnStage::Receiving, SpawnStep::Receive),
        SpawnEvent::Sent(Err(text)) => (
            SpawnStage::Ended,
            SpawnStep::Done(Err(SpawnError::Send(text))),
        ),
        SpawnEvent::Received(Ok(raw)) => (SpawnStage::Decoding, SpawnStep::Decode(raw)),
        SpawnEvent::Received(Err(text)) => (
            SpawnStage::Ended,
            SpawnStep::Done(Err(SpawnError::Receive(text))),
        ),
        SpawnEvent::Decoded(Ok(DaemonCoordinatorReply::TriggerSpawnResult(Ok(done)))) => (
            SpawnStage::Ended,
            SpawnStep::Done(Ok(done)),
        ),
        SpawnEvent::Decoded(Ok(DaemonCoordinatorReply::TriggerSpawnResult(Err(text)))) => (
            SpawnStage::Ended,
            SpawnStep::Done(Err(SpawnError::Refused(text))),
        ),
        SpawnEvent::Decoded(Ok(DaemonCoordinatorReply::Other(_))) => (
            SpawnStage::Ended,
            SpawnStep::Done(Err(SpawnError::UnexpectedReply)),
        ),
        SpawnEvent::Decoded(Err(text)) => (
            SpawnStage::Ended,
            SpawnStep::Done(Err(SpawnError::Decode(text))),
        ),
    }
}

/// A spawn command on its way to a daemon.
pub struct SpawnSession {
    pub stage: SpawnStage,
}

/// Starts to send a spawn command to a daemon, which must be connected.
pub fn send_spawn_to_daemon<'a>(
    daemon_connections: &DaemonConnections,
    daemon_id: &DaemonId,
    message: &'a Vec<u8>,
) -> (r: (SpawnSession, SpawnStep<'a>))
    requires
        daemon_connections.wf(),
    ensures
        (r.0.stage, r.1) == spawn_start(
            daemon_connections.daemons@.contains_key(daemon_id.id()),
            message,
        ),
{
    match daemon_connections.get(daemon_id) {
        Some(_) => (SpawnSession { stage: SpawnStage::Sending }, SpawnStep::Send(message)),
        None => (
            SpawnSession { stage: SpawnStage::Ended },
            SpawnStep::Done(Err(SpawnError::NoConnection)),
        ),
    }
}

impl SpawnSession {
    /// Takes in what happened to the command and says what is next.
    pub fn step<'a>(&mut self, event: SpawnEvent) -> (r: SpawnStep<'a>)
        requires
            spawn_fits(old(self).stage, event),
        ensures
            (final(self).stage, r) == spawn_next(event),
    {
        let (stage, step) = match event {
            SpawnEvent::Sent(Ok(_)) => (SpawnStage::Receiving, SpawnStep::Receive),
            SpawnEvent::Sent(Err(text)) => (
                SpawnStage::Ended,
                SpawnStep::Done(Err(SpawnError::Send(text))),
            ),
            SpawnEvent::Received(Ok(raw)) => (SpawnStage::Decoding, SpawnStep::Decode(raw)),
            SpawnEvent::Received(Err(text)) => (
                SpawnStage::Ended,
                SpawnStep::Done(Err(SpawnError::Receive(text))),
            ),
            SpawnEvent::Decoded(Ok(DaemonCoordinatorReply::TriggerSpawnResult(result))) => (
                SpawnStage::Ended,
                match result {
                    Ok(done) => SpawnStep::Done(Ok(done)),
                    Err(text) => SpawnStep::Done(Err(SpawnError::Refused(text))),
                },
            ),
            SpawnEvent::Decoded(Ok(DaemonCoordinatorReply::Other(_))) => (
                SpawnStage::Ended,
                SpawnStep::Done(Err(SpawnError::UnexpectedReply)),
            ),
            SpawnEvent::Decoded(Err(text)) => (
                SpawnStage::Ended,
                SpawnStep::Done(Err(SpawnError::Decode(text))),
            ),
        };
        self.stage = stage;
        step
    }
}

/// Where a command stands after events, and what is to be done then.
pub open spec fn spawn_after<'a>(
    connected: bool,
    message: &'a Vec<u8>,
    events: Seq<SpawnEvent>,
) -> (SpawnStage, SpawnStep<'a>) {
    if events.len() == 0 {
        spawn_start(connected, message)
    } else {
        spawn_next(events.last())
    }
}

/// Whether each event can happen to the command where it stands.
pub open spec fn is_spawn_run(
    connected: bool,
    message: &Vec<u8>,
    events: Seq<SpawnEvent>,
) -> bool {
    forall|i: int|
        #![trigger events[i]]
        0 <= i < events.len() ==> spawn_fits(
            spawn_after(connected, message, events.take(i)).0,
            events[i],
        )
}

/// What a command can have been through.
proof fn lemma_spawn_run(connected: bool, message: &Vec<u8>, events: Seq<SpawnEvent>)
    requires
        is_spawn_run(connected, message, events),
    ensures
        events.len() <= 3,
        events.len() > 0 ==> connected && events[0] is Sent,
        events.len() > 1 ==> (events[0] matches SpawnEvent::Sent(Ok(_))) && events[1] is Received,
        events.len() > 2 ==> (events[1] matches SpawnEvent::Received(Ok(_))) && events[2]
            is Decoded,
{
    if events.len() > 0 {
        assert(spawn_fits(spawn_after(connected, message, events.take(0)).0, events[0]));
        if events.len() > 1 {
            assert(events.take(1).last() == events[0]);
            assert(spawn_fits(spawn_after(connected, message, events.take(1)).0, events[1]));
        }
        if events.len() > 2 {
            assert(events.take(2).last() == events[1]);
            assert(spawn_fits(spawn_after(connected, message, events.take(2)).0, events[2]));
        }
        if events.len() > 3 {
            assert(events.take(3).last() == events[2]);
            assert(spawn_fits(spawn_after(connected, message, events.take(3)).0, events[3]));
        }
    }
}

/// A command ends well just when the daemon is connected, the command was sent, one answer was
/// received, and it says that the daemon took the command.
pub proof fn law_spawn_ends_well_when_taken(
    connected: bool,
    message: &Vec<u8>,
    events: Seq<SpawnEvent>,
)
    requires
        is_spawn_run(connected, message, events),
    ensures
        spawn_after(connected, message, events).1 == SpawnStep::Done(Ok::<(), SpawnError>(()))
            <==> connected && events.len() == 3 && (events[0] matches SpawnEvent::Sent(Ok(_)))
            && (events[1] matches SpawnEvent::Received(Ok(_))) && (events[2] matches
            SpawnEvent::Decoded(Ok(DaemonCoordinatorReply::TriggerSpawnResult(Ok(_))))),
{
    lemma_spawn_run(connected, message, events);
}

/// The bytes of a command go out once, as they are and before anything else, and only to a
/// connected daemon.
pub proof fn law_spawn_command_is_sent_once(
    connected: bool,
    message: &Vec<u8>,
    events: Seq<SpawnEvent>,
)
    requires
        is_spawn_run(connected, message, events),
    ensures
        spawn_after(connected, message, events).1 is Send <==> connected && events.len() == 0,
        connected && events.len() == 0 ==> spawn_after(connected, message, events).1
            == SpawnStep::Send(message),
{
}

/// Why the execution of a plan stopped: the daemon at which it did, and what went wrong there.
#[derive(Debug)]
pub struct ExecuteError {
    pub daemon_id: DaemonId,
    pub error: SpawnError,
}

/// The texts by which it is told where and why the execution of a plan stopped, from the
/// outermost to the cause.
pub open spec fn execute_error_chain(error: ExecuteError) -> Seq<Seq<char>> {
    seq!["failed to spawn dataflow on daemon `"@ + daemon_text(error.daemon_id) + "`"@]
        + spawn_error_chain(error.error, error.daemon_id)
}

impl ExecuteError {
    /// The texts by which the failure is told, from the outermost to the cause.
    pub fn chain(&self) -> (r: Vec<String>)
        ensures
            texts(r@) == execute_error_chain(*self),
    {
        let mut r = no_texts();
        let text = enclosed(
            "failed to spawn dataflow on daemon `",
            self.daemon_id.text().as_str(),
            "`",
        );
        push_text(&mut r, text);
        push_spawn_error(&mut r, &self.error, &self.daemon_id);
        assert(texts(r@) =~= execute_error_chain(*self));
        r
    }
}

/// How far the messages of a plan have been sent.
#[derive(Clone, Copy, Debug, PartialEq, Eq, Structural)]
pub struct PlanExecution {
    /// How many daemons took their message.
    pub acknowledged: usize,
    /// Whether one did not.
    pub failed: bool,
}

/// How far the messages have been sent after the outcome of one more.
pub open spec fn after_outcome(
    acknowledged: int,
    failed: bool,
    outcome: Result<(), SpawnError>,
) -> (int, bool) {
    match outcome {
        Ok(_) => (acknowledged + 1, failed),
        Err(_) => (acknowledged, true),
    }
}

/// Starts to send the messages of a plan.
pub fn execute_dataflow_plan() -> (r: PlanExecution)
    ensures
        r.acknowledged == 0,
        !r.failed,
{
    PlanExecution { acknowledged: 0, failed: false }
}

impl PlanExecution {
    /// The message to send next; none when all have been sent or one did not take effect.
    pub fn next_message<'a>(&self, daemon_messages: &'a Vec<(DaemonId, Vec<u8>)>) -> (r: Option<
        &'a (DaemonId, Vec<u8>),
    >)
        ensures
            match r {
                Some(message) => !self.failed && self.acknowledged < daemon_messages@.len()
                    && *message == daemon_messages@[self.acknowledged as int],
                None => self.failed || self.acknowledged >= daemon_messages@.len(),
            },
    {
        if !self.failed && self.acknowledged < daemon_messages.len() {
            Some(&daemon_messages[self.acknowledged])
        } else {
            None
        }
    }

    /// Takes note of how sending the next message ended.
    pub fn acknowledge(
        &mut self,
        daemon_messages: &Vec<(DaemonId, Vec<u8>)>,
        outcome: Result<(), SpawnError>,
    ) -> (r: Result<(), ExecuteError>)
        requires
            !old(self).failed,
            old(self).acknowledged < daemon_messages@.len(),
        ensures
            (final(self).acknowledged as int, final(self).failed) == after_outcome(
                old(self).acknowledged as int,
                old(self).failed,
                outcome,
            ),
            r == (match outcome {
                Ok(_) => Ok(()),
                Err(error) => Err(
                    ExecuteError {
                        daemon_id: daemon_messages@[old(self).acknowledged as int].0,
                        error,
                    },
                ),
            }),
    {
        let total = daemon_messages.len();
        assert(self.acknowledged < total);
        match outcome {
            Ok(_) => {
                self.acknowledged = self.acknowledged + 1;
                Ok(())
            },
            Err(error) => {
                self.failed = true;
                let daemon_id = daemon_messages[self.acknowledged].0.clone();
                Err(ExecuteError { daemon_id, error })
            },
        }
    }
}

/// How far the messages have been sent after outcomes.
pub open spec fn after_outcomes(outcomes: Seq<Result<(), SpawnError>>) -> (int, bool)
    decreases outcomes.len(),
{
    if outcomes.len() == 0 {
        (0, false)
    } else {
        let (acknowledged, failed) = after_outcomes(outcomes.drop_last());
        after_outcome(acknowledged, failed, outcomes.last())
    }
}

/// Whether a message is to be sent after outcomes.
pub open spec fn may_send(total: int, outcomes: Seq<Result<(), SpawnError>>) -> bool {
    !after_outcomes(outcomes).1 && after_outcomes(outcomes).0 < total
}

/// Whether each outcome is that of a message that was to be sent.
pub open spec fn is_execution(total: int, outcomes: Seq<Result<(), SpawnError>>) -> bool {
    forall|i: int| 0 <= i < outcomes.len() ==> #[trigger] may_send(total, outcomes.take(i))
}

/// The messages of a plan are sent in their order, each once; the first that does not take
/// effect is the last that is sent.
pub proof fn law_messages_are_sent_in_order(
    total: int,
    outcomes: Seq<Result<(), SpawnError>>,
    i: int,
)
    requires
        is_execution(total, outcomes),
        0 <= i < outcomes.len(),
    ensures
        after_outcomes(outcomes.take(i)).0 == i,
        i < total,
        i < outcomes.len() - 1 ==> outcomes[i] is Ok,
    decreases i,
{
    assert(may_send(total, outcomes.take(i)));
    if i > 0 {
        law_messages_are_sent_in_order(total, outcomes, i - 1);
        assert(outcomes.take(i).drop_last() =~= outcomes.take(i - 1));
        assert(outcomes.take(i).last() == outcomes[i - 1]);
    }
    if i < outcomes.len() - 1 {
        assert(may_send(total, outcomes.take(i + 1)));
        assert(outcomes.take(i + 1).drop_last() =~= outcomes.take(i));
        assert(outcomes.take(i + 1).last() == outcomes[i]);
    }
}

/// Whether a command spawns, under the plan's identifier and as was asked for, just the nodes
/// that the plan maps to the daemon of its `i`-th message, each once.
pub open spec fn spawns_what_is_planned(
    command: SpawnDataflowNodes,
    plan: DataflowPlan,
    options: SpawnOptions,
    dataflow: Descriptor,
    nodes: SortedMap<NodeId, ResolvedNode>,
    i: int,
) -> bool {
    &&& command.dataflow_id == plan.uuid
    &&& command.build_id == options.build_id
    &&& command.session_id == options.session_id
    &&& *command.local_working_dir == options.local_working_dir
    &&& *command.nodes == nodes
    &&& *command.dataflow_descriptor == dataflow
    &&& command.uv == options.uv
    &&& *command.write_events_to == options.write_events_to
    &&& forall|j: int, k: int|
        #![trigger command.spawn_nodes@[j], command.spawn_nodes@[k]]
        0 <= j < k < command.spawn_nodes@.len() ==> command.spawn_nodes@[j]@
            != command.spawn_nodes@[k]@
    &&& forall|name: Seq<char>| #[trigger]
        spawns_node(command, name) <==> nodes@.contains_key(name)
            && plan.node_to_daemon@[name].id() == plan.daemon_messages@[i].0.id()
}

/// Whether a command spawns the node with the given name.
pub open spec fn spawns_node(command: SpawnDataflowNodes, name: Seq<char>) -> bool {
    exists|k: int|
        #![trigger command.spawn_nodes@[k]]
        0 <= k < command.spawn_nodes@.len() && command.spawn_nodes@[k]@ == name
}

/// Every message of a plan is the encoding of a command that spawns nodes of the planned
/// dataflow, under the plan's identifier and as was asked for: just the nodes that the plan maps
/// to the daemon that gets the message, each once.
pub proof fn law_messages_spawn_the_planned_nodes<
    F: Fn(&SpawnDataflowNodes) -> Result<Vec<u8>, String>,
>(
    plan: DataflowPlan,
    encode: F,
    options: SpawnOptions,
    dataflow: Descriptor,
    nodes: SortedMap<NodeId, ResolvedNode>,
    connections: DaemonConnections,
    i: int,
)
    requires
        nodes_by_name(nodes),
        is_plan(plan, encode, options, dataflow, nodes, connections),
        0 <= i < plan.daemon_messages@.len(),
    ensures
        plan.nodes == nodes,
        (plan.uuid >> 76) & 0xf == 7,
        (plan.uuid >> 62) & 3 == 2,
        exists|command: SpawnDataflowNodes| #[trigger]
            call_ensures(encode, (&command,), Ok(plan.daemon_messages@[i].1))
                && spawns_what_is_planned(command, plan, options, dataflow, nodes, i),
{
    let values = node_values(nodes);
    let entries = nodes.entries();
    let spawns = PlannedSpawns {
        daemons: plan.daemons,
        node_to_daemon: plan.node_to_daemon,
        daemon_messages: plan.daemon_messages,
    };
    let source = SpawnSource { uuid: plan.uuid, options, dataflow, nodes };
    let groups = choose|groups: Seq<NodeGroup>|
        #![trigger is_grouping(node_values(nodes), groups)]
        is_grouping(node_values(nodes), groups) && spawns_planned(
            spawns,
            encode,
            source,
            node_values(nodes),
            groups,
            connections,
        );
    assert(spawns_planned(spawns, encode, source, values, groups, connections));
    assert(spawns.daemon_messages@[i] == plan.daemon_messages@[i]);
    let group = groups[i];
    let daemon = plan.daemon_messages@[i].0;
    let outcome: Result<Vec<u8>, String> = Ok(plan.daemon_messages@[i].1);
    assert(encodes(encode, source, group, outcome));
    let command = choose|command: SpawnDataflowNodes|
        is_spawn_command(
            command,
            source.uuid,
            source.options,
            source.dataflow,
            source.nodes,
            group,
        ) && #[trigger] call_ensures(encode, (&command,), outcome);
    lemma_distinct_names(nodes);
    lemma_first_daemon(connections.daemons.entries(), group_machine(group));
    assert forall|j: int, k: int|
        #![trigger command.spawn_nodes@[j], command.spawn_nodes@[k]]
        0 <= j < k < command.spawn_nodes@.len() implies command.spawn_nodes@[j]@
        != command.spawn_nodes@[k]@ by {
        lemma_group_member(values, groups, i, j);
        let q = choose|q: int| 0 <= q < values.len() && values[q] == group.1@[j];
        law_each_node_is_spawned_once(values, groups, q);
        assert(groups[i].1@[j].id@ == values[q].id@);
        assert(command.spawn_nodes@[j] == groups[i].1@[j].id);
        assert(command.spawn_nodes@[k] == groups[i].1@[k].id);
    }
    assert forall|name: Seq<char>| #[trigger]
        spawns_node(command, name) <==> nodes@.contains_key(name)
            && plan.node_to_daemon@[name].id() == daemon.id() by {
        if nodes@.contains_key(name) && plan.node_to_daemon@[name].id() == daemon.id() {
            assert(has_entry(entries, name));
            let q = choose|q: int| entry_at(entries, name, q);
            assert(is_assigned(plan.node_to_daemon@, values[q], connections));
            lemma_first_daemon(connections.daemons.entries(), values[q].wanted_machine());
            let (g, k) = lemma_node_has_group(values, groups, q);
            lemma_group_member(values, groups, g, k);
            if g < i {
                assert(group_machine(groups[g]) != group_machine(groups[i]));
            } else if g > i {
                assert(group_machine(groups[i]) != group_machine(groups[g]));
            }
            assert(command.spawn_nodes@[k]@ == name);
        }
        if spawns_node(command, name) {
            let k = choose|k: int|
                #![trigger command.spawn_nodes@[k]]
                0 <= k < command.spawn_nodes@.len() && command.spawn_nodes@[k]@ == name;
            lemma_group_member(values, groups, i, k);
            let q = choose|q: int| 0 <= q < values.len() && values[q] == group.1@[k];
            assert(is_assigned(plan.node_to_daemon@, values[q], connections));
            lemma_entry(entries, q);
        }
    }
    assert(spawns_what_is_planned(command, plan, options, dataflow, nodes, i));
    assert(call_ensures(encode, (&command,), outcome));
}

/// The machine that a deployment names, if it names one.
pub open spec fn named_machine(node: ResolvedNode) -> Option<Seq<char>> {
    if node.deploy is Some && node.deploy->0.machine is Some {
        Some(node.deploy->0.machine->0@)
    } else {
        None
    }
}

/// A plan maps a node to the daemon with the smallest identifier among the connected ones that
/// were started for the machine that the node's deployment names, or without a machine name if it
/// names none.
pub proof fn law_nodes_go_to_the_first_daemon_of_their_machine<
    F: Fn(&SpawnDataflowNodes) -> Result<Vec<u8>, String>,
>(
    plan: DataflowPlan,
    encode: F,
    options: SpawnOptions,
    dataflow: Descriptor,
    nodes: SortedMap<NodeId, ResolvedNode>,
    connections: DaemonConnections,
    name: Seq<char>,
)
    requires
        nodes_by_name(nodes),
        connections.wf(),
        is_plan(plan, encode, options, dataflow, nodes, connections),
        nodes@.contains_key(name),
    ensures
        plan.node_to_daemon@.contains_key(name),
        ({
            let machine = named_machine(nodes@[name]);
            let daemon = plan.node_to_daemon@[name];
            &&& connections.daemons@.contains_key((machine, daemon.uuid))
            &&& daemon.id() == (machine, daemon.uuid)
            &&& forall|uuid: u128| #[trigger]
                connections.daemons@.contains_key((machine, uuid)) ==> daemon.uuid <= uuid
        }),
{
    let entries = nodes.entries();
    let values = node_values(nodes);
    assert(has_entry(entries, name));
    let q = choose|q: int| entry_at(entries, name, q);
    lemma_entry(entries, q);
    assert(values[q] == entries[q].1);
    let spawns = PlannedSpawns {
        daemons: plan.daemons,
        node_to_daemon: plan.node_to_daemon,
        daemon_messages: plan.daemon_messages,
    };
    let source = SpawnSource { uuid: plan.uuid, options, dataflow, nodes };
    let groups = choose|groups: Seq<NodeGroup>|
        #![trigger is_grouping(node_values(nodes), groups)]
        is_grouping(node_values(nodes), groups) && spawns_planned(
            spawns,
            encode,
            source,
            values,
            groups,
            connections,
        );
    assert(spawns_planned(spawns, encode, source, values, groups, connections));
    assert(is_assigned(plan.node_to_daemon@, values[q], connections));
    law_first_daemon_of_a_machine_is_taken(connections, nodes@[name].wanted_machine());
}

/// A dataflow cannot be planned only if a node needs a daemon that is not connected, or a command
/// for it cannot be encoded; and it is said which.
pub proof fn law_plans_fail_for_want_of_a_daemon<
    F: Fn(&SpawnDataflowNodes) -> Result<Vec<u8>, String>,
>(
    error: PlanError,
    encode: F,
    options: SpawnOptions,
    dataflow: Descriptor,
    nodes: SortedMap<NodeId, ResolvedNode>,
    connections: DaemonConnections,
)
    requires
        nodes_by_name(nodes),
        connections.wf(),
        is_plan_error(error, encode, options, dataflow, nodes, connections),
    ensures
        match error {
            PlanError::NoMatchingDaemon(machine) => {
                &&& forall|uuid: u128| !connections.daemons@.contains_key((Some(machine@), uuid))
                &&& exists|name: Seq<char>| #[trigger]
                    nodes@.contains_key(name) && named_machine(nodes@[name]) == Some(machine@)
            },
            PlanError::NoUnnamedDaemon => {
                &&& forall|uuid: u128| !connections.daemons@.contains_key((None, uuid))
                &&& exists|name: Seq<char>| #[trigger]
                    nodes@.contains_key(name) && named_machine(nodes@[name]) is None
            },
            PlanError::Encode(text) => exists|command: SpawnDataflowNodes| #[trigger]
                call_ensures(encode, (&command,), Err(text)) && *command.nodes == nodes
                    && *command.dataflow_descriptor == dataflow && command.session_id
                    == options.session_id && command.build_id == options.build_id,
            PlanError::Resolve(_) => false,
        },
{
    let values = node_values(nodes);
    let entries = nodes.entries();
    let (uuid, groups) = choose|uuid: DataflowId, groups: Seq<NodeGroup>|
        #![trigger is_grouping(node_values(nodes), groups), uuid_version(uuid)]
        uuid_version(uuid) == 7 && uuid_standard_layout(uuid) && is_grouping(
            node_values(nodes),
            groups,
        ) && planning_fails(
            error,
            encode,
            (SpawnSource { uuid, options, dataflow, nodes }),
            groups,
            connections,
        );
    let source = SpawnSource { uuid, options, dataflow, nodes };
    let i = choose|i: int|
        #![trigger groups[i]]
        0 <= i < groups.len() && groups_planned(encode, source, groups, connections, i) && match error {
            PlanError::NoMatchingDaemon(name) => group_machine(groups[i]) == Some(name@)
                && connections.daemon_for(Some(name@)) is None,
            PlanError::NoUnnamedDaemon => group_machine(groups[i]) is None
                && connections.daemon_for(None) is None,
            PlanError::Encode(text) => connections.daemon_for(group_machine(groups[i])) is Some
                && encodes(encode, source, groups[i], Err(text)),
            PlanError::Resolve(_) => false,
        };
    assert(0 <= i < groups.len());
    let group = groups[i];
    lemma_group_member(values, groups, i, 0);
    let q = choose|q: int| 0 <= q < values.len() && values[q] == group.1@[0];
    lemma_entry(entries, q);
    assert(nodes@.contains_key(entries[q].0@));
    assert(nodes@[entries[q].0@] == *values[q]);
    law_first_daemon_of_a_machine_is_taken(connections, group_machine(group));
    if let PlanError::Encode(text) = error {
        let outcome: Result<Vec<u8>, String> = Err(text);
        assert(encodes(encode, source, group, outcome));
        let command = choose|command: SpawnDataflowNodes|
            is_spawn_command(
                command,
                source.uuid,
                source.options,
                source.dataflow,
                source.nodes,
                group,
            ) && #[trigger] call_ensures(encode, (&command,), outcome);
        assert(call_ensures(encode, (&command,), outcome));
    }
}

/// A spawn command fails just at the first thing that went wrong, and with its words; what is
/// decoded is what was received.
pub proof fn law_spawn_fails_at_what_went_wrong<'a>(
    connected: bool,
    message: &'a Vec<u8>,
    events: Seq<SpawnEvent>,
)
    requires
        is_spawn_run(connected, message, events),
    ensures
        ({
            let step = spawn_after(connected, message, events).1;
            &&& !connected ==> events.len() == 0 && step == SpawnStep::<'a>::Done(
                Err(SpawnError::NoConnection),
            )
            &&& connected && events.len() > 0 ==> match events.last() {
                SpawnEvent::Sent(Err(text)) => step == SpawnStep::<'a>::Done(
                    Err(SpawnError::Send(text)),
                ),
                SpawnEvent::Sent(Ok(_)) => step == SpawnStep::<'a>::Receive,
                SpawnEvent::Received(Err(text)) => step == SpawnStep::<'a>::Done(
                    Err(SpawnError::Receive(text)),
                ),
                SpawnEvent::Received(Ok(raw)) => step == SpawnStep::<'a>::Decode(raw),
                SpawnEvent::Decoded(Err(text)) => step == SpawnStep::<'a>::Done(
                    Err(SpawnError::Decode(text)),
                ),
                SpawnEvent::Decoded(Ok(DaemonCoordinatorReply::TriggerSpawnResult(Err(text)))) => {
                    step == SpawnStep::<'a>::Done(Err(SpawnError::Refused(text)))
                },
                SpawnEvent::Decoded(Ok(DaemonCoordinatorReply::TriggerSpawnResult(Ok(_)))) => step
                    == SpawnStep::<'a>::Done(Ok(())),
                SpawnEvent::Decoded(Ok(DaemonCoordinatorReply::Other(_))) => step
                    == SpawnStep::<'a>::Done(Err(SpawnError::UnexpectedReply)),
            }
        }),
{
    lemma_spawn_run(connected, message, events);
}

/// What can happen to a spawn command next is the outcome of what was to be done for it.
pub proof fn law_spawn_events_answer_the_step(
    connected: bool,
    message: &Vec<u8>,
    events: Seq<SpawnEvent>,
    event: SpawnEvent,
)
    requires
        is_spawn_run(connected, message, events),
    ensures
        ({
            let (stage, step) = spawn_after(connected, message, events);
            spawn_fits(stage, event) <==> match step {
                SpawnStep::Send(_) => event is Sent,
                SpawnStep::Receive => event is Received,
                SpawnStep::Decode(_) => event is Decoded,
                SpawnStep::Done(_) => false,
            }
        }),
{
    lemma_spawn_run(connected, message, events);
}

/// Two failures to plan of the same kind read alike but for the machine; causes are told in their
/// own words.
pub proof fn law_failures_to_plan_read_alike(
    a: PlanError,
    b: PlanError,
    machine_a: Seq<char>,
    machine_b: Seq<char>,
)
    ensures
        ({
            let x = plan_error_chain(a, machine_a);
            let y = plan_error_chain(b, machine_b);
            match (a, b) {
                (PlanError::NoMatchingDaemon(_), PlanError::NoMatchingDaemon(_)) => x.len() == 2
                    && y.len() == 2 && same_frame(x[0], machine_a, y[0], machine_b) && same_frame(
                    x[1],
                    machine_a,
                    y[1],
                    machine_b,
                ),
                (PlanError::NoUnnamedDaemon, PlanError::NoUnnamedDaemon) => x == y,
                (PlanError::Resolve(s), _) => x == seq![s@],
                (PlanError::Encode(s), _) => x == seq![s@],
                _ => true,
            }
        }),
{
    lemma_same_frame(
        "failed to resolve daemon for machine `Some("@,
        machine_a,
        machine_b,
        ")`"@,
    );
    lemma_same_start("no matching daemon for machine id "@, machine_a, machine_b);
}

/// Two failed executions read alike but for the daemon, which both name first; then comes what
/// went wrong there, alike for failures of the same kind, and the cause in its own words.
pub proof fn law_failed_executions_read_alike(a: ExecuteError, b: ExecuteError)
    ensures
        ({
            let x = execute_error_chain(a);
            let y = execute_error_chain(b);
            let name_a = daemon_text(a.daemon_id);
            let name_b = daemon_text(b.daemon_id);
            &&& same_frame(x[0], name_a, y[0], name_b)
            &&& x.skip(1) == spawn_error_chain(a.error, a.daemon_id)
            &&& match (a.error, b.error) {
                (SpawnError::NoConnection, SpawnError::NoConnection) => x.len() == 2 && y.len() == 2
                    && same_frame(x[1], name_a, y[1], name_b),
                (SpawnError::Send(s), SpawnError::Send(_)) => x.len() == 3 && x[1] == y[1] && x[2]
                    == s@,
                (SpawnError::Receive(s), SpawnError::Receive(_)) => x.len() == 3 && x[1] == y[1]
                    && x[2] == s@,
                (SpawnError::Decode(s), SpawnError::Decode(_)) => x.len() == 3 && x[1] == y[1]
                    && x[2] == s@,
                (SpawnError::Refused(s), SpawnError::Refused(_)) => x.len() == 3 && x[1] == y[1]
                    && x[2] == s@,
                (SpawnError::UnexpectedReply, SpawnError::UnexpectedReply) => x.len() == 2 && x[1]
                    == y[1],
                _ => true,
            }
        }),
{
    let name_a = daemon_text(a.daemon_id);
    let name_b = daemon_text(b.daemon_id);
    lemma_same_frame("failed to spawn dataflow on daemon `"@, name_a, name_b, "`"@);
    lemma_same_frame("no daemon connection for daemon `"@, name_a, name_b, "`"@);
    assert(execute_error_chain(a).skip(1) =~= spawn_error_chain(a.error, a.daemon_id));
}

/// After outcomes of messages the next one is sent just when none of them was a failure and there
/// is one left. All messages count as taken but the one that failed.
pub proof fn law_sending_goes_on_while_nothing_fails(
    total: int,
    outcomes: Seq<Result<(), SpawnError>>,
)
    requires
        is_execution(total, outcomes),
    ensures
        may_send(total, outcomes) <==> outcomes.len() < total && forall|i: int|
            #![trigger outcomes[i]]
            0 <= i < outcomes.len() ==> outcomes[i] is Ok,
        after_outcomes(outcomes).0 == (if outcomes.len() > 0 && outcomes.last() is Err {
            outcomes.len() - 1
        } else {
            outcomes.len() as int
        }),
        after_outcomes(outcomes).1 <==> outcomes.len() > 0 && outcomes.last() is Err,
    decreases outcomes.len(),
{
    if outcomes.len() > 0 {
        let before = outcomes.drop_last();
        let n = outcomes.len() - 1;
        assert(outcomes.take(n) =~= before);
        assert(may_send(total, outcomes.take(n)));
        assert forall|i: int| 0 <= i < before.len() implies #[trigger] may_send(
            total,
            before.take(i),
        ) by {
            assert(before.take(i) =~= outcomes.take(i));
            assert(may_send(total, outcomes.take(i)));
        }
        law_sending_goes_on_while_nothing_fails(total, before);
        assert forall|i: int| #![trigger outcomes[i]] 0 <= i < n implies outcomes[i] is Ok by {
            assert(before[i] == outcomes[i]);
        }
        assert(outcomes[n] == outcomes.last());
    }
}

/// The daemon for a machine is a connected one that was started for it and has the smallest
/// identifier among those; it is said to be missing just when none is connected.
pub proof fn law_daemon_for_a_machine_is_a_connected_one(
    connections: DaemonConnections,
    machine: Option<&String>,
    r: Result<DaemonId, PlanError>,
    uuid: u128,
)
    requires
        connections.wf(),
        call_ensures(resolve_daemon_for_machine, (&connections, machine), r),
    ensures
        ({
            let name: Option<Seq<char>> = if machine is Some {
                Some(machine->0@)
            } else {
                None
            };
            &&& r is Err ==> !connections.daemons@.contains_key((name, uuid))
            &&& r matches Ok(daemon) ==> daemon.id() == (name, daemon.uuid)
                && connections.daemons@.contains_key((name, daemon.uuid)) && (
            connections.daemons@.contains_key((name, uuid)) ==> daemon.uuid <= uuid)
            &&& r matches Err(error) ==> (if machine is Some {
                error matches PlanError::NoMatchingDaemon(told) && told@ == machine->0@
            } else {
                error is NoUnnamedDaemon
            })
        }),
{
    let name: Option<Seq<char>> = match machine {
        Some(machine) => Some(machine@),
        None => None,
    };
    law_first_daemon_of_a_machine_is_taken(connections, name);
}

} // verus!

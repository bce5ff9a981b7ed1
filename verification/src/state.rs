//! What the coordinator knows: the builds, the dataflows and the daemons.

use vstd::prelude::*;

use crate::daemons::DaemonConnections;
use crate::ids::{DaemonId, DataflowId, NodeId};
use crate::message::{
    copy_node_result, no_failure, DataflowDaemonResult, DataflowResult, Descriptor, NodeMetrics,
    NodeResult, ResolvedNode, Timestamp,
};
use crate::ordered::{entry_at, has_entry, lemma_entry, SortedMap};
use crate::registry::Registry;
use crate::text::opt_text;

verus! {

/// A dataflow that was started and has not ended.
pub struct RunningDataflow {
    pub uuid: DataflowId,
    pub name: Option<String>,
    pub descriptor: Descriptor,
    pub nodes: SortedMap<NodeId, ResolvedNode>,
    /// Which daemon each node runs on.
    pub node_to_daemon: SortedMap<NodeId, DaemonId>,
    /// What was last measured of each node.
    pub node_metrics: SortedMap<NodeId, NodeMetrics>,
}

impl RunningDataflow {
    pub open spec fn wf(&self) -> bool {
        self.nodes.wf() && self.node_to_daemon.wf() && self.node_metrics.wf()
    }
}

/// What is kept of a dataflow that has ended.
pub struct ArchivedDataflow {
    pub name: Option<String>,
}

/// How a dataflow ended on each of its daemons.
pub type DaemonResults = SortedMap<DaemonId, DataflowDaemonResult>;

/// Whether the results are in order, daemon by daemon and node by node.
pub open spec fn results_wf(results: DaemonResults) -> bool {
    &&& results.wf()
    &&& forall|i: int|
        #![trigger results.entries()[i]]
        0 <= i < results.entries().len() ==> results.entries()[i].1.node_results.wf()
}

/// Everything that a coordinator knows. `B` is what is kept of a running build and `C` what
/// is kept of a finished one.
pub struct CoordinatorState<B, C> {
    pub running_builds: Registry<B>,
    pub finished_builds: Registry<C>,
    pub running_dataflows: Registry<RunningDataflow>,
    pub dataflow_results: Registry<DaemonResults>,
    pub archived_dataflows: Registry<ArchivedDataflow>,
    pub daemon_connections: DaemonConnections,
}

/// Whether every running dataflow is found by its own identifier.
pub open spec fn running_wf(running: Map<u128, RunningDataflow>) -> bool {
    forall|uuid: u128| #[trigger]
        running.contains_key(uuid) ==> running[uuid].uuid == uuid && running[uuid].wf()
}

impl<B, C> CoordinatorState<B, C> {
    pub open spec fn wf(&self) -> bool {
        &&& self.running_builds.wf()
        &&& self.finished_builds.wf()
        &&& self.running_dataflows.wf()
        &&& self.dataflow_results.wf()
        &&& self.archived_dataflows.wf()
        &&& self.daemon_connections.wf()
        &&& running_wf(self.running_dataflows@)
        &&& forall|uuid: u128| #[trigger]
            self.dataflow_results@.contains_key(uuid) ==> results_wf(self.dataflow_results@[uuid])
    }

    /// A coordinator that knows of nothing yet.
    pub fn new() -> (r: Self)
        ensures
            r.wf(),
            r.running_builds@ == Map::<u128, B>::empty(),
            r.finished_builds@ == Map::<u128, C>::empty(),
            r.running_dataflows@ == Map::<u128, RunningDataflow>::empty(),
            r.dataflow_results@ == Map::<u128, DaemonResults>::empty(),
            r.archived_dataflows@ == Map::<u128, ArchivedDataflow>::empty(),
            r.daemon_connections.daemons.entries().len() == 0,
    {
        CoordinatorState {
            running_builds: Registry::new(),
            finished_builds: Registry::new(),
            running_dataflows: Registry::new(),
            dataflow_results: Registry::new(),
            archived_dataflows: Registry::new(),
            daemon_connections: DaemonConnections::new(),
        }
    }
}

/// Whether a running dataflow has the given name.
pub open spec fn runs_as(running: Map<u128, RunningDataflow>, name: Seq<char>, uuid: u128) -> bool {
    running.contains_key(uuid) && opt_text(running[uuid].name) == Some(name)
}

/// Whether an ended dataflow had the given name.
pub open spec fn ran_as(
    archived: Map<u128, ArchivedDataflow>,
    name: Seq<char>,
    uuid: u128,
) -> bool {
    archived.contains_key(uuid) && opt_text(archived[uuid].name) == Some(name)
}

/// Whether no two running dataflows have the same name.
pub open spec fn names_unique(running: Map<u128, RunningDataflow>) -> bool {
    forall|a: u128, b: u128, name: Seq<char>|
        #![trigger runs_as(running, name, a), runs_as(running, name, b)]
        runs_as(running, name, a) && runs_as(running, name, b) ==> a == b
}

/// How the nodes ended, over several daemons: where two daemons report on the same node, the
/// later one counts.
pub open spec fn merged_results(entries: Seq<(DaemonId, DataflowDaemonResult)>) -> Map<
    Seq<char>,
    NodeResult,
>
    decreases entries.len(),
{
    if entries.len() == 0 {
        Map::empty()
    } else {
        merged_results(entries.drop_last()).union_prefer_right(entries.last().1.node_results@)
    }
}

/// Whether no daemon reports a failed node.
pub open spec fn all_daemons_ok(entries: Seq<(DaemonId, DataflowDaemonResult)>) -> bool {
    forall|i: int|
        #![trigger entries[i]]
        0 <= i < entries.len() ==> no_failure(entries[i].1.node_results@)
}

/// Whether no two daemons report on the same node.
pub open spec fn disjoint_nodes(entries: Seq<(DaemonId, DataflowDaemonResult)>) -> bool {
    forall|i: int, j: int, node: Seq<char>|
        #![trigger entries[i].1.node_results@.contains_key(node), entries[j].1.node_results@.contains_key(node)]
        0 <= i < j < entries.len() && entries[i].1.node_results@.contains_key(node)
            ==> !entries[j].1.node_results@.contains_key(node)
}

/// If no daemon reports a failed node, no node of the dataflow failed. If each node runs on one
/// daemon only, the converse holds too: the status in a list and the merged result agree.
pub proof fn law_status_agrees_with_result(entries: Seq<(DaemonId, DataflowDaemonResult)>)
    ensures
        all_daemons_ok(entries) ==> no_failure(merged_results(entries)),
        disjoint_nodes(entries) && no_failure(merged_results(entries)) ==> all_daemons_ok(entries),
    decreases entries.len(),
{
    if entries.len() > 0 {
        let shorter = entries.drop_last();
        let last = entries.last().1.node_results@;
        let merged = merged_results(entries);
        law_status_agrees_with_result(shorter);
        if all_daemons_ok(entries) {
            assert forall|i: int| #![trigger shorter[i]] 0 <= i < shorter.len() implies no_failure(
                shorter[i].1.node_results@,
            ) by {
                assert(shorter[i] == entries[i]);
            }
            assert(no_failure(entries[entries.len() - 1].1.node_results@));
            assert(no_failure(merged));
        }
        if disjoint_nodes(entries) && no_failure(merged) {
            assert(disjoint_nodes(shorter)) by {
                assert forall|i: int, j: int, node: Seq<char>|
                    #![trigger shorter[i].1.node_results@.contains_key(node), shorter[j].1.node_results@.contains_key(node)]
                    0 <= i < j < shorter.len() && shorter[i].1.node_results@.contains_key(
                        node,
                    ) implies !shorter[j].1.node_results@.contains_key(node) by {
                    assert(entries[i].1.node_results@.contains_key(node));
                }
            }
            assert(no_failure(last)) by {
                assert forall|node: Seq<char>| #[trigger] last.contains_key(node) implies last[node]
                    is Ok by {
                    assert(merged.contains_key(node));
                }
            }
            assert(no_failure(merged_results(shorter))) by {
                assert forall|node: Seq<char>| #[trigger]
                    merged_results(shorter).contains_key(node) implies merged_results(shorter)[node]
                    is Ok by {
                    let i = lemma_merged_from(shorter, node);
                    assert(entries[i].1.node_results@.contains_key(node));
                    assert(!entries[entries.len() - 1].1.node_results@.contains_key(node));
                    assert(merged.contains_key(node));
                }
            }
            assert forall|i: int| #![trigger entries[i]] 0 <= i < entries.len() implies no_failure(
                entries[i].1.node_results@,
            ) by {
                if i < shorter.len() {
                    assert(shorter[i] == entries[i]);
                }
            }
        }
    }
}

/// A node of the merged results is reported on by one of the daemons.
proof fn lemma_merged_from(entries: Seq<(DaemonId, DataflowDaemonResult)>, node: Seq<char>) -> (i:
    int)
    requires
        merged_results(entries).contains_key(node),
    ensures
        0 <= i < entries.len(),
        entries[i].1.node_results@.contains_key(node),
    decreases entries.len(),
{
    if entries.last().1.node_results@.contains_key(node) {
        entries.len() - 1
    } else {
        lemma_merged_from(entries.drop_last(), node)
    }
}

/// The result of a dataflow, put together from those of its daemons.
pub fn dataflow_result(results: &DaemonResults, uuid: DataflowId, timestamp: Timestamp) -> (r:
    DataflowResult)
    requires
        results_wf(*results),
    ensures
        r.uuid == uuid,
        r.timestamp == timestamp,
        r.node_results.wf(),
        r.node_results@ == merged_results(results.entries()),
{
    let ghost entries = results.entries();
    let mut node_results: SortedMap<NodeId, NodeResult> = SortedMap::new();
    let mut i: usize = 0;
    assert(merged_results(entries.take(0)) =~= Map::<Seq<char>, NodeResult>::empty());
    while i < results.len()
        invariant
            results_wf(*results),
            entries == results.entries(),
            i <= entries.len(),
            node_results.wf(),
            node_results@ == merged_results(entries.take(i as int)),
        decreases entries.len() - i,
    {
        let daemon_result = &results.entry(i).1;
        let ghost before = node_results@;
        extend_results(&mut node_results, &daemon_result.node_results);
        assert(entries.take(i + 1).drop_last() =~= entries.take(i as int));
        assert(node_results@ =~= merged_results(entries.take(i + 1)));
        i = i + 1;
    }
    assert(entries.take(i as int) =~= entries);
    DataflowResult { uuid, timestamp, node_results }
}

/// Adds results to others, in place of those on the same nodes.
fn extend_results(
    node_results: &mut SortedMap<NodeId, NodeResult>,
    more: &SortedMap<NodeId, NodeResult>,
)
    requires
        old(node_results).wf(),
        more.wf(),
    ensures
        final(node_results).wf(),
        final(node_results)@ == old(node_results)@.union_prefer_right(more@),
{
    let ghost start = node_results@;
    let ghost entries = more.entries();
    let mut i: usize = 0;
    while i < more.len()
        invariant
            node_results.wf(),
            more.wf(),
            entries == more.entries(),
            i <= entries.len(),
            forall|node: Seq<char>| #[trigger]
                node_results@.contains_key(node) <==> start.contains_key(node) || exists|j: int|
                    #![trigger entries[j]]
                    0 <= j < i && entries[j].0@ == node,
            forall|j: int|
                #![trigger entries[j]]
                0 <= j < i ==> node_results@[entries[j].0@] == entries[j].1,
            forall|node: Seq<char>| #[trigger]
                start.contains_key(node) && (forall|j: int|
                    #![trigger entries[j]]
                    0 <= j < i ==> entries[j].0@ != node) ==> node_results@[node] == start[node],
        decreases entries.len() - i,
    {
        let entry = more.entry(i);
        let ghost before = node_results@;
        node_results.insert(entry.0.clone(), copy_node_result(&entry.1));
        proof {
            lemma_entry(entries, i as int);
            assert forall|node: Seq<char>| #[trigger]
                node_results@.contains_key(node) <==> start.contains_key(node) || exists|j: int|
                    #![trigger entries[j]]
                    0 <= j < i + 1 && entries[j].0@ == node by {
                assert(node_results@.contains_key(node) <==> node == entry.0@
                    || before.contains_key(node));
                assert(entries[i as int].0@ == entry.0@);
            }
            assert forall|j: int| #![trigger entries[j]] 0 <= j < i + 1 implies node_results@[
            entries[j].0@] == entries[j].1 by {
                if entries[j].0@ == entry.0@ {
                    assert(entry_at(entries, entry.0@, j));
                }
            }
        }
        i = i + 1;
    }
    proof {
        let merged = start.union_prefer_right(more@);
        assert forall|node: Seq<char>| #[trigger]
            node_results@.contains_key(node) == merged.contains_key(node) && (
        merged.contains_key(node) ==> node_results@[node] == merged[node]) by {
            if has_entry(entries, node) {
                let j = choose|j: int| entry_at(entries, node, j);
                lemma_entry(entries, j);
                assert(entries[j].0@ == node);
            } else {
                assert forall|j: int| #![trigger entries[j]] 0 <= j < i implies entries[j].0@
                    != node by {
                    if entries[j].0@ == node {
                        assert(entry_at(entries, node, j));
                    }
                }
                assert(!more@.contains_key(node));
            }
        }
        assert(node_results@ =~= merged);
    }
}

/// A dataflow's result tells of a node just when some daemon reports on it.
proof fn lemma_merged_nodes(entries: Seq<(DaemonId, DataflowDaemonResult)>, node: Seq<char>)
    ensures
        merged_results(entries).contains_key(node) <==> exists|i: int|
            #![trigger entries[i]]
            0 <= i < entries.len() && entries[i].1.node_results@.contains_key(node),
    decreases entries.len(),
{
    if entries.len() > 0 {
        let shorter = entries.drop_last();
        lemma_merged_nodes(shorter, node);
        if merged_results(entries).contains_key(node) {
            let i = lemma_merged_from(entries, node);
            assert(entries[i].1.node_results@.contains_key(node));
        }
        if exists|i: int|
            #![trigger entries[i]]
            0 <= i < entries.len() && entries[i].1.node_results@.contains_key(node) {
            let i = choose|i: int|
                #![trigger entries[i]]
                0 <= i < entries.len() && entries[i].1.node_results@.contains_key(node);
            if i < shorter.len() {
                assert(shorter[i].1.node_results@.contains_key(node));
            }
        }
    }
}

/// What the last daemon that reports on a node says counts.
proof fn lemma_last_report_counts(
    entries: Seq<(DaemonId, DataflowDaemonResult)>,
    i: int,
    node: Seq<char>,
)
    requires
        0 <= i < entries.len(),
        entries[i].1.node_results@.contains_key(node),
        forall|j: int|
            #![trigger entries[j]]
            i < j < entries.len() ==> !entries[j].1.node_results@.contains_key(node),
    ensures
        merged_results(entries)[node] == entries[i].1.node_results@[node],
    decreases entries.len(),
{
    let last = entries.len() - 1;
    assert(entries[last] == entries.last());
    if i < last {
        let shorter = entries.drop_last();
        assert(!entries[last].1.node_results@.contains_key(node));
        assert forall|j: int| #![trigger shorter[j]] i < j < shorter.len() implies
            !shorter[j].1.node_results@.contains_key(node) by {
            assert(shorter[j] == entries[j]);
        }
        assert(shorter[i] == entries[i]);
        lemma_last_report_counts(shorter, i, node);
        lemma_merged_nodes(shorter, node);
    }
}

/// The result of a dataflow is put together from all its daemons: it tells of a node just when
/// some daemon reports on it, and says what the last of them in order says. If just one daemon
/// reports on a node, its report is the one that counts.
pub proof fn law_result_is_put_together_from_all_daemons(
    entries: Seq<(DaemonId, DataflowDaemonResult)>,
    i: int,
    node: Seq<char>,
)
    ensures
        merged_results(entries).contains_key(node) <==> exists|k: int|
            #![trigger entries[k]]
            0 <= k < entries.len() && entries[k].1.node_results@.contains_key(node),
        0 <= i < entries.len() && entries[i].1.node_results@.contains_key(node) && (forall|j: int|
            #![trigger entries[j]]
            i < j < entries.len() ==> !entries[j].1.node_results@.contains_key(node))
            ==> merged_results(entries)[node] == entries[i].1.node_results@[node],
        0 <= i < entries.len() && entries[i].1.node_results@.contains_key(node) && (forall|j: int|
            #![trigger entries[j]]
            0 <= j < entries.len() && j != i ==> !entries[j].1.node_results@.contains_key(node))
            ==> merged_results(entries)[node] == entries[i].1.node_results@[node],
{
    lemma_merged_nodes(entries, node);
    if 0 <= i < entries.len() && entries[i].1.node_results@.contains_key(node) && (forall|j: int|
        #![trigger entries[j]]
        i < j < entries.len() ==> !entries[j].1.node_results@.contains_key(node)) {
        lemma_last_report_counts(entries, i, node);
    }
}

/// The daemons report no failure just when every node of each of them ended well.
pub proof fn law_daemons_are_ok_when_all_nodes_are(entries: Seq<(DaemonId, DataflowDaemonResult)>)
    ensures
        all_daemons_ok(entries) <==> forall|i: int, node: Seq<char>|
            #![trigger entries[i].1.node_results@[node]]
            0 <= i < entries.len() && entries[i].1.node_results@.contains_key(node)
                ==> entries[i].1.node_results@[node] is Ok,
{
    if forall|i: int, node: Seq<char>|
        #![trigger entries[i].1.node_results@[node]]
        0 <= i < entries.len() && entries[i].1.node_results@.contains_key(node)
            ==> entries[i].1.node_results@[node] is Ok {
        assert forall|i: int| #![trigger entries[i]] 0 <= i < entries.len() implies no_failure(
            entries[i].1.node_results@,
        ) by {
            assert forall|node: Seq<char>| #[trigger]
                entries[i].1.node_results@.contains_key(node) implies
                entries[i].1.node_results@[node] is Ok by {}
        }
    }
    if all_daemons_ok(entries) {
        assert forall|i: int, node: Seq<char>|
            #![trigger entries[i].1.node_results@[node]]
            0 <= i < entries.len() && entries[i].1.node_results@.contains_key(node) implies
            entries[i].1.node_results@[node] is Ok by {
            assert(no_failure(entries[i].1.node_results@));
        }
    }
}

/// A dataflow runs under a name just when it runs and was given that name; an ended one had a
/// name just when it is archived under it.
pub proof fn law_dataflows_have_the_names_they_were_given(
    running: Map<u128, RunningDataflow>,
    archived: Map<u128, ArchivedDataflow>,
    name: Seq<char>,
    uuid: u128,
)
    ensures
        runs_as(running, name, uuid) <==> running.contains_key(uuid)
            && running[uuid].name is Some && running[uuid].name->0@ == name,
        ran_as(archived, name, uuid) <==> archived.contains_key(uuid)
            && archived[uuid].name is Some && archived[uuid].name->0@ == name,
{
}

/// Names are unique just when any two running dataflows that were given the same name are one.
pub proof fn law_unique_names_tell_dataflows_apart(
    running: Map<u128, RunningDataflow>,
    a: u128,
    b: u128,
)
    requires
        names_unique(running),
        running.contains_key(a),
        running.contains_key(b),
        running[a].name is Some,
        running[b].name is Some,
        running[a].name->0@ == running[b].name->0@,
    ensures
        a == b,
{
    assert(runs_as(running, running[a].name->0@, a));
    assert(runs_as(running, running[a].name->0@, b));
}

} // verus!

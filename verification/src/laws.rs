//! What holds of the coordinator's answers taken together.

use vstd::prelude::*;

use crate::daemons::law_first_daemon_of_a_machine_is_taken;
use crate::ids::{hyphenated, lemma_named_order, named_before, DataflowId};
use crate::message::{
    active_of, no_failure, ControlRequest, ControlRequestReply, DataflowIdAndName,
    DataflowListEntry, DataflowResult, DataflowStatus, Descriptor, Duration, NodeInfo,
    NodeMetrics, NodeResult, StartRequest, Timestamp,
};
use crate::ordered::{entry_at, has_entry, lemma_entry, OrderedKey};
use crate::registry::is_walk;
use crate::server::{
    all_node_infos, answers, built, default_daemon_ip, ended_entry, error_text, finished_reply,
    is_check_reply, is_control_step, is_end_result, is_info, is_list, is_start, is_stop_step,
    lemma_pushed, lists_all, logs_resolve, name_resolves, name_taken, node_info, node_infos, only,
    several, started, stops, tells_of_all_nodes, tells_time, Call, ControlStep, Outcome,
    ServerError, StopStep,
};
use crate::state::{
    disjoint_nodes, law_daemons_are_ok_when_all_nodes_are,
    law_result_is_put_together_from_all_daemons, law_status_agrees_with_result, names_unique,
    ran_as, running_wf, runs_as, ArchivedDataflow, CoordinatorState, DaemonResults, RunningDataflow,
};
use crate::text::{
    lemma_same_frame, lemma_same_start, opt_text, opt_text_before, same_frame, text_before,
};

verus! {

/// A dataflow that is started under a name that no running dataflow has leaves the names of
/// the running dataflows unique.
pub proof fn law_start_keeps_names_unique(
    running: Map<u128, RunningDataflow>,
    dataflow: RunningDataflow,
)
    requires
        names_unique(running),
        !name_taken(running, dataflow.name),
    ensures
        names_unique(running.insert(dataflow.uuid, dataflow)),
{
    let after = running.insert(dataflow.uuid, dataflow);
    assert forall|a: u128, b: u128, name: Seq<char>|
        #![trigger runs_as(after, name, a), runs_as(after, name, b)]
        runs_as(after, name, a) && runs_as(after, name, b) implies a == b by {
        if a != dataflow.uuid {
            assert(runs_as(running, name, a));
        }
        if b != dataflow.uuid {
            assert(runs_as(running, name, b));
        }
    }
}

/// A name has one meaning: it resolves to one dataflow, or is refused for one reason.
pub proof fn law_name_has_one_meaning(
    running: Map<u128, RunningDataflow>,
    archived: Map<u128, ArchivedDataflow>,
    name: Seq<char>,
    a: Result<DataflowId, ServerError>,
    b: Result<DataflowId, ServerError>,
)
    requires
        name_resolves(running, archived, name, a),
        name_resolves(running, archived, name, b),
    ensures
        match a {
            Ok(uuid) => b == Ok::<DataflowId, ServerError>(uuid),
            Err(error) => b is Err && error_text(b->Err_0, seq![]) == error_text(error, seq![]),
        },
{
    let runs = |uuid: u128| runs_as(running, name, uuid);
    let ran = |uuid: u128| ran_as(archived, name, uuid);
    if several(runs) {
        let (x, y) = choose|x: u128, y: u128| x != y && #[trigger] runs(x) && #[trigger] runs(y);
        assert(runs(x) && runs(y));
    }
    if several(ran) {
        let (x, y) = choose|x: u128, y: u128| x != y && #[trigger] ran(x) && #[trigger] ran(y);
        assert(ran(x) && ran(y));
    }
}

/// A dataflow that was started under a free name runs from then on: a check finds it spawned,
/// and its name stands for it.
pub proof fn law_started_dataflow_is_found(
    running: Map<u128, RunningDataflow>,
    archived: Map<u128, ArchivedDataflow>,
    results: Map<u128, DaemonResults>,
    dataflow: RunningDataflow,
    timestamp: Timestamp,
    reply: ControlRequestReply,
    resolved: Result<DataflowId, ServerError>,
)
    requires
        dataflow.name is Some,
        !name_taken(running, dataflow.name),
        is_check_reply(
            running.insert(dataflow.uuid, dataflow),
            results,
            dataflow.uuid,
            timestamp,
            reply,
        ),
        name_resolves(
            running.insert(dataflow.uuid, dataflow),
            archived,
            dataflow.name->0@,
            resolved,
        ),
    ensures
        reply == (ControlRequestReply::DataflowSpawned { uuid: dataflow.uuid }),
        resolved == Ok::<DataflowId, ServerError>(dataflow.uuid),
{
    let after = running.insert(dataflow.uuid, dataflow);
    let name = dataflow.name->0@;
    assert forall|other: u128| #[trigger] runs_as(after, name, other) implies other
        == dataflow.uuid by {
        if other != dataflow.uuid {
            assert(runs_as(running, name, other));
        }
    }
    assert(name_resolves(after, archived, name, Ok(dataflow.uuid)));
    law_name_has_one_meaning(after, archived, name, Ok(dataflow.uuid), resolved);
}

/// A dataflow of which nothing is known has stopped without a failure.
pub proof fn law_unknown_dataflow_has_stopped(
    running: Map<u128, RunningDataflow>,
    results: Map<u128, DaemonResults>,
    uuid: DataflowId,
    timestamp: Timestamp,
    reply: ControlRequestReply,
)
    requires
        !running.contains_key(uuid),
        !results.contains_key(uuid),
        is_check_reply(running, results, uuid, timestamp, reply),
    ensures
        reply matches ControlRequestReply::DataflowStopped { uuid: u, result } && u == uuid
            && result.node_results@ == Map::<Seq<char>, NodeResult>::empty() && no_failure(
            result.node_results@,
        ),
{
}

/// The list and a check agree on how a dataflow ended, if each of its nodes ran on one daemon
/// only.
pub proof fn law_list_agrees_with_check(
    running: Map<u128, RunningDataflow>,
    results: Map<u128, DaemonResults>,
    archived: Map<u128, ArchivedDataflow>,
    uuid: DataflowId,
    timestamp: Timestamp,
    reply: ControlRequestReply,
)
    requires
        !running.contains_key(uuid),
        results.contains_key(uuid),
        disjoint_nodes(results[uuid].entries()),
        is_check_reply(running, results, uuid, timestamp, reply),
    ensures
        reply matches ControlRequestReply::DataflowStopped { uuid: _, result } && (no_failure(
            result.node_results@,
        ) <==> ended_entry(results, archived, uuid).status == DataflowStatus::Finished),
{
    law_status_agrees_with_result(results[uuid].entries());
}

/// Whether a request is answered as the server's method for it answers, `outcome` being what the
/// daemons did where the method has them do something.
pub open spec fn answered_as_method<B, C>(
    state: CoordinatorState<B, C>,
    request: ControlRequest,
    timestamp: Timestamp,
    outcome: Outcome<B>,
    reply: Result<ControlRequestReply, ServerError>,
) -> bool {
    match request {
        ControlRequest::Build(_) => outcome matches Outcome::Build { build_id, result } && reply
            == (match built(build_id, result) {
            Ok(build_id) => Ok::<_, ServerError>(
                ControlRequestReply::DataflowBuildTriggered { build_id },
            ),
            Err(error) => Err(error),
        }),
        ControlRequest::Start(start) => {
            ||| reply matches Err(error) && is_start(state.running_dataflows@, start, Err(error))
            ||| outcome matches Outcome::Start(result) && (exists|named: StartRequest|
                is_start(state.running_dataflows@, start, Ok(named))) && reply == (match started(
                result,
            ) {
                Ok(uuid) => Ok::<_, ServerError>(
                    ControlRequestReply::DataflowStartTriggered { uuid },
                ),
                Err(error) => Err(error),
            })
        },
        ControlRequest::Check { dataflow_uuid } => reply matches Ok(status) && is_check_reply(
            state.running_dataflows@,
            state.dataflow_results@,
            dataflow_uuid,
            timestamp,
            status,
        ),
        ControlRequest::Reload { dataflow_id, .. } => outcome matches Outcome::Reload {
            dataflow_id: id,
            result,
        } && id == dataflow_id && reply == (match result {
            Ok(_) => Ok::<_, ServerError>(
                ControlRequestReply::DataflowReloaded { uuid: dataflow_id },
            ),
            Err(text) => Err(ServerError::Outside(text)),
        }),
        ControlRequest::Logs { uuid, name, node, tail } => {
            ||| reply matches Err(error) && logs_resolve(state, uuid, name, node, tail, Err(error))
            ||| outcome matches Outcome::RetrieveLogs(result) && (exists|call: Call|
                logs_resolve(state, uuid, name, node, tail, Ok(call))) && reply == (match result {
                Ok(data) => Ok::<_, ServerError>(ControlRequestReply::Logs(data)),
                Err(text) => Err(ServerError::Outside(text)),
            })
        },
        ControlRequest::Info { dataflow_uuid } => match reply {
            Ok(ControlRequestReply::DataflowInfo { uuid, name, descriptor }) => is_info(
                state.running_dataflows@,
                dataflow_uuid,
                uuid,
                name,
                descriptor,
            ),
            Ok(_) => false,
            Err(error) => !state.running_dataflows@.contains_key(dataflow_uuid) && error
                == ServerError::NotRunning(dataflow_uuid),
        },
        ControlRequest::Destroy => outcome matches Outcome::Destroy(result) && reply == (
        match result {
            Ok(_) => Ok::<_, ServerError>(ControlRequestReply::DestroyOk),
            Err(text) => Err(ServerError::Outside(text)),
        }),
        ControlRequest::List => reply matches Ok(ControlRequestReply::DataflowList(list))
            && lists_all(list.0@, state),
        ControlRequest::DaemonConnected => reply == Ok::<_, ServerError>(
            ControlRequestReply::DaemonConnected(
                state.daemon_connections.daemons.entries().len() > 0,
            ),
        ),
        ControlRequest::ConnectedMachines => reply matches Ok(
            ControlRequestReply::ConnectedDaemons(daemons),
        ) && daemons@.dom() == state.daemon_connections.daemons@.dom(),
        ControlRequest::CliAndDefaultDaemonOnSameMachine => reply == Ok::<_, ServerError>(
            ControlRequestReply::CliAndDefaultDaemonIps {
                default_daemon: default_daemon_ip(state),
                cli: None,
            },
        ),
        ControlRequest::GetNodeInfo => reply matches Ok(ControlRequestReply::NodeInfoList(infos))
            && tells_of_all_nodes(infos@, state.running_dataflows@),
        _ => reply == Err::<ControlRequestReply, _>(ServerError::HandledByCaller(request)),
    }
}

/// A request that is dispatched, and finished where the daemons had to do something, is answered
/// as the server's method for it answers; one for the caller is given back.
pub proof fn law_dispatch_answers_as_the_methods<B, C>(
    state: CoordinatorState<B, C>,
    request: ControlRequest,
    timestamp: Timestamp,
    step: ControlStep,
    outcome: Outcome<B>,
    reply: Result<ControlRequestReply, ServerError>,
)
    requires
        is_control_step(state, request, timestamp, step),
        match step {
            ControlStep::Reply(answer) => reply == answer,
            ControlStep::Await(call) => answers(call, outcome) && reply == finished_reply(outcome),
        },
    ensures
        answered_as_method(state, request, timestamp, outcome, reply),
{
    match (request, step) {
        (ControlRequest::Start(start), ControlStep::Await(Call::Start(named))) => {
            assert(is_start(state.running_dataflows@, start, Ok(named)));
        },
        (ControlRequest::Logs { uuid, name, node, tail }, ControlStep::Await(call)) => {
            assert(logs_resolve(state, uuid, name, node, tail, Ok(call)));
        },
        _ => {},
    }
}

/// Whether dataflows are the running ones: each once, by name and then by identifier.
pub open spec fn are_running(
    ids: Seq<DataflowIdAndName>,
    running: Map<u128, RunningDataflow>,
) -> bool {
    &&& forall|i: int|
        #![trigger ids[i]]
        0 <= i < ids.len() ==> running.contains_key(ids[i].uuid) && ids[i].name
            == running[ids[i].uuid].name
    &&& forall|uuid: u128| #[trigger]
        running.contains_key(uuid) ==> exists|i: int|
            #![trigger ids[i]]
            0 <= i < ids.len() && ids[i].uuid == uuid
    &&& forall|i: int, j: int|
        #![trigger ids[i], ids[j]]
        0 <= i < j < ids.len() ==> named_before(ids[i].id(), ids[j].id())
}

/// The active dataflows of a list are the running ones, by name and then by identifier.
pub proof fn law_active_dataflows_are_the_running_ones(
    list: Seq<DataflowListEntry>,
    running: Map<u128, RunningDataflow>,
    results: Map<u128, DaemonResults>,
    archived: Map<u128, ArchivedDataflow>,
    walk: Seq<u128>,
)
    requires
        is_list(list, running, results, archived, walk),
    ensures
        are_running(active_of(list), running),
{
    let n = list.len() - walk.len();
    let first = list.take(n);
    let second = list.skip(n);
    let active = |e: DataflowListEntry| e.status == DataflowStatus::Running;
    assert(list =~= first + second);
    Seq::filter_distributes_over_add(first, second, active);
    lemma_filter_all(first, active);
    lemma_filter_none(second, active);
    assert(list.filter(active) =~= first);
    let ids = active_of(list);
    assert(ids =~= first.map_values(|e: DataflowListEntry| e.id));
    assert forall|uuid: u128| #[trigger] running.contains_key(uuid) implies exists|i: int|
        #![trigger ids[i]]
        0 <= i < ids.len() && ids[i].uuid == uuid by {
        let i = choose|i: int|
            #![trigger first[i]]
            0 <= i < first.len() && first[i].id.uuid == uuid;
        assert(ids[i].uuid == uuid);
    }
    assert forall|i: int, j: int|
        #![trigger ids[i], ids[j]]
        0 <= i < j < ids.len() implies named_before(ids[i].id(), ids[j].id()) by {
        assert(first[i].id == ids[i] && first[j].id == ids[j]);
    }
    assert forall|i: int| #![trigger ids[i]] 0 <= i < ids.len() implies running.contains_key(
        ids[i].uuid,
    ) && ids[i].name == running[ids[i].uuid].name by {
        assert(first[i].id == ids[i]);
    }
}

/// Whether a node of a running dataflow runs on a daemon.
pub open spec fn is_placed(
    running: Map<u128, RunningDataflow>,
    uuid: DataflowId,
    node: Seq<char>,
) -> bool {
    &&& running.contains_key(uuid)
    &&& running[uuid].nodes@.contains_key(node)
    &&& running[uuid].node_to_daemon@.contains_key(node)
}

/// Whether the `i`-th of the infos is on the given node.
pub open spec fn tells_of(infos: Seq<NodeInfo>, i: int, uuid: DataflowId, node: Seq<char>) -> bool {
    0 <= i < infos.len() && infos[i].dataflow_id == uuid && infos[i].node_id@ == node
}

/// What was last measured of a node, if anything was.
pub open spec fn last_metrics(dataflow: RunningDataflow, node: Seq<char>) -> Option<NodeMetrics> {
    if dataflow.node_metrics@.contains_key(node) {
        Some(dataflow.node_metrics@[node])
    } else {
        None
    }
}

/// Each node of a running dataflow that runs on a daemon is told of once, with that daemon and
/// with what was last measured of it, and no other node is.
pub proof fn law_each_placed_node_is_told_of_once(
    running: Map<u128, RunningDataflow>,
    infos: Seq<NodeInfo>,
    uuid: DataflowId,
    node: Seq<char>,
)
    requires
        running_wf(running),
        tells_of_all_nodes(infos, running),
    ensures
        is_placed(running, uuid, node) <==> exists|i: int| tells_of(infos, i, uuid, node),
        forall|i: int, j: int|
            #![trigger tells_of(infos, i, uuid, node), tells_of(infos, j, uuid, node)]
            tells_of(infos, i, uuid, node) && tells_of(infos, j, uuid, node) ==> i == j,
        forall|i: int| #[trigger]
            tells_of(infos, i, uuid, node) ==> infos[i].daemon_id
                == running[uuid].node_to_daemon@[node] && infos[i].dataflow_name
                == running[uuid].name && infos[i].metrics == last_metrics(running[uuid], node),
{
    let walk = choose|walk: Seq<u128>|
        is_walk(walk, running) && infos == #[trigger] all_node_infos(running, walk);
    assert forall|k: int| #![trigger walk[k]] 0 <= k < walk.len() implies running.contains_key(
        walk[k],
    ) by {
        assert(walk.contains(walk[k]));
    }
    lemma_all_node_infos(running, walk, uuid, node);
}

/// What the infos along a walk without repetitions tell of a node.
proof fn lemma_all_node_infos(
    running: Map<u128, RunningDataflow>,
    walk: Seq<u128>,
    uuid: DataflowId,
    node: Seq<char>,
)
    requires
        running_wf(running),
        walk.no_duplicates(),
        forall|k: int| #![trigger walk[k]] 0 <= k < walk.len() ==> running.contains_key(walk[k]),
    ensures
        ({
            let infos = all_node_infos(running, walk);
            &&& (walk.contains(uuid) && is_placed(running, uuid, node)) <==> exists|i: int|
                tells_of(infos, i, uuid, node)
            &&& forall|i: int, j: int|
                #![trigger tells_of(infos, i, uuid, node), tells_of(infos, j, uuid, node)]
                tells_of(infos, i, uuid, node) && tells_of(infos, j, uuid, node) ==> i == j
            &&& forall|i: int| #[trigger]
                tells_of(infos, i, uuid, node) ==> infos[i].daemon_id
                    == running[uuid].node_to_daemon@[node] && infos[i].dataflow_name
                    == running[uuid].name && infos[i].metrics == last_metrics(running[uuid], node)
        }),
    decreases walk.len(),
{
    let infos = all_node_infos(running, walk);
    if walk.len() > 0 {
        let shorter = walk.drop_last();
        let last = walk.last();
        let dataflow = running[last];
        let before = all_node_infos(running, shorter);
        let more = node_infos(dataflow, dataflow.nodes.entries().len() as int);
        assert(walk[walk.len() - 1] == last);
        assert(running.contains_key(last));
        assert forall|k: int| #![trigger shorter[k]] 0 <= k < shorter.len() implies
            running.contains_key(shorter[k]) by {
            assert(shorter[k] == walk[k]);
        }
        lemma_all_node_infos(running, shorter, uuid, node);
        lemma_node_infos(dataflow, dataflow.nodes.entries().len() as int, node);
        assert(infos == before + more);
        assert(!shorter.contains(last)) by {
            if shorter.contains(last) {
                let k = shorter.index_of(last);
                assert(walk[k] == walk[walk.len() - 1]);
            }
        }
        assert(walk.contains(uuid) <==> shorter.contains(uuid) || uuid == last) by {
            assert(walk =~= shorter.push(last));
            lemma_pushed(shorter, last);
        }
        assert forall|i: int| tells_of(infos, i, uuid, node) implies tells_of(
            before,
            i,
            uuid,
            node,
        ) || (uuid == last && told_at(more, i - before.len(), node)) by {
            if i >= before.len() {
                assert(infos[i] == more[i - before.len()]);
            }
        }
        assert forall|i: int| #[trigger] tells_of(before, i, uuid, node) implies tells_of(
            infos,
            i,
            uuid,
            node,
        ) by {}
        assert forall|i: int| #[trigger] told_at(more, i, node) && uuid == last implies tells_of(
            infos,
            i + before.len(),
            uuid,
            node,
        ) by {
            assert(infos[i + before.len()] == more[i]);
        }
        if is_placed(running, uuid, node) && uuid == last {
            let i = choose|i: int| told_at(more, i, node);
            assert(told_at(more, i, node));
            assert(tells_of(infos, i + before.len(), uuid, node));
        }
        if shorter.contains(uuid) && is_placed(running, uuid, node) {
            let i = choose|i: int| tells_of(before, i, uuid, node);
            assert(tells_of(infos, i, uuid, node));
        }
    }
}

/// Whether the `i`-th of a dataflow's infos is on the given node.
spec fn told_at(infos: Seq<NodeInfo>, i: int, node: Seq<char>) -> bool {
    0 <= i < infos.len() && infos[i].node_id@ == node
}

/// What the infos of the first `n` nodes of a dataflow tell of a node.
proof fn lemma_node_infos(dataflow: RunningDataflow, n: int, node: Seq<char>)
    requires
        dataflow.wf(),
        0 <= n <= dataflow.nodes.entries().len(),
    ensures
        ({
            let infos = node_infos(dataflow, n);
            let entries = dataflow.nodes.entries();
            &&& (dataflow.node_to_daemon@.contains_key(node) && exists|k: int|
                #![trigger entries[k]]
                0 <= k < n && entries[k].0@ == node) <==> exists|i: int| told_at(infos, i, node)
            &&& forall|i: int, j: int|
                #![trigger told_at(infos, i, node), told_at(infos, j, node)]
                told_at(infos, i, node) && told_at(infos, j, node) ==> i == j
            &&& forall|i: int|
                #![trigger infos[i]]
                0 <= i < infos.len() ==> infos[i].dataflow_id == dataflow.uuid
                    && infos[i].dataflow_name == dataflow.name && infos[i].daemon_id
                    == dataflow.node_to_daemon@[infos[i].node_id@] && infos[i].metrics
                    == last_metrics(dataflow, infos[i].node_id@)
        }),
        n == dataflow.nodes.entries().len() ==> (dataflow.nodes@.contains_key(node) <==> exists|
            k: int,
        |
            #![trigger dataflow.nodes.entries()[k]]
            0 <= k < n && dataflow.nodes.entries()[k].0@ == node),
    decreases n,
{
    let infos = node_infos(dataflow, n);
    let entries = dataflow.nodes.entries();
    if n > 0 {
        let before = node_infos(dataflow, n - 1);
        lemma_node_infos(dataflow, n - 1, node);
        let name = entries[n - 1].0;
        if name@ == node {
            assert forall|k: int| #![trigger entries[k]] 0 <= k < n - 1 implies entries[k].0@
                != node by {
                lemma_entry(entries, n - 1);
                if entries[k].0@ == node {
                    assert(entry_at(entries, entries[n - 1].0.id(), k));
                }
            }
        }
        if dataflow.node_to_daemon@.contains_key(name@) {
            assert(infos == before.push(node_info(dataflow, name)));
            assert forall|i: int| told_at(infos, i, node) implies told_at(before, i, node) || (i
                == before.len() && name@ == node) by {}
            assert forall|i: int| #[trigger] told_at(before, i, node) implies told_at(
                infos,
                i,
                node,
            ) by {}
            if name@ == node {
                assert(told_at(infos, before.len() as int, node));
            }
        }
        if exists|k: int| #![trigger entries[k]] 0 <= k < n - 1 && entries[k].0@ == node {
            let k = choose|k: int| #![trigger entries[k]] 0 <= k < n - 1 && entries[k].0@ == node;
            assert(entries[k].0@ == node && k < n);
        }
    }
    if n == entries.len() {
        if dataflow.nodes@.contains_key(node) {
            assert(has_entry(entries, node));
            let k = choose|k: int| entry_at(entries, node, k);
            assert(entries[k].0@ == node);
        }
        if exists|k: int| #![trigger entries[k]] 0 <= k < n && entries[k].0@ == node {
            let k = choose|k: int| #![trigger entries[k]] 0 <= k < n && entries[k].0@ == node;
            lemma_entry(entries, k);
        }
    }
}

/// A filter that every element passes keeps the sequence.
proof fn lemma_filter_all<A>(list: Seq<A>, keep: spec_fn(A) -> bool)
    requires
        forall|i: int| #![trigger list[i]] 0 <= i < list.len() ==> keep(list[i]),
    ensures
        list.filter(keep) == list,
    decreases list.len(),
{
    reveal(Seq::filter);
    if list.len() > 0 {
        lemma_filter_all(list.drop_last(), keep);
        assert(list.drop_last().push(list.last()) =~= list);
    }
}

/// A filter that no element passes leaves nothing.
proof fn lemma_filter_none<A>(list: Seq<A>, keep: spec_fn(A) -> bool)
    requires
        forall|i: int| #![trigger list[i]] 0 <= i < list.len() ==> !keep(list[i]),
    ensures
        list.filter(keep) == Seq::<A>::empty(),
    decreases list.len(),
{
    reveal(Seq::filter);
    if list.len() > 0 {
        lemma_filter_none(list.drop_last(), keep);
    }
}

/// Whether a dataflow was given the name.
pub open spec fn given_name(name: Option<String>, text: Seq<char>) -> bool {
    name is Some && name->0@ == text
}

/// A name stands for the one running dataflow that was given it; if none runs under it, for the
/// one ended dataflow that was. It is refused where several compete, or none has it.
pub proof fn law_name_stands_for_the_one_dataflow_that_has_it(
    running: Map<u128, RunningDataflow>,
    archived: Map<u128, ArchivedDataflow>,
    name: Seq<char>,
    r: Result<DataflowId, ServerError>,
    a: u128,
    b: u128,
)
    requires
        name_resolves(running, archived, name, r),
    ensures
        r matches Ok(uuid) ==> (running.contains_key(uuid) && given_name(running[uuid].name, name))
            || (archived.contains_key(uuid) && given_name(archived[uuid].name, name)),
        running.contains_key(a) && given_name(running[a].name, name) && r is Ok ==> r->Ok_0 == a,
        running.contains_key(a) && given_name(running[a].name, name) && r is Err ==> r->Err_0
            is MultipleDataflows,
        running.contains_key(a) && running.contains_key(b) && a != b && given_name(
            running[a].name,
            name,
        ) && given_name(running[b].name, name) ==> r is Err && r->Err_0 is MultipleDataflows,
        r matches Err(ServerError::MultipleDataflows(n)) ==> n@ == name && exists|x: u128, y: u128|
            x != y && #[trigger] running.contains_key(x) && #[trigger] running.contains_key(y)
                && given_name(running[x].name, name) && given_name(running[y].name, name),
        (forall|uuid: u128|
            running.contains_key(uuid) ==> !given_name((#[trigger] running[uuid]).name, name)) ==> {
            &&& archived.contains_key(a) && given_name(archived[a].name, name) && r is Ok
                ==> r->Ok_0 == a
            &&& archived.contains_key(a) && given_name(archived[a].name, name) && r is Err
                ==> r->Err_0 is MultipleArchived
            &&& archived.contains_key(a) && archived.contains_key(b) && a != b && given_name(
                archived[a].name,
                name,
            ) && given_name(archived[b].name, name) ==> r is Err && r->Err_0 is MultipleArchived
        },
        r matches Err(ServerError::MultipleArchived(n)) ==> n@ == name && exists|x: u128, y: u128|
            x != y && #[trigger] archived.contains_key(x) && #[trigger] archived.contains_key(y)
                && given_name(archived[x].name, name) && given_name(archived[y].name, name),
        r matches Err(ServerError::NoDataflowNamed(n)) ==> n@ == name && !(running.contains_key(a)
            && given_name(running[a].name, name)) && !(archived.contains_key(a) && given_name(
            archived[a].name,
            name,
        )),
        r matches Err(error) ==> error is NoDataflowNamed || error is MultipleDataflows || error
            is MultipleArchived,
{
    let runs = |uuid: u128| runs_as(running, name, uuid);
    let ran = |uuid: u128| ran_as(archived, name, uuid);
    assert(runs(a) == runs_as(running, name, a));
    assert(runs(b) == runs_as(running, name, b));
    assert(ran(a) == ran_as(archived, name, a));
    assert(ran(b) == ran_as(archived, name, b));
    if several(runs) {
        let (x, y) = choose|x: u128, y: u128| x != y && #[trigger] runs(x) && #[trigger] runs(y);
        assert(running.contains_key(x) && running.contains_key(y));
        assert(runs(x) && runs(y));
    }
    if several(ran) {
        let (x, y) = choose|x: u128, y: u128| x != y && #[trigger] ran(x) && #[trigger] ran(y);
        assert(archived.contains_key(x) && archived.contains_key(y));
        assert(ran(x) && ran(y));
    }
    if r is Ok {
        let uuid = r->Ok_0;
        assert(runs(uuid) ==> runs_as(running, name, uuid));
        assert(ran(uuid) ==> ran_as(archived, name, uuid));
    }
}

/// A check says that a dataflow runs just when it does. Of one that does not run it tells how
/// each node ended that some daemon reports on, by the last report, and of no other node.
pub proof fn law_check_tells_how_every_node_ended(
    running: Map<u128, RunningDataflow>,
    results: Map<u128, DaemonResults>,
    uuid: DataflowId,
    timestamp: Timestamp,
    reply: ControlRequestReply,
    i: int,
    node: Seq<char>,
)
    requires
        is_check_reply(running, results, uuid, timestamp, reply),
    ensures
        running.contains_key(uuid) <==> reply == (ControlRequestReply::DataflowSpawned { uuid }),
        !running.contains_key(uuid) ==> (reply matches ControlRequestReply::DataflowStopped {
            uuid: u,
            result,
        } && tells_how_it_ended(results, uuid, timestamp, u, result, i, node)),
{
    if !running.contains_key(uuid) {
        lemma_end_result(results, uuid, timestamp, reply->DataflowStopped_result, i, node);
    }
}

/// Whether a result of the dataflow `told` is that of the dataflow `uuid`: it tells of the node
/// just when some daemon reports on it, and, if the `i`-th daemon is the last that does, says
/// what that daemon says.
pub open spec fn tells_how_it_ended(
    results: Map<u128, DaemonResults>,
    uuid: DataflowId,
    timestamp: Timestamp,
    told: DataflowId,
    result: DataflowResult,
    i: int,
    node: Seq<char>,
) -> bool {
    let reports = results[uuid].entries();
    &&& told == uuid
    &&& result.uuid == uuid
    &&& result.timestamp == timestamp
    &&& !results.contains_key(uuid) ==> !result.node_results@.contains_key(node)
    &&& results.contains_key(uuid) ==> {
        &&& result.node_results@.contains_key(node) <==> exists|k: int|
            #![trigger reports[k]]
            0 <= k < reports.len() && reports[k].1.node_results@.contains_key(node)
        &&& 0 <= i < reports.len() && reports[i].1.node_results@.contains_key(node) && (forall|
            j: int,
        |
            #![trigger reports[j]]
            i < j < reports.len() ==> !reports[j].1.node_results@.contains_key(node))
            ==> result.node_results@[node] == reports[i].1.node_results@[node]
    }
}

/// The result of a dataflow that does not run tells how every node ended.
proof fn lemma_end_result(
    results: Map<u128, DaemonResults>,
    uuid: DataflowId,
    timestamp: Timestamp,
    result: DataflowResult,
    i: int,
    node: Seq<char>,
)
    requires
        is_end_result(results, uuid, timestamp, result),
    ensures
        tells_how_it_ended(results, uuid, timestamp, uuid, result, i, node),
{
    law_result_is_put_together_from_all_daemons(results[uuid].entries(), i, node);
}

/// A dataflow whose end was reported is not stopped again: it is answered how every node ended.
/// Any other one is stopped, with the grace and the force that were asked for.
pub proof fn law_stop_answers_or_stops(
    results: Map<u128, DaemonResults>,
    uuid: DataflowId,
    grace_duration: Option<Duration>,
    force: bool,
    timestamp: Timestamp,
    step: StopStep,
    i: int,
    node: Seq<char>,
)
    requires
        is_stop_step(results, uuid, grace_duration, force, timestamp, step),
    ensures
        results.contains_key(uuid) ==> (step matches StopStep::Reply(
            ControlRequestReply::DataflowStopped { uuid: u, result },
        ) && tells_how_it_ended(results, uuid, timestamp, u, result, i, node)),
        !results.contains_key(uuid) ==> step == (StopStep::Stop {
            dataflow_uuid: uuid,
            grace_duration,
            force,
        }),
{
    if results.contains_key(uuid) {
        lemma_end_result(
            results,
            uuid,
            timestamp,
            step->Reply_0->DataflowStopped_result,
            i,
            node,
        );
    }
}

/// A stop of an ended dataflow and a check of it tell the same result.
pub proof fn law_stop_and_check_tell_the_same(
    running: Map<u128, RunningDataflow>,
    results: Map<u128, DaemonResults>,
    uuid: DataflowId,
    grace_duration: Option<Duration>,
    force: bool,
    timestamp: Timestamp,
    step: StopStep,
    reply: ControlRequestReply,
)
    requires
        results.contains_key(uuid),
        !running.contains_key(uuid),
        is_stop_step(results, uuid, grace_duration, force, timestamp, step),
        is_check_reply(running, results, uuid, timestamp, reply),
    ensures
        step matches StopStep::Reply(ControlRequestReply::DataflowStopped { uuid: a, result: x })
            && (reply matches ControlRequestReply::DataflowStopped { uuid: b, result: y } && a == b
            && x.uuid == y.uuid && x.timestamp == y.timestamp && x.node_results@
            == y.node_results@),
{
}

/// A dataflow is started as it was asked for, under the name that was asked for or else under one
/// of two words with a hyphen between them, and only if no running dataflow has that name. It is
/// refused only because one has.
pub proof fn law_start_takes_free_names_only(
    running: Map<u128, RunningDataflow>,
    request: StartRequest,
    r: Result<StartRequest, ServerError>,
    uuid: u128,
)
    requires
        is_start(running, request, r),
    ensures
        r matches Ok(start) ==> {
            &&& start.build_id == request.build_id
            &&& start.session_id == request.session_id
            &&& start.dataflow == request.dataflow
            &&& start.local_working_dir == request.local_working_dir
            &&& start.uv == request.uv
            &&& start.write_events_to == request.write_events_to
            &&& start.name is Some
            &&& request.name is Some ==> start.name == request.name
            &&& request.name is None ==> is_two_words(start.name->0@)
            &&& running.contains_key(uuid) ==> !given_name(running[uuid].name, start.name->0@)
        },
        r matches Err(error) ==> (error matches ServerError::NameTaken(name) && {
            &&& request.name is Some ==> request.name == Some(name)
            &&& request.name is None ==> is_two_words(name@)
            &&& exists|other: u128|
                running.contains_key(other) && given_name((#[trigger] running[other]).name, name@)
        }),
{
    if let Ok(start) = r {
        if running.contains_key(uuid) && given_name(running[uuid].name, start.name->0@) {
            assert(runs_as(running, start.name->0@, uuid));
        }
        if request.name is None {
            let name = start.name->0@;
            let (first, second) = choose|first: Seq<char>, second: Seq<char>|
                first.len() > 0 && second.len() > 0 && name == #[trigger] (first + seq!['-']
                    + second);
            lemma_is_two_words(first, second);
        }
    }
    if let Err(ServerError::NameTaken(name)) = r {
        let other = choose|other: u128| runs_as(running, name@, other);
        assert(given_name(running[other].name, name@));
        if request.name is None {
            let (first, second) = choose|first: Seq<char>, second: Seq<char>|
                first.len() > 0 && second.len() > 0 && name@ == #[trigger] (first + seq!['-']
                    + second);
            lemma_is_two_words(first, second);
        }
    }
}

/// Whether a name has a hyphen with something before and after it.
pub open spec fn is_two_words(name: Seq<char>) -> bool {
    exists|at: int| 0 < at < name.len() - 1 && #[trigger] name[at] == '-'
}

/// Two words joined by a hyphen have it with something before and after it.
proof fn lemma_is_two_words(first: Seq<char>, second: Seq<char>)
    requires
        first.len() > 0,
        second.len() > 0,
    ensures
        is_two_words(first + seq!['-'] + second),
{
    assert((first + seq!['-'] + second)[first.len() as int] == '-');
}

/// The address of the default daemon is that of the connected daemon with the smallest identifier
/// among those without a machine name; without such a daemon there is none.
pub proof fn law_default_daemon_is_the_first_unnamed_one<B, C>(
    state: CoordinatorState<B, C>,
    uuid: u128,
)
    requires
        state.daemon_connections.wf(),
    ensures
        ({
            let daemons = state.daemon_connections.daemons@;
            &&& daemons.contains_key((None, uuid)) && (forall|other: u128| #[trigger]
                daemons.contains_key((None, other)) ==> uuid <= other) ==> default_daemon_ip(state)
                == daemons[(None, uuid)].peer_ip
            &&& (forall|other: u128| !daemons.contains_key((None, other))) ==> default_daemon_ip(
                state,
            ) is None
            &&& default_daemon_ip(state) is Some ==> exists|first: u128| #[trigger]
                daemons.contains_key((None, first)) && default_daemon_ip(state)
                    == daemons[(None, first)].peer_ip && forall|other: u128| #[trigger]
                daemons.contains_key((None, other)) ==> first <= other
        }),
{
    let daemons = state.daemon_connections.daemons@;
    law_first_daemon_of_a_machine_is_taken(state.daemon_connections, None);
    if let Some(daemon) = state.daemon_connections.daemon_for(None) {
        assert(daemons.contains_key((None, daemon.uuid)));
        assert(daemon.id() == (None::<Seq<char>>, daemon.uuid));
        if daemons.contains_key((None, uuid)) && (forall|other: u128| #[trigger]
            daemons.contains_key((None, other)) ==> uuid <= other) {
            assert(uuid == daemon.uuid);
        }
    }
}

/// What is told of a running dataflow is what it was started with.
pub proof fn law_info_is_what_the_dataflow_was_started_with(
    running: Map<u128, RunningDataflow>,
    dataflow_uuid: DataflowId,
    uuid: DataflowId,
    name: Option<String>,
    descriptor: Descriptor,
)
    requires
        is_info(running, dataflow_uuid, uuid, name, descriptor),
    ensures
        running.contains_key(dataflow_uuid),
        uuid == dataflow_uuid,
        name == running[dataflow_uuid].name,
        descriptor.nodes@ == running[dataflow_uuid].descriptor.nodes@,
        descriptor.definition@ == running[dataflow_uuid].descriptor.definition@,
{
}

/// Logs are retrieved of the node and as far back as was asked for. An identifier that is given
/// is taken as it is, whatever the name; a name alone stands for what it stands for elsewhere;
/// with neither nothing is retrieved.
pub proof fn law_logs_are_of_the_dataflow_that_is_meant<B, C>(
    state: CoordinatorState<B, C>,
    uuid: Option<DataflowId>,
    name: Option<String>,
    node: String,
    tail: Option<usize>,
    r: Result<Call, ServerError>,
    resolved: Result<DataflowId, ServerError>,
)
    requires
        logs_resolve(state, uuid, name, node, tail, r),
        name is Some ==> name_resolves(
            state.running_dataflows@,
            state.archived_dataflows@,
            name->0@,
            resolved,
        ),
    ensures
        r matches Ok(call) ==> (call matches Call::RetrieveLogs {
            dataflow_uuid,
            node: n,
            tail: t,
        } && n == node && t == tail && dataflow_uuid == (match uuid {
            Some(uuid) => uuid,
            None => resolved->Ok_0,
        })),
        uuid is Some ==> r is Ok,
        uuid is None && name is Some ==> (r is Ok <==> resolved is Ok),
        uuid is None && name is None ==> r == Err::<Call, _>(ServerError::NoUuid),
{
    if uuid is None && name is Some {
        let answer: Result<DataflowId, ServerError> = match r {
            Ok(Call::RetrieveLogs { dataflow_uuid, .. }) => Ok(dataflow_uuid),
            Ok(_) => Ok(0),
            Err(error) => Err(error),
        };
        law_name_has_one_meaning(
            state.running_dataflows@,
            state.archived_dataflows@,
            name->0@,
            answer,
            resolved,
        );
    }
}

/// What the daemons are to do for a request carries what the request asks for.
pub proof fn law_calls_carry_the_request<B, C>(
    state: CoordinatorState<B, C>,
    request: ControlRequest,
    timestamp: Timestamp,
    call: Call,
)
    requires
        is_control_step(state, request, timestamp, ControlStep::Await(call)),
    ensures
        match request {
            ControlRequest::Build(build) => call matches Call::Build { build_id, request: r } && r
                == build && (build_id >> 76) & 0xf == 4 && (build_id >> 62) & 3 == 2,
            ControlRequest::Start(start) => call matches Call::Start(named) && named.dataflow
                == start.dataflow && named.session_id == start.session_id && named.build_id
                == start.build_id && (start.name is Some ==> named.name == start.name),
            ControlRequest::Reload { dataflow_id, node_id, operator_id } => call == (Call::Reload {
                dataflow_id,
                node_id,
                operator_id,
            }),
            ControlRequest::Logs { uuid, node, tail, .. } => call matches Call::RetrieveLogs {
                dataflow_uuid,
                node: n,
                tail: t,
            } && n == node && t == tail && (uuid is Some ==> dataflow_uuid == uuid->0),
            ControlRequest::Destroy => call == Call::Destroy,
            _ => false,
        },
{
}

/// A request that took the daemons something is answered by what they did: it succeeds just when
/// they did, with their answer and for the build or dataflow it was about, and fails with their
/// words.
pub proof fn law_answers_say_what_the_daemons_did<B>(outcome: Outcome<B>)
    ensures
        match outcome {
            Outcome::Build { build_id, result } => match result {
                Ok(_) => finished_reply(outcome) matches Ok(
                    ControlRequestReply::DataflowBuildTriggered { build_id: id },
                ) && id == build_id,
                Err(text) => finished_reply(outcome) matches Err(ServerError::Outside(t)) && t
                    == text,
            },
            Outcome::Start(result) => match result {
                Ok(dataflow) => finished_reply(outcome) matches Ok(
                    ControlRequestReply::DataflowStartTriggered { uuid },
                ) && uuid == dataflow.uuid,
                Err(text) => finished_reply(outcome) matches Err(ServerError::Outside(t)) && t
                    == text,
            },
            Outcome::Reload { dataflow_id, result } => match result {
                Ok(_) => finished_reply(outcome) matches Ok(
                    ControlRequestReply::DataflowReloaded { uuid },
                ) && uuid == dataflow_id,
                Err(text) => finished_reply(outcome) matches Err(ServerError::Outside(t)) && t
                    == text,
            },
            Outcome::RetrieveLogs(result) => match result {
                Ok(data) => finished_reply(outcome) matches Ok(ControlRequestReply::Logs(d)) && d
                    == data,
                Err(text) => finished_reply(outcome) matches Err(ServerError::Outside(t)) && t
                    == text,
            },
            Outcome::Destroy(result) => match result {
                Ok(_) => finished_reply(outcome) matches Ok(ControlRequestReply::DestroyOk),
                Err(text) => finished_reply(outcome) matches Err(ServerError::Outside(t)) && t
                    == text,
            },
        },
{
}

/// A list tells of every dataflow that runs or ended, and of no other. One that runs is listed
/// once as running, under its name; one that ended once as finished or failed, under the name it
/// is archived under, if it is. It is finished just when no daemon reports a failed node.
pub proof fn law_list_tells_of_every_dataflow<B, C>(
    list: Seq<DataflowListEntry>,
    state: CoordinatorState<B, C>,
    uuid: u128,
    i: int,
    j: int,
)
    requires
        lists_all(list, state),
    ensures
        0 <= i < list.len() && list[i].status == DataflowStatus::Running ==> {
            &&& state.running_dataflows@.contains_key(list[i].id.uuid)
            &&& list[i].id.name == state.running_dataflows@[list[i].id.uuid].name
        },
        0 <= i < list.len() && list[i].status != DataflowStatus::Running ==> {
            let ended = list[i].id.uuid;
            let reports = state.dataflow_results@[ended].entries();
            &&& state.dataflow_results@.contains_key(ended)
            &&& state.archived_dataflows@.contains_key(ended) ==> list[i].id.name
                == state.archived_dataflows@[ended].name
            &&& !state.archived_dataflows@.contains_key(ended) ==> list[i].id.name is None
            &&& list[i].status == DataflowStatus::Finished <==> forall|k: int, node: Seq<char>|
                #![trigger reports[k].1.node_results@[node]]
                0 <= k < reports.len() && reports[k].1.node_results@.contains_key(node)
                    ==> reports[k].1.node_results@[node] is Ok
        },
        state.running_dataflows@.contains_key(uuid) ==> exists|k: int|
            #![trigger list[k]]
            0 <= k < list.len() && list[k].id.uuid == uuid && list[k].status
                == DataflowStatus::Running,
        state.dataflow_results@.contains_key(uuid) ==> exists|k: int|
            #![trigger list[k]]
            0 <= k < list.len() && list[k].id.uuid == uuid && list[k].status
                != DataflowStatus::Running,
        0 <= i < list.len() && 0 <= j < list.len() && list[i].id.uuid == list[j].id.uuid && (
        list[i].status == DataflowStatus::Running <==> list[j].status == DataflowStatus::Running)
            ==> i == j,
        0 <= i < j < list.len() && list[j].status == DataflowStatus::Running ==> list[i].status
            == DataflowStatus::Running && {
            let a = opt_text(list[i].id.name);
            let b = opt_text(list[j].id.name);
            opt_text_before(a, b) || (a == b && list[i].id.uuid < list[j].id.uuid)
        },
{
    let running = state.running_dataflows@;
    let results = state.dataflow_results@;
    let archived = state.archived_dataflows@;
    let walk = choose|walk: Seq<u128>|
        is_walk(walk, results) && #[trigger] is_list(list, running, results, archived, walk);
    let n = list.len() - walk.len();
    let first = list.take(n);
    let second = list.skip(n);
    lemma_list_entry(list, state, walk, i);
    lemma_list_entry(list, state, walk, j);
    if running.contains_key(uuid) {
        let k = choose|k: int|
            #![trigger first[k]]
            0 <= k < first.len() && first[k].id.uuid == uuid;
        assert(list[k] == first[k]);
    }
    if results.contains_key(uuid) {
        assert(walk.contains(uuid));
        let k = walk.index_of(uuid);
        assert(second[k] == list[n + k]);
        lemma_list_entry(list, state, walk, n + k);
        assert(list[n + k].id.uuid == uuid);
    }
    if 0 <= i < list.len() && 0 <= j < list.len() && list[i].id.uuid == list[j].id.uuid {
        if i < n && j < n && i != j {
            assert(first[i] == list[i] && first[j] == list[j]);
            lemma_named_order(list[i].id.id(), list[i].id.id(), list[i].id.id());
            if i < j {
                assert(named_before(first[i].id.id(), first[j].id.id()));
            } else {
                assert(named_before(first[j].id.id(), first[i].id.id()));
            }
        }
        if i >= n && j >= n {
            assert(walk[i - n] == walk[j - n]);
        }
    }
    if 0 <= i < j < n {
        assert(first[i] == list[i] && first[j] == list[j]);
        assert(named_before(first[i].id.id(), first[j].id.id()));
    }
}

/// What an entry of a list tells.
proof fn lemma_list_entry<B, C>(
    list: Seq<DataflowListEntry>,
    state: CoordinatorState<B, C>,
    walk: Seq<u128>,
    i: int,
)
    requires
        is_walk(walk, state.dataflow_results@),
        is_list(
            list,
            state.running_dataflows@,
            state.dataflow_results@,
            state.archived_dataflows@,
            walk,
        ),
    ensures
        0 <= i < list.len() - walk.len() ==> list[i].status == DataflowStatus::Running
            && state.running_dataflows@.contains_key(list[i].id.uuid) && list[i].id.name
            == state.running_dataflows@[list[i].id.uuid].name,
        list.len() - walk.len() <= i < list.len() ==> {
            let ended = list[i].id.uuid;
            let reports = state.dataflow_results@[ended].entries();
            &&& ended == walk[i - (list.len() - walk.len())]
            &&& list[i].status != DataflowStatus::Running
            &&& state.dataflow_results@.contains_key(ended)
            &&& state.archived_dataflows@.contains_key(ended) ==> list[i].id.name
                == state.archived_dataflows@[ended].name
            &&& !state.archived_dataflows@.contains_key(ended) ==> list[i].id.name is None
            &&& list[i].status == DataflowStatus::Finished <==> forall|k: int, node: Seq<char>|
                #![trigger reports[k].1.node_results@[node]]
                0 <= k < reports.len() && reports[k].1.node_results@.contains_key(node)
                    ==> reports[k].1.node_results@[node] is Ok
        },
{
    let n = list.len() - walk.len();
    if 0 <= i < n {
        assert(list.take(n)[i] == list[i]);
    }
    if n <= i < list.len() {
        assert(list.skip(n)[i - n] == list[i]);
        assert(walk.contains(walk[i - n]));
        law_daemons_are_ok_when_all_nodes_are(state.dataflow_results@[walk[i - n]].entries());
    }
}

/// Of two nodes of one dataflow the one with the smaller name is told of first.
pub proof fn law_nodes_are_told_of_by_name(
    running: Map<u128, RunningDataflow>,
    infos: Seq<NodeInfo>,
    i: int,
    j: int,
)
    requires
        running_wf(running),
        tells_of_all_nodes(infos, running),
        0 <= i < j < infos.len(),
        infos[i].dataflow_id == infos[j].dataflow_id,
    ensures
        text_before(infos[i].node_id@, infos[j].node_id@),
{
    let walk = choose|walk: Seq<u128>|
        is_walk(walk, running) && infos == #[trigger] all_node_infos(running, walk);
    assert forall|k: int| #![trigger walk[k]] 0 <= k < walk.len() implies running.contains_key(
        walk[k],
    ) by {
        assert(walk.contains(walk[k]));
    }
    lemma_all_infos_ascend(running, walk, i, j);
}

/// The infos along a walk come, for each dataflow, in the order of the node names.
proof fn lemma_all_infos_ascend(
    running: Map<u128, RunningDataflow>,
    walk: Seq<u128>,
    i: int,
    j: int,
)
    requires
        running_wf(running),
        walk.no_duplicates(),
        forall|k: int| #![trigger walk[k]] 0 <= k < walk.len() ==> running.contains_key(walk[k]),
        0 <= i < j < all_node_infos(running, walk).len(),
        all_node_infos(running, walk)[i].dataflow_id == all_node_infos(
            running,
            walk,
        )[j].dataflow_id,
    ensures
        text_before(
            all_node_infos(running, walk)[i].node_id@,
            all_node_infos(running, walk)[j].node_id@,
        ),
    decreases walk.len(),
{
    let infos = all_node_infos(running, walk);
    let shorter = walk.drop_last();
    let last = walk.last();
    let dataflow = running[last];
    let n = dataflow.nodes.entries().len() as int;
    let before = all_node_infos(running, shorter);
    let more = node_infos(dataflow, n);
    assert(walk[walk.len() - 1] == last);
    assert(infos == before + more);
    assert forall|k: int| #![trigger shorter[k]] 0 <= k < shorter.len() implies
        running.contains_key(shorter[k]) by {
        assert(shorter[k] == walk[k]);
    }
    lemma_node_infos(dataflow, n, infos[i].node_id@);
    if j < before.len() {
        lemma_all_infos_ascend(running, shorter, i, j);
    } else {
        assert(infos[j] == more[j - before.len()]);
        if i < before.len() {
            lemma_all_node_infos(running, shorter, last, infos[i].node_id@);
            assert(tells_of(before, i, last, infos[i].node_id@));
            assert(shorter.contains(last));
            let k = shorter.index_of(last);
            assert(walk[k] == walk[walk.len() - 1]);
        } else {
            lemma_infos_ascend(dataflow, n, i - before.len(), j - before.len());
        }
    }
}

/// The infos of a dataflow come in the order of the node names.
proof fn lemma_infos_ascend(dataflow: RunningDataflow, n: int, i: int, j: int)
    requires
        dataflow.wf(),
        0 <= n <= dataflow.nodes.entries().len(),
        0 <= i < j < node_infos(dataflow, n).len(),
    ensures
        text_before(node_infos(dataflow, n)[i].node_id@, node_infos(dataflow, n)[j].node_id@),
    decreases n,
{
    let entries = dataflow.nodes.entries();
    let infos = node_infos(dataflow, n);
    let before = node_infos(dataflow, n - 1);
    if j < before.len() {
        lemma_infos_ascend(dataflow, n - 1, i, j);
    } else {
        lemma_node_infos(dataflow, n - 1, infos[i].node_id@);
        assert(told_at(before, i, infos[i].node_id@));
        let k = choose|k: int|
            #![trigger entries[k]]
            0 <= k < n - 1 && entries[k].0@ == infos[i].node_id@;
        assert(String::before(entries[k].0.id(), entries[n - 1].0.id()));
    }
}

/// The time of a dataflow's end in an answer to a stop is what the clock told.
pub proof fn law_stop_answers_tell_the_time<B, C, F: FnOnce() -> Timestamp>(
    state: CoordinatorState<B, C>,
    uuid: DataflowId,
    grace_duration: Option<Duration>,
    force: bool,
    now: F,
    step: StopStep,
)
    requires
        stops(state, uuid, grace_duration, force, now, step),
    ensures
        step matches StopStep::Reply(ControlRequestReply::DataflowStopped { uuid: u, result })
            ==> call_ensures(now, (), result.timestamp) && u == uuid && result.uuid == uuid,
        step is Reply <==> state.dataflow_results@.contains_key(uuid),
        step matches StopStep::Stop { dataflow_uuid, grace_duration: g, force: f } ==> dataflow_uuid
            == uuid && g == grace_duration && f == force,
{
}

/// The clock is asked for just those answers that tell how a dataflow ended.
pub proof fn law_time_is_told_with_an_end<B, C>(
    state: CoordinatorState<B, C>,
    request: ControlRequest,
    timestamp: Timestamp,
    step: ControlStep,
)
    requires
        is_control_step(state, request, timestamp, step),
    ensures
        tells_time(state, request) <==> (step matches ControlStep::Reply(
            Ok(ControlRequestReply::DataflowStopped { .. }),
        )),
        step matches ControlStep::Reply(Ok(ControlRequestReply::DataflowStopped { uuid, result }))
            ==> result.timestamp == timestamp,
{
}

/// Two refusals for the same reason read alike but for what they are about: the build, the
/// dataflow, the name or the request.
pub proof fn law_refusals_read_alike(
    a: ServerError,
    b: ServerError,
    request_a: Seq<char>,
    request_b: Seq<char>,
)
    ensures
        ({
            let x = error_text(a, request_a);
            let y = error_text(b, request_b);
            match (a, b) {
                (ServerError::UnknownBuild(i), ServerError::UnknownBuild(j)) => same_frame(
                    x,
                    hyphenated(i),
                    y,
                    hyphenated(j),
                ),
                (ServerError::UnknownDataflow(i), ServerError::UnknownDataflow(j)) => same_frame(
                    x,
                    hyphenated(i),
                    y,
                    hyphenated(j),
                ),
                (ServerError::NotRunning(i), ServerError::NotRunning(j)) => same_frame(
                    x,
                    hyphenated(i),
                    y,
                    hyphenated(j),
                ),
                (ServerError::NameTaken(m), ServerError::NameTaken(n)) => same_frame(x, m@, y, n@),
                (ServerError::NoDataflowNamed(m), ServerError::NoDataflowNamed(n)) => same_frame(
                    x,
                    m@,
                    y,
                    n@,
                ),
                (ServerError::MultipleDataflows(m), ServerError::MultipleDataflows(n)) => {
                    same_frame(x, m@, y, n@)
                },
                (ServerError::MultipleArchived(m), ServerError::MultipleArchived(n)) => same_frame(
                    x,
                    m@,
                    y,
                    n@,
                ),
                (ServerError::HandledByCaller(_), ServerError::HandledByCaller(_)) => same_frame(
                    x,
                    request_a,
                    y,
                    request_b,
                ),
                (ServerError::Outside(s), ServerError::Outside(t)) => x == s@ && y == t@,
                (ServerError::NoUuid, ServerError::NoUuid) => x == y,
                _ => true,
            }
        }),
{
    match (a, b) {
        (ServerError::UnknownBuild(i), ServerError::UnknownBuild(j)) => lemma_same_frame(
            "unknown build id BuildId("@,
            hyphenated(i),
            hyphenated(j),
            ")"@,
        ),
        (ServerError::UnknownDataflow(i), ServerError::UnknownDataflow(j)) => lemma_same_start(
            "unknown dataflow "@,
            hyphenated(i),
            hyphenated(j),
        ),
        (ServerError::NotRunning(i), ServerError::NotRunning(j)) => lemma_same_frame(
            "No running dataflow with uuid `"@,
            hyphenated(i),
            hyphenated(j),
            "`"@,
        ),
        (ServerError::NameTaken(m), ServerError::NameTaken(n)) => lemma_same_frame(
            "there is already a running dataflow with name `"@,
            m@,
            n@,
            "`"@,
        ),
        (ServerError::NoDataflowNamed(m), ServerError::NoDataflowNamed(n)) => lemma_same_frame(
            "no dataflow with name `"@,
            m@,
            n@,
            "`"@,
        ),
        (ServerError::MultipleDataflows(m), ServerError::MultipleDataflows(n)) => lemma_same_frame(
            "multiple dataflows found with name `"@,
            m@,
            n@,
            "`"@,
        ),
        (ServerError::MultipleArchived(m), ServerError::MultipleArchived(n)) => lemma_same_frame(
            "multiple archived dataflows found with name `"@,
            m@,
            n@,
            "`, Please provide the UUID instead."@,
        ),
        (ServerError::HandledByCaller(_), ServerError::HandledByCaller(_)) => lemma_same_frame(
            "request "@,
            request_a,
            request_b,
            " must be handled by the caller"@,
        ),
        _ => {},
    }
}

} // verus!

//! How the coordinator answers the command line tool.
//!
//! What the coordinator can tell from its own state is answered here. Where it has to talk to
//! the daemons first, the server says what is to be done, and is told the outcome afterwards.

use vstd::prelude::*;

use crate::ids::{
    hyphenated, named_before, new_build_id, new_dataflow_name, two_words, uuid_standard_layout,
    uuid_text, uuid_version, BuildId, DaemonId, DataflowId, NodeId, OperatorId,
};
use crate::message::{
    no_failure, BuildRequest, CliAndDefaultDaemonIps, ControlRequest, ControlRequestReply,
    DataflowIdAndName, DataflowInfo, DataflowList, DataflowListEntry, DataflowResult,
    DataflowStatus, Descriptor, Duration, IpAddr, NodeInfo, NodeResult, StartRequest, Timestamp,
};
use crate::ordered::{entry_at, has_entry, lemma_entry, OrderedKey, SortedMap};
use crate::registry::{is_walk, Registry};
use crate::state::{
    all_daemons_ok, dataflow_result, merged_results, ran_as, results_wf, runs_as,
    ArchivedDataflow, CoordinatorState, DaemonResults, RunningDataflow,
};
use crate::text::{copy_opt_text, enclosed, opt_text, opt_text_is};

verus! {

/// Why a request was refused.
pub enum ServerError {
    UnknownBuild(BuildId),
    UnknownDataflow(DataflowId),
    NameTaken(String),
    NoUuid,
    NotRunning(DataflowId),
    NoDataflowNamed(String),
    MultipleDataflows(String),
    MultipleArchived(String),
    /// The request is not for the server: whoever holds the connection has to answer it.
    HandledByCaller(ControlRequest),
    /// What had to be done with the daemons failed.
    Outside(String),
}

/// The text of a refusal. A request that is given back appears in it as `request`.
pub open spec fn error_text(error: ServerError, request: Seq<char>) -> Seq<char> {
    match error {
        ServerError::UnknownBuild(id) => "unknown build id BuildId("@ + hyphenated(id) + ")"@,
        ServerError::UnknownDataflow(id) => "unknown dataflow "@ + hyphenated(id),
        ServerError::NameTaken(name) => "there is already a running dataflow with name `"@ + name@
            + "`"@,
        ServerError::NoUuid => "No uuid"@,
        ServerError::NotRunning(id) => "No running dataflow with uuid `"@ + hyphenated(id) + "`"@,
        ServerError::NoDataflowNamed(name) => "no dataflow with name `"@ + name@ + "`"@,
        ServerError::MultipleDataflows(name) => "multiple dataflows found with name `"@ + name@
            + "`"@,
        ServerError::MultipleArchived(name) => "multiple archived dataflows found with name `"@
            + name@ + "`, Please provide the UUID instead."@,
        ServerError::HandledByCaller(_) => "request "@ + request
            + " must be handled by the caller"@,
        ServerError::Outside(text) => text@,
    }
}

impl ServerError {
    /// The text of the refusal. `request` is how a request that is given back is written out.
    pub fn message(&self, request: &str) -> (r: String)
        ensures
            r@ == error_text(*self, request@),
    {
        match self {
            ServerError::UnknownBuild(id) => enclosed(
                "unknown build id BuildId(",
                uuid_text(*id).as_str(),
                ")",
            ),
            ServerError::UnknownDataflow(id) => {
                let mut r = "unknown dataflow ".to_owned();
                r.append(uuid_text(*id).as_str());
                r
            },
            ServerError::NameTaken(name) => enclosed(
                "there is already a running dataflow with name `",
                name.as_str(),
                "`",
            ),
            ServerError::NoUuid => "No uuid".to_owned(),
            ServerError::NotRunning(id) => enclosed(
                "No running dataflow with uuid `",
                uuid_text(*id).as_str(),
                "`",
            ),
            ServerError::NoDataflowNamed(name) => enclosed(
                "no dataflow with name `",
                name.as_str(),
                "`",
            ),
            ServerError::MultipleDataflows(name) => enclosed(
                "multiple dataflows found with name `",
                name.as_str(),
                "`",
            ),
            ServerError::MultipleArchived(name) => enclosed(
                "multiple archived dataflows found with name `",
                name.as_str(),
                "`, Please provide the UUID instead.",
            ),
            ServerError::HandledByCaller(_) => enclosed(
                "request ",
                request,
                " must be handled by the caller",
            ),
            ServerError::Outside(text) => text.clone(),
        }
    }
}

/// Whether no identifier has the property.
pub open spec fn nobody(named: spec_fn(u128) -> bool) -> bool {
    forall|uuid: u128| !(#[trigger] named(uuid))
}

/// Whether exactly one identifier has the property, the given one.
pub open spec fn only(named: spec_fn(u128) -> bool, uuid: u128) -> bool {
    named(uuid) && forall|other: u128| #[trigger] named(other) ==> other == uuid
}

/// Whether two identifiers or more have the property.
pub open spec fn several(named: spec_fn(u128) -> bool) -> bool {
    exists|a: u128, b: u128| a != b && #[trigger] named(a) && #[trigger] named(b)
}

/// Which dataflow a name stands for: the running one with that name. Without one it is the
/// ended one with that name. Where several have the name, it stands for none.
pub open spec fn name_resolves(
    running: Map<u128, RunningDataflow>,
    archived: Map<u128, ArchivedDataflow>,
    name: Seq<char>,
    r: Result<DataflowId, ServerError>,
) -> bool {
    let runs = |uuid: u128| runs_as(running, name, uuid);
    let ran = |uuid: u128| ran_as(archived, name, uuid);
    match r {
        Ok(uuid) => only(runs, uuid) || (nobody(runs) && only(ran, uuid)),
        Err(ServerError::NoDataflowNamed(n)) => n@ == name && nobody(runs) && nobody(ran),
        Err(ServerError::MultipleArchived(n)) => n@ == name && nobody(runs) && several(ran),
        Err(ServerError::MultipleDataflows(n)) => n@ == name && several(runs),
        Err(_) => false,
    }
}

/// The running dataflows with the given name.
fn running_named(running: &Registry<RunningDataflow>, name: &str) -> (r: Vec<u128>)
    requires
        running.wf(),
    ensures
        r@.no_duplicates(),
        forall|uuid: u128| #[trigger] r@.contains(uuid) <==> runs_as(running@, name@, uuid),
{
    let walk = running.walk();
    let mut r: Vec<u128> = Vec::new();
    let mut i: usize = 0;
    while i < walk.len()
        invariant
            running.wf(),
            is_walk(walk@, running@),
            i <= walk@.len(),
            r@.no_duplicates(),
            forall|uuid: u128| #[trigger]
                r@.contains(uuid) <==> walk@.take(i as int).contains(uuid) && runs_as(
                    running@,
                    name@,
                    uuid,
                ),
        decreases walk@.len() - i,
    {
        let uuid = walk[i];
        let ghost before = r@;
        assert(walk@.contains(uuid));
        assert(!walk@.take(i as int).contains(uuid));
        if let Some(dataflow) = running.get(uuid) {
            if opt_text_is(&dataflow.name, name) {
                r.push(uuid);
            }
        }
        proof {
            lemma_taken(walk@, i as int);
            lemma_pushed(before, uuid);
        }
        i = i + 1;
    }
    assert(walk@.take(i as int) =~= walk@);
    r
}

/// The ended dataflows that had the given name.
fn archived_named(archived: &Registry<ArchivedDataflow>, name: &str) -> (r: Vec<u128>)
    requires
        archived.wf(),
    ensures
        r@.no_duplicates(),
        forall|uuid: u128| #[trigger] r@.contains(uuid) <==> ran_as(archived@, name@, uuid),
{
    let walk = archived.walk();
    let mut r: Vec<u128> = Vec::new();
    let mut i: usize = 0;
    while i < walk.len()
        invariant
            archived.wf(),
            is_walk(walk@, archived@),
            i <= walk@.len(),
            r@.no_duplicates(),
            forall|uuid: u128| #[trigger]
                r@.contains(uuid) <==> walk@.take(i as int).contains(uuid) && ran_as(
                    archived@,
                    name@,
                    uuid,
                ),
        decreases walk@.len() - i,
    {
        let uuid = walk[i];
        let ghost before = r@;
        assert(walk@.contains(uuid));
        assert(!walk@.take(i as int).contains(uuid));
        if let Some(dataflow) = archived.get(uuid) {
            if opt_text_is(&dataflow.name, name) {
                r.push(uuid);
            }
        }
        proof {
            lemma_taken(walk@, i as int);
            lemma_pushed(before, uuid);
        }
        i = i + 1;
    }
    assert(walk@.take(i as int) =~= walk@);
    r
}

/// One more step of a walk adds the element met there.
proof fn lemma_taken(walk: Seq<u128>, i: int)
    requires
        0 <= i < walk.len(),
    ensures
        forall|uuid: u128| #[trigger]
            walk.take(i + 1).contains(uuid) <==> walk.take(i).contains(uuid) || uuid == walk[i],
{
    assert(walk.take(i + 1) =~= walk.take(i).push(walk[i]));
    lemma_pushed(walk.take(i), walk[i]);
}

/// What a sequence with one more element contains.
pub(crate) proof fn lemma_pushed(list: Seq<u128>, last: u128)
    ensures
        forall|uuid: u128| #[trigger]
            list.push(last).contains(uuid) <==> list.contains(uuid) || uuid == last,
        list.no_duplicates() && !list.contains(last) ==> list.push(last).no_duplicates(),
{
    let longer = list.push(last);
    assert forall|uuid: u128| #[trigger] longer.contains(uuid) <==> list.contains(uuid) || uuid
        == last by {
        if list.contains(uuid) {
            let i = list.index_of(uuid);
            assert(longer[i] == uuid);
        }
        if uuid == last {
            assert(longer[list.len() as int] == uuid);
        }
        if longer.contains(uuid) {
            let i = longer.index_of(uuid);
            if i < list.len() {
                assert(list[i] == uuid);
            }
        }
    }
}

/// How many elements a list without duplicates holds tells whether none, one or several
/// identifiers have the property it lists.
proof fn lemma_listed(list: Seq<u128>, named: spec_fn(u128) -> bool)
    requires
        list.no_duplicates(),
        forall|uuid: u128| #[trigger] list.contains(uuid) <==> named(uuid),
    ensures
        list.len() == 0 ==> nobody(named),
        list.len() == 1 ==> only(named, list[0]),
        list.len() >= 2 ==> several(named),
{
    if list.len() == 0 {
        assert forall|uuid: u128| !(#[trigger] named(uuid)) by {
            assert(list.contains(uuid) <==> named(uuid));
        }
    } else if list.len() == 1 {
        assert(list.contains(list[0]));
        assert forall|other: u128| #[trigger] named(other) implies other == list[0] by {
            assert(list.contains(other));
        }
    } else {
        assert(list.contains(list[0]) && list.contains(list[1]));
        assert(named(list[0]) && named(list[1]));
    }
}

/// Finds out which dataflow a name stands for.
pub fn resolve_name(
    name: String,
    running_dataflows: &Registry<RunningDataflow>,
    archived_dataflows: &Registry<ArchivedDataflow>,
) -> (r: Result<DataflowId, ServerError>)
    requires
        running_dataflows.wf(),
        archived_dataflows.wf(),
    ensures
        name_resolves(running_dataflows@, archived_dataflows@, name@, r),
{
    let uuids = running_named(running_dataflows, name.as_str());
    let archived_uuids = archived_named(archived_dataflows, name.as_str());
    proof {
        lemma_listed(uuids@, |uuid: u128| runs_as(running_dataflows@, name@, uuid));
        lemma_listed(archived_uuids@, |uuid: u128| ran_as(archived_dataflows@, name@, uuid));
    }
    if uuids.len() == 0 {
        if archived_uuids.len() == 0 {
            Err(ServerError::NoDataflowNamed(name))
        } else if archived_uuids.len() == 1 {
            Ok(archived_uuids[0])
        } else {
            Err(ServerError::MultipleArchived(name))
        }
    } else if uuids.len() == 1 {
        Ok(uuids[0])
    } else {
        Err(ServerError::MultipleDataflows(name))
    }
}

/// What has to be done with the daemons before a request can be answered.
pub enum Call {
    Build { build_id: BuildId, request: BuildRequest },
    Start(StartRequest),
    Reload { dataflow_id: DataflowId, node_id: NodeId, operator_id: Option<OperatorId> },
    RetrieveLogs { dataflow_uuid: DataflowId, node: NodeId, tail: Option<usize> },
    Destroy,
}

/// What a wait for a build waits for.
#[derive(Clone, Copy, Debug, PartialEq, Eq, Structural)]
pub enum BuildWait {
    /// The build runs: its end is to be awaited.
    Running,
    /// The build has ended: its result was kept.
    Cached,
}

/// How a request to stop a dataflow goes on.
pub enum StopStep {
    /// The dataflow has ended already.
    Reply(ControlRequestReply),
    /// Its daemons are to stop it.
    Stop { dataflow_uuid: DataflowId, grace_duration: Option<Duration>, force: bool },
}

/// Whether a result is that of a dataflow that does not run: put together from what its
/// daemons reported, or empty if nothing was reported.
pub open spec fn is_end_result(
    results: Map<u128, DaemonResults>,
    uuid: DataflowId,
    timestamp: Timestamp,
    result: DataflowResult,
) -> bool {
    &&& result.uuid == uuid
    &&& result.timestamp == timestamp
    &&& result.node_results.wf()
    &&& result.node_results@ == (if results.contains_key(uuid) {
        merged_results(results[uuid].entries())
    } else {
        Map::<Seq<char>, NodeResult>::empty()
    })
}

/// Whether a reply says that the dataflow runs, or, if it does not, how it ended.
pub open spec fn is_check_reply(
    running: Map<u128, RunningDataflow>,
    results: Map<u128, DaemonResults>,
    uuid: DataflowId,
    timestamp: Timestamp,
    reply: ControlRequestReply,
) -> bool {
    match reply {
        ControlRequestReply::DataflowSpawned { uuid: u } => running.contains_key(uuid) && u == uuid,
        ControlRequestReply::DataflowStopped { uuid: u, result } => !running.contains_key(uuid) && u
            == uuid && is_end_result(results, uuid, timestamp, result),
        _ => false,
    }
}

/// Whether a request to stop a dataflow goes on as it should.
pub open spec fn is_stop_step(
    results: Map<u128, DaemonResults>,
    uuid: DataflowId,
    grace_duration: Option<Duration>,
    force: bool,
    timestamp: Timestamp,
    step: StopStep,
) -> bool {
    match step {
        StopStep::Reply(ControlRequestReply::DataflowStopped { uuid: u, result }) => {
            results.contains_key(uuid) && u == uuid && is_end_result(
                results,
                uuid,
                timestamp,
                result,
            )
        },
        StopStep::Reply(_) => false,
        StopStep::Stop { dataflow_uuid, grace_duration: grace, force: f } => {
            !results.contains_key(uuid) && dataflow_uuid == uuid && grace == grace_duration && f
                == force
        },
    }
}

/// Whether a request to stop a dataflow goes on as it should, the time of an answer being what
/// `now` tells.
pub open spec fn stops<B, C, F: FnOnce() -> Timestamp>(
    state: CoordinatorState<B, C>,
    uuid: DataflowId,
    grace_duration: Option<Duration>,
    force: bool,
    now: F,
    step: StopStep,
) -> bool {
    exists|timestamp: Timestamp| #[trigger]
        is_stop_step(state.dataflow_results@, uuid, grace_duration, force, timestamp, step) && (
        state.dataflow_results@.contains_key(uuid) ==> call_ensures(now, (), timestamp))
}

/// Whether a name is already taken by a running dataflow.
pub open spec fn name_taken(running: Map<u128, RunningDataflow>, name: Option<String>) -> bool {
    name is Some && exists|uuid: u128| runs_as(running, name->0@, uuid)
}

/// Whether entries list the running dataflows: each once, by name and then by identifier.
pub open spec fn lists_running(
    entries: Seq<DataflowListEntry>,
    running: Map<u128, RunningDataflow>,
) -> bool {
    &&& forall|i: int|
        #![trigger entries[i]]
        0 <= i < entries.len() ==> entries[i].status == DataflowStatus::Running
            && running.contains_key(entries[i].id.uuid) && entries[i].id.name
            == running[entries[i].id.uuid].name
    &&& forall|uuid: u128| #[trigger]
        running.contains_key(uuid) ==> exists|i: int|
            #![trigger entries[i]]
            0 <= i < entries.len() && entries[i].id.uuid == uuid
    &&& forall|i: int, j: int|
        #![trigger entries[i], entries[j]]
        0 <= i < j < entries.len() ==> named_before(entries[i].id.id(), entries[j].id.id())
}

/// The name that an ended dataflow had, if it is known.
pub open spec fn archived_name(archived: Map<u128, ArchivedDataflow>, uuid: u128) -> Option<
    String,
> {
    if archived.contains_key(uuid) {
        archived[uuid].name
    } else {
        None
    }
}

/// The entry of an ended dataflow in a list.
pub open spec fn ended_entry(
    results: Map<u128, DaemonResults>,
    archived: Map<u128, ArchivedDataflow>,
    uuid: u128,
) -> DataflowListEntry {
    DataflowListEntry {
        id: DataflowIdAndName { uuid, name: archived_name(archived, uuid) },
        status: if all_daemons_ok(results[uuid].entries()) {
            DataflowStatus::Finished
        } else {
            DataflowStatus::Failed
        },
    }
}

/// The entries of ended dataflows in a list, in the order in which they are met.
pub open spec fn ended_entries(
    results: Map<u128, DaemonResults>,
    archived: Map<u128, ArchivedDataflow>,
    walk: Seq<u128>,
) -> Seq<DataflowListEntry> {
    walk.map_values(|uuid: u128| ended_entry(results, archived, uuid))
}

/// Whether a list holds the running dataflows and, after them, the ended ones in the order in
/// which a walk meets them.
pub open spec fn is_list(
    list: Seq<DataflowListEntry>,
    running: Map<u128, RunningDataflow>,
    results: Map<u128, DaemonResults>,
    archived: Map<u128, ArchivedDataflow>,
    walk: Seq<u128>,
) -> bool {
    &&& list.len() >= walk.len()
    &&& lists_running(list.take(list.len() - walk.len()), running)
    &&& list.skip(list.len() - walk.len()) == ended_entries(results, archived, walk)
}

/// What is told of a node of a running dataflow.
pub open spec fn node_info(dataflow: RunningDataflow, node_id: NodeId) -> NodeInfo {
    NodeInfo {
        dataflow_id: dataflow.uuid,
        dataflow_name: dataflow.name,
        node_id,
        daemon_id: dataflow.node_to_daemon@[node_id@],
        metrics: if dataflow.node_metrics@.contains_key(node_id@) {
            Some(dataflow.node_metrics@[node_id@])
        } else {
            None
        },
    }
}

/// What is told of the first `n` nodes of a running dataflow, as far as they run on a daemon.
pub open spec fn node_infos(dataflow: RunningDataflow, n: int) -> Seq<NodeInfo>
    decreases n,
{
    if n <= 0 {
        Seq::empty()
    } else {
        let node_id = dataflow.nodes.entries()[n - 1].0;
        if dataflow.node_to_daemon@.contains_key(node_id@) {
            node_infos(dataflow, n - 1).push(node_info(dataflow, node_id))
        } else {
            node_infos(dataflow, n - 1)
        }
    }
}

/// What is told of the nodes of the running dataflows, in the order in which these are met.
pub open spec fn all_node_infos(running: Map<u128, RunningDataflow>, walk: Seq<u128>) -> Seq<
    NodeInfo,
>
    decreases walk.len(),
{
    if walk.len() == 0 {
        Seq::empty()
    } else {
        let dataflow = running[walk.last()];
        all_node_infos(running, walk.drop_last()) + node_infos(
            dataflow,
            dataflow.nodes.entries().len() as int,
        )
    }
}

/// Whether a list holds the dataflows that a coordinator knows, the ended ones in whatever
/// order they are met.
pub open spec fn lists_all<B, C>(
    list: Seq<DataflowListEntry>,
    state: CoordinatorState<B, C>,
) -> bool {
    exists|walk: Seq<u128>|
        is_walk(walk, state.dataflow_results@) && #[trigger] is_list(
            list,
            state.running_dataflows@,
            state.dataflow_results@,
            state.archived_dataflows@,
            walk,
        )
}

/// Whether the nodes of the running dataflows are told of, the dataflows in whatever order
/// they are met.
pub open spec fn tells_of_all_nodes(
    infos: Seq<NodeInfo>,
    running: Map<u128, RunningDataflow>,
) -> bool {
    exists|walk: Seq<u128>|
        is_walk(walk, running) && infos == #[trigger] all_node_infos(running, walk)
}

/// The address of the daemon that runs without a machine name, as far as it is known.
pub open spec fn default_daemon_ip<B, C>(state: CoordinatorState<B, C>) -> Option<IpAddr> {
    match state.daemon_connections.daemon_for(None) {
        Some(daemon) => if state.daemon_connections.daemons@.contains_key(daemon.id()) {
            state.daemon_connections.daemons@[daemon.id()].peer_ip
        } else {
            None
        },
        None => None,
    }
}

/// Answers the requests of the command line tool.
pub struct ControlServer<B, C> {
    pub state: CoordinatorState<B, C>,
}

impl<B, C> ControlServer<B, C> {
    pub open spec fn wf(&self) -> bool {
        self.state.wf()
    }

    /// Draws the identifier of a build that the daemons are to start.
    pub fn build(&self, request: BuildRequest) -> (r: Call)
        ensures
            r matches Call::Build { build_id, request: req } && req == request && uuid_version(
                build_id,
            ) == 4 && uuid_standard_layout(build_id),
    {
        let build_id = new_build_id();
        Call::Build { build_id, request }
    }

    /// Remembers a build that the daemons started.
    pub fn finish_build(&mut self, build_id: BuildId, result: Result<B, String>) -> (r: Result<
        BuildId,
        ServerError,
    >)
        requires
            old(self).wf(),
        ensures
            final(self).wf(),
            r == built(build_id, result),
            match result {
                Ok(build) => final(self).state.running_builds@ == old(
                    self,
                ).state.running_builds@.insert(build_id, build),
                Err(_) => final(self).state.running_builds == old(self).state.running_builds,
            },
            final(self).state == (CoordinatorState {
                running_builds: final(self).state.running_builds,
                ..old(self).state
            }),
    {
        match result {
            Ok(build) => {
                self.state.running_builds.insert(build_id, build);
                Ok(build_id)
            },
            Err(text) => Err(ServerError::Outside(text)),
        }
    }

    /// Finds out how a build is to be awaited.
    pub fn wait_for_build(&self, build_id: BuildId) -> (r: Result<BuildWait, ServerError>)
        requires
            self.wf(),
        ensures
            r == (if self.state.running_builds@.contains_key(build_id) {
                Ok(BuildWait::Running)
            } else if self.state.finished_builds@.contains_key(build_id) {
                Ok(BuildWait::Cached)
            } else {
                Err(ServerError::UnknownBuild(build_id))
            }),
    {
        if self.state.running_builds.contains_key(build_id) {
            Ok(BuildWait::Running)
        } else if self.state.finished_builds.contains_key(build_id) {
            Ok(BuildWait::Cached)
        } else {
            Err(ServerError::UnknownBuild(build_id))
        }
    }

    /// Prepares the start of a dataflow, which gets a name if it has none.
    pub fn start(&self, request: StartRequest) -> (r: Result<StartRequest, ServerError>)
        requires
            self.wf(),
        ensures
            is_start(self.state.running_dataflows@, request, r),
    {
        let StartRequest {
            build_id,
            session_id,
            dataflow,
            name,
            local_working_dir,
            uv,
            write_events_to,
        } = request;
        let name = match name {
            Some(name) => Some(name),
            None => new_dataflow_name(),
        };
        self.start_named(
            StartRequest {
                build_id,
                session_id,
                dataflow,
                name,
                local_working_dir,
                uv,
                write_events_to,
            },
        )
    }

    /// Lets a dataflow start unless a running one has its name.
    pub fn start_named(&self, request: StartRequest) -> (r: Result<StartRequest, ServerError>)
        requires
            self.wf(),
        ensures
            r == (if name_taken(self.state.running_dataflows@, request.name) {
                Err(ServerError::NameTaken(request.name->0))
            } else {
                Ok(request)
            }),
    {
        let taken = match &request.name {
            Some(name) => {
                let named = running_named(&self.state.running_dataflows, name.as_str());
                proof {
                    let runs = |uuid: u128| runs_as(self.state.running_dataflows@, name@, uuid);
                    lemma_listed(named@, runs);
                    if named@.len() == 0 {
                        assert forall|uuid: u128| !runs_as(
                            self.state.running_dataflows@,
                            name@,
                            uuid,
                        ) by {
                            assert(!runs(uuid));
                        }
                    } else {
                        assert(named@.contains(named@[0]));
                    }
                }
                named.len() > 0
            },
            None => false,
        };
        if taken {
            if let Some(name) = request.name {
                return Err(ServerError::NameTaken(name));
            }
        }
        Ok(request)
    }

    /// Remembers a dataflow that the daemons started.
    pub fn finish_start(&mut self, result: Result<RunningDataflow, String>) -> (r: Result<
        DataflowId,
        ServerError,
    >)
        requires
            old(self).wf(),
            result is Ok ==> result->Ok_0.wf(),
        ensures
            final(self).wf(),
            r == started(result),
            match result {
                Ok(dataflow) => final(self).state.running_dataflows@ == old(
                    self,
                ).state.running_dataflows@.insert(dataflow.uuid, dataflow),
                Err(_) => final(self).state.running_dataflows == old(self).state.running_dataflows,
            },
            final(self).state == (CoordinatorState {
                running_dataflows: final(self).state.running_dataflows,
                ..old(self).state
            }),
    {
        match result {
            Ok(dataflow) => {
                let uuid = dataflow.uuid;
                self.state.running_dataflows.insert(uuid, dataflow);
                Ok(uuid)
            },
            Err(text) => Err(ServerError::Outside(text)),
        }
    }

    /// Finds out whether there is a dataflow whose spawning can be awaited.
    pub fn wait_for_spawn(&self, dataflow_id: DataflowId) -> (r: Result<(), ServerError>)
        requires
            self.wf(),
        ensures
            r == (if self.state.running_dataflows@.contains_key(dataflow_id) {
                Ok(())
            } else {
                Err(ServerError::UnknownDataflow(dataflow_id))
            }),
    {
        if self.state.running_dataflows.contains_key(dataflow_id) {
            Ok(())
        } else {
            Err(ServerError::UnknownDataflow(dataflow_id))
        }
    }

    /// The reload that the daemons are to do.
    pub fn reload(
        &self,
        dataflow_id: DataflowId,
        node_id: NodeId,
        operator_id: Option<OperatorId>,
    ) -> (r: Call)
        ensures
            r == (Call::Reload { dataflow_id, node_id, operator_id }),
    {
        Call::Reload { dataflow_id, node_id, operator_id }
    }

    /// The result of a dataflow that does not run.
    fn end_result(&self, uuid: DataflowId, timestamp: Timestamp) -> (r: DataflowResult)
        requires
            self.wf(),
        ensures
            is_end_result(self.state.dataflow_results@, uuid, timestamp, r),
    {
        match self.state.dataflow_results.get(uuid) {
            Some(results) => dataflow_result(results, uuid, timestamp),
            None => DataflowResult::ok_empty(uuid, timestamp),
        }
    }

    /// Tells whether a dataflow runs, and if it does not, how it ended. A dataflow of which
    /// nothing is known ended without failures. `now` tells the time of such an end.
    pub fn check<F: FnOnce() -> Timestamp>(&self, dataflow_uuid: DataflowId, now: F) -> (r:
        ControlRequestReply)
        requires
            self.wf(),
            !self.state.running_dataflows@.contains_key(dataflow_uuid) ==> call_requires(now, ()),
        ensures
            exists|timestamp: Timestamp| #[trigger]
                is_check_reply(
                    self.state.running_dataflows@,
                    self.state.dataflow_results@,
                    dataflow_uuid,
                    timestamp,
                    r,
                ) && (!self.state.running_dataflows@.contains_key(dataflow_uuid)
                    ==> call_ensures(now, (), timestamp)),
            r matches ControlRequestReply::DataflowStopped { uuid: _, result } ==> call_ensures(
                now,
                (),
                result.timestamp,
            ),
    {
        match self.state.running_dataflows.get(dataflow_uuid) {
            Some(_) => {
                let r = ControlRequestReply::DataflowSpawned { uuid: dataflow_uuid };
                assert(is_check_reply(
                    self.state.running_dataflows@,
                    self.state.dataflow_results@,
                    dataflow_uuid,
                    (Timestamp { time: 0, clock: 0 }),
                    r,
                ));
                r
            },
            None => {
                let timestamp = now();
                let r = ControlRequestReply::DataflowStopped {
                    uuid: dataflow_uuid,
                    result: self.end_result(dataflow_uuid, timestamp),
                };
                assert(is_check_reply(
                    self.state.running_dataflows@,
                    self.state.dataflow_results@,
                    dataflow_uuid,
                    timestamp,
                    r,
                ));
                r
            },
        }
    }

    /// Answers how a dataflow ended, or has its daemons stop it. `now` tells the time of an
    /// answer.
    pub fn stop<F: FnOnce() -> Timestamp>(
        &self,
        dataflow_uuid: DataflowId,
        grace_duration: Option<Duration>,
        force: bool,
        now: F,
    ) -> (r: StopStep)
        requires
            self.wf(),
            self.state.dataflow_results@.contains_key(dataflow_uuid) ==> call_requires(now, ()),
        ensures
            stops(self.state, dataflow_uuid, grace_duration, force, now, r),
    {
        if let Some(results) = self.state.dataflow_results.get(dataflow_uuid) {
            let timestamp = now();
            let r = StopStep::Reply(
                ControlRequestReply::DataflowStopped {
                    uuid: dataflow_uuid,
                    result: dataflow_result(results, dataflow_uuid, timestamp),
                },
            );
            assert(is_stop_step(
                self.state.dataflow_results@,
                dataflow_uuid,
                grace_duration,
                force,
                timestamp,
                r,
            ));
            return r;
        }
        let r = StopStep::Stop { dataflow_uuid, grace_duration, force };
        assert(is_stop_step(
            self.state.dataflow_results@,
            dataflow_uuid,
            grace_duration,
            force,
            (Timestamp { time: 0, clock: 0 }),
            r,
        ));
        r
    }

    /// Answers how the dataflow with a name ended, or has its daemons stop it. `now` tells the
    /// time of an answer.
    pub fn stop_by_name<F: FnOnce() -> Timestamp>(
        &self,
        name: String,
        grace_duration: Option<Duration>,
        force: bool,
        now: F,
    ) -> (r: Result<StopStep, ServerError>)
        requires
            self.wf(),
            forall|uuid: DataflowId|
                self.state.dataflow_results@.contains_key(uuid) && #[trigger] name_resolves(
                    self.state.running_dataflows@,
                    self.state.archived_dataflows@,
                    name@,
                    Ok(uuid),
                ) ==> call_requires(now, ()),
        ensures
            match r {
                Ok(step) => exists|uuid: DataflowId| #[trigger]
                    name_resolves(
                        self.state.running_dataflows@,
                        self.state.archived_dataflows@,
                        name@,
                        Ok(uuid),
                    ) && stops(self.state, uuid, grace_duration, force, now, step),
                Err(error) => name_resolves(
                    self.state.running_dataflows@,
                    self.state.archived_dataflows@,
                    name@,
                    Err(error),
                ),
            },
    {
        match resolve_name(
            name,
            &self.state.running_dataflows,
            &self.state.archived_dataflows,
        ) {
            Ok(uuid) => Ok(self.stop(uuid, grace_duration, force, now)),
            Err(error) => Err(error),
        }
    }

    /// Finds out whose logs are asked for: the identifier counts before the name.
    pub fn logs(
        &self,
        uuid: Option<DataflowId>,
        name: Option<String>,
        node: String,
        tail: Option<usize>,
    ) -> (r: Result<Call, ServerError>)
        requires
            self.wf(),
        ensures
            logs_resolve(self.state, uuid, name, node, tail, r),
    {
        let dataflow_uuid = if let Some(uuid) = uuid {
            uuid
        } else if let Some(name) = name {
            match resolve_name(
                name,
                &self.state.running_dataflows,
                &self.state.archived_dataflows,
            ) {
                Ok(uuid) => uuid,
                Err(error) => {
                    return Err(error);
                },
            }
        } else {
            return Err(ServerError::NoUuid);
        };
        Ok(Call::RetrieveLogs { dataflow_uuid, node, tail })
    }

    /// The running dataflows as list entries, by name and then by identifier.
    fn running_entries(&self) -> (r: Vec<DataflowListEntry>)
        requires
            self.wf(),
        ensures
            lists_running(r@, self.state.running_dataflows@),
    {
        let ghost running = self.state.running_dataflows@;
        let walk = self.state.running_dataflows.walk();
        let mut sorted: SortedMap<DataflowIdAndName, ()> = SortedMap::new();
        let mut i: usize = 0;
        while i < walk.len()
            invariant
                self.wf(),
                running == self.state.running_dataflows@,
                is_walk(walk@, running),
                i <= walk@.len(),
                sorted.wf(),
                forall|id: (Option<Seq<char>>, u128)| #[trigger]
                    sorted@.contains_key(id) <==> walk@.take(i as int).contains(id.1) && opt_text(
                        running[id.1].name,
                    ) == id.0,
                forall|e: (DataflowIdAndName, ())| #[trigger]
                    sorted.entries().contains(e) ==> running.contains_key(e.0.uuid) && e.0.name
                        == running[e.0.uuid].name,
            decreases walk@.len() - i,
        {
            let uuid = walk[i];
            let ghost before = sorted;
            assert(walk@.contains(uuid));
            if let Some(dataflow) = self.state.running_dataflows.get(uuid) {
                let id = DataflowIdAndName {
                    uuid: dataflow.uuid,
                    name: copy_opt_text(&dataflow.name),
                };
                sorted.insert(id, ());
            }
            proof {
                lemma_taken(walk@, i as int);
            }
            i = i + 1;
        }
        assert(walk@.take(i as int) =~= walk@);
        let ghost keys = sorted;
        let ids = sorted.into_entries();
        let mut r: Vec<DataflowListEntry> = Vec::new();
        let mut i: usize = 0;
        while i < ids.len()
            invariant
                i <= ids@.len(),
                r@.len() == i,
                forall|j: int|
                    #![trigger r@[j]]
                    0 <= j < i ==> r@[j].id == ids@[j].0 && r@[j].status == DataflowStatus::Running,
            decreases ids@.len() - i,
        {
            r.push(DataflowListEntry { id: ids[i].0.clone(), status: DataflowStatus::Running });
            i = i + 1;
        }
        proof {
            assert forall|j: int| #![trigger r@[j]] 0 <= j < r@.len() implies running.contains_key(
                r@[j].id.uuid,
            ) && r@[j].id.name == running[r@[j].id.uuid].name by {
                assert(keys.entries().contains(ids@[j]));
            }
            assert forall|uuid: u128| #[trigger] running.contains_key(uuid) implies exists|j: int|
                #![trigger r@[j]]
                0 <= j < r@.len() && r@[j].id.uuid == uuid by {
                let id = (opt_text(running[uuid].name), uuid);
                assert(walk@.contains(uuid));
                assert(keys@.contains_key(id));
                assert(has_entry(keys.entries(), id));
                let j = choose|j: int| entry_at(keys.entries(), id, j);
                assert(r@[j].id.uuid == uuid);
            }
            assert forall|a: int, b: int|
                #![trigger r@[a], r@[b]]
                0 <= a < b < r@.len() implies named_before(r@[a].id.id(), r@[b].id.id()) by {
                assert(ids@[a].0.id() == r@[a].id.id() && ids@[b].0.id() == r@[b].id.id());
            }
        }
        r
    }

    /// The dataflows that the coordinator knows, the ended ones in the order of `walk`.
    pub fn list_along(&self, walk: &Vec<DataflowId>) -> (r: DataflowList)
        requires
            self.wf(),
            is_walk(walk@, self.state.dataflow_results@),
        ensures
            is_list(
                r.0@,
                self.state.running_dataflows@,
                self.state.dataflow_results@,
                self.state.archived_dataflows@,
                walk@,
            ),
    {
        let mut entries = self.running_entries();
        let ghost running_part = entries@;
        let ghost results = self.state.dataflow_results@;
        let ghost archived = self.state.archived_dataflows@;
        let mut i: usize = 0;
        assert(entries@ =~= running_part + ended_entries(results, archived, walk@.take(0)));
        while i < walk.len()
            invariant
                self.wf(),
                is_walk(walk@, results),
                results == self.state.dataflow_results@,
                archived == self.state.archived_dataflows@,
                i <= walk@.len(),
                entries@ == running_part + ended_entries(results, archived, walk@.take(i as int)),
            decreases walk@.len() - i,
        {
            let uuid = walk[i];
            let ghost before = entries@;
            assert(walk@.contains(uuid));
            if let Some(daemon_results) = self.state.dataflow_results.get(uuid) {
                let name = match self.state.archived_dataflows.get(uuid) {
                    Some(dataflow) => copy_opt_text(&dataflow.name),
                    None => None,
                };
                let status = if all_ok(daemon_results) {
                    DataflowStatus::Finished
                } else {
                    DataflowStatus::Failed
                };
                entries.push(DataflowListEntry { id: DataflowIdAndName { uuid, name }, status });
            }
            assert(entries@ =~= running_part + ended_entries(
                results,
                archived,
                walk@.take(i + 1),
            )) by {
                assert(entries@ == before.push(ended_entry(results, archived, uuid)));
                assert(walk@.take(i + 1) =~= walk@.take(i as int).push(uuid));
            }
            i = i + 1;
        }
        proof {
            assert(walk@.take(i as int) =~= walk@);
            let n = entries@.len() - walk@.len();
            assert(entries@.take(n) =~= running_part);
            assert(entries@.skip(n) =~= ended_entries(results, archived, walk@));
        }
        DataflowList(entries)
    }

    /// The dataflows that the coordinator knows.
    pub fn list(&self) -> (r: DataflowList)
        requires
            self.wf(),
        ensures
            lists_all(r.0@, self.state),
    {
        let walk = self.state.dataflow_results.walk();
        self.list_along(&walk)
    }

    /// What is known of a running dataflow.
    pub fn info(&self, dataflow_uuid: DataflowId) -> (r: Result<DataflowInfo, ServerError>)
        requires
            self.wf(),
        ensures
            match r {
                Ok(info) => is_info(
                    self.state.running_dataflows@,
                    dataflow_uuid,
                    info.uuid,
                    info.name,
                    info.descriptor,
                ),
                Err(error) => !self.state.running_dataflows@.contains_key(dataflow_uuid) && error
                    == ServerError::NotRunning(dataflow_uuid),
            },
    {
        match self.state.running_dataflows.get(dataflow_uuid) {
            Some(dataflow) => Ok(
                DataflowInfo {
                    uuid: dataflow.uuid,
                    name: copy_opt_text(&dataflow.name),
                    descriptor: dataflow.descriptor.clone(),
                },
            ),
            None => Err(ServerError::NotRunning(dataflow_uuid)),
        }
    }

    /// Whether any daemon is connected.
    pub fn daemon_connected(&self) -> (r: bool)
        ensures
            r == (self.state.daemon_connections.daemons.entries().len() > 0),
    {
        !self.state.daemon_connections.is_empty()
    }

    /// The connected daemons.
    pub fn connected_machines(&self) -> (r: SortedMap<DaemonId, ()>)
        requires
            self.wf(),
        ensures
            r.wf(),
            r@.dom() == self.state.daemon_connections.daemons@.dom(),
    {
        self.state.daemon_connections.keys()
    }

    /// The address of the first daemon that runs without a machine name. That of the command
    /// line tool is for whoever holds the connection to it to fill in.
    pub fn cli_and_default_daemon_on_same_machine(&self) -> (r: CliAndDefaultDaemonIps)
        requires
            self.wf(),
        ensures
            r.default_daemon == default_daemon_ip(self.state),
            r.cli is None,
    {
        let unnamed = self.state.daemon_connections.unnamed();
        let mut default_daemon: Option<IpAddr> = None;
        if unnamed.len() > 0 {
            if let Some(connection) = self.state.daemon_connections.get(&unnamed[0]) {
                default_daemon = connection.peer_ip;
            }
        }
        CliAndDefaultDaemonIps { default_daemon, cli: None }
    }

    /// What is known of the nodes of the running dataflows, these in the order of `walk`.
    pub fn node_info_along(&self, walk: &Vec<DataflowId>) -> (r: Vec<NodeInfo>)
        requires
            self.wf(),
            is_walk(walk@, self.state.running_dataflows@),
        ensures
            r@ == all_node_infos(self.state.running_dataflows@, walk@),
    {
        let ghost running = self.state.running_dataflows@;
        let mut r: Vec<NodeInfo> = Vec::new();
        let mut i: usize = 0;
        while i < walk.len()
            invariant
                self.wf(),
                running == self.state.running_dataflows@,
                is_walk(walk@, running),
                i <= walk@.len(),
                r@ == all_node_infos(running, walk@.take(i as int)),
            decreases walk@.len() - i,
        {
            let uuid = walk[i];
            assert(walk@.contains(uuid));
            if let Some(dataflow) = self.state.running_dataflows.get(uuid) {
                push_node_infos(&mut r, dataflow);
            }
            assert(walk@.take(i + 1).drop_last() =~= walk@.take(i as int));
            i = i + 1;
        }
        assert(walk@.take(i as int) =~= walk@);
        r
    }

    /// What is known of the nodes of the running dataflows.
    pub fn get_node_info(&self) -> (r: Vec<NodeInfo>)
        requires
            self.wf(),
        ensures
            tells_of_all_nodes(r@, self.state.running_dataflows@),
    {
        let walk = self.state.running_dataflows.walk();
        self.node_info_along(&walk)
    }
}

/// Whether what is told of a dataflow is what is known of it, and it runs.
pub open spec fn is_info(
    running: Map<u128, RunningDataflow>,
    dataflow_uuid: DataflowId,
    uuid: DataflowId,
    name: Option<String>,
    descriptor: Descriptor,
) -> bool {
    &&& running.contains_key(dataflow_uuid)
    &&& uuid == dataflow_uuid
    &&& name == running[dataflow_uuid].name
    &&& descriptor.same(&running[dataflow_uuid].descriptor)
}

/// Whether the right dataflow's logs are retrieved.
pub open spec fn logs_resolve<B, C>(
    state: CoordinatorState<B, C>,
    uuid: Option<DataflowId>,
    name: Option<String>,
    node: String,
    tail: Option<usize>,
    r: Result<Call, ServerError>,
) -> bool {
    match uuid {
        Some(uuid) => r == Ok::<Call, ServerError>(
            Call::RetrieveLogs { dataflow_uuid: uuid, node, tail },
        ),
        None => match name {
            Some(name) => match r {
                Ok(Call::RetrieveLogs { dataflow_uuid, node: n, tail: t }) => n == node && t == tail
                    && name_resolves(
                    state.running_dataflows@,
                    state.archived_dataflows@,
                    name@,
                    Ok(dataflow_uuid),
                ),
                Ok(_) => false,
                Err(error) => name_resolves(
                    state.running_dataflows@,
                    state.archived_dataflows@,
                    name@,
                    Err(error),
                ),
            },
            None => r == Err::<Call, ServerError>(ServerError::NoUuid),
        },
    }
}

/// Whether no daemon reports a failed node.
fn all_ok(results: &DaemonResults) -> (r: bool)
    requires
        results_wf(*results),
    ensures
        r == all_daemons_ok(results.entries()),
{
    let mut i: usize = 0;
    while i < results.len()
        invariant
            results_wf(*results),
            i <= results.entries().len(),
            all_daemons_ok(results.entries().take(i as int)),
        decreases results.entries().len() - i,
    {
        let entry = results.entry(i);
        let ok = entry.1.is_ok();
        assert(results.entries()[i as int] == *entry);
        if !ok {
            return false;
        }
        assert forall|j: int|
            #![trigger results.entries().take(i + 1)[j]]
            0 <= j < i + 1 implies no_failure(
            results.entries().take(i + 1)[j].1.node_results@,
        ) by {
            if j < i {
                assert(results.entries().take(i as int)[j] == results.entries()[j]);
            }
        }
        i = i + 1;
    }
    assert(results.entries().take(i as int) =~= results.entries());
    true
}

/// Adds what is known of the nodes of a running dataflow.
fn push_node_infos(infos: &mut Vec<NodeInfo>, dataflow: &RunningDataflow)
    requires
        dataflow.wf(),
    ensures
        final(infos)@ == old(infos)@ + node_infos(
            *dataflow,
            dataflow.nodes.entries().len() as int,
        ),
{
    let ghost before = infos@;
    let mut i: usize = 0;
    assert(infos@ =~= before + node_infos(*dataflow, 0));
    while i < dataflow.nodes.len()
        invariant
            dataflow.wf(),
            i <= dataflow.nodes.entries().len(),
            infos@ == before + node_infos(*dataflow, i as int),
        decreases dataflow.nodes.entries().len() - i,
    {
        let node_id = &dataflow.nodes.entry(i).0;
        let ghost so_far = infos@;
        if let Some(daemon_id) = dataflow.node_to_daemon.get(node_id) {
            let metrics = match dataflow.node_metrics.get(node_id) {
                Some(metrics) => Some(*metrics),
                None => None,
            };
            infos.push(
                NodeInfo {
                    dataflow_id: dataflow.uuid,
                    dataflow_name: copy_opt_text(&dataflow.name),
                    node_id: node_id.clone(),
                    daemon_id: daemon_id.clone(),
                    metrics,
                },
            );
        }
        assert(infos@ =~= before + node_infos(*dataflow, i + 1));
        i = i + 1;
    }
}

/// How the answer to a request goes on.
pub enum ControlStep {
    /// The request is answered.
    Reply(Result<ControlRequestReply, ServerError>),
    /// Something has to be done with the daemons first.
    Await(Call),
}

/// What came of a call.
#[allow(inconsistent_fields)]
pub enum Outcome<B> {
    Build { build_id: BuildId, result: Result<B, String> },
    Start(Result<RunningDataflow, String>),
    Reload { dataflow_id: DataflowId, result: Result<(), String> },
    RetrieveLogs(Result<Vec<u8>, String>),
    Destroy(Result<(), String>),
}

/// Whether a request is not for the server, but for whoever holds the connection.
pub open spec fn for_caller(request: ControlRequest) -> bool {
    ||| request is WaitForBuild
    ||| request is WaitForSpawn
    ||| request is Stop
    ||| request is StopByName
    ||| request is LogSubscribe
    ||| request is BuildLogSubscribe
}

/// Whether a dataflow is started, or refused, as it should be.
pub open spec fn is_start(
    running: Map<u128, RunningDataflow>,
    request: StartRequest,
    r: Result<StartRequest, ServerError>,
) -> bool {
    match r {
        Ok(named) => {
            &&& named == (StartRequest { name: named.name, ..request })
            &&& named.name is Some
            &&& !name_taken(running, named.name)
            &&& match request.name {
                Some(name) => named.name == Some(name),
                None => two_words(named.name->0@, seq!['-']),
            }
        },
        Err(ServerError::NameTaken(name)) => {
            &&& name_taken(running, Some(name))
            &&& match request.name {
                Some(wanted) => name == wanted,
                None => two_words(name@, seq!['-']),
            }
        },
        Err(_) => false,
    }
}

/// Whether the answer to a request goes on as it should.
pub open spec fn is_control_step<B, C>(
    state: CoordinatorState<B, C>,
    request: ControlRequest,
    timestamp: Timestamp,
    step: ControlStep,
) -> bool {
    match request {
        ControlRequest::Build(build) => step matches ControlStep::Await(
            Call::Build { build_id, request: req },
        ) && req == build && uuid_version(build_id) == 4 && uuid_standard_layout(build_id),
        ControlRequest::Start(start) => match step {
            ControlStep::Await(Call::Start(named)) => is_start(
                state.running_dataflows@,
                start,
                Ok(named),
            ),
            ControlStep::Reply(Err(error)) => is_start(
                state.running_dataflows@,
                start,
                Err(error),
            ),
            _ => false,
        },
        ControlRequest::Check { dataflow_uuid } => step matches ControlStep::Reply(Ok(reply))
            && is_check_reply(
            state.running_dataflows@,
            state.dataflow_results@,
            dataflow_uuid,
            timestamp,
            reply,
        ),
        ControlRequest::Reload { dataflow_id, node_id, operator_id } => step
            == ControlStep::Await(Call::Reload { dataflow_id, node_id, operator_id }),
        ControlRequest::Logs { uuid, name, node, tail } => match step {
            ControlStep::Await(call) => logs_resolve(state, uuid, name, node, tail, Ok(call)),
            ControlStep::Reply(Err(error)) => logs_resolve(
                state,
                uuid,
                name,
                node,
                tail,
                Err(error),
            ),
            _ => false,
        },
        ControlRequest::Info { dataflow_uuid } => match step {
            ControlStep::Reply(
                Ok(ControlRequestReply::DataflowInfo { uuid, name, descriptor }),
            ) => is_info(state.running_dataflows@, dataflow_uuid, uuid, name, descriptor),
            ControlStep::Reply(Err(error)) => !state.running_dataflows@.contains_key(dataflow_uuid)
                && error == ServerError::NotRunning(dataflow_uuid),
            _ => false,
        },
        ControlRequest::Destroy => step == ControlStep::Await(Call::Destroy),
        ControlRequest::List => step matches ControlStep::Reply(
            Ok(ControlRequestReply::DataflowList(list)),
        ) && lists_all(list.0@, state),
        ControlRequest::DaemonConnected => step == ControlStep::Reply(
            Ok(
                ControlRequestReply::DaemonConnected(
                    state.daemon_connections.daemons.entries().len() > 0,
                ),
            ),
        ),
        ControlRequest::ConnectedMachines => step matches ControlStep::Reply(
            Ok(ControlRequestReply::ConnectedDaemons(daemons)),
        ) && daemons.wf() && daemons@.dom() == state.daemon_connections.daemons@.dom(),
        ControlRequest::CliAndDefaultDaemonOnSameMachine => step == ControlStep::Reply(
            Ok(
                ControlRequestReply::CliAndDefaultDaemonIps {
                    default_daemon: default_daemon_ip(state),
                    cli: None,
                },
            ),
        ),
        ControlRequest::GetNodeInfo => step matches ControlStep::Reply(
            Ok(ControlRequestReply::NodeInfoList(infos)),
        ) && tells_of_all_nodes(infos@, state.running_dataflows@),
        _ => for_caller(request) && step == ControlStep::Reply(
            Err(ServerError::HandledByCaller(request)),
        ),
    }
}

/// Whether the answer to a request tells the time of a dataflow's end.
pub open spec fn tells_time<B, C>(state: CoordinatorState<B, C>, request: ControlRequest) -> bool {
    request matches ControlRequest::Check { dataflow_uuid }
        && !state.running_dataflows@.contains_key(dataflow_uuid)
}

/// Answers a request, or says what has to be done with the daemons first. `now` tells the time
/// of a dataflow's end.
///
/// Requests that need the connection they came from are not answered here but given back.
pub fn handle_control_request<B, C, F: FnOnce() -> Timestamp>(
    server: &ControlServer<B, C>,
    request: ControlRequest,
    now: F,
) -> (r: ControlStep)
    requires
        server.wf(),
        tells_time(server.state, request) ==> call_requires(now, ()),
    ensures
        exists|timestamp: Timestamp| #[trigger]
            is_control_step(server.state, request, timestamp, r) && (tells_time(
                server.state,
                request,
            ) ==> call_ensures(now, (), timestamp)),
        r matches ControlStep::Reply(Ok(ControlRequestReply::DataflowStopped { uuid: _, result }))
            ==> call_ensures(now, (), result.timestamp),
        for_caller(request) <==> (r matches ControlStep::Reply(
            Err(ServerError::HandledByCaller(_)),
        )),
{
    let ghost asked = request;
    let ghost mut time = Timestamp { time: 0, clock: 0 };
    let r = match request {
        ControlRequest::Build(request) => ControlStep::Await(server.build(request)),
        ControlRequest::Start(request) => match server.start(request) {
            Ok(request) => ControlStep::Await(Call::Start(request)),
            Err(error) => ControlStep::Reply(Err(error)),
        },
        ControlRequest::Check { dataflow_uuid } => {
            let reply = server.check(dataflow_uuid, now);
            proof {
                time = choose|timestamp: Timestamp| #[trigger]
                    is_check_reply(
                        server.state.running_dataflows@,
                        server.state.dataflow_results@,
                        dataflow_uuid,
                        timestamp,
                        reply,
                    ) && (!server.state.running_dataflows@.contains_key(dataflow_uuid)
                        ==> call_ensures(now, (), timestamp));
            }
            ControlStep::Reply(Ok(reply))
        },
        ControlRequest::Reload { dataflow_id, node_id, operator_id } => ControlStep::Await(
            server.reload(dataflow_id, node_id, operator_id),
        ),
        ControlRequest::Logs { uuid, name, node, tail } => match server.logs(
            uuid,
            name,
            node,
            tail,
        ) {
            Ok(call) => ControlStep::Await(call),
            Err(error) => ControlStep::Reply(Err(error)),
        },
        ControlRequest::Info { dataflow_uuid } => match server.info(dataflow_uuid) {
            Ok(info) => ControlStep::Reply(
                Ok(
                    ControlRequestReply::DataflowInfo {
                        uuid: info.uuid,
                        name: info.name,
                        descriptor: info.descriptor,
                    },
                ),
            ),
            Err(error) => ControlStep::Reply(Err(error)),
        },
        ControlRequest::Destroy => ControlStep::Await(Call::Destroy),
        ControlRequest::List => {
            let list = server.list();
            ControlStep::Reply(Ok(ControlRequestReply::DataflowList(list)))
        },
        ControlRequest::DaemonConnected => {
            let connected = server.daemon_connected();
            ControlStep::Reply(Ok(ControlRequestReply::DaemonConnected(connected)))
        },
        ControlRequest::ConnectedMachines => {
            let daemons = server.connected_machines();
            ControlStep::Reply(Ok(ControlRequestReply::ConnectedDaemons(daemons)))
        },
        ControlRequest::CliAndDefaultDaemonOnSameMachine => {
            let ips = server.cli_and_default_daemon_on_same_machine();
            ControlStep::Reply(
                Ok(
                    ControlRequestReply::CliAndDefaultDaemonIps {
                        default_daemon: ips.default_daemon,
                        cli: ips.cli,
                    },
                ),
            )
        },
        ControlRequest::GetNodeInfo => {
            let infos = server.get_node_info();
            ControlStep::Reply(Ok(ControlRequestReply::NodeInfoList(infos)))
        },
        request => ControlStep::Reply(Err(ServerError::HandledByCaller(request))),
    };
    assert(is_control_step(server.state, asked, time, r));
    r
}

/// The answer to a build that the daemons started, or did not.
pub open spec fn built<B>(build_id: BuildId, result: Result<B, String>) -> Result<
    BuildId,
    ServerError,
> {
    match result {
        Ok(_) => Ok(build_id),
        Err(text) => Err(ServerError::Outside(text)),
    }
}

/// The answer to a start of a dataflow by the daemons, or its failure.
pub open spec fn started(result: Result<RunningDataflow, String>) -> Result<
    DataflowId,
    ServerError,
> {
    match result {
        Ok(dataflow) => Ok(dataflow.uuid),
        Err(text) => Err(ServerError::Outside(text)),
    }
}

/// The answer once the daemons have done what it took.
pub open spec fn finished_reply<B>(outcome: Outcome<B>) -> Result<
    ControlRequestReply,
    ServerError,
> {
    match outcome {
        Outcome::Build { build_id, result } => match built(build_id, result) {
            Ok(build_id) => Ok(ControlRequestReply::DataflowBuildTriggered { build_id }),
            Err(error) => Err(error),
        },
        Outcome::Start(result) => match started(result) {
            Ok(uuid) => Ok(ControlRequestReply::DataflowStartTriggered { uuid }),
            Err(error) => Err(error),
        },
        Outcome::Reload { dataflow_id, result: Ok(_) } => Ok(
            ControlRequestReply::DataflowReloaded { uuid: dataflow_id },
        ),
        Outcome::RetrieveLogs(Ok(data)) => Ok(ControlRequestReply::Logs(data)),
        Outcome::Destroy(Ok(_)) => Ok(ControlRequestReply::DestroyOk),
        Outcome::Reload { dataflow_id: _, result: Err(text) } => Err(ServerError::Outside(text)),
        Outcome::RetrieveLogs(Err(text)) => Err(ServerError::Outside(text)),
        Outcome::Destroy(Err(text)) => Err(ServerError::Outside(text)),
    }
}

/// Whether an outcome is that of a call.
pub open spec fn answers<B>(call: Call, outcome: Outcome<B>) -> bool {
    match call {
        Call::Build { build_id, .. } => outcome matches Outcome::Build { build_id: id, .. } && id
            == build_id,
        Call::Start(_) => outcome is Start,
        Call::Reload { dataflow_id, .. } => outcome matches Outcome::Reload { dataflow_id: id, .. }
            && id == dataflow_id,
        Call::RetrieveLogs { .. } => outcome is RetrieveLogs,
        Call::Destroy => outcome is Destroy,
    }
}

/// Answers a request once the daemons have done what it took: `outcome` must be that of the call
/// that was asked for.
pub fn finish_control_request<B, C>(server: &mut ControlServer<B, C>, outcome: Outcome<B>) -> (r:
    Result<ControlRequestReply, ServerError>)
    requires
        old(server).wf(),
        outcome matches Outcome::Start(Ok(dataflow)) ==> dataflow.wf(),
    ensures
        final(server).wf(),
        r == finished_reply(outcome),
        outcome matches Outcome::Build { build_id, result: Ok(build) } 
            ==> final(server).state.running_builds@ == old(server).state.running_builds@.insert(
            build_id,
            build,
        ),
        !(outcome matches Outcome::Build { build_id: _, result: Ok(_) })
            ==> final(server).state.running_builds == old(server).state.running_builds,
        outcome matches Outcome::Start(Ok(dataflow)) ==> final(server).state.running_dataflows@
            == old(server).state.running_dataflows@.insert(dataflow.uuid, dataflow),
        !(outcome matches Outcome::Start(Ok(_))) ==> final(server).state.running_dataflows == old(
            server,
        ).state.running_dataflows,
        final(server).state == (CoordinatorState {
            running_builds: final(server).state.running_builds,
            running_dataflows: final(server).state.running_dataflows,
            ..old(server).state
        }),
{
    match outcome {
        Outcome::Build { build_id, result } => match server.finish_build(build_id, result) {
            Ok(build_id) => Ok(ControlRequestReply::DataflowBuildTriggered { build_id }),
            Err(error) => Err(error),
        },
        Outcome::Start(result) => match server.finish_start(result) {
            Ok(uuid) => Ok(ControlRequestReply::DataflowStartTriggered { uuid }),
            Err(error) => Err(error),
        },
        Outcome::Reload { dataflow_id, result } => match result {
            Ok(_) => Ok(ControlRequestReply::DataflowReloaded { uuid: dataflow_id }),
            Err(text) => Err(ServerError::Outside(text)),
        },
        Outcome::RetrieveLogs(result) => match result {
            Ok(data) => Ok(ControlRequestReply::Logs(data)),
            Err(text) => Err(ServerError::Outside(text)),
        },
        Outcome::Destroy(result) => match result {
            Ok(_) => Ok(ControlRequestReply::DestroyOk),
            Err(text) => Err(ServerError::Outside(text)),
        },
    }
}

/// A build can be awaited just when it is known: a running one by waiting, and one that is not
/// running any more without.
pub proof fn law_known_builds_can_be_awaited<B, C>(
    server: ControlServer<B, C>,
    build_id: BuildId,
    r: Result<BuildWait, ServerError>,
)
    requires
        call_ensures(ControlServer::<B, C>::wait_for_build, (&server, build_id), r),
    ensures
        r is Ok <==> server.state.running_builds@.contains_key(build_id)
            || server.state.finished_builds@.contains_key(build_id),
        r matches Ok(wait) ==> (wait is Running
            <==> server.state.running_builds@.contains_key(build_id)),
        r matches Err(error) ==> error == ServerError::UnknownBuild(build_id),
{
}

/// A dataflow's spawning can be awaited just when the dataflow runs.
pub proof fn law_running_dataflows_can_be_awaited<B, C>(
    server: ControlServer<B, C>,
    dataflow_id: DataflowId,
    r: Result<(), ServerError>,
)
    requires
        call_ensures(ControlServer::<B, C>::wait_for_spawn, (&server, dataflow_id), r),
    ensures
        r is Ok <==> server.state.running_dataflows@.contains_key(dataflow_id),
        r matches Err(error) ==> error == ServerError::UnknownDataflow(dataflow_id),
{
}

/// A daemon is said to be connected just when there is a connection, and the machines that are
/// told of are just those of the connections.
pub proof fn law_connections_are_told_of<B, C>(
    server: ControlServer<B, C>,
    connected: bool,
    machines: SortedMap<DaemonId, ()>,
)
    requires
        server.wf(),
        call_ensures(ControlServer::<B, C>::daemon_connected, (&server,), connected),
        call_ensures(ControlServer::<B, C>::connected_machines, (&server,), machines),
    ensures
        connected <==> exists|id: (Option<Seq<char>>, u128)| #[trigger]
            server.state.daemon_connections.daemons@.contains_key(id),
        forall|id: (Option<Seq<char>>, u128)| #[trigger]
            machines@.contains_key(id) <==> server.state.daemon_connections.daemons@.contains_key(
                id,
            ),
{
    let daemons = server.state.daemon_connections.daemons;
    let entries = daemons.entries();
    if entries.len() > 0 {
        lemma_entry(entries, 0);
        assert(daemons@.contains_key(entries[0].0.id()));
    }
    assert forall|id: (Option<Seq<char>>, u128)| #[trigger]
        daemons@.contains_key(id) implies entries.len() > 0 by {
        assert(has_entry(entries, id));
    }
    assert forall|id: (Option<Seq<char>>, u128)| #[trigger]
        machines@.contains_key(id) <==> daemons@.contains_key(id) by {
        assert(machines@.dom().contains(id) <==> daemons@.dom().contains(id));
    }
}

/// A request is given back, as it is, just when only whoever holds the connection can answer it:
/// when it waits, stops a dataflow or subscribes to messages.
pub proof fn law_requests_of_the_connection_are_given_back<B, C>(
    state: CoordinatorState<B, C>,
    request: ControlRequest,
    timestamp: Timestamp,
    step: ControlStep,
)
    requires
        is_control_step(state, request, timestamp, step),
    ensures
        (step matches ControlStep::Reply(Err(ServerError::HandledByCaller(_)))) <==> match request {
            ControlRequest::WaitForBuild { .. } => true,
            ControlRequest::WaitForSpawn { .. } => true,
            ControlRequest::Stop { .. } => true,
            ControlRequest::StopByName { .. } => true,
            ControlRequest::LogSubscribe { .. } => true,
            ControlRequest::BuildLogSubscribe { .. } => true,
            _ => false,
        },
        step matches ControlStep::Reply(Err(ServerError::HandledByCaller(back))) ==> back
            == request,
        for_caller(request) <==> (step matches ControlStep::Reply(
            Err(ServerError::HandledByCaller(_)),
        )),
{
}

/// A running dataflow, and no other, is told of; the refusal for another one names it.
pub proof fn law_running_dataflows_are_told_of<B, C>(
    server: ControlServer<B, C>,
    dataflow_uuid: DataflowId,
    r: Result<DataflowInfo, ServerError>,
)
    requires
        call_ensures(ControlServer::<B, C>::info, (&server, dataflow_uuid), r),
    ensures
        r is Ok <==> server.state.running_dataflows@.contains_key(dataflow_uuid),
        r matches Ok(info) ==> info.uuid == dataflow_uuid && info.name
            == server.state.running_dataflows@[dataflow_uuid].name,
        r matches Err(error) ==> error == ServerError::NotRunning(dataflow_uuid),
{
}

} // verus!

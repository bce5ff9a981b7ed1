//! What the command line tool, the coordinator and the daemons tell each other.

use vstd::prelude::*;

use crate::ids::{
    lemma_named_order, named_before, named_precedes, BuildId, DaemonId, DataflowId, NodeId,
    OperatorId, SessionId,
};
use crate::ordered::{entry_at, has_entry, lemma_entry, OrderedKey, SortedMap};
use crate::text::{copy_opt_text, opt_text};

verus! {

/// An internet address, as the number that its octets make up.
#[derive(Clone, Copy, Debug, PartialEq, Eq, Structural)]
pub enum IpAddr {
    V4(u32),
    V6(u128),
}

/// A reading of a hybrid logical clock: its time, and the identifier of the clock.
#[derive(Clone, Copy, Debug, PartialEq, Eq, Structural)]
pub struct Timestamp {
    pub time: u64,
    pub clock: u128,
}

/// A span of time.
#[derive(Clone, Copy, Debug, PartialEq, Eq, Structural)]
pub struct Duration {
    pub secs: u64,
    pub nanos: u32,
}

/// The most verbose kind of log message that is let through.
#[derive(Clone, Copy, Debug, PartialEq, Eq, Structural)]
pub enum LevelFilter {
    Off,
    Error,
    Warn,
    Info,
    Debug,
    Trace,
}

/// A file system path, as the bytes that the operating system uses for it.
#[derive(Debug, PartialEq, Eq)]
pub struct FilePath {
    pub bytes: Vec<u8>,
}

/// Where a node is to run.
#[derive(Debug)]
pub struct Deploy {
    pub machine: Option<String>,
}

impl Clone for Deploy {
    fn clone(&self) -> (r: Self)
        ensures
            r == *self,
    {
        Deploy { machine: copy_opt_text(&self.machine) }
    }
}

/// A copy of an optional deployment.
fn copy_deploy(deploy: &Option<Deploy>) -> (r: Option<Deploy>)
    ensures
        r == *deploy,
{
    match deploy {
        Some(deploy) => Some(deploy.clone()),
        None => None,
    }
}

/// A node as the dataflow file describes it.
#[derive(Debug)]
pub struct Node {
    pub id: NodeId,
    pub deploy: Option<Deploy>,
    /// The rest of the node's description, as text.
    pub definition: String,
}

impl Clone for Node {
    fn clone(&self) -> (r: Self)
        ensures
            r == *self,
    {
        Node {
            id: self.id.clone(),
            deploy: copy_deploy(&self.deploy),
            definition: self.definition.clone(),
        }
    }
}

/// A dataflow as its file describes it.
#[derive(Debug)]
pub struct Descriptor {
    pub nodes: Vec<Node>,
    /// The rest of the dataflow's description, as text.
    pub definition: String,
}

impl Descriptor {
    /// Whether two descriptors describe the same dataflow.
    pub open spec fn same(&self, other: &Descriptor) -> bool {
        self.nodes@ == other.nodes@ && self.definition == other.definition
    }
}

impl Clone for Descriptor {
    fn clone(&self) -> (r: Self)
        ensures
            r.same(self),
    {
        let nodes = self.nodes.clone();
        assert(nodes@ =~= self.nodes@);
        Descriptor { nodes, definition: self.definition.clone() }
    }
}

/// A node whose aliases are resolved and whose defaults are filled in.
#[derive(Debug)]
pub struct ResolvedNode {
    pub id: NodeId,
    pub deploy: Option<Deploy>,
    /// The rest of the node's description, as text.
    pub definition: String,
}

/// The machine that a deployment asks for.
pub open spec fn deploy_machine(deploy: Option<Deploy>) -> Option<Seq<char>> {
    match deploy {
        Some(deploy) => opt_text(deploy.machine),
        None => None,
    }
}

impl ResolvedNode {
    /// The machine that the node asks for.
    pub open spec fn wanted_machine(&self) -> Option<Seq<char>> {
        deploy_machine(self.deploy)
    }

    /// The machine that the node asks for.
    pub fn machine(&self) -> (r: Option<&String>)
        ensures
            r is Some == self.wanted_machine() is Some,
            r is Some ==> Some(r->0@) == self.wanted_machine(),
    {
        match &self.deploy {
            Some(deploy) => deploy.machine.as_ref(),
            None => None,
        }
    }
}

/// The nodes of a dataflow by their names; each is listed under its own name.
pub open spec fn nodes_by_name(nodes: SortedMap<NodeId, ResolvedNode>) -> bool {
    &&& nodes.wf()
    &&& forall|i: int|
        #![trigger nodes.entries()[i]]
        0 <= i < nodes.entries().len() ==> nodes.entries()[i].0@ == nodes.entries()[i].1.id@
}

/// Where the source of a node was fetched from.
#[derive(Debug)]
pub struct GitSource {
    pub repo: String,
    pub commit_hash: String,
}

impl Clone for GitSource {
    fn clone(&self) -> (r: Self)
        ensures
            r == *self,
    {
        GitSource { repo: self.repo.clone(), commit_hash: self.commit_hash.clone() }
    }
}

/// What a session remembers between builds of a dataflow.
pub struct DataflowSession {
    pub session_id: SessionId,
    pub git_sources: SortedMap<NodeId, GitSource>,
}

/// Asks the coordinator to build a dataflow.
pub struct BuildRequest {
    pub session_id: SessionId,
    pub dataflow: Descriptor,
    pub git_sources: SortedMap<NodeId, GitSource>,
    pub prev_git_sources: SortedMap<NodeId, GitSource>,
    pub local_working_dir: Option<FilePath>,
    pub uv: bool,
}

/// Asks the coordinator to start a dataflow.
pub struct StartRequest {
    pub build_id: Option<BuildId>,
    pub session_id: SessionId,
    pub dataflow: Descriptor,
    pub name: Option<String>,
    pub local_working_dir: Option<FilePath>,
    pub uv: bool,
    pub write_events_to: Option<FilePath>,
}

/// What the command line tool asks of the coordinator.
#[allow(inconsistent_fields)]
pub enum ControlRequest {
    Build(BuildRequest),
    WaitForBuild { build_id: BuildId },
    Start(StartRequest),
    WaitForSpawn { dataflow_id: DataflowId },
    Reload { dataflow_id: DataflowId, node_id: NodeId, operator_id: Option<OperatorId> },
    Check { dataflow_uuid: DataflowId },
    Stop { dataflow_uuid: DataflowId, grace_duration: Option<Duration>, force: bool },
    StopByName { name: String, grace_duration: Option<Duration>, force: bool },
    Logs { uuid: Option<DataflowId>, name: Option<String>, node: String, tail: Option<usize> },
    Destroy,
    List,
    Info { dataflow_uuid: DataflowId },
    DaemonConnected,
    ConnectedMachines,
    LogSubscribe { dataflow_id: DataflowId, level: LevelFilter },
    BuildLogSubscribe { build_id: BuildId, level: LevelFilter },
    CliAndDefaultDaemonOnSameMachine,
    GetNodeInfo,
}

/// What the coordinator answers.
pub enum ControlRequestReply {
    DataflowBuildTriggered { build_id: BuildId },
    DataflowStartTriggered { uuid: DataflowId },
    DataflowReloaded { uuid: DataflowId },
    DataflowSpawned { uuid: DataflowId },
    DataflowStopped { uuid: DataflowId, result: DataflowResult },
    Logs(Vec<u8>),
    DataflowInfo { uuid: DataflowId, name: Option<String>, descriptor: Descriptor },
    DestroyOk,
    DataflowList(DataflowList),
    DaemonConnected(bool),
    ConnectedDaemons(SortedMap<DaemonId, ()>),
    CliAndDefaultDaemonIps { default_daemon: Option<IpAddr>, cli: Option<IpAddr> },
    NodeInfoList(Vec<NodeInfo>),
}

/// Why a node failed.
#[derive(Debug)]
pub struct NodeError {
    pub cause: String,
}

/// How a node ended.
pub type NodeResult = Result<(), NodeError>;

/// A copy of a node's result.
pub fn copy_node_result(result: &NodeResult) -> (r: NodeResult)
    ensures
        r == *result,
{
    match result {
        Ok(done) => Ok(*done),
        Err(error) => Err(NodeError { cause: error.cause.clone() }),
    }
}

/// Whether no node failed.
pub open spec fn no_failure(results: Map<Seq<char>, NodeResult>) -> bool {
    forall|node: Seq<char>| #[trigger] results.contains_key(node) ==> results[node] is Ok
}

/// Whether no node failed.
fn all_succeeded(results: &SortedMap<NodeId, NodeResult>) -> (r: bool)
    requires
        results.wf(),
    ensures
        r == no_failure(results@),
{
    let mut i: usize = 0;
    while i < results.len()
        invariant
            results.wf(),
            i <= results.entries().len(),
            forall|j: int| 0 <= j < i ==> (#[trigger] results.entries()[j]).1 is Ok,
        decreases results.entries().len() - i,
    {
        let entry = results.entry(i);
        if entry.1.is_err() {
            proof {
                lemma_entry(results.entries(), i as int);
            }
            return false;
        }
        i = i + 1;
    }
    assert forall|node: Seq<char>| #[trigger] results@.contains_key(node) implies results@[node]
        is Ok by {
        assert(has_entry(results.entries(), node));
        let j = choose|j: int| entry_at(results.entries(), node, j);
        lemma_entry(results.entries(), j);
    }
    true
}

/// How the nodes of a dataflow that ran on one daemon ended.
pub struct DataflowDaemonResult {
    pub timestamp: Timestamp,
    pub node_results: SortedMap<NodeId, NodeResult>,
}

impl DataflowDaemonResult {
    /// Whether no node on the daemon failed.
    pub fn is_ok(&self) -> (r: bool)
        requires
            self.node_results.wf(),
        ensures
            r == no_failure(self.node_results@),
    {
        all_succeeded(&self.node_results)
    }
}

/// How a dataflow ended.
pub struct DataflowResult {
    pub uuid: DataflowId,
    pub timestamp: Timestamp,
    pub node_results: SortedMap<NodeId, NodeResult>,
}

impl DataflowResult {
    /// The result of a dataflow of which no node's end was reported.
    pub fn ok_empty(uuid: DataflowId, timestamp: Timestamp) -> (r: Self)
        ensures
            r.uuid == uuid,
            r.timestamp == timestamp,
            r.node_results.wf(),
            r.node_results@ == Map::<Seq<char>, NodeResult>::empty(),
    {
        DataflowResult { uuid, timestamp, node_results: SortedMap::new() }
    }

    /// Whether no node of the dataflow failed.
    pub fn is_ok(&self) -> (r: bool)
        requires
            self.node_results.wf(),
        ensures
            r == no_failure(self.node_results@),
    {
        all_succeeded(&self.node_results)
    }
}

/// Whether a dataflow runs, and if not, how it ended.
#[derive(Clone, Copy, Debug, PartialEq, Eq, Structural)]
pub enum DataflowStatus {
    Running,
    Finished,
    Failed,
}

/// What identifies a dataflow, and the name it was given.
#[derive(Debug)]
pub struct DataflowIdAndName {
    pub uuid: DataflowId,
    pub name: Option<String>,
}

impl Clone for DataflowIdAndName {
    fn clone(&self) -> (r: Self)
        ensures
            r == *self,
    {
        DataflowIdAndName { uuid: self.uuid, name: copy_opt_text(&self.name) }
    }
}

/// Dataflows are listed by name, those with the same name by identifier.
impl OrderedKey for DataflowIdAndName {
    type Id = (Option<Seq<char>>, u128);

    open spec fn id(&self) -> (Option<Seq<char>>, u128) {
        (opt_text(self.name), self.uuid)
    }

    open spec fn before(a: (Option<Seq<char>>, u128), b: (Option<Seq<char>>, u128)) -> bool {
        named_before(a, b)
    }

    proof fn lemma_order(
        a: (Option<Seq<char>>, u128),
        b: (Option<Seq<char>>, u128),
        c: (Option<Seq<char>>, u128),
    ) {
        lemma_named_order(a, b, c);
    }

    fn precedes(&self, other: &Self) -> (r: bool) {
        named_precedes(&self.name, self.uuid, &other.name, other.uuid)
    }
}

/// A dataflow in a list.
pub struct DataflowListEntry {
    pub id: DataflowIdAndName,
    pub status: DataflowStatus,
}

/// The dataflows that a coordinator knows.
pub struct DataflowList(pub Vec<DataflowListEntry>);

/// The running ones among listed dataflows, in the order of the list.
pub open spec fn active_of(entries: Seq<DataflowListEntry>) -> Seq<DataflowIdAndName> {
    entries.filter(|e: DataflowListEntry| e.status == DataflowStatus::Running).map_values(
        |e: DataflowListEntry| e.id,
    )
}

impl DataflowList {
    /// The dataflows that are running, in the order of the list.
    pub fn get_active(&self) -> (r: Vec<DataflowIdAndName>)
        ensures
            r@ == active_of(self.0@),
    {
        let ghost running = |e: DataflowListEntry| e.status == DataflowStatus::Running;
        let ghost id = |e: DataflowListEntry| e.id;
        let mut r: Vec<DataflowIdAndName> = Vec::new();
        let mut i: usize = 0;
        assert(self.0@.take(0).filter(running).map_values(id) =~= Seq::<
            DataflowIdAndName,
        >::empty()) by {
            reveal(Seq::filter);
        }
        while i < self.0.len()
            invariant
                i <= self.0@.len(),
                running == (|e: DataflowListEntry| e.status == DataflowStatus::Running),
                id == (|e: DataflowListEntry| e.id),
                r@ == self.0@.take(i as int).filter(running).map_values(id),
            decreases self.0@.len() - i,
        {
            let entry = &self.0[i];
            proof {
                let shorter = self.0@.take(i as int);
                assert(self.0@.take(i + 1) =~= shorter.push(*entry));
                shorter.lemma_filter_push(*entry, running);
                assert(shorter.filter(running).push(*entry).map_values(id) =~= shorter.filter(
                    running,
                ).map_values(id).push(entry.id));
            }
            if entry.status == DataflowStatus::Running {
                r.push(entry.id.clone());
            }
            i = i + 1;
        }
        assert(self.0@.take(i as int) =~= self.0@);
        r
    }
}

/// The answer to a request for information on a running dataflow.
pub struct DataflowInfo {
    pub uuid: DataflowId,
    pub name: Option<String>,
    pub descriptor: Descriptor,
}

/// The addresses of the command line tool and of the daemon that runs without a machine
/// name, as far as they are known.
pub struct CliAndDefaultDaemonIps {
    pub default_daemon: Option<IpAddr>,
    pub cli: Option<IpAddr>,
}

/// What a daemon measured of a node's process.
#[derive(Clone, Copy, Debug, PartialEq, Eq, Structural)]
pub struct NodeMetrics {
    pub pid: u32,
    /// The bits of the processor usage, a 32-bit floating point number.
    pub cpu_usage_bits: u32,
    pub memory_bytes: u64,
    pub disk_read_bytes: Option<u64>,
    pub disk_write_bytes: Option<u64>,
}

/// A node of a running dataflow, where it runs and what was measured of it.
pub struct NodeInfo {
    pub dataflow_id: DataflowId,
    pub dataflow_name: Option<String>,
    pub node_id: NodeId,
    pub daemon_id: DaemonId,
    pub metrics: Option<NodeMetrics>,
}

/// One failed node is a failure, whatever the others did; a node that ended well is none.
pub proof fn law_one_failed_node_is_a_failure(
    results: Map<Seq<char>, NodeResult>,
    node: Seq<char>,
    result: NodeResult,
)
    ensures
        no_failure(Map::empty()),
        result is Err ==> !no_failure(results.insert(node, result)),
        result is Ok && no_failure(results) ==> no_failure(results.insert(node, result)),
        results.contains_key(node) && results[node] is Err ==> !no_failure(results),
        no_failure(results) || exists|failed: Seq<char>|
            results.contains_key(failed) && (#[trigger] results[failed]) is Err,
{
    assert(results.insert(node, result).contains_key(node));
}

/// The active ones of a list are those of its parts, in order; a dataflow is active just when it
/// runs, and then under its own identifier and name.
pub proof fn law_active_dataflows_go_entry_by_entry(
    a: Seq<DataflowListEntry>,
    b: Seq<DataflowListEntry>,
    entry: DataflowListEntry,
)
    ensures
        active_of(a + b) == active_of(a) + active_of(b),
        entry.status == DataflowStatus::Running ==> active_of(seq![entry]) == seq![entry.id],
        entry.status != DataflowStatus::Running ==> active_of(seq![entry]).len() == 0,
        active_of(Seq::empty()).len() == 0,
{
    let running = |e: DataflowListEntry| e.status == DataflowStatus::Running;
    Seq::filter_distributes_over_add(a, b, running);
    assert(active_of(a + b) =~= active_of(a) + active_of(b));
    reveal(Seq::filter);
    assert(seq![entry].drop_last() =~= Seq::<DataflowListEntry>::empty());
    assert(seq![entry].drop_last().filter(running) =~= Seq::<DataflowListEntry>::empty());
    if entry.status == DataflowStatus::Running {
        assert(active_of(seq![entry]) =~= seq![entry.id]);
    }
}

/// A node asks for a machine just when it has a deployment that names it.
pub proof fn law_nodes_ask_for_the_machine_of_their_deployment(
    node: ResolvedNode,
    machine: Seq<char>,
)
    ensures
        node.wanted_machine() == Some(machine) <==> node.deploy is Some
            && node.deploy->0.machine is Some && node.deploy->0.machine->0@ == machine,
{
}

/// Descriptors are the same just when they have the same nodes in the same order and the same
/// definition.
pub proof fn law_same_descriptors_have_the_same_nodes(a: Descriptor, b: Descriptor)
    ensures
        a.same(&b) <==> a.nodes@ == b.nodes@ && a.definition == b.definition,
{
}

} // verus!

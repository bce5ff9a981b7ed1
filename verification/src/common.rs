//! What the commands of the command line tool have in common.

use vstd::prelude::*;

use crate::ids::{hyphenated, parse_uuid, parsed_uuid, uuid_text, DataflowId};
use crate::laws::{are_running, law_active_dataflows_are_the_running_ones};
use crate::message::{
    active_of, no_failure, CliAndDefaultDaemonIps, DataflowIdAndName, DataflowList,
    DataflowListEntry, DataflowResult, Descriptor, IpAddr, Node,
};
use crate::registry::is_walk;
use crate::server::{is_list, lists_all, name_resolves};
use crate::state::{names_unique, runs_as, CoordinatorState, RunningDataflow};
use crate::text::{
    enclosed, is_url, lemma_same_frame, lemma_same_start, occurs_at, opt_text, opt_text_is,
    same_frame, source_is_url,
};

verus! {

/// Why a call to the coordinator failed.
pub enum RpcError<E> {
    /// The call did not get through.
    Transport(E),
    /// The coordinator refused.
    Application(String),
}

/// What a call to the coordinator comes to.
pub open spec fn rpc_outcome<T, E>(reply: Result<Result<T, String>, E>) -> Result<T, RpcError<E>> {
    match reply {
        Ok(Ok(value)) => Ok(value),
        Ok(Err(text)) => Err(RpcError::Application(text)),
        Err(error) => Err(RpcError::Transport(error)),
    }
}

/// Takes in the reply to a call: it may not have got through, and the coordinator may have
/// refused.
pub fn rpc<T, E>(reply: Result<Result<T, String>, E>) -> (r: Result<T, RpcError<E>>)
    ensures
        r == rpc_outcome(reply),
{
    match reply {
        Ok(Ok(value)) => Ok(value),
        Ok(Err(text)) => Err(RpcError::Application(text)),
        Err(error) => Err(RpcError::Transport(error)),
    }
}

/// The text of a failed call.
pub open spec fn rpc_error_text<E>(error: RpcError<E>) -> Seq<char> {
    match error {
        RpcError::Transport(_) => "RPC transport error"@,
        RpcError::Application(text) => text@,
    }
}

impl<E> RpcError<E> {
    /// The text of the failure.
    pub fn message(&self) -> (r: String)
        ensures
            r@ == rpc_error_text(*self),
    {
        match self {
            RpcError::Transport(_) => "RPC transport error".to_owned(),
            RpcError::Application(text) => text.clone(),
        }
    }
}

/// Tells that a dataflow failed.
pub struct DataflowFailed {
    pub uuid: Option<DataflowId>,
    pub result: DataflowResult,
}

/// The text that tells that a dataflow failed, with `details` of the failure.
pub open spec fn dataflow_failed_text(uuid: Option<DataflowId>, details: Seq<char>) -> Seq<char> {
    match uuid {
        Some(uuid) => "Dataflow "@ + hyphenated(uuid) + " failed:\n"@ + details,
        None => "Dataflow failed:\n"@ + details,
    }
}

impl DataflowFailed {
    /// The text that tells that the dataflow failed, with `details` of the failure.
    pub fn message(&self, details: &str) -> (r: String)
        ensures
            r@ == dataflow_failed_text(self.uuid, details@),
    {
        match self.uuid {
            Some(uuid) => {
                let mut r = enclosed("Dataflow ", uuid_text(uuid).as_str(), " failed:\n");
                r.append(details);
                r
            },
            None => {
                let mut r = "Dataflow failed:\n".to_owned();
                r.append(details);
                r
            },
        }
    }
}

/// Accepts the result of a dataflow unless a node of it failed.
pub fn handle_dataflow_result(result: DataflowResult, uuid: Option<DataflowId>) -> (r: Result<
    (),
    DataflowFailed,
>)
    requires
        result.node_results.wf(),
    ensures
        r == (if no_failure(result.node_results@) {
            Ok(())
        } else {
            Err(DataflowFailed { uuid, result })
        }),
{
    if result.is_ok() {
        Ok(())
    } else {
        Err(DataflowFailed { uuid, result })
    }
}

/// Which of the active dataflows is meant.
pub enum Pick {
    Found(DataflowId),
    NoneNamed(String),
    NoneRunning,
    /// Several run: one of them is to be chosen.
    Choose(Vec<DataflowIdAndName>),
}

/// The first of the dataflows with the given name.
pub open spec fn first_named(active: Seq<DataflowIdAndName>, name: Seq<char>) -> Option<DataflowId>
    decreases active.len(),
{
    if active.len() == 0 {
        None
    } else if opt_text(active[0].name) == Some(name) {
        Some(active[0].uuid)
    } else {
        first_named(active.drop_first(), name)
    }
}

/// Whether the right dataflow is picked: the first with the given name; without a name, the
/// only one.
pub open spec fn is_pick(
    name: Option<Seq<char>>,
    active: Seq<DataflowIdAndName>,
    pick: Pick,
) -> bool {
    match pick {
        Pick::Found(uuid) => match name {
            Some(name) => first_named(active, name) == Some(uuid),
            None => active.len() == 1 && active[0].uuid == uuid,
        },
        Pick::NoneNamed(n) => name == Some(n@) && first_named(active, n@) is None,
        Pick::NoneRunning => name is None && active.len() == 0,
        Pick::Choose(listed) => name is None && active.len() >= 2 && listed@ == active,
    }
}

/// The name that is given, if any.
pub open spec fn text_of(name: Option<&str>) -> Option<Seq<char>> {
    match name {
        Some(name) => Some(name@),
        None => None,
    }
}

/// Picks the dataflow that is meant among the active ones of a list.
pub fn pick_dataflow(name: Option<&str>, list: &DataflowList) -> (r: Pick)
    ensures
        is_pick(text_of(name), active_of(list.0@), r),
{
    let active = list.get_active();
    if let Some(wanted) = name {
        let mut i: usize = 0;
        assert(active@.skip(0) =~= active@);
        while i < active.len()
            invariant
                i <= active@.len(),
                active@ == active_of(list.0@),
                text_of(name) == Some(wanted@),
                first_named(active@, wanted@) == first_named(active@.skip(i as int), wanted@),
            decreases active@.len() - i,
        {
            if opt_text_is(&active[i].name, wanted) {
                return Pick::Found(active[i].uuid);
            }
            assert(active@.skip(i as int).drop_first() =~= active@.skip(i + 1));
            i = i + 1;
        }
        return Pick::NoneNamed(wanted.to_owned());
    }
    if active.len() == 0 {
        Pick::NoneRunning
    } else if active.len() == 1 {
        Pick::Found(active[0].uuid)
    } else {
        Pick::Choose(active)
    }
}

/// Why it was not found out which dataflow is meant.
pub enum IdentifierError<E> {
    /// The coordinator did not say which dataflows run.
    Query(E),
    NoneNamed(String),
    NoneRunning,
    /// None was chosen.
    Prompt(String),
}

/// The text of the failure to find out which dataflow is meant.
pub open spec fn identifier_error_text<E>(error: IdentifierError<E>) -> Seq<char> {
    match error {
        IdentifierError::Query(_) => "failed to query running dataflows"@,
        IdentifierError::NoneNamed(name) => "No dataflow with name `"@ + name@ + "` is running"@,
        IdentifierError::NoneRunning => "No dataflows are running"@,
        IdentifierError::Prompt(text) => text@,
    }
}

impl<E> IdentifierError<E> {
    /// The text of the failure.
    pub fn message(&self) -> (r: String)
        ensures
            r@ == identifier_error_text(*self),
    {
        match self {
            IdentifierError::Query(_) => "failed to query running dataflows".to_owned(),
            IdentifierError::NoneNamed(name) => enclosed(
                "No dataflow with name `",
                name.as_str(),
                "` is running",
            ),
            IdentifierError::NoneRunning => "No dataflows are running".to_owned(),
            IdentifierError::Prompt(text) => text.clone(),
        }
    }
}

/// The identifier that is given, if the text is one.
pub open spec fn given_uuid(name_or_uuid: Option<Seq<char>>) -> Option<DataflowId> {
    match name_or_uuid {
        Some(text) => parsed_uuid(text),
        None => None,
    }
}

/// Whether what is found out is right, given what `select` chooses where a choice is needed.
pub open spec fn is_choice<E, S: FnOnce(Vec<DataflowIdAndName>) -> Result<
    DataflowIdAndName,
    String,
>>(pick: Pick, select: S, r: Result<DataflowId, IdentifierError<E>>) -> bool {
    match pick {
        Pick::Found(uuid) => r == Ok::<_, IdentifierError<E>>(uuid),
        Pick::NoneNamed(name) => r == Err::<DataflowId, _>(IdentifierError::<E>::NoneNamed(name)),
        Pick::NoneRunning => r == Err::<DataflowId, _>(IdentifierError::<E>::NoneRunning),
        Pick::Choose(active) => match r {
            Ok(uuid) => exists|chosen: DataflowIdAndName|
                #![trigger call_ensures(select, (active,), Ok(chosen))]
                call_ensures(select, (active,), Ok(chosen)) && uuid == chosen.uuid,
            Err(IdentifierError::Prompt(text)) => call_ensures(select, (active,), Err(text)),
            Err(_) => false,
        },
    }
}

/// Whether the right dataflow is found out to be meant, where `asked` tells what the coordinator
/// may have answered.
pub open spec fn is_identified<
    E,
    S: FnOnce(Vec<DataflowIdAndName>) -> Result<DataflowIdAndName, String>,
>(
    name_or_uuid: Option<Seq<char>>,
    asked: spec_fn(Result<DataflowList, E>) -> bool,
    select: S,
    r: Result<DataflowId, IdentifierError<E>>,
) -> bool {
    match given_uuid(name_or_uuid) {
        Some(uuid) => r == Ok::<_, IdentifierError<E>>(uuid),
        None => match r {
            Err(IdentifierError::Query(error)) => asked(Err(error)),
            _ => exists|list: DataflowList, pick: Pick|
                #![trigger is_pick(name_or_uuid, active_of(list.0@), pick)]
                asked(Ok(list)) && is_pick(name_or_uuid, active_of(list.0@), pick) && is_choice(
                    pick,
                    select,
                    r,
                ),
        },
    }
}

/// Finds out which dataflow is meant: an identifier stands for itself; a name stands for the
/// first active dataflow with that name; without either, the only active dataflow is meant, or
/// one is chosen. `query` asks the coordinator for the dataflows, unless an identifier is given,
/// and `select` lets one be chosen.
pub fn resolve_dataflow_identifier_interactive<
    E,
    Q: FnOnce() -> Result<DataflowList, E>,
    S: FnOnce(Vec<DataflowIdAndName>) -> Result<DataflowIdAndName, String>,
>(name_or_uuid: Option<&str>, query: Q, select: S) -> (r: Result<DataflowId, IdentifierError<E>>)
    requires
        given_uuid(text_of(name_or_uuid)) is None ==> call_requires(query, ()),
        forall|active: Vec<DataflowIdAndName>|
            #![trigger call_requires(select, (active,))]
            name_or_uuid is None && active@.len() >= 2 ==> call_requires(select, (active,)),
    ensures
        is_identified(
            text_of(name_or_uuid),
            |reply: Result<DataflowList, E>| call_ensures(query, (), reply),
            select,
            r,
        ),
        forall|id: u128|
            text_of(name_or_uuid) == Some(#[trigger] hyphenated(id)) ==> r == Ok::<
                _,
                IdentifierError<E>,
            >(id),
{
    if let Some(text) = name_or_uuid {
        if let Some(uuid) = parse_uuid(text) {
            return Ok(uuid);
        }
    }
    let list = match query() {
        Ok(list) => list,
        Err(error) => {
            return Err(IdentifierError::Query(error));
        },
    };
    let pick = pick_dataflow(name_or_uuid, &list);
    let ghost picked = pick;
    assert(is_pick(text_of(name_or_uuid), active_of(list.0@), picked));
    let r = match pick {
        Pick::Found(uuid) => Ok(uuid),
        Pick::NoneNamed(name) => Err(IdentifierError::NoneNamed(name)),
        Pick::NoneRunning => Err(IdentifierError::NoneRunning),
        Pick::Choose(active) => match select(active) {
            Ok(chosen) => Ok(chosen.uuid),
            Err(text) => Err(IdentifierError::Prompt(text)),
        },
    };
    assert(is_choice(picked, select, r));
    r
}

/// The first dataflow with a name is one of the dataflows and has that name; if there is none,
/// no dataflow has it.
proof fn lemma_first_named(active: Seq<DataflowIdAndName>, name: Seq<char>)
    ensures
        match first_named(active, name) {
            Some(uuid) => exists|i: int|
                #![trigger active[i]]
                0 <= i < active.len() && active[i].uuid == uuid && opt_text(active[i].name) == Some(
                    name,
                ),
            None => forall|i: int|
                #![trigger active[i]]
                0 <= i < active.len() ==> opt_text(active[i].name) != Some(name),
        },
    decreases active.len(),
{
    if active.len() > 0 {
        let rest = active.drop_first();
        lemma_first_named(rest, name);
        if opt_text(active[0].name) == Some(name) {
            assert(active[0].uuid == active[0].uuid);
        } else {
            match first_named(rest, name) {
                Some(uuid) => {
                    let i = choose|i: int|
                        #![trigger rest[i]]
                        0 <= i < rest.len() && rest[i].uuid == uuid && opt_text(rest[i].name)
                            == Some(name);
                    assert(active[i + 1] == rest[i]);
                },
                None => {
                    assert forall|i: int|
                        #![trigger active[i]]
                        0 <= i < active.len() implies opt_text(active[i].name) != Some(name) by {
                        if i > 0 {
                            assert(active[i] == rest[i - 1]);
                        }
                    }
                },
            }
        }
    }
}

/// A name stands for a dataflow that runs under it, whichever the coordinator lists first. If
/// names are unique, it stands for the only one; if none runs under it, for none.
pub proof fn law_name_stands_for_running_dataflow(
    active: Seq<DataflowIdAndName>,
    running: Map<u128, RunningDataflow>,
    name: Seq<char>,
)
    requires
        are_running(active, running),
    ensures
        first_named(active, name) matches Some(uuid) ==> runs_as(running, name, uuid),
        first_named(active, name) is None ==> forall|uuid: u128| !runs_as(running, name, uuid),
        names_unique(running) ==> forall|uuid: u128| #[trigger]
            runs_as(running, name, uuid) <==> first_named(active, name) == Some(uuid),
{
    lemma_first_named(active, name);
    match first_named(active, name) {
        Some(first) => {
            assert(runs_as(running, name, first));
            if names_unique(running) {
                assert forall|uuid: u128| #[trigger]
                    runs_as(running, name, uuid) <==> first_named(active, name) == Some(uuid) by {
                    if runs_as(running, name, uuid) {
                        assert(uuid == first);
                    }
                }
            }
        },
        None => {
            assert forall|uuid: u128| !runs_as(running, name, uuid) by {
                if runs_as(running, name, uuid) {
                    assert(running.contains_key(uuid));
                    let i = choose|i: int|
                        #![trigger active[i]]
                        0 <= i < active.len() && active[i].uuid == uuid;
                    assert(opt_text(active[i].name) == Some(name));
                }
            }
        },
    }
}

/// The command line tool and the coordinator agree on what the name of a running dataflow
/// stands for, if the names of the running dataflows are unique.
pub proof fn law_tool_and_coordinator_agree_on_names<B, C>(
    list: Seq<DataflowListEntry>,
    state: CoordinatorState<B, C>,
    name: Seq<char>,
    uuid: DataflowId,
)
    requires
        lists_all(list, state),
        names_unique(state.running_dataflows@),
        runs_as(state.running_dataflows@, name, uuid),
    ensures
        first_named(active_of(list), name) == Some(uuid),
        name_resolves(state.running_dataflows@, state.archived_dataflows@, name, Ok(uuid)),
{
    let running = state.running_dataflows@;
    let results = state.dataflow_results@;
    let archived = state.archived_dataflows@;
    let walk = choose|walk: Seq<u128>|
        is_walk(walk, results) && #[trigger] is_list(list, running, results, archived, walk);
    law_active_dataflows_are_the_running_ones(list, running, results, archived, walk);
    law_name_stands_for_running_dataflow(active_of(list), running, name);
    assert forall|other: u128| #[trigger] runs_as(running, name, other) implies other == uuid by {}
}

/// Where the coordinator is reached.
pub struct CoordinatorOptions {
    pub coordinator_addr: IpAddr,
    pub coordinator_port: u16,
}

impl CoordinatorOptions {
    /// The port of the calls: the one after the control port.
    pub fn rpc_port(&self) -> (r: u16)
        requires
            self.coordinator_port < u16::MAX,
        ensures
            r == self.coordinator_port + 1,
    {
        self.coordinator_port + 1
    }

    /// Connects to the port of the calls, by `connect`.
    pub fn connect_rpc<T, F: FnOnce(IpAddr, u16) -> T>(&self, connect: F) -> (r: T)
        requires
            self.coordinator_port < u16::MAX,
            call_requires(connect, (self.coordinator_addr, (self.coordinator_port + 1) as u16)),
        ensures
            call_ensures(connect, (self.coordinator_addr, (self.coordinator_port + 1) as u16), r),
    {
        connect(self.coordinator_addr, self.rpc_port())
    }
}

/// Where a dataflow's file is to be had.
pub enum DataflowSource {
    /// It is to be downloaded.
    Download(String),
    /// It is a local file.
    Local(String),
}

/// Finds out where the file of a dataflow is to be had.
pub fn resolve_dataflow(dataflow: String) -> (r: DataflowSource)
    ensures
        r == (if is_url(dataflow@) {
            DataflowSource::Download(dataflow)
        } else {
            DataflowSource::Local(dataflow)
        }),
{
    if source_is_url(dataflow.as_str()) {
        DataflowSource::Download(dataflow)
    } else {
        DataflowSource::Local(dataflow)
    }
}

/// Why the working directory was not found.
pub enum WorkingDirError<E> {
    /// The coordinator did not say where the daemon runs.
    SameMachine(E),
    Canonicalize(String),
    NoParent,
}

/// The text of the failure to find the working directory; that of the coordinator's answer is
/// `answer`.
pub open spec fn working_dir_error_text<E>(error: WorkingDirError<E>, answer: Seq<char>) -> Seq<
    char,
> {
    match error {
        WorkingDirError::SameMachine(_) => answer,
        WorkingDirError::Canonicalize(_) => "failed to canonicalize dataflow file path"@,
        WorkingDirError::NoParent => "dataflow path has no parent dir"@,
    }
}

impl<E> WorkingDirError<E> {
    /// The text of the failure; that of the coordinator's answer is `answer`.
    pub fn message(&self, answer: &str) -> (r: String)
        ensures
            r@ == working_dir_error_text(*self, answer@),
    {
        match self {
            WorkingDirError::SameMachine(_) => answer.to_owned(),
            WorkingDirError::Canonicalize(_) => {
                "failed to canonicalize dataflow file path".to_owned()
            },
            WorkingDirError::NoParent => "dataflow path has no parent dir".to_owned(),
        }
    }
}

/// Whether no node asks for a deployment.
pub open spec fn undeployed(nodes: Seq<Node>) -> bool {
    forall|i: int| #![trigger nodes[i]] 0 <= i < nodes.len() ==> nodes[i].deploy is None
}

/// Whether no node asks for a deployment.
fn all_undeployed(nodes: &Vec<Node>) -> (r: bool)
    ensures
        r == undeployed(nodes@),
{
    let mut i: usize = 0;
    while i < nodes.len()
        invariant
            i <= nodes@.len(),
            forall|j: int| #![trigger nodes@[j]] 0 <= j < i ==> nodes@[j].deploy is None,
        decreases nodes@.len() - i,
    {
        if nodes[i].deploy.is_some() {
            return false;
        }
        i = i + 1;
    }
    true
}

/// What the directory of the dataflow's file comes to.
pub open spec fn dir_outcome<P, E>(dir: Result<Option<P>, String>) -> Result<
    Option<P>,
    WorkingDirError<E>,
> {
    match dir {
        Ok(Some(dir)) => Ok(Some(dir)),
        Ok(None) => Err(WorkingDirError::NoParent),
        Err(text) => Err(WorkingDirError::Canonicalize(text)),
    }
}

/// The directory that the nodes of a dataflow can share with the command line tool: that of the
/// dataflow's file, provided that no node asks for a deployment and the daemon runs on the same
/// machine. `same_machine` finds out the latter, and `parent_dir` the directory, as far as the
/// path can be resolved and has one; neither is called without need.
pub fn local_working_dir<
    P,
    E,
    S: FnOnce() -> Result<bool, E>,
    D: FnOnce() -> Result<Option<P>, String>,
>(dataflow_descriptor: &Descriptor, same_machine: S, parent_dir: D) -> (r: Result<
    Option<P>,
    WorkingDirError<E>,
>)
    requires
        undeployed(dataflow_descriptor.nodes@) ==> call_requires(same_machine, ()),
        undeployed(dataflow_descriptor.nodes@) && call_ensures(same_machine, (), Ok(true))
            ==> call_requires(parent_dir, ()),
    ensures
        !undeployed(dataflow_descriptor.nodes@) ==> r == Ok::<_, WorkingDirError<E>>(None::<P>),
        undeployed(dataflow_descriptor.nodes@) ==> {
            ||| call_ensures(same_machine, (), Ok(false)) && r == Ok::<_, WorkingDirError<E>>(
                None::<P>,
            )
            ||| (r matches Err(WorkingDirError::SameMachine(error)) && call_ensures(
                same_machine,
                (),
                Err(error),
            ))
            ||| call_ensures(same_machine, (), Ok(true)) && exists|dir: Result<Option<P>, String>|
                call_ensures(parent_dir, (), dir) && r == #[trigger] dir_outcome::<P, E>(dir)
        },
{
    if !all_undeployed(&dataflow_descriptor.nodes) {
        return Ok(None);
    }
    match same_machine() {
        Ok(true) => {
            let dir = parent_dir();
            let ghost found = dir;
            let r = match dir {
                Ok(Some(dir)) => Ok(Some(dir)),
                Ok(None) => Err(WorkingDirError::NoParent),
                Err(text) => Err(WorkingDirError::Canonicalize(text)),
            };
            assert(r == dir_outcome::<P, E>(found));
            r
        },
        Ok(false) => Ok(None),
        Err(error) => Err(WorkingDirError::SameMachine(error)),
    }
}

/// Whether the daemon that runs without a machine name is known to run where the command line
/// tool does.
pub fn cli_and_daemon_on_same_machine(ips: &CliAndDefaultDaemonIps) -> (r: bool)
    ensures
        r == (ips.default_daemon is Some && ips.default_daemon == ips.cli),
{
    match (ips.default_daemon, ips.cli) {
        (Some(daemon), Some(cli)) => daemon == cli,
        _ => false,
    }
}

/// A call succeeds just when it got through and the coordinator did not refuse, and then with
/// the coordinator's answer; a failure says which of the two it was, and why.
pub proof fn law_calls_succeed_when_nothing_refuses<T, E>(
    reply: Result<Result<T, String>, E>,
    value: T,
    text: String,
    error: E,
)
    ensures
        rpc_outcome(reply) == Ok::<_, RpcError<E>>(value) <==> reply == Ok::<_, E>(
            Ok::<_, String>(value),
        ),
        rpc_outcome(reply) == Err::<T, _>(RpcError::<E>::Application(text)) <==> reply == Ok::<
            _,
            E,
        >(Err::<T, _>(text)),
        rpc_outcome(reply) == Err::<T, _>(RpcError::Transport(error)) <==> reply == Err::<
            Result<T, String>,
            _,
        >(error),
{
}

/// A dataflow is picked among the active ones only. With a name it is the first that has it;
/// without one it is the only one there is. None is picked just where there is none to pick, and
/// the choice is left open only where there are several and no name, and then among all of them.
pub proof fn law_pick_is_among_the_active_dataflows(
    name: Option<Seq<char>>,
    active: Seq<DataflowIdAndName>,
    pick: Pick,
    i: int,
)
    requires
        is_pick(name, active, pick),
    ensures
        pick matches Pick::Found(uuid) ==> exists|k: int|
            #![trigger active[k]]
            0 <= k < active.len() && active[k].uuid == uuid && (name is Some ==> active[k].name
                is Some && active[k].name->0@ == name->0),
        name is Some && 0 <= i < active.len() && active[i].name is Some && active[i].name->0@
            == name->0 && (forall|j: int|
            #![trigger active[j]]
            0 <= j < i ==> !(active[j].name is Some && active[j].name->0@ == name->0)) ==> pick
            == Pick::Found(active[i].uuid),
        name is Some ==> pick is Found || (pick matches Pick::NoneNamed(n) && n@ == name->0),
        pick is NoneNamed && 0 <= i < active.len() ==> !(active[i].name is Some
            && active[i].name->0@ == name->0),
        name is None && active.len() == 0 ==> pick is NoneRunning,
        name is None && active.len() == 1 ==> pick == Pick::Found(active[0].uuid),
        name is None && active.len() > 1 ==> (pick matches Pick::Choose(listed) && listed@
            == active),
{
    if let Some(name) = name {
        lemma_first_named(active, name);
        if 0 <= i < active.len() && active[i].name is Some && active[i].name->0@ == name && (
        forall|j: int|
            #![trigger active[j]]
            0 <= j < i ==> !(active[j].name is Some && active[j].name->0@ == name)) {
            lemma_first_named_at(active, name, i);
        }
    } else if let Pick::Found(uuid) = pick {
        assert(active[0].uuid == uuid);
    }
}

/// The first dataflow with a name is found where it stands.
proof fn lemma_first_named_at(active: Seq<DataflowIdAndName>, name: Seq<char>, i: int)
    requires
        0 <= i < active.len(),
        opt_text(active[i].name) == Some(name),
        forall|j: int|
            #![trigger active[j]]
            0 <= j < i ==> opt_text(active[j].name) != Some(name),
    ensures
        first_named(active, name) == Some(active[i].uuid),
    decreases active.len(),
{
    if i > 0 {
        assert(opt_text(active[0].name) != Some(name));
        let rest = active.drop_first();
        assert forall|j: int| #![trigger rest[j]] 0 <= j < i - 1 implies opt_text(rest[j].name)
            != Some(name) by {
            assert(rest[j] == active[j + 1]);
        }
        assert(rest[i - 1] == active[i]);
        lemma_first_named_at(rest, name, i - 1);
    }
}

/// Whether a dataflow has the name.
pub open spec fn is_named(dataflow: DataflowIdAndName, name: Seq<char>) -> bool {
    dataflow.name is Some && dataflow.name->0@ == name
}

/// Whether a dataflow is the one that is meant among the active ones: the first with the name that
/// is given; the only one, if no name is given; or one that `select` chose among several.
pub open spec fn is_meant<
    S: FnOnce(Vec<DataflowIdAndName>) -> Result<DataflowIdAndName, String>,
>(name: Option<Seq<char>>, active: Seq<DataflowIdAndName>, select: S, uuid: DataflowId) -> bool {
    match name {
        Some(name) => exists|k: int|
            #![trigger active[k]]
            0 <= k < active.len() && active[k].uuid == uuid && is_named(active[k], name) && forall|
                j: int,
            |
                #![trigger active[j]]
                0 <= j < k ==> !is_named(active[j], name),
        None => if active.len() == 1 {
            active[0].uuid == uuid
        } else {
            active.len() > 1 && exists|listed: Vec<DataflowIdAndName>, chosen: DataflowIdAndName|
                #![trigger call_ensures(select, (listed,), Ok(chosen))]
                listed@ == active && call_ensures(select, (listed,), Ok(chosen)) && uuid
                    == chosen.uuid
        },
    }
}

/// Whether no dataflow is meant among the active ones, for the reason that the error gives.
pub open spec fn is_amiss<
    E,
    S: FnOnce(Vec<DataflowIdAndName>) -> Result<DataflowIdAndName, String>,
>(
    name: Option<Seq<char>>,
    active: Seq<DataflowIdAndName>,
    select: S,
    error: IdentifierError<E>,
) -> bool {
    match error {
        IdentifierError::Query(_) => false,
        IdentifierError::NoneNamed(told) => name == Some(told@) && forall|k: int|
            #![trigger active[k]]
            0 <= k < active.len() ==> !is_named(active[k], told@),
        IdentifierError::NoneRunning => name is None && active.len() == 0,
        IdentifierError::Prompt(text) => name is None && active.len() > 1 && exists|
            listed: Vec<DataflowIdAndName>,
        |
            #![trigger call_ensures(select, (listed,), Err(text))]
            listed@ == active && call_ensures(select, (listed,), Err(text)),
    }
}

/// An identifier that is given stands for itself, whatever the coordinator would say. Otherwise a
/// dataflow is found out from a list that the coordinator gave, and a failure is that of the
/// coordinator, of the choice, or for want of a dataflow in such a list.
pub proof fn law_dataflow_is_the_one_that_is_meant<
    E,
    S: FnOnce(Vec<DataflowIdAndName>) -> Result<DataflowIdAndName, String>,
>(
    name_or_uuid: Option<Seq<char>>,
    asked: spec_fn(Result<DataflowList, E>) -> bool,
    select: S,
    r: Result<DataflowId, IdentifierError<E>>,
)
    requires
        is_identified(name_or_uuid, asked, select, r),
    ensures
        name_or_uuid is Some && parsed_uuid(name_or_uuid->0) is Some ==> r == Ok::<
            _,
            IdentifierError<E>,
        >(parsed_uuid(name_or_uuid->0)->0),
        !(name_or_uuid is Some && parsed_uuid(name_or_uuid->0) is Some) ==> match r {
            Ok(uuid) => exists|list: DataflowList| #[trigger]
                asked(Ok(list)) && is_meant(name_or_uuid, active_of(list.0@), select, uuid),
            Err(IdentifierError::Query(error)) => asked(Err(error)),
            Err(error) => exists|list: DataflowList| #[trigger]
                asked(Ok(list)) && is_amiss(name_or_uuid, active_of(list.0@), select, error),
        },
{
    if given_uuid(name_or_uuid) is None && !(r matches Err(IdentifierError::Query(_))) {
        let (list, pick) = choose|list: DataflowList, pick: Pick|
            #![trigger is_pick(name_or_uuid, active_of(list.0@), pick)]
            asked(Ok(list)) && is_pick(name_or_uuid, active_of(list.0@), pick) && is_choice(
                pick,
                select,
                r,
            );
        let active = active_of(list.0@);
        assert(asked(Ok(list)));
        if let Some(name) = name_or_uuid {
            lemma_first_named_position(active, name);
        }
        if let Pick::Choose(listed) = pick {
            if let Ok(uuid) = r {
                let chosen = choose|chosen: DataflowIdAndName|
                    #![trigger call_ensures(select, (listed,), Ok(chosen))]
                    call_ensures(select, (listed,), Ok(chosen)) && uuid == chosen.uuid;
                assert(call_ensures(select, (listed,), Ok(chosen)));
            }
        }
        match r {
            Ok(uuid) => assert(is_meant(name_or_uuid, active, select, uuid)),
            Err(error) => assert(is_amiss(name_or_uuid, active, select, error)),
        }
    }
}

/// Where the first dataflow with a name stands, or that none has it.
proof fn lemma_first_named_position(active: Seq<DataflowIdAndName>, name: Seq<char>)
    ensures
        match first_named(active, name) {
            Some(uuid) => exists|k: int|
                #![trigger active[k]]
                0 <= k < active.len() && active[k].uuid == uuid && is_named(active[k], name)
                    && forall|j: int|
                    #![trigger active[j]]
                    0 <= j < k ==> !is_named(active[j], name),
            None => forall|k: int|
                #![trigger active[k]]
                0 <= k < active.len() ==> !is_named(active[k], name),
        },
    decreases active.len(),
{
    if active.len() > 0 && !is_named(active[0], name) {
        let rest = active.drop_first();
        lemma_first_named_position(rest, name);
        match first_named(rest, name) {
            Some(uuid) => {
                let k = choose|k: int|
                    #![trigger rest[k]]
                    0 <= k < rest.len() && rest[k].uuid == uuid && is_named(rest[k], name)
                        && forall|j: int|
                        #![trigger rest[j]]
                        0 <= j < k ==> !is_named(rest[j], name);
                assert(active[k + 1] == rest[k]);
                assert forall|j: int| #![trigger active[j]] 0 <= j < k + 1 implies !is_named(
                    active[j],
                    name,
                ) by {
                    if j > 0 {
                        assert(rest[j - 1] == active[j]);
                    }
                }
            },
            None => {
                assert forall|k: int| #![trigger active[k]] 0 <= k < active.len() implies !is_named(
                    active[k],
                    name,
                ) by {
                    if k > 0 {
                        assert(rest[k - 1] == active[k]);
                    }
                }
            },
        }
    } else if active.len() > 0 {
        assert(active[0].uuid == first_named(active, name)->0);
    }
}

/// No node asks for a deployment just when none of a part does and none of the rest; one that
/// does is enough, whether or not its deployment names a machine.
pub proof fn law_one_deployment_is_enough(nodes: Seq<Node>, node: Node)
    ensures
        undeployed(Seq::empty()),
        undeployed(nodes.push(node)) <==> undeployed(nodes) && node.deploy is None,
{
    let more = nodes.push(node);
    if undeployed(more) {
        assert forall|i: int| #![trigger nodes[i]] 0 <= i < nodes.len() implies nodes[i].deploy
            is None by {
            assert(more[i] == nodes[i]);
        }
        assert(more[nodes.len() as int] == node);
    }
}

/// The directory is the one that was found; a path without one and a path that cannot be resolved
/// are failures.
pub proof fn law_directory_is_the_one_that_was_found<P, E>(dir: Result<Option<P>, String>, p: P)
    ensures
        dir_outcome::<P, E>(dir) == Ok::<_, WorkingDirError<E>>(Some(p)) <==> dir == Ok::<
            _,
            String,
        >(Some(p)),
        dir_outcome::<P, E>(dir) != Ok::<_, WorkingDirError<E>>(None::<P>),
        (dir_outcome::<P, E>(dir) matches Err(WorkingDirError::NoParent)) <==> dir == Ok::<
            _,
            String,
        >(None::<P>),
        dir_outcome::<P, E>(dir) matches Err(WorkingDirError::Canonicalize(text)) ==> dir == Err::<
            Option<P>,
            _,
        >(text),
        !(dir_outcome::<P, E>(dir) matches Err(WorkingDirError::SameMachine(_))),
{
}

/// Failures of the same kind read alike but for what they are about.
pub proof fn law_failures_of_the_tool_read_alike<E>(
    rpc_a: RpcError<E>,
    rpc_b: RpcError<E>,
    uuid_a: Option<DataflowId>,
    uuid_b: Option<DataflowId>,
    details_a: Seq<char>,
    details_b: Seq<char>,
    error_a: IdentifierError<E>,
    error_b: IdentifierError<E>,
    dir_a: WorkingDirError<E>,
    dir_b: WorkingDirError<E>,
    answer: Seq<char>,
)
    ensures
        match (rpc_a, rpc_b) {
            (RpcError::Transport(_), RpcError::Transport(_)) => rpc_error_text(rpc_a)
                == rpc_error_text(rpc_b),
            (RpcError::Application(text), _) => rpc_error_text(rpc_a) == text@,
            _ => true,
        },
        match (uuid_a, uuid_b) {
            (Some(a), Some(b)) => same_frame(
                dataflow_failed_text(uuid_a, details_a),
                hyphenated(a),
                dataflow_failed_text(uuid_b, details_a),
                hyphenated(b),
            ),
            _ => true,
        },
        same_frame(
            dataflow_failed_text(uuid_a, details_a),
            details_a,
            dataflow_failed_text(uuid_a, details_b),
            details_b,
        ),
        match (error_a, error_b) {
            (IdentifierError::Query(_), IdentifierError::Query(_)) => identifier_error_text(error_a)
                == identifier_error_text(error_b),
            (IdentifierError::NoneNamed(a), IdentifierError::NoneNamed(b)) => same_frame(
                identifier_error_text(error_a),
                a@,
                identifier_error_text(error_b),
                b@,
            ),
            (IdentifierError::Prompt(a), _) => identifier_error_text(error_a) == a@,
            _ => true,
        },
        match (dir_a, dir_b) {
            (WorkingDirError::SameMachine(_), _) => working_dir_error_text(dir_a, answer) == answer,
            (WorkingDirError::Canonicalize(_), WorkingDirError::Canonicalize(_)) => {
                working_dir_error_text(dir_a, answer) == working_dir_error_text(dir_b, answer)
            },
            (WorkingDirError::NoParent, _) => working_dir_error_text(dir_a, answer)
                == working_dir_error_text(WorkingDirError::<E>::NoParent, Seq::empty()),
            _ => true,
        },
{
    if let (Some(a), Some(b)) = (uuid_a, uuid_b) {
        let after = " failed:\n"@ + details_a;
        lemma_same_frame("Dataflow "@, hyphenated(a), hyphenated(b), after);
        assert("Dataflow "@ + hyphenated(a) + after =~= dataflow_failed_text(uuid_a, details_a));
        assert("Dataflow "@ + hyphenated(b) + after =~= dataflow_failed_text(uuid_b, details_a));
    }
    match uuid_a {
        Some(a) => lemma_same_start(
            "Dataflow "@ + hyphenated(a) + " failed:\n"@,
            details_a,
            details_b,
        ),
        None => lemma_same_start("Dataflow failed:\n"@, details_a, details_b),
    }
    if let (IdentifierError::NoneNamed(a), IdentifierError::NoneNamed(b)) = (error_a, error_b) {
        lemma_same_frame("No dataflow with name `"@, a@, b@, "` is running"@);
    }
}

/// The result of a dataflow is accepted just when every node of it ended well; a refusal hands it
/// back as it is.
pub proof fn law_result_is_accepted_when_all_nodes_ended_well(
    result: DataflowResult,
    uuid: Option<DataflowId>,
    r: Result<(), DataflowFailed>,
)
    requires
        call_ensures(handle_dataflow_result, (result, uuid), r),
    ensures
        r is Ok <==> forall|node: Seq<char>| #[trigger]
            result.node_results@.contains_key(node) ==> result.node_results@[node] is Ok,
        r matches Err(failed) ==> failed.uuid == uuid && failed.result == result,
{
}

/// A dataflow is downloaded just when a colon and two slashes stand somewhere in its source; the
/// source is kept as it is.
pub proof fn law_sources_with_a_scheme_are_downloaded(dataflow: String, r: DataflowSource)
    requires
        call_ensures(resolve_dataflow, (dataflow,), r),
    ensures
        match r {
            DataflowSource::Download(source) => source == dataflow && exists|at: int|
                0 <= at && at + 2 < dataflow@.len() && #[trigger] dataflow@[at] == ':'
                    && dataflow@[at + 1] == '/' && dataflow@[at + 2] == '/',
            DataflowSource::Local(source) => source == dataflow && forall|at: int|
                0 <= at && at + 2 < dataflow@.len() ==> !(#[trigger] dataflow@[at] == ':'
                    && dataflow@[at + 1] == '/' && dataflow@[at + 2] == '/'),
        },
{
    let text = dataflow@;
    let mark = seq![':', '/', '/'];
    if is_url(text) {
        let at = choose|at: int| occurs_at(text, mark, at);
        assert(text.subrange(at, at + 3)[0] == text[at]);
        assert(text.subrange(at, at + 3)[1] == text[at + 1]);
        assert(text.subrange(at, at + 3)[2] == text[at + 2]);
    } else {
        assert forall|at: int| 0 <= at && at + 2 < text.len() implies !(#[trigger] text[at] == ':'
            && text[at + 1] == '/' && text[at + 2] == '/') by {
            if text[at] == ':' && text[at + 1] == '/' && text[at + 2] == '/' {
                assert(text.subrange(at, at + 3) =~= mark);
                assert(occurs_at(text, mark, at));
            }
        }
    }
}

/// Tool and daemon are on the same machine just when both addresses are known and equal; it does
/// not matter which is which.
pub proof fn law_same_machine_means_same_address(
    daemon: IpAddr,
    cli: IpAddr,
    ips: CliAndDefaultDaemonIps,
    r: bool,
)
    requires
        call_ensures(cli_and_daemon_on_same_machine, (&ips,), r),
    ensures
        ips.default_daemon is None || ips.cli is None ==> !r,
        ips.default_daemon == Some(daemon) && ips.cli == Some(cli) ==> (r <==> daemon == cli),
{
}

/// The working directory is that of the dataflow's file only if no node asks for a deployment and
/// the daemon is found to run on the same machine. Without a failure it is left out otherwise.
pub proof fn law_directory_is_shared_on_one_machine_only<
    P,
    E,
    S: FnOnce() -> Result<bool, E>,
    D: FnOnce() -> Result<Option<P>, String>,
>(
    dataflow_descriptor: Descriptor,
    same_machine: S,
    parent_dir: D,
    r: Result<Option<P>, WorkingDirError<E>>,
    i: int,
)
    requires
        call_ensures(
            local_working_dir::<P, E, S, D>,
            (&dataflow_descriptor, same_machine, parent_dir),
            r,
        ),
    ensures
        0 <= i < dataflow_descriptor.nodes@.len() && dataflow_descriptor.nodes@[i].deploy is Some
            ==> r == Ok::<_, WorkingDirError<E>>(None::<P>),
        r matches Ok(Some(dir)) ==> call_ensures(same_machine, (), Ok(true)) && call_ensures(
            parent_dir,
            (),
            Ok(Some(dir)),
        ),
        r matches Err(WorkingDirError::SameMachine(error)) ==> call_ensures(
            same_machine,
            (),
            Err(error),
        ),
        r matches Err(WorkingDirError::Canonicalize(text)) ==> call_ensures(
            same_machine,
            (),
            Ok(true),
        ) && call_ensures(parent_dir, (), Err(text)),
        r matches Err(WorkingDirError::NoParent) ==> call_ensures(same_machine, (), Ok(true))
            && call_ensures(parent_dir, (), Ok(None::<P>)),
        (forall|k: int|
            #![trigger dataflow_descriptor.nodes@[k]]
            0 <= k < dataflow_descriptor.nodes@.len() ==> dataflow_descriptor.nodes@[k].deploy
                is None) && (r matches Ok(None)) ==> call_ensures(same_machine, (), Ok(false)),
{
}

} // verus!

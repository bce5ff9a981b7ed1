//! Building a dataflow on the machines of its daemons.

use vstd::prelude::*;

use crate::common::{rpc, rpc_error_text, rpc_outcome, RpcError};
use crate::ids::{BuildId, NodeId};
use crate::logs::{LogFollower, SubscribeError};
use crate::message::{
    BuildRequest, ControlRequest, DataflowSession, Descriptor, FilePath, GitSource, LevelFilter,
};
use crate::ordered::SortedMap;

verus! {

/// Whether a request asks for the build of the dataflow, with the sources that were fetched now
/// and those that the session remembers.
pub open spec fn is_build_request(
    request: BuildRequest,
    dataflow: Descriptor,
    git_sources: SortedMap<NodeId, GitSource>,
    dataflow_session: DataflowSession,
    local_working_dir: Option<FilePath>,
    uv: bool,
) -> bool {
    &&& request.session_id == dataflow_session.session_id
    &&& request.dataflow == dataflow
    &&& request.git_sources.entries() == git_sources.entries()
    &&& request.prev_git_sources.entries() == dataflow_session.git_sources.entries()
    &&& request.local_working_dir == local_working_dir
    &&& request.uv == uv
}

/// The request to build a dataflow.
pub fn build_request(
    dataflow: Descriptor,
    git_sources: &SortedMap<NodeId, GitSource>,
    dataflow_session: &DataflowSession,
    local_working_dir: Option<FilePath>,
    uv: bool,
) -> (r: BuildRequest)
    ensures
        is_build_request(r, dataflow, *git_sources, *dataflow_session, local_working_dir, uv),
{
    let sources = git_sources.clone();
    let prev_sources = dataflow_session.git_sources.clone();
    assert(sources.entries() =~= git_sources.entries());
    assert(prev_sources.entries() =~= dataflow_session.git_sources.entries());
    BuildRequest {
        session_id: dataflow_session.session_id,
        dataflow,
        git_sources: sources,
        prev_git_sources: prev_sources,
        local_working_dir,
        uv,
    }
}

/// Has the coordinator build a dataflow, by the call `build`.
pub fn build_distributed_dataflow<
    E,
    F: FnOnce(BuildRequest) -> Result<Result<BuildId, String>, E>,
>(
    dataflow: Descriptor,
    git_sources: &SortedMap<NodeId, GitSource>,
    dataflow_session: &DataflowSession,
    local_working_dir: Option<FilePath>,
    uv: bool,
    build: F,
) -> (r: Result<BuildId, RpcError<E>>)
    requires
        forall|request: BuildRequest|
            #![trigger call_requires(build, (request,))]
            is_build_request(
                request,
                dataflow,
                *git_sources,
                *dataflow_session,
                local_working_dir,
                uv,
            ) ==> call_requires(build, (request,)),
    ensures
        exists|request: BuildRequest, reply: Result<Result<BuildId, String>, E>|
            #![trigger call_ensures(build, (request,), reply)]
            is_build_request(
                request,
                dataflow,
                *git_sources,
                *dataflow_session,
                local_working_dir,
                uv,
            ) && call_ensures(build, (request,), reply) && r == rpc_outcome(reply),
{
    let request = build_request(dataflow, git_sources, dataflow_session, local_working_dir, uv);
    rpc(build(request))
}

/// Where the wait for a build stands.
#[derive(Clone, Copy, Debug, PartialEq, Eq, Structural)]
pub enum BuildStage {
    Start,
    Connecting,
    Subscribing,
    Waiting,
    Ended,
}

/// Why the wait for a build failed.
pub enum BuildError<E> {
    Connect(String),
    Subscribe(SubscribeError),
    /// The build failed, or the coordinator did not say.
    Wait(RpcError<E>),
}

/// The text of the failure of a wait.
pub open spec fn build_error_text<E>(error: BuildError<E>) -> Seq<char> {
    match error {
        BuildError::Connect(_) => "failed to connect to dora coordinator"@,
        BuildError::Subscribe(SubscribeError::Serialize(_)) => "failed to serialize message"@,
        BuildError::Subscribe(SubscribeError::Send(_)) => {
            "failed to send build log subscribe request to coordinator"@
        },
        BuildError::Wait(error) => rpc_error_text(error),
    }
}

impl<E> BuildError<E> {
    /// The text of the failure.
    pub fn message(&self) -> (r: String)
        ensures
            r@ == build_error_text(*self),
    {
        match self {
            BuildError::Connect(_) => "failed to connect to dora coordinator".to_owned(),
            BuildError::Subscribe(SubscribeError::Serialize(_)) => {
                "failed to serialize message".to_owned()
            },
            BuildError::Subscribe(SubscribeError::Send(_)) => {
                "failed to send build log subscribe request to coordinator".to_owned()
            },
            BuildError::Wait(error) => error.message(),
        }
    }
}

/// What is to be done next while a build is awaited.
pub enum BuildAction<E> {
    /// Connect to the coordinator.
    Connect,
    /// Send the request.
    Send(ControlRequest),
    /// Show in the background the messages that arrive, and call the coordinator to wait for
    /// the build.
    FollowAndWait { follower: LogFollower, build_id: BuildId },
    /// Nothing: the wait has ended.
    End(Result<BuildId, BuildError<E>>),
}

/// What came of an action.
pub enum BuildEvent<E> {
    /// The wait is to begin.
    Begin,
    Connected(Result<(), String>),
    Sent(Result<(), SubscribeError>),
    Waited(Result<(), RpcError<E>>),
}

/// Whether an event can come of the action that is waited for.
pub open spec fn build_fits<E>(stage: BuildStage, event: BuildEvent<E>) -> bool {
    match stage {
        BuildStage::Start => event is Begin,
        BuildStage::Connecting => event is Connected,
        BuildStage::Subscribing => event is Sent,
        BuildStage::Waiting => event is Waited,
        BuildStage::Ended => false,
    }
}

/// Waits for a build and shows its log messages meanwhile.
pub struct BuildWatch {
    pub build_id: BuildId,
    pub log_level: LevelFilter,
    pub stage: BuildStage,
}

/// How a wait goes on after an event.
pub open spec fn build_next<E>(watch: BuildWatch, event: BuildEvent<E>) -> (
    BuildStage,
    BuildAction<E>,
) {
    match event {
        BuildEvent::Begin => (BuildStage::Connecting, BuildAction::Connect),
        BuildEvent::Connected(Ok(_)) => (
            BuildStage::Subscribing,
            BuildAction::Send(
                ControlRequest::BuildLogSubscribe {
                    build_id: watch.build_id,
                    level: watch.log_level,
                },
            ),
        ),
        BuildEvent::Connected(Err(text)) => (
            BuildStage::Ended,
            BuildAction::End(Err(BuildError::Connect(text))),
        ),
        BuildEvent::Sent(Ok(_)) => (
            BuildStage::Waiting,
            BuildAction::FollowAndWait {
                follower: LogFollower { print_dataflow_id: false, print_daemon_name: true },
                build_id: watch.build_id,
            },
        ),
        BuildEvent::Sent(Err(error)) => (
            BuildStage::Ended,
            BuildAction::End(Err(BuildError::Subscribe(error))),
        ),
        BuildEvent::Waited(Ok(_)) => (BuildStage::Ended, BuildAction::End(Ok(watch.build_id))),
        BuildEvent::Waited(Err(error)) => (
            BuildStage::Ended,
            BuildAction::End(Err(BuildError::Wait(error))),
        ),
    }
}

/// The wait for a build.
pub fn wait_until_dataflow_built(build_id: BuildId, log_level: LevelFilter) -> (r: BuildWatch)
    ensures
        r == (BuildWatch { build_id, log_level, stage: BuildStage::Start }),
{
    BuildWatch { build_id, log_level, stage: BuildStage::Start }
}

impl BuildWatch {
    /// Takes in what came of the last action and says what is next.
    pub fn step<E>(&mut self, event: BuildEvent<E>) -> (r: BuildAction<E>)
        requires
            build_fits(old(self).stage, event),
        ensures
            (final(self).stage, r) == build_next(*old(self), event),
            *final(self) == (BuildWatch { stage: final(self).stage, ..*old(self) }),
    {
        let (stage, action) = match event {
            BuildEvent::Begin => (BuildStage::Connecting, BuildAction::Connect),
            BuildEvent::Connected(Ok(_)) => (
                BuildStage::Subscribing,
                BuildAction::Send(
                    ControlRequest::BuildLogSubscribe {
                        build_id: self.build_id,
                        level: self.log_level,
                    },
                ),
            ),
            BuildEvent::Connected(Err(text)) => (
                BuildStage::Ended,
                BuildAction::End(Err(BuildError::Connect(text))),
            ),
            BuildEvent::Sent(Ok(_)) => (
                BuildStage::Waiting,
                BuildAction::FollowAndWait {
                    follower: LogFollower { print_dataflow_id: false, print_daemon_name: true },
                    build_id: self.build_id,
                },
            ),
            BuildEvent::Sent(Err(error)) => (
                BuildStage::Ended,
                BuildAction::End(Err(BuildError::Subscribe(error))),
            ),
            BuildEvent::Waited(Ok(_)) => (BuildStage::Ended, BuildAction::End(Ok(self.build_id))),
            BuildEvent::Waited(Err(error)) => (
                BuildStage::Ended,
                BuildAction::End(Err(BuildError::Wait(error))),
            ),
        };
        self.stage = stage;
        action
    }
}

/// A wait ends well just when the coordinator reports that the build is done, and then with the
/// build it was for.
pub proof fn law_wait_ends_with_its_build<E>(watch: BuildWatch, event: BuildEvent<E>)
    requires
        build_fits(watch.stage, event),
    ensures
        build_next(watch, event).1 matches BuildAction::End(Ok(build_id)) ==> build_id
            == watch.build_id && (event matches BuildEvent::Waited(Ok(_))),
        event matches BuildEvent::Waited(Ok(_)) ==> build_next(watch, event).1
            == BuildAction::<E>::End(Ok(watch.build_id)),
        build_next(watch, event).1 is End <==> build_next(watch, event).0 == BuildStage::Ended,
{
}

/// A request asks for the build of just the dataflow, in the session, with the sources that were
/// fetched now beside those that the session remembers.
pub proof fn law_build_is_asked_for_as_it_is(
    request: BuildRequest,
    dataflow: Descriptor,
    git_sources: SortedMap<NodeId, GitSource>,
    dataflow_session: DataflowSession,
    local_working_dir: Option<FilePath>,
    uv: bool,
)
    requires
        is_build_request(
            request,
            dataflow,
            git_sources,
            dataflow_session,
            local_working_dir,
            uv,
        ),
    ensures
        request.dataflow.nodes@ == dataflow.nodes@,
        request.dataflow.definition@ == dataflow.definition@,
        request.session_id == dataflow_session.session_id,
        request.git_sources@ == git_sources@,
        request.prev_git_sources@ == dataflow_session.git_sources@,
        request.local_working_dir == local_working_dir,
        request.uv == uv,
{
}

/// Each action of a wait follows from the success of the one before it and is for the build that
/// is awaited; a failure ends the wait with its words.
pub proof fn law_wait_goes_on_while_nothing_fails<E>(
    watch: BuildWatch,
    event: BuildEvent<E>,
    text: String,
    failure: SubscribeError,
    error: RpcError<E>,
)
    requires
        build_fits(watch.stage, event),
    ensures
        ({
            let action = build_next(watch, event).1;
            &&& action is Connect <==> event is Begin
            &&& action is Send <==> (event matches BuildEvent::Connected(Ok(_)))
            &&& action matches BuildAction::Send(request) ==> request == (
            ControlRequest::BuildLogSubscribe { build_id: watch.build_id, level: watch.log_level })
            &&& action is FollowAndWait <==> (event matches BuildEvent::Sent(Ok(_)))
            &&& action matches BuildAction::FollowAndWait { follower, build_id } ==> build_id
                == watch.build_id && !follower.print_dataflow_id && follower.print_daemon_name
            &&& action == BuildAction::<E>::End(Err(BuildError::Connect(text))) <==> event
                == BuildEvent::<E>::Connected(Err(text))
            &&& action == BuildAction::<E>::End(Err(BuildError::Subscribe(failure))) <==> event
                == BuildEvent::<E>::Sent(Err(failure))
            &&& action == BuildAction::<E>::End(Err(BuildError::Wait(error))) <==> event
                == BuildEvent::<E>::Waited(Err(error))
        }),
{
}

/// What can come next of a wait is the outcome of its last action; after its end nothing can.
pub proof fn law_build_events_answer_the_action<E>(
    watch: BuildWatch,
    event: BuildEvent<E>,
    next: BuildEvent<E>,
)
    requires
        build_fits(watch.stage, event),
    ensures
        build_fits(build_next(watch, event).0, next) <==> match build_next(watch, event).1 {
            BuildAction::Connect => next is Connected,
            BuildAction::Send(_) => next is Sent,
            BuildAction::FollowAndWait { .. } => next is Waited,
            BuildAction::End(_) => false,
        },
        build_fits(BuildStage::Start, event) <==> event is Begin,
{
}

/// Failures of a wait of the same kind read alike.
pub proof fn law_failed_waits_read_alike<E>(a: BuildError<E>, b: BuildError<E>)
    ensures
        match (a, b) {
            (BuildError::Connect(_), BuildError::Connect(_)) => build_error_text(a)
                == build_error_text(b),
            (
                BuildError::Subscribe(SubscribeError::Serialize(_)),
                BuildError::Subscribe(SubscribeError::Serialize(_)),
            ) => build_error_text(a) == build_error_text(b),
            (
                BuildError::Subscribe(SubscribeError::Send(_)),
                BuildError::Subscribe(SubscribeError::Send(_)),
            ) => build_error_text(a) == build_error_text(b),
            (BuildError::Wait(error), _) => build_error_text(a) == rpc_error_text(error),
            _ => true,
        },
{
}

} // verus!

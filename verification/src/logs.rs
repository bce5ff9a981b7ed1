//! Showing the logs of a node.
//!
//! A session says what is to be done next and is told what came of it: first the logs so far
//! are fetched and written out, then, if they are to be followed, the dataflow's new messages
//! are subscribed to, and those of the node are shown as they arrive.

use vstd::prelude::*;

use crate::common::{
    given_uuid, identifier_error_text, is_choice, is_identified, is_pick,
    resolve_dataflow_identifier_interactive, rpc_error_text, IdentifierError, Pick, RpcError,
};
use crate::ids::{DataflowId, NodeId};
use crate::message::{
    active_of, ControlRequest, DataflowIdAndName, DataflowList, IpAddr, LevelFilter,
};
use crate::text::{opt_text, opt_text_is};

verus! {

/// Asks for the logs of a dataflow's node.
pub struct LogsArgs {
    /// The dataflow's identifier or name.
    pub dataflow: Option<String>,
    pub node: NodeId,
    /// How many lines from the end of the logs are shown.
    pub tail: Option<usize>,
    /// Whether new messages of the node are shown as they arrive.
    pub follow: bool,
    pub coordinator_addr: IpAddr,
    pub coordinator_port: u16,
}

impl LogsArgs {
    /// Where the coordinator takes calls: at the port after the control port.
    pub fn rpc_address(&self) -> (r: (IpAddr, u16))
        requires
            self.coordinator_port < u16::MAX,
        ensures
            r.0 == self.coordinator_addr,
            r.1 == self.coordinator_port + 1,
    {
        (self.coordinator_addr, self.coordinator_port + 1)
    }

    /// Where the coordinator takes requests and sends log messages.
    pub fn control_address(&self) -> (r: (IpAddr, u16))
        ensures
            r == (self.coordinator_addr, self.coordinator_port),
    {
        (self.coordinator_addr, self.coordinator_port)
    }

    /// Connects to the coordinator's calls by `connect` and finds out which dataflow is meant:
    /// `query` asks for the dataflows on the connection, and `select` lets one be chosen. What
    /// comes out is the connection and the session that shows the logs.
    pub fn execute<
        C,
        E,
        F: FnOnce(IpAddr, u16) -> Result<C, String>,
        Q: FnOnce(&C) -> Result<DataflowList, E>,
        S: FnOnce(Vec<DataflowIdAndName>) -> Result<DataflowIdAndName, String>,
    >(self, connect: F, query: Q, select: S) -> (r: Result<(C, LogsSession), ExecuteError<E>>)
        requires
            self.coordinator_port < u16::MAX,
            call_requires(connect, (self.coordinator_addr, (self.coordinator_port + 1) as u16)),
            forall|client: C| #[trigger] call_requires(query, (&client,)),
            forall|active: Vec<DataflowIdAndName>|
                #![trigger call_requires(select, (active,))]
                self.dataflow is None && active@.len() >= 2 ==> call_requires(select, (active,)),
        ensures
            match r {
                Ok((client, session)) => is_connected(self, connect, Ok(client)) && is_identified(
                    opt_text(self.dataflow),
                    |reply: Result<DataflowList, E>| call_ensures(query, (&client,), reply),
                    select,
                    Ok::<_, IdentifierError<E>>(session.uuid),
                ) && session == (LogsSession {
                    uuid: session.uuid,
                    node: self.node,
                    tail: self.tail,
                    follow: self.follow,
                    stage: LogsStage::Start,
                }),
                Err(ExecuteError::Connect(text)) => is_connected::<C, F>(self, connect, Err(text)),
                Err(ExecuteError::Identify(error)) => exists|client: C| #[trigger]
                    is_connected(self, connect, Ok(client)) && is_identified(
                        opt_text(self.dataflow),
                        |reply: Result<DataflowList, E>| call_ensures(query, (&client,), reply),
                        select,
                        Err::<DataflowId, _>(error),
                    ),
            },
    {
        let (addr, port) = self.rpc_address();
        let client = match connect(addr, port) {
            Ok(client) => client,
            Err(text) => {
                return Err(ExecuteError::Connect(text));
            },
        };
        assert(is_connected(self, connect, Ok(client)));
        let ghost asked = |reply: Result<DataflowList, E>| call_ensures(query, (&client,), reply);
        let name = match &self.dataflow {
            Some(name) => Some(name.as_str()),
            None => None,
        };
        let ask = || -> (reply: Result<DataflowList, E>)
            requires
                call_requires(query, (&client,)),
            ensures
                call_ensures(query, (&client,), reply),
            { query(&client) };
        let ghost heard = |reply: Result<DataflowList, E>| call_ensures(ask, (), reply);
        let resolved = resolve_dataflow_identifier_interactive(name, ask, select);
        proof {
            lemma_heard_is_asked(opt_text(self.dataflow), heard, asked, select, resolved);
        }
        match resolved {
            Ok(uuid) => Ok((client, logs(uuid, self.node, self.tail, self.follow))),
            Err(error) => Err(ExecuteError::Identify(error)),
        }
    }
}

/// Whether connecting to the coordinator's calls can end with `outcome`.
pub open spec fn is_connected<C, F: FnOnce(IpAddr, u16) -> Result<C, String>>(
    args: LogsArgs,
    connect: F,
    outcome: Result<C, String>,
) -> bool {
    call_ensures(
        connect,
        (args.coordinator_addr, (args.coordinator_port + 1) as u16),
        outcome,
    )
}

/// What is found out from what was heard is found out from what was asked.
proof fn lemma_heard_is_asked<
    E,
    S: FnOnce(Vec<DataflowIdAndName>) -> Result<DataflowIdAndName, String>,
>(
    name: Option<Seq<char>>,
    heard: spec_fn(Result<DataflowList, E>) -> bool,
    asked: spec_fn(Result<DataflowList, E>) -> bool,
    select: S,
    r: Result<DataflowId, IdentifierError<E>>,
)
    requires
        forall|reply: Result<DataflowList, E>| #[trigger] heard(reply) ==> asked(reply),
        is_identified(name, heard, select, r),
    ensures
        is_identified(name, asked, select, r),
{
    if given_uuid(name) is None && !(r matches Err(IdentifierError::Query(_))) {
        let (list, pick) = choose|list: DataflowList, pick: Pick|
            #![trigger is_pick(name, active_of(list.0@), pick)]
            heard(Ok(list)) && is_pick(name, active_of(list.0@), pick) && is_choice(
                pick,
                select,
                r,
            );
        assert(asked(Ok(list)) && is_pick(name, active_of(list.0@), pick));
    }
}

/// Why the logs cannot be shown at all.
pub enum ExecuteError<E> {
    /// The coordinator cannot be reached.
    Connect(String),
    /// It is not clear which dataflow is meant.
    Identify(IdentifierError<E>),
}

/// The text of the failure to show any logs.
pub open spec fn execute_error_text<E>(error: ExecuteError<E>) -> Seq<char> {
    match error {
        ExecuteError::Connect(_) => "failed to connect to dora coordinator"@,
        ExecuteError::Identify(error) => identifier_error_text(error),
    }
}

impl<E> ExecuteError<E> {
    /// The text of the failure.
    pub fn message(&self) -> (r: String)
        ensures
            r@ == execute_error_text(*self),
    {
        match self {
            ExecuteError::Connect(_) => "failed to connect to dora coordinator".to_owned(),
            ExecuteError::Identify(error) => error.message(),
        }
    }
}

/// What is to be done with what arrives on a subscription.
pub enum FollowStep<R, T> {
    /// Read a message out of the bytes.
    Parse(R),
    /// Show the message, with or without the dataflow's and the daemon's identifier.
    Print { message: T, print_dataflow_id: bool, print_daemon_name: bool },
    /// Warn that the bytes were no message.
    Warn(String),
    /// The subscription has ended.
    Stop,
}

/// Which identifiers are shown with the messages of a subscription.
#[derive(Clone, Copy, Debug, PartialEq, Eq, Structural)]
pub struct LogFollower {
    pub print_dataflow_id: bool,
    pub print_daemon_name: bool,
}

impl LogFollower {
    /// Takes in what arrived. The subscription ends when nothing can arrive any more.
    pub fn received<R, T, E>(&self, raw: Result<R, E>) -> (r: FollowStep<R, T>)
        ensures
            r == (match raw {
                Ok(raw) => FollowStep::<R, T>::Parse(raw),
                Err(_) => FollowStep::Stop,
            }),
    {
        match raw {
            Ok(raw) => FollowStep::Parse(raw),
            Err(_) => FollowStep::Stop,
        }
    }

    /// Takes in the message that was read. What is no message is passed over with a warning.
    pub fn parsed<R, T>(&self, message: Result<T, String>) -> (r: FollowStep<R, T>)
        ensures
            r == (match message {
                Ok(message) => FollowStep::<R, T>::Print {
                    message,
                    print_dataflow_id: self.print_dataflow_id,
                    print_daemon_name: self.print_daemon_name,
                },
                Err(text) => FollowStep::Warn(text),
            }),
    {
        match message {
            Ok(message) => FollowStep::Print {
                message,
                print_dataflow_id: self.print_dataflow_id,
                print_daemon_name: self.print_daemon_name,
            },
            Err(text) => FollowStep::Warn(text),
        }
    }
}

/// Where a session stands: what it waits for.
#[derive(Clone, Copy, Debug, PartialEq, Eq, Structural)]
pub enum LogsStage {
    Start,
    Fetching,
    Writing,
    Connecting,
    Subscribing,
    Receiving,
    Parsing,
    Showing,
    Ended,
}

/// What failed when a session subscribed.
pub enum SubscribeError {
    Serialize(String),
    Send(String),
}

/// Why a session failed.
pub enum LogsError<E> {
    /// The logs so far could not be fetched.
    Fetch(RpcError<E>),
    Connect(String),
    Subscribe(SubscribeError),
}

/// The text of a session's failure.
pub open spec fn logs_error_text<E>(error: LogsError<E>) -> Seq<char> {
    match error {
        LogsError::Fetch(error) => rpc_error_text(error),
        LogsError::Connect(_) => "failed to connect to dora coordinator"@,
        LogsError::Subscribe(SubscribeError::Serialize(_)) => "failed to serialize message"@,
        LogsError::Subscribe(SubscribeError::Send(_)) => {
            "failed to send log subscribe request to coordinator"@
        },
    }
}

impl<E> LogsError<E> {
    /// The text of the failure.
    pub fn message(&self) -> (r: String)
        ensures
            r@ == logs_error_text(*self),
    {
        match self {
            LogsError::Fetch(error) => error.message(),
            LogsError::Connect(_) => "failed to connect to dora coordinator".to_owned(),
            LogsError::Subscribe(SubscribeError::Serialize(_)) => {
                "failed to serialize message".to_owned()
            },
            LogsError::Subscribe(SubscribeError::Send(_)) => {
                "failed to send log subscribe request to coordinator".to_owned()
            },
        }
    }
}

/// What is to be done next.
pub enum LogsAction<T, E> {
    /// Call the coordinator for the logs so far.
    Fetch { uuid: Option<DataflowId>, name: Option<String>, node: String, tail: Option<usize> },
    /// Write the bytes to the output.
    Write(Vec<u8>),
    /// Find out the log level and connect to the coordinator.
    Connect,
    /// Send the request.
    Send(ControlRequest),
    /// Wait for bytes to arrive.
    Receive,
    /// Read a message out of the bytes.
    Parse(Vec<u8>),
    /// Show the message.
    Print { message: T, print_dataflow_id: bool, print_daemon_name: bool },
    /// Warn that bytes were no message.
    Warn(String),
    /// Nothing: the session has ended.
    End(Result<(), LogsError<E>>),
}

/// What came of an action.
pub enum LogsEvent<T, E> {
    /// The session is to begin.
    Begin,
    Fetched(Result<Vec<u8>, RpcError<E>>),
    Written,
    Connected { level: LevelFilter, result: Result<(), String> },
    Sent(Result<(), SubscribeError>),
    Received(Result<Vec<u8>, String>),
    /// What was read out of bytes: a message, or why there is none. `node` is the node that the
    /// message is of, unless it is of none.
    Parsed { node: Option<NodeId>, message: Result<T, String> },
    Shown,
}

/// Whether an event can come of the action that a session waits for.
pub open spec fn logs_fits<T, E>(stage: LogsStage, event: LogsEvent<T, E>) -> bool {
    match stage {
        LogsStage::Start => event is Begin,
        LogsStage::Fetching => event is Fetched,
        LogsStage::Writing => event is Written,
        LogsStage::Connecting => event is Connected,
        LogsStage::Subscribing => event is Sent,
        LogsStage::Receiving => event is Received,
        LogsStage::Parsing => event is Parsed,
        LogsStage::Showing => event is Shown,
        LogsStage::Ended => false,
    }
}

/// Shows the logs of a node.
pub struct LogsSession {
    pub uuid: DataflowId,
    pub node: NodeId,
    pub tail: Option<usize>,
    pub follow: bool,
    pub stage: LogsStage,
}

/// How a session goes on after an event.
pub open spec fn logs_next<T, E>(session: LogsSession, event: LogsEvent<T, E>) -> (
    LogsStage,
    LogsAction<T, E>,
) {
    match event {
        LogsEvent::Begin => (
            LogsStage::Fetching,
            LogsAction::Fetch {
                uuid: Some(session.uuid),
                name: None,
                node: session.node,
                tail: session.tail,
            },
        ),
        LogsEvent::Fetched(Ok(logs)) => (LogsStage::Writing, LogsAction::Write(logs)),
        LogsEvent::Fetched(Err(error)) => (
            LogsStage::Ended,
            LogsAction::End(Err(LogsError::Fetch(error))),
        ),
        LogsEvent::Written => if session.follow {
            (LogsStage::Connecting, LogsAction::Connect)
        } else {
            (LogsStage::Ended, LogsAction::End(Ok(())))
        },
        LogsEvent::Connected { level, result: Ok(_) } => (
            LogsStage::Subscribing,
            LogsAction::Send(ControlRequest::LogSubscribe { dataflow_id: session.uuid, level }),
        ),
        LogsEvent::Connected { level: _, result: Err(text) } => (
            LogsStage::Ended,
            LogsAction::End(Err(LogsError::Connect(text))),
        ),
        LogsEvent::Sent(Ok(_)) => (LogsStage::Receiving, LogsAction::Receive),
        LogsEvent::Sent(Err(error)) => (
            LogsStage::Ended,
            LogsAction::End(Err(LogsError::Subscribe(error))),
        ),
        LogsEvent::Received(Ok(raw)) => (LogsStage::Parsing, LogsAction::Parse(raw)),
        LogsEvent::Received(Err(_)) => (LogsStage::Ended, LogsAction::End(Ok(()))),
        LogsEvent::Parsed { node, message: Ok(message) } => if opt_text(node) == Some(
            session.node@,
        ) {
            (
                LogsStage::Showing,
                LogsAction::Print { message, print_dataflow_id: false, print_daemon_name: false },
            )
        } else {
            (LogsStage::Receiving, LogsAction::Receive)
        },
        LogsEvent::Parsed { node: _, message: Err(text) } => (
            LogsStage::Showing,
            LogsAction::Warn(text),
        ),
        LogsEvent::Shown => (LogsStage::Receiving, LogsAction::Receive),
    }
}

/// The session that shows the logs of a dataflow's node.
pub fn logs(uuid: DataflowId, node: NodeId, tail: Option<usize>, follow: bool) -> (r: LogsSession)
    ensures
        r == (LogsSession { uuid, node, tail, follow, stage: LogsStage::Start }),
{
    LogsSession { uuid, node, tail, follow, stage: LogsStage::Start }
}

impl LogsSession {
    /// Takes in what came of the last action and says what is next.
    pub fn step<T, E>(&mut self, event: LogsEvent<T, E>) -> (r: LogsAction<T, E>)
        requires
            logs_fits(old(self).stage, event),
        ensures
            (final(self).stage, r) == logs_next(*old(self), event),
            *final(self) == (LogsSession { stage: final(self).stage, ..*old(self) }),
    {
        let follower = LogFollower { print_dataflow_id: false, print_daemon_name: false };
        let (stage, action) = match event {
            LogsEvent::Begin => (
                LogsStage::Fetching,
                LogsAction::Fetch {
                    uuid: Some(self.uuid),
                    name: None,
                    node: self.node.clone(),
                    tail: self.tail,
                },
            ),
            LogsEvent::Fetched(Ok(logs)) => (LogsStage::Writing, LogsAction::Write(logs)),
            LogsEvent::Fetched(Err(error)) => (
                LogsStage::Ended,
                LogsAction::End(Err(LogsError::Fetch(error))),
            ),
            LogsEvent::Written => if self.follow {
                (LogsStage::Connecting, LogsAction::Connect)
            } else {
                (LogsStage::Ended, LogsAction::End(Ok(())))
            },
            LogsEvent::Connected { level, result: Ok(_) } => (
                LogsStage::Subscribing,
                LogsAction::Send(ControlRequest::LogSubscribe { dataflow_id: self.uuid, level }),
            ),
            LogsEvent::Connected { level: _, result: Err(text) } => (
                LogsStage::Ended,
                LogsAction::End(Err(LogsError::Connect(text))),
            ),
            LogsEvent::Sent(Ok(_)) => (LogsStage::Receiving, LogsAction::Receive),
            LogsEvent::Sent(Err(error)) => (
                LogsStage::Ended,
                LogsAction::End(Err(LogsError::Subscribe(error))),
            ),
            LogsEvent::Received(raw) => match follower.received::<Vec<u8>, T, String>(raw) {
                FollowStep::Parse(raw) => (LogsStage::Parsing, LogsAction::Parse(raw)),
                _ => (LogsStage::Ended, LogsAction::End(Ok(()))),
            },
            LogsEvent::Parsed { node, message } => if message.is_ok() && !opt_text_is(
                &node,
                self.node.as_str(),
            ) {
                (LogsStage::Receiving, LogsAction::Receive)
            } else {
                match follower.parsed::<Vec<u8>, T>(message) {
                    FollowStep::Print { message, print_dataflow_id, print_daemon_name } => (
                        LogsStage::Showing,
                        LogsAction::Print { message, print_dataflow_id, print_daemon_name },
                    ),
                    FollowStep::Warn(text) => (LogsStage::Showing, LogsAction::Warn(text)),
                    _ => (LogsStage::Ended, LogsAction::End(Ok(()))),
                }
            },
            LogsEvent::Shown => (LogsStage::Receiving, LogsAction::Receive),
        };
        self.stage = stage;
        action
    }
}

/// One turn of a session: where it stands after an event, and the action that the event leads
/// to.
#[verifier::opaque]
pub open spec fn logs_turn<T, E>(session: LogsSession, event: LogsEvent<T, E>) -> (
    LogsStage,
    LogsAction<T, E>,
) {
    logs_next(session, event)
}

/// A session after events.
pub open spec fn session_after<T, E>(
    session: LogsSession,
    events: Seq<LogsEvent<T, E>>,
) -> LogsSession
    decreases events.len(),
{
    if events.len() == 0 {
        session
    } else {
        let before = session_after(session, events.drop_last());
        LogsSession { stage: logs_turn(before, events.last()).0, ..session }
    }
}

/// The action that the `i`-th event leads to.
pub open spec fn logs_action_at<T, E>(
    session: LogsSession,
    events: Seq<LogsEvent<T, E>>,
    i: int,
) -> LogsAction<T, E> {
    logs_turn(session_after(session, events.take(i)), events[i]).1
}

/// Whether each of the events can come of the action before it.
pub open spec fn is_logs_run<T, E>(session: LogsSession, events: Seq<LogsEvent<T, E>>) -> bool {
    &&& session.stage == LogsStage::Start
    &&& forall|i: int|
        #![trigger events[i]]
        0 <= i < events.len() ==> logs_fits(
            session_after(session, events.take(i)).stage,
            events[i],
        )
}

/// What one event of a session does: the session stands where the turn leads, and nothing else
/// of it changes.
proof fn lemma_logs_step<T, E>(session: LogsSession, events: Seq<LogsEvent<T, E>>, i: int)
    requires
        is_logs_run(session, events),
        0 <= i < events.len(),
    ensures
        ({
            let before = session_after(session, events.take(i));
            let after = session_after(session, events.take(i + 1));
            &&& logs_fits(before.stage, events[i])
            &&& after.stage == logs_turn(before, events[i]).0
            &&& after == (LogsSession { stage: after.stage, ..session })
            &&& before == (LogsSession { stage: before.stage, ..session })
        }),
    decreases i,
{
    assert(logs_fits(session_after(session, events.take(i)).stage, events[i]));
    assert(events.take(i + 1).drop_last() =~= events.take(i));
    assert(events.take(i + 1).last() == events[i]);
    if i > 0 {
        lemma_logs_step(session, events, i - 1);
    }
}

/// A turn ends a session just when it leads to its end.
proof fn lemma_turn_end<T, E>(session: LogsSession, event: LogsEvent<T, E>)
    requires
        logs_fits(session.stage, event),
    ensures
        logs_turn(session, event).1 is End <==> logs_turn(session, event).0 == LogsStage::Ended,
{
    reveal(logs_turn);
}

/// Whether a stage comes before anything is subscribed to.
spec fn before_subscription(stage: LogsStage) -> bool {
    stage == LogsStage::Start || stage == LogsStage::Fetching || stage == LogsStage::Writing
        || stage == LogsStage::Ended
}

/// A turn of a session that does not follow the logs.
proof fn lemma_turn_without_follow<T, E>(session: LogsSession, event: LogsEvent<T, E>)
    requires
        logs_fits(session.stage, event),
        !session.follow,
        before_subscription(session.stage),
    ensures
        before_subscription(logs_turn(session, event).0),
        !(logs_turn(session, event).1 is Connect),
        !(logs_turn(session, event).1 is Send),
{
    reveal(logs_turn);
}

/// A session that does not follow the logs stays before the subscription.
proof fn lemma_without_follow<T, E>(session: LogsSession, events: Seq<LogsEvent<T, E>>, i: int)
    requires
        is_logs_run(session, events),
        !session.follow,
        0 <= i <= events.len(),
    ensures
        before_subscription(session_after(session, events.take(i)).stage),
    decreases i,
{
    if i > 0 {
        lemma_without_follow(session, events, i - 1);
        lemma_logs_step(session, events, i - 1);
        lemma_turn_without_follow(session_after(session, events.take(i - 1)), events[i - 1]);
    }
}

/// A session that does not follow the logs neither connects nor subscribes.
pub proof fn law_no_subscription_without_follow<T, E>(
    session: LogsSession,
    events: Seq<LogsEvent<T, E>>,
    i: int,
)
    requires
        is_logs_run(session, events),
        !session.follow,
        0 <= i < events.len(),
    ensures
        !(logs_action_at(session, events, i) is Connect),
        !(logs_action_at(session, events, i) is Send),
{
    lemma_without_follow(session, events, i);
    lemma_logs_step(session, events, i);
    lemma_turn_without_follow(session_after(session, events.take(i)), events[i]);
}

/// What a turn asks of the coordinator.
proof fn lemma_turn_requests<T, E>(session: LogsSession, event: LogsEvent<T, E>)
    ensures
        logs_turn(session, event).1 matches LogsAction::Send(request) ==> (request matches
            ControlRequest::LogSubscribe { dataflow_id, level: _ } && dataflow_id == session.uuid),
        logs_turn(session, event).1 matches LogsAction::Fetch { uuid, name, node, tail } ==> uuid
            == Some(session.uuid) && name is None && node == session.node && tail == session.tail,
{
    reveal(logs_turn);
}

/// The only request of a session subscribes to the dataflow whose logs were fetched.
pub proof fn law_subscribes_to_the_same_dataflow<T, E>(
    session: LogsSession,
    events: Seq<LogsEvent<T, E>>,
    i: int,
)
    requires
        is_logs_run(session, events),
        0 <= i < events.len(),
    ensures
        logs_action_at(session, events, i) matches LogsAction::Send(request) ==> (request matches
            ControlRequest::LogSubscribe { dataflow_id, level: _ } && dataflow_id == session.uuid),
        logs_action_at(session, events, i) matches LogsAction::Fetch { uuid, name, node, tail }
            ==> uuid == Some(session.uuid) && name is None && node == session.node && tail
            == session.tail,
{
    lemma_logs_step(session, events, i);
    lemma_turn_requests(session_after(session, events.take(i)), events[i]);
}

/// A session ends once: nothing comes after the action that ends it.
pub proof fn law_session_ends_once<T, E>(
    session: LogsSession,
    events: Seq<LogsEvent<T, E>>,
    i: int,
)
    requires
        is_logs_run(session, events),
        0 <= i < events.len(),
        logs_action_at(session, events, i) is End,
    ensures
        i == events.len() - 1,
{
    lemma_logs_step(session, events, i);
    lemma_turn_end(session_after(session, events.take(i)), events[i]);
    if i < events.len() - 1 {
        lemma_logs_step(session, events, i + 1);
    }
}

/// Whether an event brings a message of the given node.
pub open spec fn is_message_of<T, E>(event: LogsEvent<T, E>, name: Seq<char>, message: T) -> bool {
    event matches LogsEvent::Parsed { node, message: Ok(m) } && opt_text(node) == Some(name) && m
        == message
}

/// What a turn shows.
proof fn lemma_turn_shows<T, E>(session: LogsSession, event: LogsEvent<T, E>, message: T)
    ensures
        is_message_of(event, session.node@, message) <==> logs_turn(session, event).1 == (
        LogsAction::<T, E>::Print { message, print_dataflow_id: false, print_daemon_name: false }),
        logs_turn(session, event).1 is Print ==> logs_turn(session, event).1 == (LogsAction::<
            T,
            E,
        >::Print {
            message: logs_turn(session, event).1->message,
            print_dataflow_id: false,
            print_daemon_name: false,
        }),
        event is Parsed ==> logs_turn(session, event).0 != LogsStage::Ended,
{
    reveal(logs_turn);
}

/// A message is shown if and only if it is of the node whose logs are asked for. Neither a
/// message of another node nor bytes that are no message end a session.
pub proof fn law_messages_of_the_node_are_shown<T, E>(
    session: LogsSession,
    events: Seq<LogsEvent<T, E>>,
    i: int,
    message: T,
)
    requires
        is_logs_run(session, events),
        0 <= i < events.len(),
    ensures
        is_message_of(events[i], session.node@, message) <==> (logs_action_at(
            session,
            events,
            i,
        ) matches LogsAction::Print { message: m, .. } && m == message),
        events[i] is Parsed ==> session_after(session, events.take(i + 1)).stage
            != LogsStage::Ended,
{
    lemma_logs_step(session, events, i);
    lemma_turn_shows(session_after(session, events.take(i)), events[i], message);
}

/// Where a session waits for what comes of an action.
spec fn awaiting<T, E>(action: LogsAction<T, E>) -> LogsStage {
    match action {
        LogsAction::Fetch { .. } => LogsStage::Fetching,
        LogsAction::Write(_) => LogsStage::Writing,
        LogsAction::Connect => LogsStage::Connecting,
        LogsAction::Send(_) => LogsStage::Subscribing,
        LogsAction::Receive => LogsStage::Receiving,
        LogsAction::Parse(_) => LogsStage::Parsing,
        LogsAction::Print { .. } => LogsStage::Showing,
        LogsAction::Warn(_) => LogsStage::Showing,
        LogsAction::End(_) => LogsStage::Ended,
    }
}

/// After a turn a session waits for what comes of the turn's action.
proof fn lemma_turn_awaits<T, E>(session: LogsSession, event: LogsEvent<T, E>)
    ensures
        logs_turn(session, event).0 == awaiting(logs_turn(session, event).1),
{
    reveal(logs_turn);
}

/// What a turn does with the logs so far.
proof fn lemma_turn_writes<T, E>(session: LogsSession, event: LogsEvent<T, E>, bytes: Vec<u8>)
    ensures
        event == LogsEvent::<T, E>::Fetched(Ok(bytes)) <==> logs_turn(session, event).1
            == LogsAction::<T, E>::Write(bytes),
        logs_turn(session, event).1 is Fetch <==> event is Begin,
        logs_turn(session, event).1 is Connect <==> event is Written && session.follow,
        logs_turn(session, event).1 is Send <==> (event matches LogsEvent::Connected {
            result: Ok(_),
            ..
        }),
{
    reveal(logs_turn);
}

/// The logs that were fetched are written out, whether or not new messages are followed, and
/// nothing else is. A session connects for new messages just when the logs so far have been
/// written and it follows them.
pub proof fn law_fetched_logs_are_written<T, E>(
    session: LogsSession,
    events: Seq<LogsEvent<T, E>>,
    i: int,
    bytes: Vec<u8>,
)
    requires
        is_logs_run(session, events),
        0 <= i < events.len(),
    ensures
        events[i] == LogsEvent::<T, E>::Fetched(Ok(bytes)) <==> logs_action_at(session, events, i)
            == LogsAction::<T, E>::Write(bytes),
        logs_action_at(session, events, i) is Connect <==> events[i] is Written && session.follow,
        logs_action_at(session, events, i) is Connect ==> i > 0 && (logs_action_at(
            session,
            events,
            i - 1,
        ) is Write),
{
    lemma_logs_step(session, events, i);
    lemma_turn_writes(session_after(session, events.take(i)), events[i], bytes);
    assert(session_after(session, events.take(0)) == session);
    if i > 0 {
        lemma_logs_step(session, events, i - 1);
        lemma_turn_awaits(session_after(session, events.take(i - 1)), events[i - 1]);
    }
}

/// Whether an event tells of the outcome of an action.
pub open spec fn is_outcome_of<T, E>(action: LogsAction<T, E>, event: LogsEvent<T, E>) -> bool {
    match action {
        LogsAction::Fetch { .. } => event is Fetched,
        LogsAction::Write(_) => event is Written,
        LogsAction::Connect => event is Connected,
        LogsAction::Send(_) => event is Sent,
        LogsAction::Receive => event is Received,
        LogsAction::Parse(_) => event is Parsed,
        LogsAction::Print { .. } => event is Shown,
        LogsAction::Warn(_) => event is Shown,
        LogsAction::End(_) => false,
    }
}

/// An event fits where a session waits for what comes of an action just when it tells of that.
proof fn lemma_outcome_fits<T, E>(action: LogsAction<T, E>, event: LogsEvent<T, E>)
    ensures
        logs_fits(awaiting(action), event) <==> is_outcome_of(action, event),
{
}

/// What can come next of a session is the outcome of its last action; after its end nothing can.
pub proof fn law_log_events_answer_the_action<T, E>(
    session: LogsSession,
    events: Seq<LogsEvent<T, E>>,
    next: LogsEvent<T, E>,
)
    requires
        is_logs_run(session, events),
    ensures
        events.len() == 0 ==> (is_logs_run(session, events.push(next)) <==> next is Begin),
        events.len() > 0 ==> (is_logs_run(session, events.push(next)) <==> is_outcome_of(
            logs_action_at(session, events, events.len() - 1),
            next,
        )),
{
    lemma_logs_run_goes_on(session, events, next);
    let n = events.len() as int;
    if n > 0 {
        assert(events.take(n) =~= events);
        lemma_logs_step(session, events, n - 1);
        lemma_turn_awaits(session_after(session, events.take(n - 1)), events[n - 1]);
        lemma_outcome_fits(logs_action_at(session, events, n - 1), next);
    }
}

/// A session can go on with an event just when the event fits where the session stands.
proof fn lemma_logs_run_goes_on<T, E>(
    session: LogsSession,
    events: Seq<LogsEvent<T, E>>,
    next: LogsEvent<T, E>,
)
    requires
        is_logs_run(session, events),
    ensures
        is_logs_run(session, events.push(next)) <==> logs_fits(
            session_after(session, events).stage,
            next,
        ),
{
    let more = events.push(next);
    let n = events.len() as int;
    assert(more.take(n) =~= events);
    if is_logs_run(session, more) {
        assert(more[n] == next);
        assert(logs_fits(session_after(session, more.take(n)).stage, more[n]));
    }
    if logs_fits(session_after(session, events).stage, next) {
        assert forall|i: int| #![trigger more[i]] 0 <= i < more.len() implies logs_fits(
            session_after(session, more.take(i)).stage,
            more[i],
        ) by {
            if i < n {
                assert(more.take(i) =~= events.take(i));
                assert(more[i] == events[i]);
                assert(logs_fits(session_after(session, events.take(i)).stage, events[i]));
            }
        }
    }
}

/// The actions before new messages arrive come once each and in order: the logs so far are
/// fetched, they are written, the coordinator is connected to, and the messages are subscribed
/// to.
pub proof fn law_session_begins_in_order<T, E>(
    session: LogsSession,
    events: Seq<LogsEvent<T, E>>,
    i: int,
)
    requires
        is_logs_run(session, events),
        0 <= i < events.len(),
    ensures
        logs_action_at(session, events, i) is Fetch <==> i == 0,
        logs_action_at(session, events, i) is Write ==> i == 1,
        logs_action_at(session, events, i) is Connect ==> i == 2,
        logs_action_at(session, events, i) is Send ==> i == 3,
        logs_action_at(session, events, i) matches LogsAction::Send(request) ==> (request matches
            ControlRequest::LogSubscribe { dataflow_id: _, level } && (events[i] matches
            LogsEvent::Connected { level: found, .. } && found == level)),
    decreases i,
{
    let before = session_after(session, events.take(i));
    lemma_logs_step(session, events, i);
    lemma_turn_kinds(before, events[i]);
    assert(session_after(session, events.take(0)) == session);
    if i > 0 {
        law_session_begins_in_order(session, events, i - 1);
        lemma_logs_step(session, events, i - 1);
        lemma_turn_awaits(session_after(session, events.take(i - 1)), events[i - 1]);
    }
}

/// Which events lead to the actions before new messages arrive.
proof fn lemma_turn_kinds<T, E>(session: LogsSession, event: LogsEvent<T, E>)
    ensures
        logs_turn(session, event).1 is Fetch <==> event is Begin,
        logs_turn(session, event).1 is Write ==> event is Fetched,
        logs_turn(session, event).1 is Connect ==> event is Written,
        logs_turn(session, event).1 is Send ==> event is Connected,
        logs_turn(session, event).1 matches LogsAction::Send(request) ==> (request matches
            ControlRequest::LogSubscribe { dataflow_id: _, level } && (event matches
            LogsEvent::Connected { level: found, .. } && found == level)),
{
    reveal(logs_turn);
}

/// Whether an event brings a message of no node or of another one.
pub open spec fn is_message_of_another<T, E>(event: LogsEvent<T, E>, name: Seq<char>) -> bool {
    event matches LogsEvent::Parsed { node, message: Ok(_) } && (node is None || node->0@ != name)
}

/// What a turn does about the messages that arrive.
proof fn lemma_turn_receives<T, E>(
    session: LogsSession,
    event: LogsEvent<T, E>,
    bytes: Vec<u8>,
    text: String,
)
    ensures
        logs_turn(session, event).1 is Send <==> (event matches LogsEvent::Connected {
            result: Ok(_),
            ..
        }),
        logs_turn(session, event).1 is Receive <==> (event matches LogsEvent::Sent(Ok(_)))
            || event is Shown || is_message_of_another(event, session.node@),
        logs_turn(session, event).1 == LogsAction::<T, E>::Parse(bytes) <==> event == LogsEvent::<
            T,
            E,
        >::Received(Ok(bytes)),
        logs_turn(session, event).1 == LogsAction::<T, E>::Warn(text) <==> (event matches
            LogsEvent::Parsed { message: Err(t), .. } && t == text),
{
    reveal(logs_turn);
}

/// Once subscribed, a session waits for what arrives, again and again: after each message that
/// was shown or passed over it waits for the next one. All that arrives is read, and what cannot
/// be read is warned of in the words of the reader.
pub proof fn law_all_that_arrives_is_read<T, E>(
    session: LogsSession,
    events: Seq<LogsEvent<T, E>>,
    i: int,
    bytes: Vec<u8>,
    text: String,
)
    requires
        is_logs_run(session, events),
        0 <= i < events.len(),
    ensures
        logs_action_at(session, events, i) is Send <==> (events[i] matches LogsEvent::Connected {
            result: Ok(_),
            ..
        }),
        logs_action_at(session, events, i) is Receive <==> (events[i] matches LogsEvent::Sent(
            Ok(_),
        )) || events[i] is Shown || is_message_of_another(events[i], session.node@),
        logs_action_at(session, events, i) == LogsAction::<T, E>::Parse(bytes) <==> events[i]
            == LogsEvent::<T, E>::Received(Ok(bytes)),
        logs_action_at(session, events, i) == LogsAction::<T, E>::Warn(text) <==> (
        events[i] matches LogsEvent::Parsed { message: Err(t), .. } && t == text),
        logs_action_at(session, events, i) matches LogsAction::Print {
            print_dataflow_id,
            print_daemon_name,
            ..
        } ==> !print_dataflow_id && !print_daemon_name,
{
    lemma_logs_step(session, events, i);
    lemma_turn_receives(session_after(session, events.take(i)), events[i], bytes, text);
    lemma_turn_shows(
        session_after(session, events.take(i)),
        events[i],
        logs_action_at(session, events, i)->message,
    );
}

/// How a turn ends a session.
proof fn lemma_turn_ends<T, E>(
    session: LogsSession,
    event: LogsEvent<T, E>,
    error: RpcError<E>,
    text: String,
    failure: SubscribeError,
)
    ensures
        (logs_turn(session, event).1 matches LogsAction::End(Ok(_))) <==> event is Written
            && !session.follow || (event matches LogsEvent::Received(Err(_))),
        logs_turn(session, event).1 == LogsAction::<T, E>::End(Err(LogsError::Fetch(error)))
            <==> event == LogsEvent::<T, E>::Fetched(Err(error)),
        logs_turn(session, event).1 == LogsAction::<T, E>::End(Err(LogsError::Connect(text)))
            <==> (event matches LogsEvent::Connected { result: Err(t), .. } && t == text),
        logs_turn(session, event).1 == LogsAction::<T, E>::End(
            Err(LogsError::Subscribe(failure)),
        ) <==> event == LogsEvent::<T, E>::Sent(Err(failure)),
{
    reveal(logs_turn);
}

/// A session ends well when the logs are written and no new messages are followed, or when
/// nothing can arrive any more; it fails just when an action of it does, and with its words.
pub proof fn law_session_fails_when_an_action_does<T, E>(
    session: LogsSession,
    events: Seq<LogsEvent<T, E>>,
    i: int,
    error: RpcError<E>,
    text: String,
    failure: SubscribeError,
)
    requires
        is_logs_run(session, events),
        0 <= i < events.len(),
    ensures
        (logs_action_at(session, events, i) matches LogsAction::End(Ok(_))) <==> events[i]
            is Written && !session.follow || (events[i] matches LogsEvent::Received(Err(_))),
        logs_action_at(session, events, i) == LogsAction::<T, E>::End(Err(LogsError::Fetch(error)))
            <==> events[i] == LogsEvent::<T, E>::Fetched(Err(error)),
        logs_action_at(session, events, i) == LogsAction::<T, E>::End(
            Err(LogsError::Connect(text)),
        ) <==> (events[i] matches LogsEvent::Connected { result: Err(t), .. } && t == text),
        logs_action_at(session, events, i) == LogsAction::<T, E>::End(
            Err(LogsError::Subscribe(failure)),
        ) <==> events[i] == LogsEvent::<T, E>::Sent(Err(failure)),
{
    lemma_logs_step(session, events, i);
    lemma_turn_ends(session_after(session, events.take(i)), events[i], error, text, failure);
}

/// The coordinator takes calls at its own address and at the port after the control port.
pub proof fn law_calls_go_to_the_next_port<C, F: FnOnce(IpAddr, u16) -> Result<C, String>>(
    args: LogsArgs,
    connect: F,
    outcome: Result<C, String>,
    port: u16,
)
    requires
        port == args.coordinator_port + 1,
    ensures
        is_connected(args, connect, outcome) <==> call_ensures(
            connect,
            (args.coordinator_addr, port),
            outcome,
        ),
{
}

/// Failures of the same kind read alike, and one that another part reported reads as it was
/// reported.
pub proof fn law_failures_to_show_logs_read_alike<E>(
    a: ExecuteError<E>,
    b: ExecuteError<E>,
    c: LogsError<E>,
    d: LogsError<E>,
)
    ensures
        match (a, b) {
            (ExecuteError::Connect(_), ExecuteError::Connect(_)) => execute_error_text(a)
                == execute_error_text(b),
            (ExecuteError::Identify(error), _) => execute_error_text(a) == identifier_error_text(
                error,
            ),
            _ => true,
        },
        match (c, d) {
            (LogsError::Fetch(error), _) => logs_error_text(c) == rpc_error_text(error),
            (LogsError::Connect(_), LogsError::Connect(_)) => logs_error_text(c)
                == logs_error_text(d),
            (
                LogsError::Subscribe(SubscribeError::Serialize(_)),
                LogsError::Subscribe(SubscribeError::Serialize(_)),
            ) => logs_error_text(c) == logs_error_text(d),
            (
                LogsError::Subscribe(SubscribeError::Send(_)),
                LogsError::Subscribe(SubscribeError::Send(_)),
            ) => logs_error_text(c) == logs_error_text(d),
            _ => true,
        },
        a is Connect && c is Connect ==> execute_error_text(a) == logs_error_text(c),
{
}

/// A follower reads all that arrives and stops just when nothing can arrive any more. What was
/// read is shown with the identifiers that the follower is to show, and what was no message is
/// warned of in the words of the reader.
pub proof fn law_follower_shows_what_it_reads<R, T, E>(
    follower: LogFollower,
    raw: Result<R, E>,
    message: Result<T, String>,
    on_received: FollowStep<R, T>,
    on_parsed: FollowStep<R, T>,
)
    requires
        call_ensures(LogFollower::received::<R, T, E>, (&follower, raw), on_received),
        call_ensures(LogFollower::parsed::<R, T>, (&follower, message), on_parsed),
    ensures
        on_received is Stop <==> raw is Err,
        raw matches Ok(bytes) ==> on_received == FollowStep::<R, T>::Parse(bytes),
        on_parsed matches FollowStep::Print { message: m, print_dataflow_id, print_daemon_name }
            ==> message == Ok::<_, String>(m) && print_dataflow_id == follower.print_dataflow_id
            && print_daemon_name == follower.print_daemon_name,
        on_parsed is Print <==> message is Ok,
        message matches Err(text) ==> on_parsed == FollowStep::<R, T>::Warn(text),
{
}

/// A session is for what was asked for and has not begun.
pub proof fn law_session_is_for_what_was_asked(
    uuid: DataflowId,
    node: NodeId,
    tail: Option<usize>,
    follow: bool,
    r: LogsSession,
)
    requires
        call_ensures(logs, (uuid, node, tail, follow), r),
    ensures
        r.uuid == uuid,
        r.node == node,
        r.tail == tail,
        r.follow == follow,
        r.stage == LogsStage::Start,
{
}

/// Calls and log messages go to the same address, the calls at the next port.
pub proof fn law_calls_and_messages_have_neighbouring_ports(
    args: LogsArgs,
    calls: (IpAddr, u16),
    messages: (IpAddr, u16),
)
    requires
        call_ensures(LogsArgs::rpc_address, (&args,), calls),
        call_ensures(LogsArgs::control_address, (&args,), messages),
    ensures
        calls.0 == messages.0,
        calls.1 == messages.1 + 1,
        messages.0 == args.coordinator_addr,
        messages.1 == args.coordinator_port,
{
}

} // verus!

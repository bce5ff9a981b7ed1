use dataflow_control::common::RpcError;
use dataflow_control::logs::{
    logs, ExecuteError, FollowStep, LogFollower, LogsAction, LogsArgs, LogsError, LogsEvent, LogsSession,
    LogsStage, SubscribeError,
};
use dataflow_control::message::{
    ControlRequest, DataflowIdAndName, DataflowList, DataflowListEntry, DataflowStatus, IpAddr,
    LevelFilter,
};

type LogEvent = LogsEvent<u32, u8>;
type LogAction = LogsAction<u32, u8>;

fn session(follow: bool) -> LogsSession {
    logs(5, "n".to_string(), Some(10), follow)
}

fn written(follow: bool) -> (LogsSession, LogAction) {
    let mut session = session(follow);
    session.step::<u32, u8>(LogEvent::Begin);
    session.step::<u32, u8>(LogEvent::Fetched(Ok(vec![7])));
    let action = session.step(LogEvent::Written);
    (session, action)
}

fn connected(result: Result<(), String>) -> LogEvent {
    LogEvent::Connected { level: LevelFilter::Debug, result }
}

fn parsed(node: Option<&str>, message: Result<u32, String>) -> LogEvent {
    LogEvent::Parsed { node: node.map(|node| node.to_string()), message }
}

fn error_text(action: LogAction) -> String {
    match action {
        LogsAction::End(Err(error)) => error.message(),
        _ => panic!("no error"),
    }
}

#[test]
fn arguments_name_both_ports() {
    let args = LogsArgs {
        dataflow: None,
        node: "n".to_string(),
        tail: Some(3),
        follow: true,
        coordinator_addr: IpAddr::V6(1),
        coordinator_port: 6012,
    };
    assert_eq!(args.rpc_address(), (IpAddr::V6(1), 6013));
    assert_eq!(args.control_address(), (IpAddr::V6(1), 6012));
}

fn args(dataflow: Option<&str>, port: u16) -> LogsArgs {
    LogsArgs {
        dataflow: dataflow.map(|name| name.to_string()),
        node: "n".to_string(),
        tail: Some(3),
        follow: true,
        coordinator_addr: IpAddr::V6(1),
        coordinator_port: port,
    }
}

fn list() -> DataflowList {
    let id = DataflowIdAndName { uuid: 8, name: Some("x".to_string()) };
    DataflowList(vec![DataflowListEntry { id, status: DataflowStatus::Running }])
}

fn no_select(_: Vec<DataflowIdAndName>) -> Result<DataflowIdAndName, String> {
    panic!("selected")
}

#[test]
fn command_connects_and_finds_the_dataflow() {
    let connect = |addr: IpAddr, port: u16| -> Result<u16, String> {
        assert_eq!(addr, IpAddr::V6(1));
        Ok(port)
    };
    let query = |client: &u16| -> Result<DataflowList, u8> {
        assert_eq!(*client, 6013);
        Ok(list())
    };
    let (client, session) = args(Some("x"), 6012).execute(connect, query, no_select).ok().unwrap();
    assert_eq!(client, 6013);
    assert_eq!((session.uuid, session.tail, session.follow), (8, Some(3), true));
    assert_eq!(session.node, "n");
    assert_eq!(session.stage, LogsStage::Start);

    let unasked = |_: &u16| -> Result<DataflowList, u8> { panic!("asked") };
    let uuid = "67e55044-10b1-426f-9247-bb680e5fe0c8";
    let (_, session) = args(Some(uuid), 6012).execute(connect, unasked, no_select).ok().unwrap();
    assert_eq!(session.uuid, 0x67e5504410b1426f9247bb680e5fe0c8);
}

#[test]
fn failures_of_the_command_are_reported() {
    let refuse = |_: IpAddr, _: u16| -> Result<u16, String> { Err("refused".to_string()) };
    let unasked = |_: &u16| -> Result<DataflowList, u8> { panic!("asked") };
    let error = args(None, 6012).execute(refuse, unasked, no_select).err().unwrap();
    assert_eq!(error.message(), "failed to connect to dora coordinator");
    assert!(matches!(error, ExecuteError::Connect(cause) if cause == "refused"));

    let connect = |_: IpAddr, port: u16| -> Result<u16, String> { Ok(port) };
    let query = |_: &u16| -> Result<DataflowList, u8> { Ok(list()) };
    let error = args(Some("y"), 6012).execute(connect, query, no_select).err().unwrap();
    assert_eq!(error.message(), "No dataflow with name `y` is running");
    let fail = |_: &u16| -> Result<DataflowList, u8> { Err(7) };
    let error = args(None, 6012).execute(connect, fail, no_select).err().unwrap();
    assert_eq!(error.message(), "failed to query running dataflows");
}

#[test]
fn messages_of_other_nodes_are_not_shown() {
    let (mut session, _) = written(true);
    session.step(connected(Ok(())));
    session.step(LogEvent::Sent(Ok(())));
    for node in [Some("m"), Some("nn"), Some(""), None] {
        session.step(LogEvent::Received(Ok(vec![1])));
        assert!(matches!(session.step(parsed(node, Ok(1))), LogsAction::Receive));
        assert_eq!(session.stage, LogsStage::Receiving);
    }
    session.step(LogEvent::Received(Ok(vec![1])));
    assert!(matches!(
        session.step(parsed(Some("n"), Ok(2))),
        LogsAction::Print { message: 2, .. }
    ));
}

#[test]
fn logs_are_fetched_and_written() {
    let mut session = session(false);
    match session.step(LogEvent::Begin) {
        LogsAction::Fetch { uuid, name, node, tail } => {
            assert_eq!((uuid, name, tail), (Some(5), None, Some(10)));
            assert_eq!(node, "n");
        }
        _ => panic!("not fetched"),
    }
    assert!(matches!(
        session.step(LogEvent::Fetched(Ok(vec![1, 2]))),
        LogsAction::Write(logs) if logs == [1, 2]
    ));
    assert!(matches!(session.step(LogEvent::Written), LogsAction::End(Ok(()))));
    assert_eq!(session.stage, LogsStage::Ended);
}

#[test]
fn followed_logs_are_subscribed_to() {
    let (mut session, action) = written(true);
    assert!(matches!(action, LogsAction::Connect));
    assert!(matches!(
        session.step(connected(Ok(()))),
        LogsAction::Send(ControlRequest::LogSubscribe {
            dataflow_id: 5,
            level: LevelFilter::Debug
        })
    ));
    assert!(matches!(session.step(LogEvent::Sent(Ok(()))), LogsAction::Receive));
    assert!(matches!(
        session.step(LogEvent::Received(Ok(vec![3]))),
        LogsAction::Parse(raw) if raw == [3]
    ));
    assert!(matches!(
        session.step(parsed(Some("n"), Ok(42))),
        LogsAction::Print { message: 42, print_dataflow_id: false, print_daemon_name: false }
    ));
    assert!(matches!(session.step(LogEvent::Shown), LogsAction::Receive));
    session.step(LogEvent::Received(Ok(vec![4])));
    assert!(matches!(
        session.step(parsed(None, Err("junk".to_string()))),
        LogsAction::Warn(text) if text == "junk"
    ));
    assert!(matches!(session.step(LogEvent::Shown), LogsAction::Receive));
    assert!(matches!(
        session.step(LogEvent::Received(Err("closed".to_string()))),
        LogsAction::End(Ok(()))
    ));
}

#[test]
fn session_failures_are_reported() {
    let mut first = session(true);
    first.step(LogEvent::Begin);
    let refused = RpcError::Application("unknown".to_string());
    assert_eq!(error_text(first.step(LogEvent::Fetched(Err(refused)))), "unknown");
    let (mut session, _) = written(true);
    assert_eq!(
        error_text(session.step(connected(Err("x".to_string())))),
        "failed to connect to dora coordinator"
    );
    for (error, text) in [
        (SubscribeError::Serialize("x".to_string()), "failed to serialize message"),
        (
            SubscribeError::Send("x".to_string()),
            "failed to send log subscribe request to coordinator",
        ),
    ] {
        let (mut session, _) = written(true);
        session.step(connected(Ok(())));
        assert_eq!(error_text(session.step(LogEvent::Sent(Err(error)))), text);
    }
    let transport: LogsError<u8> = LogsError::Fetch(RpcError::Transport(1));
    assert_eq!(transport.message(), "RPC transport error");
}

#[test]
fn follower_shows_what_it_is_told_to() {
    let follower = LogFollower { print_dataflow_id: true, print_daemon_name: false };
    assert!(matches!(follower.received::<u8, u8, ()>(Ok(1)), FollowStep::Parse(1)));
    assert!(matches!(follower.received::<u8, u8, ()>(Err(())), FollowStep::Stop));
    assert!(matches!(
        follower.parsed::<u8, u8>(Ok(2)),
        FollowStep::Print { message: 2, print_dataflow_id: true, print_daemon_name: false }
    ));
    assert!(matches!(
        follower.parsed::<u8, u8>(Err("e".to_string())),
        FollowStep::Warn(text) if text == "e"
    ));
}

use dataflow_control::common::RpcError;
use dataflow_control::distributed::{
    build_distributed_dataflow, wait_until_dataflow_built, BuildAction, BuildError, BuildEvent,
    BuildStage, BuildWatch,
};
use dataflow_control::logs::{LogFollower, SubscribeError};
use dataflow_control::message::{
    BuildRequest, ControlRequest, DataflowSession, Descriptor, FilePath, GitSource, LevelFilter,
};
use dataflow_control::ordered::SortedMap;

fn sources(nodes: &[(&str, &str)]) -> SortedMap<String, GitSource> {
    let mut sources = SortedMap::new();
    for (node, commit) in nodes {
        let source = GitSource { repo: "r".to_string(), commit_hash: commit.to_string() };
        sources.insert(node.to_string(), source);
    }
    sources
}

fn commits(sources: SortedMap<String, GitSource>) -> Vec<(String, String)> {
    sources.into_entries().into_iter().map(|(node, source)| (node, source.commit_hash)).collect()
}

fn build(
    reply: Result<Result<u128, String>, u8>,
) -> Result<u128, RpcError<u8>> {
    let descriptor = Descriptor { nodes: Vec::new(), definition: "d".to_string() };
    let session = DataflowSession { session_id: 3, git_sources: sources(&[("n", "old")]) };
    build_distributed_dataflow(
        descriptor,
        &sources(&[("n", "new"), ("m", "first")]),
        &session,
        Some(FilePath { bytes: b"/w".to_vec() }),
        true,
        move |request: BuildRequest| {
            assert_eq!(request.session_id, 3);
            assert_eq!(request.dataflow.definition, "d");
            assert_eq!(request.local_working_dir.unwrap().bytes, b"/w");
            assert!(request.uv);
            let pair = |a: &str, b: &str| (a.to_string(), b.to_string());
            assert_eq!(commits(request.git_sources), [pair("m", "first"), pair("n", "new")]);
            assert_eq!(commits(request.prev_git_sources), [pair("n", "old")]);
            reply
        },
    )
}

#[test]
fn build_is_asked_for_with_all_sources() {
    assert!(matches!(build(Ok(Ok(9))), Ok(9)));
    assert!(matches!(build(Ok(Err("no".to_string()))), Err(RpcError::Application(_))));
    assert!(matches!(build(Err(4)), Err(RpcError::Transport(4))));
}

fn watch() -> BuildWatch {
    wait_until_dataflow_built(6, LevelFilter::Warn)
}

#[test]
fn build_is_awaited_while_its_logs_are_followed() {
    let mut watch = watch();
    assert!(matches!(watch.step(BuildEvent::<u8>::Begin), BuildAction::Connect));
    assert!(matches!(
        watch.step(BuildEvent::<u8>::Connected(Ok(()))),
        BuildAction::Send(ControlRequest::BuildLogSubscribe {
            build_id: 6,
            level: LevelFilter::Warn
        })
    ));
    assert!(matches!(
        watch.step(BuildEvent::<u8>::Sent(Ok(()))),
        BuildAction::FollowAndWait {
            follower: LogFollower { print_dataflow_id: false, print_daemon_name: true },
            build_id: 6
        }
    ));
    assert!(matches!(
        watch.step(BuildEvent::<u8>::Waited(Ok(()))),
        BuildAction::End(Ok(6))
    ));
    assert_eq!(watch.stage, BuildStage::Ended);
}

fn failure(events: Vec<BuildEvent<u8>>) -> String {
    let mut watch = watch();
    let mut last = None;
    for event in events {
        last = Some(watch.step(event));
    }
    match last {
        Some(BuildAction::End(Err(error))) => error.message(),
        _ => panic!("no error"),
    }
}

#[test]
fn failures_of_the_wait_are_reported() {
    let text = || "x".to_string();
    assert_eq!(
        failure(vec![BuildEvent::Begin, BuildEvent::Connected(Err(text()))]),
        "failed to connect to dora coordinator"
    );
    for (error, expected) in [
        (SubscribeError::Serialize(text()), "failed to serialize message"),
        (
            SubscribeError::Send(text()),
            "failed to send build log subscribe request to coordinator",
        ),
    ] {
        let events =
            vec![BuildEvent::Begin, BuildEvent::Connected(Ok(())), BuildEvent::Sent(Err(error))];
        assert_eq!(failure(events), expected);
    }
    let refused = RpcError::Application("build failed".to_string());
    assert_eq!(
        failure(vec![
            BuildEvent::Begin,
            BuildEvent::Connected(Ok(())),
            BuildEvent::Sent(Ok(())),
            BuildEvent::Waited(Err(refused)),
        ]),
        "build failed"
    );
    assert_eq!(BuildError::Wait(RpcError::Transport(1u8)).message(), "RPC transport error");
}

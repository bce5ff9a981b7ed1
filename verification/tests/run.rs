use dataflow_control::daemons::{DaemonConnection, DaemonConnections};
use dataflow_control::ids::DaemonId;
use dataflow_control::message::{Deploy, Descriptor, FilePath, ResolvedNode};
use dataflow_control::ordered::SortedMap;
use dataflow_control::run::{
    execute_dataflow_plan, plan_dataflow, plan_spawns, resolve_daemon_for_machine,
    send_spawn_to_daemon, DaemonCoordinatorReply, ExecuteError, NodeGroup, PlanError,
    SpawnDataflowNodes, SpawnError, SpawnEvent, SpawnOptions, SpawnStage, SpawnStep,
};

fn daemon(machine: Option<&str>, uuid: u128) -> DaemonId {
    DaemonId { machine_id: machine.map(|m| m.to_string()), uuid }
}

fn connections(daemons: &[(Option<&str>, u128)]) -> DaemonConnections {
    let mut connections = DaemonConnections::new();
    for (machine, uuid) in daemons {
        connections.add_connection(daemon(*machine, *uuid), DaemonConnection { peer_ip: None });
    }
    connections
}

fn node(id: &str, machine: Option<&str>) -> ResolvedNode {
    ResolvedNode {
        id: id.to_string(),
        deploy: machine.map(|m| Deploy { machine: Some(m.to_string()) }),
        definition: String::new(),
    }
}

fn nodes(list: &[(&str, Option<&str>)]) -> SortedMap<String, ResolvedNode> {
    let mut nodes = SortedMap::new();
    for (id, machine) in list {
        nodes.insert(id.to_string(), node(id, *machine));
    }
    nodes
}

fn descriptor() -> Descriptor {
    Descriptor { nodes: Vec::new(), definition: "d".to_string() }
}

fn options() -> SpawnOptions {
    SpawnOptions {
        build_id: Some(11),
        session_id: 12,
        local_working_dir: Some(FilePath { bytes: b"/w".to_vec() }),
        uv: true,
        write_events_to: None,
    }
}

fn encode(command: &SpawnDataflowNodes) -> Result<Vec<u8>, String> {
    assert_eq!(command.build_id, Some(11));
    assert_eq!(command.session_id, 12);
    assert!(command.uv);
    assert_eq!(command.local_working_dir.as_ref().unwrap().bytes, b"/w");
    assert!(command.write_events_to.is_none());
    assert_eq!(command.dataflow_descriptor.definition, "d");
    Ok(command.spawn_nodes.join(",").into_bytes())
}

#[test]
fn nodes_are_spawned_on_the_daemons_of_their_machines() {
    let connections = connections(&[(Some("a"), 1), (Some("b"), 2), (None, 3)]);
    let resolved = nodes(&[("n1", Some("a")), ("n2", None), ("n3", Some("a")), ("n4", Some("b"))]);
    let plan =
        plan_dataflow(&options(), &descriptor(), Ok(resolved), &connections, &encode).ok().unwrap();
    assert_eq!((plan.uuid >> 76) & 0xf, 7);
    let mut messages: Vec<(u128, Vec<u8>)> =
        plan.daemon_messages.iter().map(|(d, m)| (d.uuid, m.clone())).collect();
    messages.sort();
    assert_eq!(
        messages,
        vec![(1, b"n1,n3".to_vec()), (2, b"n4".to_vec()), (3, b"n2".to_vec())]
    );
    let assigned: Vec<(String, u128)> =
        plan.node_to_daemon.into_entries().into_iter().map(|(n, d)| (n, d.uuid)).collect();
    let expected: Vec<(String, u128)> = [("n1", 1), ("n2", 3), ("n3", 1), ("n4", 2)]
        .iter()
        .map(|(n, d)| (n.to_string(), *d))
        .collect();
    assert_eq!(assigned, expected);
    let daemons: Vec<u128> =
        plan.daemons.into_entries().into_iter().map(|(d, _)| d.uuid).collect();
    assert_eq!(daemons, [3, 1, 2]);
    assert_eq!(plan.nodes.len(), 4);
}

#[test]
fn deploy_without_a_machine_runs_anywhere() {
    let connections = connections(&[(None, 3)]);
    let mut resolved = SortedMap::new();
    resolved.insert(
        "n".to_string(),
        ResolvedNode {
            id: "n".to_string(),
            deploy: Some(Deploy { machine: None }),
            definition: String::new(),
        },
    );
    let plan =
        plan_dataflow(&options(), &descriptor(), Ok(resolved), &connections, &encode).ok().unwrap();
    assert_eq!(plan.daemon_messages[0].0.uuid, 3);
}

#[test]
fn dataflow_without_nodes_needs_no_daemon() {
    let plan = plan_dataflow(
        &options(),
        &descriptor(),
        Ok(nodes(&[])),
        &DaemonConnections::new(),
        &encode,
    )
    .ok()
    .unwrap();
    assert!(plan.daemon_messages.is_empty());
    assert_eq!(plan.daemons.len(), 0);
}

#[test]
fn planning_reports_what_is_missing() {
    let none = DaemonConnections::new();
    let named = connections(&[(Some("a"), 1)]);
    let invalid = plan_dataflow(&options(), &descriptor(), Err("bad".to_string()), &none, &encode);
    assert!(matches!(invalid, Err(PlanError::Resolve(text)) if text == "bad"));
    let unnamed =
        plan_dataflow(&options(), &descriptor(), Ok(nodes(&[("n", None)])), &named, &encode);
    assert!(matches!(unnamed, Err(PlanError::NoUnnamedDaemon)));
    let unmatched =
        plan_dataflow(&options(), &descriptor(), Ok(nodes(&[("n", Some("z"))])), &named, &encode);
    assert!(matches!(unmatched, Err(PlanError::NoMatchingDaemon(name)) if name == "z"));
    let refuse = |_: &SpawnDataflowNodes| -> Result<Vec<u8>, String> { Err("no".to_string()) };
    let unencoded =
        plan_dataflow(&options(), &descriptor(), Ok(nodes(&[("n", Some("a"))])), &named, &refuse);
    assert!(matches!(unencoded, Err(PlanError::Encode(text)) if text == "no"));
}

#[test]
fn spawns_follow_the_order_of_the_groups() {
    let connections = connections(&[(Some("a"), 1), (None, 3)]);
    let resolved = nodes(&[("n1", Some("a")), ("n2", None)]);
    let machine = "a".to_string();
    let values = resolved.values();
    let groups: Vec<NodeGroup> =
        vec![(None, vec![values[1]]), (Some(&machine), vec![values[0]])];
    let spawns = plan_spawns(
        9,
        &options(),
        &descriptor(),
        &resolved,
        &groups,
        &connections,
        &encode,
    )
    .ok()
    .unwrap();
    let order: Vec<u128> = spawns.daemon_messages.iter().map(|(d, _)| d.uuid).collect();
    assert_eq!(order, [3, 1]);
}

#[test]
fn daemon_for_a_machine_is_the_first() {
    let connections = connections(&[(Some("a"), 4), (Some("a"), 2), (None, 8), (None, 7)]);
    let machine = "a".to_string();
    assert_eq!(resolve_daemon_for_machine(&connections, Some(&machine)).ok().unwrap().uuid, 2);
    assert_eq!(resolve_daemon_for_machine(&connections, None).ok().unwrap().uuid, 7);
}

#[test]
fn only_connected_daemons_are_sent_commands() {
    let connections = connections(&[(Some("a"), 1)]);
    let message = vec![1, 2, 3];
    let (session, step) = send_spawn_to_daemon(&connections, &daemon(Some("a"), 1), &message);
    assert_eq!(session.stage, SpawnStage::Sending);
    assert!(matches!(step, SpawnStep::Send(bytes) if bytes == &message));
    let (session, step) = send_spawn_to_daemon(&connections, &daemon(Some("a"), 2), &message);
    assert_eq!(session.stage, SpawnStage::Ended);
    assert!(matches!(step, SpawnStep::Done(Err(SpawnError::NoConnection))));
}

fn spawn_outcome(events: Vec<SpawnEvent>) -> Result<(), SpawnError> {
    let connections = connections(&[(Some("a"), 1)]);
    let message = vec![7];
    let (mut session, mut step) =
        send_spawn_to_daemon(&connections, &daemon(Some("a"), 1), &message);
    let mut sent = 0;
    for event in events {
        sent += matches!(step, SpawnStep::Send(_)) as u32;
        step = session.step(event);
    }
    assert_eq!(sent, 1);
    assert_eq!(session.stage, SpawnStage::Ended);
    match step {
        SpawnStep::Done(outcome) => outcome,
        _ => panic!("not done"),
    }
}

fn spawn_reply(reply: Result<DaemonCoordinatorReply, String>) -> Result<(), SpawnError> {
    spawn_outcome(vec![
        SpawnEvent::Sent(Ok(())),
        SpawnEvent::Received(Ok(vec![1])),
        SpawnEvent::Decoded(reply),
    ])
}

#[test]
fn spawn_ends_with_the_reply_of_the_daemon() {
    let text = || "x".to_string();
    assert!(spawn_reply(Ok(DaemonCoordinatorReply::TriggerSpawnResult(Ok(())))).is_ok());
    let id = daemon(Some("a"), 1);
    let refused = spawn_reply(Ok(DaemonCoordinatorReply::TriggerSpawnResult(Err(text()))));
    assert_eq!(refused.err().unwrap().chain(&id), ["daemon returned an error", "x"]);
    let other = spawn_reply(Ok(DaemonCoordinatorReply::Other(text())));
    assert_eq!(other.err().unwrap().chain(&id), ["unexpected reply"]);
    let garbled = spawn_reply(Err(text()));
    assert_eq!(
        garbled.err().unwrap().chain(&id),
        ["failed to deserialize spawn reply from daemon", "x"]
    );
    let unsent = spawn_outcome(vec![SpawnEvent::Sent(Err(text()))]);
    assert_eq!(
        unsent.err().unwrap().chain(&id),
        ["failed to send spawn message to daemon", "x"]
    );
    let unanswered =
        spawn_outcome(vec![SpawnEvent::Sent(Ok(())), SpawnEvent::Received(Err(text()))]);
    assert_eq!(
        unanswered.err().unwrap().chain(&id),
        ["failed to receive spawn reply from daemon", "x"]
    );
}

#[test]
fn failed_plans_name_the_machine() {
    let text = || "x".to_string();
    assert_eq!(PlanError::Resolve(text()).chain(""), ["x"]);
    assert_eq!(PlanError::Encode(text()).chain(""), ["x"]);
    assert_eq!(
        PlanError::NoMatchingDaemon(text()).chain("\"x\""),
        [
            "failed to resolve daemon for machine `Some(\"x\")`",
            "no matching daemon for machine id \"x\""
        ]
    );
    assert_eq!(
        PlanError::NoUnnamedDaemon.chain(""),
        ["failed to resolve daemon for machine `None`", "no unnamed daemon connections"]
    );
}

#[test]
fn failed_executions_name_the_daemon() {
    let failed = ExecuteError { daemon_id: daemon(Some("a"), 1), error: SpawnError::NoConnection };
    assert_eq!(
        failed.chain(),
        [
            "failed to spawn dataflow on daemon `a-00000000-0000-0000-0000-000000000001`",
            "no daemon connection for daemon `a-00000000-0000-0000-0000-000000000001`"
        ]
    );
}

#[test]
fn messages_are_sent_until_one_fails() {
    let messages = vec![
        (daemon(Some("a"), 1), vec![1]),
        (daemon(Some("b"), 2), vec![2]),
        (daemon(Some("c"), 3), vec![3]),
    ];
    let mut execution = execute_dataflow_plan();
    assert_eq!(execution.next_message(&messages).unwrap().1, [1]);
    assert!(execution.acknowledge(&messages, Ok(())).is_ok());
    assert_eq!(execution.next_message(&messages).unwrap().1, [2]);
    let failed = execution.acknowledge(&messages, Err(SpawnError::Refused("x".to_string())));
    let failed = failed.err().unwrap();
    assert_eq!(failed.daemon_id.uuid, 2);
    assert!(matches!(failed.error, SpawnError::Refused(_)));
    assert!(execution.next_message(&messages).is_none());

    let mut execution = execute_dataflow_plan();
    for i in 0..3 {
        assert_eq!(execution.acknowledged, i);
        assert!(execution.acknowledge(&messages, Ok(())).is_ok());
    }
    assert!(execution.next_message(&messages).is_none());
    assert!(!execution.failed);
}

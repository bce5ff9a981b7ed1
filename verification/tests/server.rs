use dataflow_control::common::{pick_dataflow, Pick};
use dataflow_control::daemons::DaemonConnection;
use dataflow_control::ids::DaemonId;
use dataflow_control::message::{
    BuildRequest, ControlRequest, ControlRequestReply, DataflowDaemonResult, DataflowStatus,
    Descriptor, Duration, IpAddr, LevelFilter, Node, NodeError, NodeMetrics, NodeResult,
    ResolvedNode, StartRequest, Timestamp,
};
use dataflow_control::ordered::SortedMap;
use dataflow_control::server::{
    finish_control_request, handle_control_request, resolve_name, BuildWait, Call, ControlServer,
    ControlStep, Outcome, ServerError, StopStep,
};
use dataflow_control::state::{
    dataflow_result, ArchivedDataflow, CoordinatorState, DaemonResults, RunningDataflow,
};

const NOW: Timestamp = Timestamp { time: 77, clock: 5 };

fn daemon(machine: Option<&str>, uuid: u128) -> DaemonId {
    DaemonId { machine_id: machine.map(|m| m.to_string()), uuid }
}

fn descriptor() -> Descriptor {
    Descriptor {
        nodes: vec![Node { id: "n".to_string(), deploy: None, definition: "x".to_string() }],
        definition: "d".to_string(),
    }
}

fn dataflow(uuid: u128, name: Option<&str>) -> RunningDataflow {
    RunningDataflow {
        uuid,
        name: name.map(|n| n.to_string()),
        descriptor: descriptor(),
        nodes: SortedMap::new(),
        node_to_daemon: SortedMap::new(),
        node_metrics: SortedMap::new(),
    }
}

fn server(running: &[(u128, Option<&str>)]) -> ControlServer<u8, u8> {
    let mut state = CoordinatorState::new();
    for (uuid, name) in running {
        state.running_dataflows.insert(*uuid, dataflow(*uuid, *name));
    }
    ControlServer { state }
}

fn results(daemons: &[(u128, &[(&str, bool)])]) -> DaemonResults {
    let mut results = SortedMap::new();
    for (uuid, nodes) in daemons {
        let mut node_results: SortedMap<String, NodeResult> = SortedMap::new();
        for (node, ok) in nodes.iter() {
            let result =
                if *ok { Ok(()) } else { Err(NodeError { cause: format!("{node}@{uuid}") }) };
            node_results.insert(node.to_string(), result);
        }
        let result = DataflowDaemonResult { timestamp: NOW, node_results };
        results.insert(daemon(None, *uuid), result);
    }
    results
}

fn start_request(name: Option<&str>) -> StartRequest {
    StartRequest {
        build_id: None,
        session_id: 4,
        dataflow: descriptor(),
        name: name.map(|n| n.to_string()),
        local_working_dir: None,
        uv: false,
        write_events_to: None,
    }
}

#[test]
fn dataflow_names_are_unique_among_the_running() {
    let server = server(&[(1, Some("x")), (2, None)]);
    let refused = server.start(start_request(Some("x")));
    assert!(matches!(&refused, Err(ServerError::NameTaken(name)) if name == "x"));
    assert_eq!(
        refused.err().unwrap().message(""),
        "there is already a running dataflow with name `x`"
    );
    let accepted = server.start(start_request(Some("y"))).ok().unwrap();
    assert_eq!(accepted.name.as_deref(), Some("y"));
    assert_eq!(accepted.session_id, 4);
    assert!(matches!(server.start_named(start_request(None)), Ok(r) if r.name.is_none()));
}

#[test]
fn nameless_dataflow_gets_a_name() {
    let server = server(&[(1, Some("x"))]);
    let named = server.start(start_request(None)).ok().unwrap();
    let name = named.name.unwrap();
    assert_eq!(name.split('-').count(), 2);
    assert_ne!(name, "-");
}

#[test]
fn started_dataflow_is_found() {
    let mut server = server(&[]);
    let started = server.finish_start(Ok(dataflow(9, Some("x"))));
    assert_eq!(started.ok(), Some(9));
    assert!(matches!(
        server.check(9, || panic!("asked")),
        ControlRequestReply::DataflowSpawned { uuid: 9 }
    ));
    let resolved = resolve_name(
        "x".to_string(),
        &server.state.running_dataflows,
        &server.state.archived_dataflows,
    );
    assert_eq!(resolved.ok(), Some(9));
    let info = server.info(9).ok().unwrap();
    assert_eq!((info.uuid, info.name.as_deref()), (9, Some("x")));
    assert_eq!(info.descriptor.definition, "d");
    assert_eq!(info.descriptor.nodes[0].id, "n");
    let failed = server.finish_start(Err("boom".to_string()));
    assert!(matches!(failed, Err(ServerError::Outside(text)) if text == "boom"));
    assert_eq!(server.state.running_dataflows.walk(), [9]);
}

#[test]
fn name_stands_for_running_dataflow_before_ended_one() {
    let mut server = server(&[(1, Some("x")), (2, Some("twice")), (3, Some("twice"))]);
    for (uuid, name) in [(4, "x"), (5, "old"), (6, "older"), (7, "older")] {
        let archived = ArchivedDataflow { name: Some(name.to_string()) };
        server.state.archived_dataflows.insert(uuid, archived);
    }
    let resolve = |name: &str| {
        resolve_name(
            name.to_string(),
            &server.state.running_dataflows,
            &server.state.archived_dataflows,
        )
    };
    assert_eq!(resolve("x").ok(), Some(1));
    assert_eq!(resolve("old").ok(), Some(5));
    assert_eq!(
        resolve("twice").err().unwrap().message(""),
        "multiple dataflows found with name `twice`"
    );
    assert_eq!(
        resolve("older").err().unwrap().message(""),
        "multiple archived dataflows found with name `older`, Please provide the UUID instead."
    );
    assert_eq!(resolve("none").err().unwrap().message(""), "no dataflow with name `none`");
}

#[test]
fn check_of_unknown_dataflow_reports_an_empty_success() {
    let server = server(&[]);
    match server.check(3, || NOW) {
        ControlRequestReply::DataflowStopped { uuid, result } => {
            assert_eq!(uuid, 3);
            assert_eq!(result.uuid, 3);
            assert_eq!(result.timestamp, NOW);
            assert_eq!(result.node_results.len(), 0);
            assert!(result.is_ok());
        }
        _ => panic!("not stopped"),
    }
}

#[test]
fn results_of_daemons_are_put_together() {
    let results = results(&[(2, &[("b", true), ("c", true)]), (1, &[("a", false), ("b", false)])]);
    let merged = dataflow_result(&results, 8, NOW);
    assert_eq!(merged.uuid, 8);
    assert_eq!(merged.timestamp, NOW);
    let nodes: Vec<(String, bool)> =
        merged.node_results.into_entries().into_iter().map(|(n, r)| (n, r.is_ok())).collect();
    let expected: Vec<(String, bool)> =
        [("a", false), ("b", true), ("c", true)].map(|(n, ok)| (n.to_string(), ok)).to_vec();
    assert_eq!(nodes, expected);
}

#[test]
fn ended_dataflow_is_not_stopped_again() {
    let mut server = server(&[(1, Some("run"))]);
    server.state.dataflow_results.insert(2, results(&[(1, &[("a", false)])]));
    let archived = ArchivedDataflow { name: Some("done".to_string()) };
    server.state.archived_dataflows.insert(2, archived);
    let grace = Some(Duration { secs: 3, nanos: 4 });
    match server.stop_by_name("done".to_string(), grace, true, || NOW) {
        Ok(StopStep::Reply(ControlRequestReply::DataflowStopped { uuid: 2, result })) => {
            assert!(!result.is_ok());
        }
        _ => panic!("not answered"),
    }
    match server.stop_by_name("run".to_string(), grace, true, || NOW) {
        Ok(StopStep::Stop { dataflow_uuid, grace_duration, force }) => {
            assert_eq!(dataflow_uuid, 1);
            assert_eq!(grace_duration, grace);
            assert!(force);
        }
        _ => panic!("not stopped"),
    }
    assert!(matches!(
        server.stop_by_name("other".to_string(), None, false, || NOW),
        Err(ServerError::NoDataflowNamed(_))
    ));
    assert!(matches!(
        server.stop(5, None, false, || panic!("asked")),
        StopStep::Stop { dataflow_uuid: 5, grace_duration: None, force: false }
    ));
}

#[test]
fn list_shows_running_dataflows_first_and_sorted() {
    let mut server = server(&[(4, Some("b")), (3, Some("b")), (2, None), (1, Some("a"))]);
    server.state.dataflow_results.insert(8, results(&[(1, &[("n", true)]), (2, &[("m", true)])]));
    server.state.dataflow_results.insert(9, results(&[(1, &[("n", true)]), (2, &[("m", false)])]));
    let archived = ArchivedDataflow { name: Some("old".to_string()) };
    server.state.archived_dataflows.insert(9, archived);
    let list = server.list();
    let running: Vec<u128> = list.get_active().iter().map(|d| d.uuid).collect();
    assert_eq!(running, [2, 1, 3, 4]);
    assert!(list.0[..4].iter().all(|e| e.status == DataflowStatus::Running));
    let mut ended: Vec<(u128, DataflowStatus, Option<String>)> =
        list.0[4..].iter().map(|e| (e.id.uuid, e.status, e.id.name.clone())).collect();
    ended.sort_by_key(|e| e.0);
    assert_eq!(
        ended,
        vec![
            (8, DataflowStatus::Finished, None),
            (9, DataflowStatus::Failed, Some("old".to_string()))
        ]
    );
    let along = server.list_along(&vec![9, 8]);
    assert_eq!(along.0[4].id.uuid, 9);
    assert_eq!(along.0[5].id.uuid, 8);
}

#[test]
fn tool_and_coordinator_agree_on_names() {
    let server = server(&[(4, Some("b")), (2, None), (1, Some("a"))]);
    let list = server.list();
    for (name, uuid) in [("a", 1), ("b", 4)] {
        assert!(matches!(pick_dataflow(Some(name), &list), Pick::Found(found) if found == uuid));
        let resolved = resolve_name(
            name.to_string(),
            &server.state.running_dataflows,
            &server.state.archived_dataflows,
        );
        assert_eq!(resolved.ok(), Some(uuid));
    }
}

#[test]
fn list_and_check_agree_on_the_end() {
    for ok in [true, false] {
        let mut server = server(&[]);
        server.state.dataflow_results.insert(8, results(&[(1, &[("n", true)]), (2, &[("m", ok)])]));
        let finished = server.list().0[0].status == DataflowStatus::Finished;
        match server.check(8, || NOW) {
            ControlRequestReply::DataflowStopped { uuid: 8, result } => {
                assert_eq!(result.is_ok(), finished);
                assert_eq!(finished, ok);
            }
            _ => panic!("not stopped"),
        }
    }
}

#[test]
fn logs_go_by_identifier_before_name() {
    let server = server(&[(1, Some("x"))]);
    let call = server.logs(Some(6), Some("x".to_string()), "n".to_string(), Some(2));
    assert!(matches!(
        call,
        Ok(Call::RetrieveLogs { dataflow_uuid: 6, node, tail: Some(2) }) if node == "n"
    ));
    let call = server.logs(None, Some("x".to_string()), "n".to_string(), None);
    assert!(matches!(call, Ok(Call::RetrieveLogs { dataflow_uuid: 1, tail: None, .. })));
    let call = server.logs(None, Some("y".to_string()), "n".to_string(), None);
    assert!(matches!(call, Err(ServerError::NoDataflowNamed(_))));
    let call = server.logs(None, None, "n".to_string(), None);
    assert_eq!(call.err().unwrap().message(""), "No uuid");
}

#[test]
fn waits_need_something_to_wait_for() {
    let mut server = server(&[(1, None)]);
    server.state.running_builds.insert(2, 0);
    server.state.finished_builds.insert(3, 0);
    assert!(matches!(server.wait_for_build(2), Ok(BuildWait::Running)));
    assert!(matches!(server.wait_for_build(3), Ok(BuildWait::Cached)));
    assert_eq!(
        server.wait_for_build(0x0123_4567_89ab_cdef_0011_2233_4455_6677).err().unwrap().message(""),
        "unknown build id BuildId(01234567-89ab-cdef-0011-223344556677)"
    );
    assert!(server.wait_for_spawn(1).is_ok());
    assert_eq!(
        server.wait_for_spawn(2).err().unwrap().message(""),
        "unknown dataflow 00000000-0000-0000-0000-000000000002"
    );
    assert_eq!(
        server.info(2).err().unwrap().message(""),
        "No running dataflow with uuid `00000000-0000-0000-0000-000000000002`"
    );
}

#[test]
fn default_daemon_is_the_first_unnamed_one() {
    let mut server = server(&[]);
    assert!(!server.daemon_connected());
    assert_eq!(server.cli_and_default_daemon_on_same_machine().default_daemon, None);
    for (machine, uuid, ip) in [(Some("a"), 1, 1), (None, 5, 2), (None, 4, 3)] {
        server.state.daemon_connections.add_connection(
            daemon(machine, uuid),
            DaemonConnection { peer_ip: Some(IpAddr::V4(ip)) },
        );
    }
    assert!(server.daemon_connected());
    let ips = server.cli_and_default_daemon_on_same_machine();
    assert_eq!(ips.default_daemon, Some(IpAddr::V4(3)));
    assert_eq!(ips.cli, None);
    let machines: Vec<u128> =
        server.connected_machines().into_entries().into_iter().map(|(d, _)| d.uuid).collect();
    assert_eq!(machines, [4, 5, 1]);
}

#[test]
fn node_info_covers_nodes_on_daemons() {
    let mut server = server(&[(7, Some("y"))]);
    let mut dataflow = dataflow(1, Some("x"));
    for id in ["a", "b", "c"] {
        dataflow.nodes.insert(
            id.to_string(),
            ResolvedNode { id: id.to_string(), deploy: None, definition: String::new() },
        );
    }
    dataflow.node_to_daemon.insert("a".to_string(), daemon(None, 3));
    dataflow.node_to_daemon.insert("c".to_string(), daemon(Some("m"), 4));
    let metrics = NodeMetrics {
        pid: 10,
        cpu_usage_bits: 0,
        memory_bytes: 2_000_000,
        disk_read_bytes: Some(1),
        disk_write_bytes: None,
    };
    dataflow.node_metrics.insert("c".to_string(), metrics);
    dataflow.node_metrics.insert("b".to_string(), metrics);
    server.state.running_dataflows.insert(1, dataflow);
    let infos = server.get_node_info();
    assert_eq!(infos.len(), 2);
    assert_eq!(infos[0].node_id, "a");
    assert_eq!(infos[0].daemon_id.uuid, 3);
    assert_eq!(infos[0].metrics, None);
    assert_eq!(infos[1].node_id, "c");
    assert_eq!(infos[1].daemon_id.machine_id.as_deref(), Some("m"));
    assert_eq!(infos[1].metrics, Some(metrics));
    assert_eq!((infos[1].dataflow_id, infos[1].dataflow_name.as_deref()), (1, Some("x")));
    assert_eq!(server.node_info_along(&vec![1, 7]).len(), 2);
    assert!(infos.iter().all(|info| info.metrics.is_some() == (info.node_id == "c")));
}

#[test]
fn requests_for_the_caller_are_given_back() {
    let requests = vec![
        ControlRequest::WaitForBuild { build_id: 1 },
        ControlRequest::WaitForSpawn { dataflow_id: 1 },
        ControlRequest::Stop { dataflow_uuid: 1, grace_duration: None, force: false },
        ControlRequest::StopByName { name: "x".to_string(), grace_duration: None, force: false },
        ControlRequest::LogSubscribe { dataflow_id: 1, level: LevelFilter::Info },
        ControlRequest::BuildLogSubscribe { build_id: 1, level: LevelFilter::Info },
    ];
    let server = server(&[(1, Some("x"))]);
    for request in requests {
        match handle_control_request(&server, request, || NOW) {
            ControlStep::Reply(Err(error)) => {
                assert!(matches!(error, ServerError::HandledByCaller(_)));
                assert_eq!(error.message("Stop"), "request Stop must be handled by the caller");
            }
            _ => panic!("handled"),
        }
    }
}

#[test]
fn requests_are_dispatched() {
    let server = server(&[(1, Some("x"))]);
    let step = |request| handle_control_request(&server, request, || NOW);
    let build = BuildRequest {
        session_id: 9,
        dataflow: descriptor(),
        git_sources: SortedMap::new(),
        prev_git_sources: SortedMap::new(),
        local_working_dir: None,
        uv: true,
    };
    match step(ControlRequest::Build(build)) {
        ControlStep::Await(Call::Build { build_id, request }) => {
            assert_eq!((build_id >> 76) & 0xf, 4);
            assert_eq!(request.session_id, 9);
            assert!(request.uv);
        }
        _ => panic!("no build"),
    }
    assert!(matches!(
        step(ControlRequest::Start(start_request(Some("x")))),
        ControlStep::Reply(Err(ServerError::NameTaken(_)))
    ));
    assert!(matches!(
        step(ControlRequest::Start(start_request(Some("y")))),
        ControlStep::Await(Call::Start(_))
    ));
    assert!(matches!(
        step(ControlRequest::Check { dataflow_uuid: 1 }),
        ControlStep::Reply(Ok(ControlRequestReply::DataflowSpawned { uuid: 1 }))
    ));
    let reload =
        ControlRequest::Reload { dataflow_id: 1, node_id: "n".to_string(), operator_id: None };
    assert!(matches!(
        step(reload),
        ControlStep::Await(Call::Reload { dataflow_id: 1, operator_id: None, .. })
    ));
    let logs = ControlRequest::Logs { uuid: None, name: None, node: "n".to_string(), tail: None };
    assert!(matches!(step(logs), ControlStep::Reply(Err(ServerError::NoUuid))));
    assert!(matches!(
        step(ControlRequest::Info { dataflow_uuid: 1 }),
        ControlStep::Reply(Ok(ControlRequestReply::DataflowInfo { uuid: 1, .. }))
    ));
    assert!(matches!(
        step(ControlRequest::Info { dataflow_uuid: 2 }),
        ControlStep::Reply(Err(ServerError::NotRunning(2)))
    ));
    assert!(matches!(step(ControlRequest::Destroy), ControlStep::Await(Call::Destroy)));
    assert!(matches!(
        step(ControlRequest::List),
        ControlStep::Reply(Ok(ControlRequestReply::DataflowList(list))) if list.0.len() == 1
    ));
    assert!(matches!(
        step(ControlRequest::DaemonConnected),
        ControlStep::Reply(Ok(ControlRequestReply::DaemonConnected(false)))
    ));
    assert!(matches!(
        step(ControlRequest::ConnectedMachines),
        ControlStep::Reply(Ok(ControlRequestReply::ConnectedDaemons(d))) if d.len() == 0
    ));
    assert!(matches!(
        step(ControlRequest::CliAndDefaultDaemonOnSameMachine),
        ControlStep::Reply(Ok(ControlRequestReply::CliAndDefaultDaemonIps {
            default_daemon: None,
            cli: None
        }))
    ));
    assert!(matches!(
        step(ControlRequest::GetNodeInfo),
        ControlStep::Reply(Ok(ControlRequestReply::NodeInfoList(infos))) if infos.is_empty()
    ));
}

#[test]
fn dispatched_requests_are_answered_as_by_the_methods() {
    let mut server = server(&[]);
    let request = ControlRequest::Start(start_request(Some("x")));
    let outcome = match handle_control_request(&server, request, || panic!("asked")) {
        ControlStep::Await(Call::Start(request)) => {
            Outcome::Start(Ok(dataflow(4, request.name.as_deref())))
        }
        _ => panic!("not started"),
    };
    let reply = finish_control_request(&mut server, outcome);
    assert!(matches!(reply, Ok(ControlRequestReply::DataflowStartTriggered { uuid: 4 })));
    let again = ControlRequest::Start(start_request(Some("x")));
    match handle_control_request(&server, again, || panic!("asked")) {
        ControlStep::Reply(Err(ServerError::NameTaken(name))) => assert_eq!(name, "x"),
        _ => panic!("started twice"),
    }
    let check = ControlRequest::Check { dataflow_uuid: 5 };
    match handle_control_request(&server, check, || NOW) {
        ControlStep::Reply(Ok(ControlRequestReply::DataflowStopped { uuid: 5, result })) => {
            assert_eq!(result.timestamp, NOW);
        }
        _ => panic!("not stopped"),
    }
}

#[test]
fn outcomes_are_answered() {
    let mut server = server(&[]);
    let reply = finish_control_request(&mut server, Outcome::Build { build_id: 3, result: Ok(1) });
    assert!(matches!(reply, Ok(ControlRequestReply::DataflowBuildTriggered { build_id: 3 })));
    assert_eq!(server.state.running_builds.get(3), Some(&1));
    let reply = finish_control_request(&mut server, Outcome::Start(Ok(dataflow(4, None))));
    assert!(matches!(reply, Ok(ControlRequestReply::DataflowStartTriggered { uuid: 4 })));
    assert!(server.state.running_dataflows.contains_key(4));
    let outcome = Outcome::Reload { dataflow_id: 5, result: Ok(()) };
    let reply = finish_control_request(&mut server, outcome);
    assert!(matches!(reply, Ok(ControlRequestReply::DataflowReloaded { uuid: 5 })));
    let reply = finish_control_request(&mut server, Outcome::RetrieveLogs(Ok(vec![6])));
    assert!(matches!(reply, Ok(ControlRequestReply::Logs(data)) if data == [6]));
    let reply = finish_control_request(&mut server, Outcome::Destroy(Ok(())));
    assert!(matches!(reply, Ok(ControlRequestReply::DestroyOk)));
    let failed = vec![
        Outcome::Build { build_id: 8, result: Err("e".to_string()) },
        Outcome::Start(Err("e".to_string())),
        Outcome::Reload { dataflow_id: 8, result: Err("e".to_string()) },
        Outcome::RetrieveLogs(Err("e".to_string())),
        Outcome::Destroy(Err("e".to_string())),
    ];
    for outcome in failed {
        let reply = finish_control_request(&mut server, outcome);
        assert_eq!(reply.err().unwrap().message(""), "e");
    }
    assert!(!server.state.running_builds.contains_key(8));
}

use dataflow_control::common::{
    cli_and_daemon_on_same_machine, handle_dataflow_result, local_working_dir, pick_dataflow,
    resolve_dataflow, resolve_dataflow_identifier_interactive, rpc, CoordinatorOptions,
    DataflowSource, IdentifierError, Pick, RpcError, WorkingDirError,
};
use dataflow_control::message::{
    CliAndDefaultDaemonIps, DataflowIdAndName, DataflowList, DataflowListEntry, DataflowResult,
    DataflowStatus, Deploy, Descriptor, IpAddr, Node, NodeError, Timestamp,
};

const UUID: u128 = 0x0123_4567_89ab_cdef_0011_2233_4455_6677;
const UUID_TEXT: &str = "01234567-89ab-cdef-0011-223344556677";

fn list(entries: &[(u128, Option<&str>, DataflowStatus)]) -> DataflowList {
    DataflowList(
        entries
            .iter()
            .map(|(uuid, name, status)| DataflowListEntry {
                id: DataflowIdAndName { uuid: *uuid, name: name.map(|n| n.to_string()) },
                status: *status,
            })
            .collect(),
    )
}

fn no_query() -> Result<DataflowList, String> {
    panic!("queried")
}

fn no_select(_: Vec<DataflowIdAndName>) -> Result<DataflowIdAndName, String> {
    panic!("selected")
}

#[test]
fn rpc_unwraps_both_layers() {
    assert!(matches!(rpc::<u8, u8>(Ok(Ok(1))), Ok(1)));
    let refused = rpc::<u8, u8>(Ok(Err("no".to_string()))).err().unwrap();
    assert_eq!(refused.message(), "no");
    assert!(matches!(refused, RpcError::Application(_)));
    let failed = rpc::<u8, u8>(Err(3)).err().unwrap();
    assert_eq!(failed.message(), "RPC transport error");
    assert!(matches!(failed, RpcError::Transport(3)));
}

#[test]
fn failed_nodes_fail_the_dataflow() {
    let timestamp = Timestamp { time: 1, clock: 2 };
    assert!(handle_dataflow_result(DataflowResult::ok_empty(1, timestamp), None).is_ok());
    for uuid in [None, Some(UUID)] {
        let mut result = DataflowResult::ok_empty(UUID, timestamp);
        result.node_results.insert("a".to_string(), Ok(()));
        let error = NodeError { cause: "crash".to_string() };
        result.node_results.insert("b".to_string(), Err(error));
        let failed = handle_dataflow_result(result, uuid).err().unwrap();
        assert_eq!(failed.result.uuid, UUID);
        let expected = match uuid {
            Some(_) => format!("Dataflow {UUID_TEXT} failed:\nb crashed"),
            None => "Dataflow failed:\nb crashed".to_string(),
        };
        assert_eq!(failed.message("b crashed"), expected);
    }
}

#[test]
fn identifier_stands_for_itself() {
    let texts = [
        UUID_TEXT.to_string(),
        UUID_TEXT.to_uppercase(),
        UUID_TEXT.replace('-', ""),
        format!("{{{UUID_TEXT}}}"),
        format!("urn:uuid:{UUID_TEXT}"),
    ];
    for text in texts {
        let found = resolve_dataflow_identifier_interactive(Some(&text), no_query, no_select);
        assert_eq!(found.ok(), Some(UUID));
    }
}

#[test]
fn name_stands_for_the_first_active_dataflow() {
    let query = || -> Result<DataflowList, String> {
        Ok(list(&[
            (1, Some("x"), DataflowStatus::Finished),
            (2, Some("y"), DataflowStatus::Running),
            (3, Some("x"), DataflowStatus::Running),
            (4, Some("x"), DataflowStatus::Running),
            (5, Some("z"), DataflowStatus::Failed),
        ]))
    };
    let found = resolve_dataflow_identifier_interactive(Some("x"), query, no_select);
    assert_eq!(found.ok(), Some(3));
    let missing = resolve_dataflow_identifier_interactive(Some("z"), query, no_select);
    assert_eq!(missing.err().unwrap().message(), "No dataflow with name `z` is running");
}

#[test]
fn only_active_dataflow_is_meant_without_a_name() {
    let query = || -> Result<DataflowList, String> {
        Ok(list(&[(1, None, DataflowStatus::Finished), (2, None, DataflowStatus::Running)]))
    };
    let found = resolve_dataflow_identifier_interactive(None, query, no_select);
    assert_eq!(found.ok(), Some(2));
    let nothing = || -> Result<DataflowList, String> { Ok(list(&[])) };
    let found = resolve_dataflow_identifier_interactive(None, nothing, no_select);
    assert_eq!(found.err().unwrap().message(), "No dataflows are running");
}

#[test]
fn one_of_several_dataflows_is_chosen() {
    let query = || -> Result<DataflowList, String> {
        Ok(list(&[(1, None, DataflowStatus::Running), (2, None, DataflowStatus::Running)]))
    };
    let second = |active: Vec<DataflowIdAndName>| Ok(active[1].clone());
    let found = resolve_dataflow_identifier_interactive(None, query, second);
    assert_eq!(found.ok(), Some(2));
    let cancel = |_: Vec<DataflowIdAndName>| Err("canceled".to_string());
    let found = resolve_dataflow_identifier_interactive(None, query, cancel);
    assert_eq!(found.err().unwrap().message(), "canceled");
    assert!(matches!(
        pick_dataflow(None, &query().unwrap()),
        Pick::Choose(active) if active.len() == 2
    ));
}

#[test]
fn failed_query_is_reported() {
    let query = || -> Result<DataflowList, u8> { Err(7) };
    let found = resolve_dataflow_identifier_interactive(Some("x"), query, no_select);
    let error = found.err().unwrap();
    assert_eq!(error.message(), "failed to query running dataflows");
    assert!(matches!(error, IdentifierError::Query(7)));
}

#[test]
fn calls_go_to_the_port_after_the_control_port() {
    let options =
        CoordinatorOptions { coordinator_addr: IpAddr::V4(0x7f00_0001), coordinator_port: 6012 };
    assert_eq!(options.rpc_port(), 6013);
    let address = options.connect_rpc(|addr, port| (addr, port));
    assert_eq!(address, (IpAddr::V4(0x7f00_0001), 6013));
}

#[test]
fn urls_are_downloaded() {
    assert!(matches!(
        resolve_dataflow("https://example.com/d.yml".to_string()),
        DataflowSource::Download(url) if url == "https://example.com/d.yml"
    ));
    assert!(matches!(
        resolve_dataflow("d.yml".to_string()),
        DataflowSource::Local(path) if path == "d.yml"
    ));
}

fn descriptor(deploys: Vec<Option<Deploy>>) -> Descriptor {
    let node =
        |deploy| Node { id: "n".to_string(), deploy, definition: String::new() };
    Descriptor { nodes: deploys.into_iter().map(node).collect(), definition: String::new() }
}

#[test]
fn working_dir_is_shared_on_the_same_machine() {
    let local = descriptor(vec![None, None]);
    let yes = || -> Result<bool, u8> { Ok(true) };
    let dir = || -> Result<Option<&str>, String> { Ok(Some("/d")) };
    assert_eq!(local_working_dir(&local, yes, dir).ok(), Some(Some("/d")));
    let no = || -> Result<bool, u8> { Ok(false) };
    let unasked = || -> Result<Option<&str>, String> { panic!("asked") };
    assert_eq!(local_working_dir(&local, no, unasked).ok(), Some(None));
    let deployed = descriptor(vec![None, Some(Deploy { machine: None })]);
    let unasked_machine = || -> Result<bool, u8> { panic!("asked") };
    assert_eq!(local_working_dir(&deployed, unasked_machine, unasked).ok(), Some(None));
}

#[test]
fn working_dir_failures_are_reported() {
    let local = descriptor(Vec::new());
    let yes = || -> Result<bool, u8> { Ok(true) };
    let missing = || -> Result<Option<&str>, String> { Err("gone".to_string()) };
    let error = local_working_dir(&local, yes, missing).err().unwrap();
    assert_eq!(error.message("a"), "failed to canonicalize dataflow file path");
    let rootless = || -> Result<Option<&str>, String> { Ok(None) };
    let error = local_working_dir(&local, yes, rootless).err().unwrap();
    assert_eq!(error.message("a"), "dataflow path has no parent dir");
    let unknown = || -> Result<bool, u8> { Err(5) };
    let error = local_working_dir(&local, unknown, rootless).err().unwrap();
    assert_eq!(error.message("a"), "a");
    assert!(matches!(error, WorkingDirError::SameMachine(5)));
}

#[test]
fn same_machine_needs_two_known_addresses() {
    let a = Some(IpAddr::V4(1));
    let b = Some(IpAddr::V6(1));
    let same = |default_daemon, cli| {
        cli_and_daemon_on_same_machine(&CliAndDefaultDaemonIps { default_daemon, cli })
    };
    assert!(same(a, a));
    assert!(same(b, b));
    assert!(!same(a, b));
    assert!(!same(a, None));
    assert!(!same(None, a));
    assert!(!same(None, None));
}

use dataflow_control::daemons::{DaemonConnection, DaemonConnections};
use dataflow_control::ids::DaemonId;
use dataflow_control::message::IpAddr;

fn daemon(machine: Option<&str>, uuid: u128) -> DaemonId {
    DaemonId { machine_id: machine.map(|m| m.to_string()), uuid }
}

fn connections() -> DaemonConnections {
    let mut connections = DaemonConnections::new();
    connections.add_connection(daemon(Some("b"), 4), DaemonConnection { peer_ip: None });
    connections.add_connection(daemon(None, 6), DaemonConnection { peer_ip: None });
    connections.add_connection(daemon(Some("a"), 3), DaemonConnection { peer_ip: None });
    connections.add_connection(daemon(None, 5), DaemonConnection { peer_ip: None });
    connections.add_connection(daemon(Some("a"), 2), DaemonConnection { peer_ip: None });
    connections
}

#[test]
fn first_daemon_of_a_machine_is_found() {
    let connections = connections();
    assert_eq!(connections.get_matching_daemon_id("a").unwrap().uuid, 2);
    assert_eq!(connections.get_matching_daemon_id("b").unwrap().uuid, 4);
    assert!(connections.get_matching_daemon_id("c").is_none());
}

#[test]
fn unnamed_daemons_come_in_their_order() {
    let uuids: Vec<u128> = connections().unnamed().iter().map(|d| d.uuid).collect();
    assert_eq!(uuids, [5, 6]);
    assert!(DaemonConnections::new().unnamed().is_empty());
}

#[test]
fn connecting_again_replaces_the_connection() {
    let mut connections = DaemonConnections::new();
    assert!(connections.is_empty());
    connections.add_connection(daemon(None, 1), DaemonConnection { peer_ip: None });
    let peer_ip = Some(IpAddr::V4(0x7f00_0001));
    connections.add_connection(daemon(None, 1), DaemonConnection { peer_ip });
    assert!(!connections.is_empty());
    assert_eq!(connections.keys().len(), 1);
    assert_eq!(connections.get(&daemon(None, 1)).unwrap().peer_ip, peer_ip);
    assert!(connections.get(&daemon(None, 2)).is_none());
}

use dataflow_control::ids::{
    new_build_id, new_dataflow_id, new_dataflow_name, DaemonId,
};
use std::time::{SystemTime, UNIX_EPOCH};

#[test]
fn build_ids_are_random_uuids() {
    let a = new_build_id();
    let b = new_build_id();
    assert_ne!(a, b);
    for id in [a, b] {
        assert_eq!((id >> 76) & 0xf, 4);
        assert_eq!((id >> 62) & 3, 2);
    }
}

#[test]
fn dataflow_ids_carry_the_time() {
    let before = SystemTime::now().duration_since(UNIX_EPOCH).unwrap().as_millis();
    let id = new_dataflow_id();
    let after = SystemTime::now().duration_since(UNIX_EPOCH).unwrap().as_millis();
    assert_eq!((id >> 76) & 0xf, 7);
    assert_eq!((id >> 62) & 3, 2);
    assert!(before <= id >> 80);
    assert!(id >> 80 <= after);
    assert_ne!(id, new_dataflow_id());
}

#[test]
fn later_dataflow_ids_are_greater() {
    let earlier = new_dataflow_id();
    let start = SystemTime::now();
    while start.elapsed().unwrap().as_millis() < 3 {}
    assert!(earlier < new_dataflow_id());
}

#[test]
fn generated_names_are_two_words() {
    let name = new_dataflow_name().unwrap();
    let words: Vec<&str> = name.split('-').collect();
    assert_eq!(words.len(), 2);
    assert!(words.iter().all(|w| !w.is_empty()));
}

#[test]
fn daemon_matches_its_machine_only() {
    let named = DaemonId { machine_id: Some("a".to_string()), uuid: 1 };
    assert!(named.matches_machine_id("a"));
    assert!(!named.matches_machine_id("ab"));
    assert!(!named.matches_machine_id(""));
    let unnamed = DaemonId { machine_id: None, uuid: 1 };
    assert!(!unnamed.matches_machine_id("a"));
    assert!(!unnamed.matches_machine_id(""));
}

#[test]
fn daemon_is_written_out_with_its_machine() {
    let named = DaemonId { machine_id: Some("a".to_string()), uuid: 1 };
    assert_eq!(named.text(), "a-00000000-0000-0000-0000-000000000001");
    let unnamed = DaemonId { machine_id: None, uuid: 1 };
    assert_eq!(unnamed.text(), "00000000-0000-0000-0000-000000000001");
}

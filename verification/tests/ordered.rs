use dataflow_control::ids::DaemonId;
use dataflow_control::message::DataflowIdAndName;
use dataflow_control::ordered::SortedMap;

fn daemon(machine: Option<&str>, uuid: u128) -> DaemonId {
    DaemonId { machine_id: machine.map(|m| m.to_string()), uuid }
}

#[test]
fn entries_come_in_the_order_of_the_keys() {
    let mut map: SortedMap<String, u32> = SortedMap::new();
    for (i, key) in ["b", "a", "é", "ab", "", "Z"].iter().enumerate() {
        map.insert(key.to_string(), i as u32);
    }
    let keys: Vec<String> = map.into_entries().into_iter().map(|e| e.0).collect();
    let mut sorted = keys.clone();
    sorted.sort();
    assert_eq!(keys, sorted);
    assert_eq!(keys, ["", "Z", "a", "ab", "b", "é"]);
}

#[test]
fn inserting_again_replaces_the_value() {
    let mut map: SortedMap<String, u32> = SortedMap::new();
    map.insert("a".to_string(), 1);
    map.insert("a".to_string(), 2);
    assert_eq!(map.len(), 1);
    assert_eq!(map.get(&"a".to_string()), Some(&2));
    assert_eq!(map.get(&"b".to_string()), None);
    assert!(map.contains_key(&"a".to_string()));
    assert!(!map.contains_key(&"".to_string()));
    assert_eq!(map.values(), vec![&2]);
    let copy = map.clone();
    assert_eq!(copy.entry(0), &("a".to_string(), 2));
}

#[test]
fn daemons_sort_by_machine_and_then_by_number() {
    let mut map: SortedMap<DaemonId, ()> = SortedMap::new();
    map.insert(daemon(Some("b"), 1), ());
    map.insert(daemon(None, 9), ());
    map.insert(daemon(Some("a"), 7), ());
    map.insert(daemon(Some("a"), 3), ());
    map.insert(daemon(None, 2), ());
    let order: Vec<(Option<String>, u128)> =
        map.into_entries().into_iter().map(|(d, _)| (d.machine_id, d.uuid)).collect();
    let mut sorted = order.clone();
    sorted.sort();
    assert_eq!(order, sorted);
    assert_eq!(order[0], (None, 2));
    assert_eq!(order[4], (Some("b".to_string()), 1));
}

#[test]
fn dataflows_sort_by_name_and_then_by_number() {
    let mut map: SortedMap<DataflowIdAndName, ()> = SortedMap::new();
    for (name, uuid) in [(Some("y"), 1u128), (Some("x"), 5), (None, 8), (Some("x"), 2)] {
        map.insert(DataflowIdAndName { uuid, name: name.map(|n| n.to_string()) }, ());
    }
    let order: Vec<u128> = map.into_entries().into_iter().map(|(d, _)| d.uuid).collect();
    assert_eq!(order, [8, 2, 5, 1]);
}

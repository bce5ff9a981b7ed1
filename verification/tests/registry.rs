use dataflow_control::registry::Registry;

#[test]
fn records_are_found_by_their_identifiers() {
    let mut registry: Registry<String> = Registry::new();
    assert!(registry.get(1).is_none());
    registry.insert(1, "one".to_string());
    registry.insert(u128::MAX, "last".to_string());
    assert_eq!(registry.get(1), Some(&"one".to_string()));
    assert_eq!(registry.get(u128::MAX), Some(&"last".to_string()));
    assert!(registry.get(2).is_none());
    assert!(registry.contains_key(1));
    assert!(!registry.contains_key(0));
}

#[test]
fn storing_again_replaces_the_record() {
    let mut registry: Registry<u8> = Registry::new();
    registry.insert(7, 1);
    registry.insert(8, 2);
    registry.insert(7, 3);
    assert_eq!(registry.get(7), Some(&3));
    assert_eq!(registry.get(8), Some(&2));
    assert_eq!(registry.walk().len(), 2);
}

#[test]
fn walk_meets_every_identifier_once() {
    let mut registry: Registry<u64> = Registry::new();
    for i in 0..100u64 {
        registry.insert(u128::from(i) * 3, i);
    }
    let mut walk = registry.walk();
    walk.sort();
    let expected: Vec<u128> = (0..100).map(|i| i * 3).collect();
    assert_eq!(walk, expected);
}

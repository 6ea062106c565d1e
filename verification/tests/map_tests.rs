use mdns_rr::string_map::StringMap;

#[test]
fn insert_then_get_gives_value_back() {
    let mut m: StringMap<u32> = StringMap::new();
    assert_eq!(m.insert("a".to_string(), 1), None);
    assert_eq!(m.insert("b".to_string(), 2), None);
    assert_eq!(m.get("a"), Some(&1));
    assert_eq!(m.get("b"), Some(&2));
    assert_eq!(m.get("c"), None);
    assert_eq!(m.len(), 2);
}

#[test]
fn insert_replaces_in_place() {
    let mut m: StringMap<u32> = StringMap::new();
    m.insert("a".to_string(), 1);
    m.insert("b".to_string(), 2);
    assert_eq!(m.insert("a".to_string(), 3), Some(1));
    assert_eq!(m.keys(), vec!["a".to_string(), "b".to_string()]);
    assert_eq!(m.get("a"), Some(&3));
    assert_eq!(m.len(), 2);
}

#[test]
fn remove_forgets_only_that_key() {
    let mut m: StringMap<u32> = StringMap::new();
    m.insert("a".to_string(), 1);
    m.insert("b".to_string(), 2);
    m.insert("c".to_string(), 3);
    assert_eq!(m.remove("b"), Some(2));
    assert_eq!(m.remove("b"), None);
    assert!(!m.contains_key("b"));
    assert_eq!(m.keys(), vec!["a".to_string(), "c".to_string()]);
    assert_eq!(m.get("c"), Some(&3));
}

#[test]
fn retain_keeps_flagged_entries_in_order() {
    let mut m: StringMap<u32> = StringMap::new();
    for (k, v) in [("a", 1), ("b", 2), ("c", 3), ("d", 4)] {
        m.insert(k.to_string(), v);
    }
    m.retain_flagged(&vec![true, false, true, false]);
    assert_eq!(m.keys(), vec!["a".to_string(), "c".to_string()]);
    assert_eq!(m.value_at(1), &3);
    assert_eq!(m.key_at(0), "a");
}

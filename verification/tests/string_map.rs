use omnipaxos_kv::string_map::StringMap;

#[test]
fn insert_get_remove() {
    let mut m = StringMap::new();
    assert_eq!(m.len(), 0);
    m.insert("a".to_string(), "1".to_string());
    m.insert("b".to_string(), "2".to_string());
    m.insert("a".to_string(), "3".to_string());
    assert_eq!(m.len(), 2);
    assert_eq!(m.get(&"a".to_string()), Some("3".to_string()));
    assert_eq!(m.get(&"b".to_string()), Some("2".to_string()));
    assert!(m.contains_key(&"b".to_string()));
    m.remove(&"a".to_string());
    assert_eq!(m.get(&"a".to_string()), None);
    assert!(!m.contains_key(&"a".to_string()));
    assert_eq!(m.len(), 1);
    m.remove(&"zzz".to_string());
    assert_eq!(m.len(), 1);
}

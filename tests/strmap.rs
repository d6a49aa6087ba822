use adfeed::strmap::StrMap;

#[test]
fn insert_replaces_and_keeps_order() {
    let mut m: StrMap<u32> = StrMap::new();
    assert!(m.is_empty());
    m.insert("b".to_string(), 1);
    m.insert("a".to_string(), 2);
    m.insert("b".to_string(), 3);
    assert_eq!(m.len(), 2);
    assert_eq!(m.key_at(0), "b");
    assert_eq!(m.key_at(1), "a");
    assert_eq!(m.get("b"), Some(&3));
    assert_eq!(*m.value_at(1), 2);
    assert!(m.contains_key("a"));
    assert_eq!(m.get("c"), None);
}

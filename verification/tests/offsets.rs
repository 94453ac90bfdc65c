use cs2_dumper::OffsetMap;

#[test]
fn insert_then_get() {
    let mut m = OffsetMap::new();
    assert_eq!(m.get(&"a".to_string()), None);
    m.insert("a".to_string(), 1);
    m.insert("b".to_string(), 2);
    m.insert("a".to_string(), 3);
    assert_eq!(m.len(), 2);
    assert_eq!(m.get(&"a".to_string()), Some(3));
    assert_eq!(m.get(&"b".to_string()), Some(2));
    let (k, v) = m.entry(0);
    assert_eq!((k.as_str(), v), ("a", 3));
}

#[test]
fn extend_prefers_the_new_values() {
    let mut a = OffsetMap::new();
    a.insert("x".to_string(), 1);
    a.insert("y".to_string(), 2);
    let mut b = OffsetMap::new();
    b.insert("y".to_string(), 20);
    b.insert("z".to_string(), 30);
    a.extend(&b);
    assert_eq!(a.len(), 3);
    assert_eq!(a.get(&"x".to_string()), Some(1));
    assert_eq!(a.get(&"y".to_string()), Some(20));
    assert_eq!(a.get(&"z".to_string()), Some(30));
}

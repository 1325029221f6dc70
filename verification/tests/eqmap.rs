use adguard_rules::EqMap;

#[test]
fn eqmap_insert_and_get() {
    let mut m: EqMap<u64, u32> = EqMap::new();
    assert_eq!(m.get(&1), None);
    assert_eq!(m.insert(1, 10), None);
    assert_eq!(m.insert(2, 20), None);
    assert_eq!(m.get(&1), Some(&10));
    assert_eq!(m.get(&2), Some(&20));
    assert_eq!(m.get(&3), None);
}

#[test]
fn eqmap_insert_replaces() {
    let mut m: EqMap<u64, u32> = EqMap::new();
    assert_eq!(m.insert(7, 1), None);
    assert_eq!(m.insert(7, 2), Some(1));
    assert_eq!(m.get(&7), Some(&2));
    assert_eq!(m.insert(7, 3), Some(2));
}

#[test]
fn eqmap_get_mut_writes_through() {
    let mut m: EqMap<u64, u32> = EqMap::new();
    m.insert(1, 10);
    m.insert(2, 20);
    assert!(m.get_mut(&9).is_none());
    if let Some(v) = m.get_mut(&2) {
        assert_eq!(*v, 20);
        *v = 21;
    }
    assert_eq!(m.get(&2), Some(&21));
    assert_eq!(m.get(&1), Some(&10));
}

use dusk_node_core::map::KeyToIdxMap;

fn key(n: u8) -> [u8; 32] {
    let mut k = [0u8; 32];
    k[0] = n;
    k[17] = n.wrapping_mul(31);
    k
}

#[test]
fn insert_then_get() {
    let mut m = KeyToIdxMap::new();
    assert_eq!(m.insert(key(1), 10), None);
    assert_eq!(m.insert(key(2), 20), None);
    assert_eq!(m.get(&key(1)), Some(10));
    assert_eq!(m.get(&key(2)), Some(20));
}

#[test]
fn insert_replaces_index() {
    let mut m = KeyToIdxMap::new();
    assert_eq!(m.insert(key(1), 10), None);
    assert_eq!(m.insert(key(1), 11), Some(10));
    assert_eq!(m.get(&key(1)), Some(11));
}

#[test]
fn remove_returns_index() {
    let mut m = KeyToIdxMap::new();
    for i in 0..100u8 {
        assert_eq!(m.insert(key(i), i as usize), None);
    }
    for i in 0..100u8 {
        assert_eq!(m.remove(&key(i)), Some(i as u64));
    }
    assert_eq!(m.remove(&key(5)), None);
}

#[test]
fn empty_map_holds_nothing() {
    let mut m = KeyToIdxMap::new();
    assert_eq!(m.get(&key(3)), None);
    assert_eq!(m.remove(&key(3)), None);
}

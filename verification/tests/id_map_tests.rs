use unm::clip::SfxHandle;
use unm::id_map::{IdMap, IdMapKey};
use unm::material::MaterialHandle;

#[test]
fn new_map_is_empty_and_starts_at_one() {
    let m: IdMap<&str, SfxHandle> = IdMap::new();
    assert!(m.is_empty());
    assert_eq!(m.len(), 0);
    assert_eq!(m.peek_next_id(), 1);
}

#[test]
fn insert_hands_out_increasing_ids() {
    let mut m: IdMap<&str, SfxHandle> = IdMap::new();
    let a = m.insert("a");
    let b = m.insert("b");
    let c = m.insert("c");
    assert_eq!(a, SfxHandle(1));
    assert_eq!(b, SfxHandle(2));
    assert_eq!(c, SfxHandle(3));
    assert_eq!(m.len(), 3);
    assert_eq!(m.peek_next_id(), 4);
}

#[test]
fn get_after_insert_returns_value() {
    let mut m: IdMap<String, MaterialHandle> = IdMap::new();
    let h = m.insert("hello".to_string());
    assert_eq!(m.get(h), Some(&"hello".to_string()));
    assert_eq!(m.get(MaterialHandle(0)), None);
    assert_eq!(m.get(MaterialHandle(2)), None);
}

#[test]
fn removed_handle_is_never_reused() {
    let mut m: IdMap<u32, SfxHandle> = IdMap::new();
    let a = m.insert(10);
    let b = m.insert(20);
    assert_eq!(m.remove(a), Some(10));
    assert_eq!(m.remove(a), None);
    assert_eq!(m.get(a), None);
    assert_eq!(m.get(b), Some(&20));
    let c = m.insert(30);
    assert_eq!(c, SfxHandle(3));
    assert_ne!(c, a);
    assert_eq!(m.get(a), None);
    assert_eq!(m.len(), 2);
}

#[test]
fn get_mut_writes_through() {
    let mut m: IdMap<u32, SfxHandle> = IdMap::new();
    let a = m.insert(1);
    if let Some(v) = m.get_mut(a) {
        *v = 42;
    }
    assert_eq!(m.get(a), Some(&42));
    assert!(m.get_mut(SfxHandle(9)).is_none());
}

#[test]
fn iter_lists_every_entry_once() {
    let mut m: IdMap<u32, SfxHandle> = IdMap::new();
    for v in [5u32, 6, 7] {
        m.insert(v);
    }
    let mut entries: Vec<(u64, u32)> = m.iter().into_iter().map(|(h, v)| (h.to(), *v)).collect();
    entries.sort();
    assert_eq!(entries, vec![(1, 5), (2, 6), (3, 7)]);
    let mut keys: Vec<u64> = m.keys().into_iter().map(|h| h.0).collect();
    keys.sort();
    assert_eq!(keys, vec![1, 2, 3]);
    let mut values: Vec<u32> = m.values().into_iter().copied().collect();
    values.sort();
    assert_eq!(values, vec![5, 6, 7]);
}

#[test]
fn iter_mut_writes_every_entry() {
    let mut m: IdMap<u32, SfxHandle> = IdMap::new();
    let a = m.insert(1);
    let b = m.insert(2);
    for (_, v) in m.iter_mut() {
        *v *= 10;
    }
    assert_eq!(m.get(a), Some(&10));
    assert_eq!(m.get(b), Some(&20));
    assert_eq!(m.len(), 2);
}

#[test]
fn handle_round_trips_its_id() {
    let h = <SfxHandle as IdMapKey>::from(77);
    assert_eq!(h.to(), 77);
    let m = <MaterialHandle as IdMapKey>::from(5);
    assert_eq!(m.to(), 5);
}

#[test]
fn handle_zero_is_never_handed_out() {
    let mut m: IdMap<u8, SfxHandle> = IdMap::new();
    for i in 0..10u8 {
        let h = m.insert(i);
        assert_ne!(h, SfxHandle(0));
    }
    assert_eq!(m.get(SfxHandle(0)), None);
    assert_eq!(m.remove(SfxHandle(0)), None);
    assert_eq!(m.len(), 10);
}

#[test]
fn len_counts_inserts_less_successful_removes() {
    let mut m: IdMap<u32, SfxHandle> = IdMap::new();
    let a = m.insert(10);
    let b = m.insert(20);
    let c = m.insert(30);
    assert_eq!(m.remove(b), Some(20));
    assert_eq!(m.remove(b), None);
    let _ = m.get_mut(a);
    let d = m.insert(40);
    assert_eq!(m.len(), 3);
    assert_eq!(m.peek_next_id(), 5);
    assert!(a.0 < c.0 && c.0 < d.0);
    assert_eq!(d.0, 4);
    assert!(m.get(b).is_none());
    assert!(m.keys().iter().all(|h| h.0 != b.0));
}

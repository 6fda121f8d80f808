use mutable::{MutMap, ThreadLock};

#[test]
fn iter1() {
    let mut lock = ThreadLock::new();
    let mut v = MutMap::new();

    v.insert(&mut lock, 22, 23);
    v.insert(&mut lock, 44, 45);
    v.insert(&mut lock, 66, 67);

    let mut results = vec![];
    let mut it = v.iter();
    while let Some(i) = it.next(&v, &mut lock) {
        results.push(Some(i));
    }

    assert_eq!(
        results,
        vec![Some((22, 23)), Some((44, 45)), Some((66, 67))]
    );
}

#[test]
fn insert_then_get() {
    let mut lock = ThreadLock::new();
    let mut m = MutMap::new();
    assert_eq!(m.insert(&mut lock, 7, 70), None);
    assert_eq!(m.get(&mut lock, &7), Some(70));
    assert_eq!(m.get(&mut lock, &8), None);
    assert_eq!(m.len(&mut lock), 1);
}

#[test]
fn insert_existing_key() {
    let mut lock = ThreadLock::new();
    let mut m = MutMap::new();
    m.insert(&mut lock, 1, 10);
    m.insert(&mut lock, 2, 20);
    assert_eq!(m.insert(&mut lock, 1, 11), Some(10));
    assert_eq!(m.len(&mut lock), 2);
    assert_eq!(m.get_index(&mut lock, 0), Some((1, 11)));
    assert_eq!(m.get_index(&mut lock, 1), Some((2, 20)));
}

#[test]
fn remove_after_insert() {
    let mut lock = ThreadLock::new();
    let mut m = MutMap::new();
    m.insert(&mut lock, 5, 50);
    assert_eq!(m.remove(&mut lock, &5), Some(50));
    assert_eq!(m.get(&mut lock, &5), None);
    assert_eq!(m.len(&mut lock), 0);
}

#[test]
fn remove_absent_key() {
    let mut lock = ThreadLock::new();
    let mut m = MutMap::new();
    m.insert(&mut lock, 5, 50);
    assert_eq!(m.remove(&mut lock, &6), None);
    assert_eq!(m.len(&mut lock), 1);
    assert_eq!(m.get(&mut lock, &5), Some(50));
}

#[test]
fn remove_moves_last_into_place() {
    let mut lock = ThreadLock::new();
    let mut m = MutMap::new();
    m.insert(&mut lock, 1, 10);
    m.insert(&mut lock, 2, 20);
    m.insert(&mut lock, 3, 30);
    assert_eq!(m.remove(&mut lock, &1), Some(10));
    assert_eq!(m.get_index(&mut lock, 0), Some((3, 30)));
    assert_eq!(m.get_index(&mut lock, 1), Some((2, 20)));
    assert_eq!(m.get_index(&mut lock, 2), None);
}

#[test]
fn index_accessors() {
    let mut lock = ThreadLock::new();
    let mut m = MutMap::new();
    m.insert(&mut lock, 4, 40);
    m.insert(&mut lock, 9, 90);
    assert_eq!(m.get_key_index(&mut lock, 1), Some(9));
    assert_eq!(m.get_value_index(&mut lock, 0), Some(40));
    assert_eq!(m.get_key_index(&mut lock, 2), None);
    assert_eq!(m.get_value_index(&mut lock, 2), None);
}

#[test]
fn keys_in_order() {
    let mut lock = ThreadLock::new();
    let mut m = MutMap::new();
    m.insert(&mut lock, 30, 0);
    m.insert(&mut lock, 10, 0);
    m.insert(&mut lock, 20, 0);
    let mut keys = vec![];
    let mut it = m.keys();
    while let Some(k) = it.next(&m, &mut lock) {
        keys.push(k);
    }
    assert_eq!(keys, vec![30, 10, 20]);
}

#[test]
fn iter_during_removal() {
    let mut lock = ThreadLock::new();
    let mut m = MutMap::new();
    m.insert(&mut lock, 1, 10);
    m.insert(&mut lock, 2, 20);
    m.insert(&mut lock, 3, 30);
    let mut seen = vec![];
    let mut it = m.iter();
    while let Some((k, v)) = it.next(&m, &mut lock) {
        seen.push((k, v));
        if k == 1 {
            m.remove(&mut lock, &1);
        }
    }
    // Entry 3 moved into position 0, which the cursor had passed.
    assert_eq!(seen, vec![(1, 10), (2, 20)]);
}

#[test]
fn not_panic_safe_variants() {
    let mut lock = ThreadLock::new();
    let mut m = MutMap::new();
    assert_eq!(m.insert_not_panic_safe(&mut lock, 1, 2), None);
    assert_eq!(m.insert_not_panic_safe(&mut lock, 1, 3), Some(2));
    assert_eq!(m.remove_not_panic_safe(&mut lock, &1), Some(3));
    assert_eq!(m.remove_not_panic_safe(&mut lock, &1), None);
    assert_eq!(m.len(&mut lock), 0);
    assert!(lock.is_unlocked());
}

#[test]
fn clone_keeps_entries() {
    let mut lock = ThreadLock::new();
    let mut m = MutMap::new();
    m.insert(&mut lock, 1, 2);
    m.insert(&mut lock, 3, 4);
    let c = m.clone(&mut lock);
    m.insert(&mut lock, 5, 6);
    assert_eq!(c.len(&mut lock), 2);
    assert_eq!(c.get_index(&mut lock, 1), Some((3, 4)));
    assert_eq!(m.len(&mut lock), 3);
}

#[test]
fn default_map_is_empty() {
    let mut lock = ThreadLock::new();
    let m = MutMap::default();
    assert_eq!(m.len(&mut lock), 0);
    assert_eq!(m.get_index(&mut lock, 0), None);
}

#[test]
fn from_pairs_is_repeated_insert() {
    let mut lock = ThreadLock::new();
    let m = MutMap::from_pairs(&vec![(3, 30), (1, 10), (3, 31)]);
    assert_eq!(m.len(&mut lock), 2);
    assert_eq!(m.get_index(&mut lock, 0), Some((3, 31)));
    assert_eq!(m.get_index(&mut lock, 1), Some((1, 10)));
}

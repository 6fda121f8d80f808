use mutable::{MutVec, ThreadLock};

#[test]
fn test_iter1() {
    let mut lock = ThreadLock::new();
    let mut v = MutVec::new();

    v.push(&mut lock, 22);
    v.push(&mut lock, 44);
    v.push(&mut lock, 66);

    // Iterate while also mutating the vector (here, removing things from
    // the end).
    let mut results = vec![];
    let mut it = v.iter();
    while let Some(i) = it.next(&v, &mut lock) {
        results.push(Some(i));
        results.push(v.pop(&mut lock));
    }

    assert_eq!(results, vec![Some(22), Some(66), Some(44), Some(44)],);
}

#[test]
fn push_pop_len() {
    let mut lock = ThreadLock::new();
    let mut v = MutVec::new();
    assert_eq!(v.len(&mut lock), 0);
    v.push(&mut lock, 1u64);
    v.push(&mut lock, 2);
    v.push(&mut lock, 3);
    assert_eq!(v.pop(&mut lock), Some(3));
    v.push(&mut lock, 4);
    assert_eq!(v.len(&mut lock), 3);
    assert_eq!(v.pop(&mut lock), Some(4));
    assert_eq!(v.pop(&mut lock), Some(2));
    assert_eq!(v.pop(&mut lock), Some(1));
    assert_eq!(v.len(&mut lock), 0);
    assert!(lock.is_unlocked());
}

#[test]
fn pop_empty_is_none() {
    let mut lock = ThreadLock::new();
    let mut v: MutVec<u64> = MutVec::new();
    assert_eq!(v.pop(&mut lock), None);
    assert_eq!(v.len(&mut lock), 0);
}

#[test]
fn get_and_at() {
    let mut lock = ThreadLock::new();
    let mut v = MutVec::new();
    v.push(&mut lock, String::from("a"));
    v.push(&mut lock, String::from("b"));
    assert_eq!(v.get(&mut lock, 1), Some(String::from("b")));
    assert_eq!(v.get(&mut lock, 2), None);
    assert_eq!(v.at(&mut lock, 0), String::from("a"));
}

#[test]
fn iter_without_mutation() {
    let mut lock = ThreadLock::new();
    let v = MutVec::from_vec(vec![5u8, 6, 7]);
    let mut seen = vec![];
    let mut it = v.iter();
    while let Some(x) = it.next(&v, &mut lock) {
        seen.push(x);
    }
    assert_eq!(seen, vec![5, 6, 7]);
    assert_eq!(it.next(&v, &mut lock), None);
}

#[test]
fn iter_sees_pushes() {
    let mut lock = ThreadLock::new();
    let mut v = MutVec::from_vec(vec![1u32]);
    let mut seen = vec![];
    let mut it = v.iter();
    while let Some(x) = it.next(&v, &mut lock) {
        seen.push(x);
        if x < 3 {
            v.push(&mut lock, x + 1);
        }
    }
    assert_eq!(seen, vec![1, 2, 3]);
}

#[test]
fn replace_and_take() {
    let lock = ThreadLock::new();
    let mut lock_mut = ThreadLock::new();
    let mut v = MutVec::from_vec(vec![1i32, 2]);
    let old = v.replace(&lock, vec![9, 8, 7]);
    assert_eq!(old, vec![1, 2]);
    assert_eq!(v.len(&mut lock_mut), 3);
    let taken = v.take(&lock);
    assert_eq!(taken, vec![9, 8, 7]);
    assert_eq!(v.len(&mut lock_mut), 0);
}

#[test]
fn clone_is_independent() {
    let mut lock = ThreadLock::new();
    let mut v = MutVec::from_vec(vec![1u64, 2]);
    let c = v.clone(&mut lock);
    v.push(&mut lock, 3);
    assert_eq!(c.len(&mut lock), 2);
    assert_eq!(c.get(&mut lock, 1), Some(2));
    assert_eq!(v.len(&mut lock), 3);
}

#[test]
fn default_is_empty() {
    let mut lock = ThreadLock::new();
    let v: MutVec<u64> = MutVec::default();
    assert_eq!(v.len(&mut lock), 0);
}

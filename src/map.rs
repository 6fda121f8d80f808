//! An insertion-ordered map held in one lock-checked cell.
//!
//! The entries live in an `indexmap::IndexMap`, which keeps them in the order
//! their keys were first inserted. Keys and values are `u64`.
use crate::lock::ThreadLock;
use crate::mcell::MCell;
use indexmap::IndexMap;
use vstd::prelude::*;

verus! {

#[verifier::external_type_specification]
#[verifier::external_body]
#[verifier::reject_recursive_types(K)]
#[verifier::reject_recursive_types(V)]
#[verifier::reject_recursive_types(S)]
pub struct ExIndexMap<K, V, S>(IndexMap<K, V, S>);

/// The entries of an `IndexMap`, in its order.
pub uninterp spec fn entries_of(m: IndexMap<u64, u64>) -> Seq<(u64, u64)>;

/// Some entry of `s` has key `k`.
pub open spec fn has_key(s: Seq<(u64, u64)>, k: u64) -> bool {
    exists|i: int| 0 <= i < s.len() && s[i].0 == k
}

/// The position of an entry of `s` with key `k`.
pub open spec fn key_index(s: Seq<(u64, u64)>, k: u64) -> int {
    choose|i: int| 0 <= i < s.len() && s[i].0 == k
}

/// No two entries of `s` share a key.
pub open spec fn unique_keys(s: Seq<(u64, u64)>) -> bool {
    forall|i: int, j: int|
        0 <= i < s.len() && 0 <= j < s.len() && #[trigger] s[i].0 == #[trigger] s[j].0 ==> i == j
}

/// The value stored under `k`, if any.
pub open spec fn lookup(s: Seq<(u64, u64)>, k: u64) -> Option<u64> {
    if has_key(s, k) {
        Some(s[key_index(s, k)].1)
    } else {
        None
    }
}

/// The entries after inserting `(k, v)`: an existing entry of `k` keeps its
/// place and takes the new value; otherwise the entry goes last.
pub open spec fn inserted(s: Seq<(u64, u64)>, k: u64, v: u64) -> Seq<(u64, u64)> {
    if has_key(s, k) {
        s.update(key_index(s, k), (k, v))
    } else {
        s.push((k, v))
    }
}

/// The entries after removing `k`: the last entry moves into the removed
/// entry's place.
pub open spec fn removed(s: Seq<(u64, u64)>, k: u64) -> Seq<(u64, u64)> {
    if has_key(s, k) {
        s.update(key_index(s, k), s.last()).drop_last()
    } else {
        s
    }
}

/// The entries after inserting each of `pairs` in turn, starting from `s`.
pub open spec fn inserted_all(s: Seq<(u64, u64)>, pairs: Seq<(u64, u64)>) -> Seq<(u64, u64)>
    decreases pairs.len(),
{
    if pairs.len() == 0 {
        s
    } else {
        let (k, v) = pairs.last();
        inserted(inserted_all(s, pairs.drop_last()), k, v)
    }
}

/// Relies on `IndexMap::new`: a new map has no entries.
#[verifier::external_body]
fn index_map_new() -> (r: IndexMap<u64, u64>)
    ensures
        entries_of(r) == Seq::<(u64, u64)>::empty(),
{
    IndexMap::new()
}

/// Relies on `IndexMap::len`: the number of entries.
#[verifier::external_body]
fn index_map_len(m: &IndexMap<u64, u64>) -> (r: usize)
    ensures
        r == entries_of(*m).len(),
{
    m.len()
}

/// Relies on `IndexMap::insert`: an existing key keeps its place, takes the
/// new value and gives back the old one; a new key goes last.
#[verifier::external_body]
fn index_map_insert(m: &mut IndexMap<u64, u64>, k: u64, v: u64) -> (r: Option<u64>)
    ensures
        r == lookup(entries_of(*old(m)), k),
        entries_of(*final(m)) == inserted(entries_of(*old(m)), k, v),
{
    m.insert(k, v)
}

/// Relies on `IndexMap::swap_remove` (what `IndexMap::remove` does): the
/// entry of the key is taken out, and the last entry moves into its place.
#[verifier::external_body]
fn index_map_swap_remove(m: &mut IndexMap<u64, u64>, k: &u64) -> (r: Option<u64>)
    ensures
        r == lookup(entries_of(*old(m)), *k),
        entries_of(*final(m)) == removed(entries_of(*old(m)), *k),
{
    m.swap_remove(k)
}

/// Relies on `IndexMap::get`: the value stored under the key.
#[verifier::external_body]
fn index_map_get(m: &IndexMap<u64, u64>, k: &u64) -> (r: Option<u64>)
    ensures
        r == lookup(entries_of(*m), *k),
{
    m.get(k).copied()
}

/// Relies on `IndexMap::get_index`: the entry at a position in the order.
#[verifier::external_body]
fn index_map_get_index(m: &IndexMap<u64, u64>, index: usize) -> (r: Option<(u64, u64)>)
    ensures
        index < entries_of(*m).len() ==> r == Some(entries_of(*m)[index as int]),
        index >= entries_of(*m).len() ==> r is None,
{
    match m.get_index(index) {
        Some((k, v)) => Some((*k, *v)),
        None => None,
    }
}

/// Relies on `IndexMap`'s `Clone`: the same entries in the same order.
#[verifier::external_body]
fn index_map_clone(m: &IndexMap<u64, u64>) -> (r: IndexMap<u64, u64>)
    ensures
        entries_of(r) == entries_of(*m),
{
    m.clone()
}

/// An insertion-ordered map from `u64` keys to `u64` values whose accesses
/// take the thread's lock.
pub struct MutMap {
    data: MCell<IndexMap<u64, u64>>,
}

/// A position in a `MutMap`'s order; each step reads the entry at the
/// current position of the map as it is at that step.
pub struct Iter {
    index: usize,
}

/// A position in a `MutMap`'s order that yields keys; each step reads the
/// map as it is at that step.
pub struct Keys {
    index: usize,
}

impl View for MutMap {
    type V = Seq<(u64, u64)>;

    closed spec fn view(&self) -> Seq<(u64, u64)> {
        entries_of(self.data@)
    }
}

impl MutMap {
    /// Well-formed: no two entries share a key.
    pub open spec fn wf(&self) -> bool {
        unique_keys(self@)
    }

    /// An empty map.
    pub fn new() -> (r: Self)
        ensures
            r@ == Seq::<(u64, u64)>::empty(),
            r.wf(),
    {
        MutMap { data: MCell::new(index_map_new()) }
    }

    /// A map built by inserting each of `pairs` in turn; a later pair with
    /// the same key as an earlier one replaces its value in place.
    pub fn from_pairs(pairs: &Vec<(u64, u64)>) -> (r: Self)
        ensures
            r@ == inserted_all(Seq::<(u64, u64)>::empty(), pairs@),
            r.wf(),
    {
        let mut m = index_map_new();
        let mut i: usize = 0;
        while i < pairs.len()
            invariant
                0 <= i <= pairs@.len(),
                entries_of(m) == inserted_all(Seq::<(u64, u64)>::empty(), pairs@.subrange(0, i as int)),
                unique_keys(entries_of(m)),
            decreases pairs@.len() - i,
        {
            let (k, v) = pairs[i];
            proof {
                lemma_inserted_unique(entries_of(m), k, v);
                assert(pairs@.subrange(0, i + 1).drop_last() == pairs@.subrange(0, i as int));
            }
            index_map_insert(&mut m, k, v);
            i = i + 1;
        }
        proof { assert(pairs@.subrange(0, i as int) == pairs@); }
        MutMap { data: MCell::new(m) }
    }

    /// The number of entries, read under a shared lock.
    pub fn len(&self, lock: &mut ThreadLock) -> (r: usize)
        requires
            old(lock)@.can_read(),
        ensures
            r == self@.len(),
            final(lock)@ == old(lock)@,
    {
        proof { lock.lemma_in_range(); }
        let data = self.data.borrow(lock);
        let r = index_map_len(data.data);
        data.release(lock);
        r
    }

    /// Inserts `(key, value)` and returns the value `key` had before, if any.
    /// The entries are checked out of the cell meanwhile: only a shared lock
    /// is held, so other cells stay readable, and this map reads as empty.
    pub fn insert(&mut self, lock: &mut ThreadLock, key: u64, value: u64) -> (r: Option<u64>)
        requires
            old(self).wf(),
            old(lock)@.is_unlocked(),
        ensures
            final(self).wf(),
            r == lookup(old(self)@, key),
            final(self)@ == inserted(old(self)@, key, value),
            final(lock)@ == old(lock)@,
    {
        let mut data = self.data.check_out(lock);
        let r = index_map_insert(&mut data.data, key, value);
        proof { lemma_inserted_unique(old(self)@, key, value); }
        data.release(&mut self.data, lock);
        r
    }

    /// Removes `key` and returns its value, if it had one; the last entry
    /// takes the removed entry's place. Done on checked-out entries, as
    /// `insert` is.
    pub fn remove(&mut self, lock: &mut ThreadLock, key: &u64) -> (r: Option<u64>)
        requires
            old(self).wf(),
            old(lock)@.is_unlocked(),
        ensures
            final(self).wf(),
            r == lookup(old(self)@, *key),
            final(self)@ == removed(old(self)@, *key),
            final(lock)@ == old(lock)@,
    {
        let mut data = self.data.check_out(lock);
        let r = index_map_swap_remove(&mut data.data, key);
        proof { lemma_removed_unique(old(self)@, *key); }
        data.release(&mut self.data, lock);
        r
    }

    /// `insert` without a guard: the entries are moved out, changed and put
    /// back by hand, so a failure in between would leave the map empty.
    pub fn insert_not_panic_safe(&mut self, lock: &mut ThreadLock, key: u64, value: u64) -> (r:
        Option<u64>)
        requires
            old(self).wf(),
            old(lock)@.is_unlocked(),
        ensures
            final(self).wf(),
            r == lookup(old(self)@, key),
            final(self)@ == inserted(old(self)@, key, value),
            final(lock)@ == old(lock)@,
    {
        let mut data = self.data.take(lock);
        lock.acquire_read();
        let r = index_map_insert(&mut data, key, value);
        lock.release_read();
        proof { lemma_inserted_unique(old(self)@, key, value); }
        self.data.set(lock, data);
        r
    }

    /// `remove` without a guard, as `insert_not_panic_safe` is.
    pub fn remove_not_panic_safe(&mut self, lock: &mut ThreadLock, key: &u64) -> (r: Option<u64>)
        requires
            old(self).wf(),
            old(lock)@.is_unlocked(),
        ensures
            final(self).wf(),
            r == lookup(old(self)@, *key),
            final(self)@ == removed(old(self)@, *key),
            final(lock)@ == old(lock)@,
    {
        let mut data = self.data.take(lock);
        lock.acquire_read();
        let r = index_map_swap_remove(&mut data, key);
        lock.release_read();
        proof { lemma_removed_unique(old(self)@, *key); }
        self.data.set(lock, data);
        r
    }

    /// The value stored under `key`, if any, read under a shared lock.
    pub fn get(&self, lock: &mut ThreadLock, key: &u64) -> (r: Option<u64>)
        requires
            old(lock)@.can_read(),
        ensures
            r == lookup(self@, *key),
            final(lock)@ == old(lock)@,
    {
        proof { lock.lemma_in_range(); }
        let data = self.data.borrow(lock);
        let r = index_map_get(data.data, key);
        data.release(lock);
        r
    }

    /// The entry at position `index` of the order, or `None` past the end.
    pub fn get_index(&self, lock: &mut ThreadLock, index: usize) -> (r: Option<(u64, u64)>)
        requires
            old(lock)@.can_read(),
        ensures
            index < self@.len() ==> r == Some(self@[index as int]),
            index >= self@.len() ==> r is None,
            final(lock)@ == old(lock)@,
    {
        proof { lock.lemma_in_range(); }
        let data = self.data.borrow(lock);
        let r = index_map_get_index(data.data, index);
        data.release(lock);
        r
    }

    /// The key at position `index` of the order, or `None` past the end.
    pub fn get_key_index(&self, lock: &mut ThreadLock, index: usize) -> (r: Option<u64>)
        requires
            old(lock)@.can_read(),
        ensures
            index < self@.len() ==> r == Some(self@[index as int].0),
            index >= self@.len() ==> r is None,
            final(lock)@ == old(lock)@,
    {
        match self.get_index(lock, index) {
            Some((k, _)) => Some(k),
            None => None,
        }
    }

    /// The value at position `index` of the order, or `None` past the end.
    pub fn get_value_index(&self, lock: &mut ThreadLock, index: usize) -> (r: Option<u64>)
        requires
            old(lock)@.can_read(),
        ensures
            index < self@.len() ==> r == Some(self@[index as int].1),
            index >= self@.len() ==> r is None,
            final(lock)@ == old(lock)@,
    {
        match self.get_index(lock, index) {
            Some((_, v)) => Some(v),
            None => None,
        }
    }

    /// A cursor over the entries, at the first one.
    pub fn iter(&self) -> (r: Iter)
        ensures
            r.index() == 0,
    {
        Iter { index: 0 }
    }

    /// A cursor over the keys, at the first one.
    pub fn keys(&self) -> (r: Keys)
        ensures
            r.index() == 0,
    {
        Keys { index: 0 }
    }

    /// A new map with the same entries in the same order, read under a
    /// shared lock.
    pub fn clone(&self, lock: &mut ThreadLock) -> (r: Self)
        requires
            old(lock)@.can_read(),
        ensures
            r@ == self@,
            r.wf() == self.wf(),
            final(lock)@ == old(lock)@,
    {
        proof { lock.lemma_in_range(); }
        let data = self.data.borrow(lock);
        let m = index_map_clone(data.data);
        data.release(lock);
        MutMap { data: MCell::new(m) }
    }
}

impl Default for MutMap {
    fn default() -> (r: Self)
        ensures
            r@ == Seq::<(u64, u64)>::empty(),
            r.wf(),
    {
        MutMap::new()
    }
}

impl Iter {
    /// The position of the next entry to visit.
    pub closed spec fn index(&self) -> nat {
        self.index as nat
    }

    /// The entry at the cursor in `map` as it is now, moving the cursor one
    /// on; `None`, and no move, once the cursor is at or past the end.
    pub fn next(&mut self, map: &MutMap, lock: &mut ThreadLock) -> (r: Option<(u64, u64)>)
        requires
            old(lock)@.can_read(),
        ensures
            old(self).index() < map@.len() ==> r == Some(map@[old(self).index() as int])
                && final(self).index() == old(self).index() + 1,
            old(self).index() >= map@.len() ==> r is None && final(self).index() == old(self).index(),
            final(lock)@ == old(lock)@,
    {
        if self.index < map.len(lock) {
            let r = map.get_index(lock, self.index);
            self.index = self.index + 1;
            r
        } else {
            None
        }
    }
}

impl Keys {
    /// The position of the next key to visit.
    pub closed spec fn index(&self) -> nat {
        self.index as nat
    }

    /// The key at the cursor in `map` as it is now, moving the cursor one
    /// on; `None`, and no move, once the cursor is at or past the end.
    pub fn next(&mut self, map: &MutMap, lock: &mut ThreadLock) -> (r: Option<u64>)
        requires
            old(lock)@.can_read(),
        ensures
            old(self).index() < map@.len() ==> r == Some(map@[old(self).index() as int].0)
                && final(self).index() == old(self).index() + 1,
            old(self).index() >= map@.len() ==> r is None && final(self).index() == old(self).index(),
            final(lock)@ == old(lock)@,
    {
        if self.index < map.len(lock) {
            let r = map.get_key_index(lock, self.index);
            self.index = self.index + 1;
            r
        } else {
            None
        }
    }
}

/// Right after `insert(k, v)`, `get(k)` gives `v`.
pub proof fn lemma_get_after_insert(s: Seq<(u64, u64)>, k: u64, v: u64)
    requires
        unique_keys(s),
    ensures
        lookup(inserted(s, k, v), k) == Some(v),
{
    let t = inserted(s, k, v);
    lemma_inserted_unique(s, k, v);
    let i = if has_key(s, k) { key_index(s, k) } else { s.len() as int };
    assert(t[i].0 == k);
    assert(has_key(t, k));
    let j = key_index(t, k);
    assert(t[j].0 == t[i].0);
}

/// `insert` on a key that is present returns its previous value and leaves
/// the number of entries as it was.
pub proof fn lemma_insert_existing(s: Seq<(u64, u64)>, k: u64, v: u64)
    requires
        has_key(s, k),
    ensures
        lookup(s, k) == Some(s[key_index(s, k)].1),
        inserted(s, k, v).len() == s.len(),
{
}

/// `remove(k)` right after `insert(k, v)` returns `Some(v)`, and afterwards
/// `get(k)` gives `None`.
pub proof fn lemma_remove_after_insert(s: Seq<(u64, u64)>, k: u64, v: u64)
    requires
        unique_keys(s),
    ensures
        lookup(inserted(s, k, v), k) == Some(v),
        lookup(removed(inserted(s, k, v), k), k) is None,
{
    lemma_get_after_insert(s, k, v);
    lemma_inserted_unique(s, k, v);
    lemma_removed_lacks_key(inserted(s, k, v), k);
}

/// `remove` on a key that is absent returns `None` and leaves the entries,
/// and so their number, as they were.
pub proof fn lemma_remove_absent(s: Seq<(u64, u64)>, k: u64)
    requires
        !has_key(s, k),
    ensures
        lookup(s, k) is None,
        removed(s, k) == s,
{
}

/// After `remove(k)` no entry has key `k`.
proof fn lemma_removed_lacks_key(s: Seq<(u64, u64)>, k: u64)
    requires
        unique_keys(s),
    ensures
        !has_key(removed(s, k), k),
{
    if has_key(s, k) {
        let i = key_index(s, k);
        let n = s.len() - 1;
        let t = removed(s, k);
        assert forall|j: int| 0 <= j < t.len() implies t[j].0 != k by {
            if j == i {
                assert(t[j] == s[n]);
                assert(s[n].0 != s[i].0);
            } else {
                assert(t[j] == s[j]);
                assert(s[j].0 != s[i].0);
            }
        }
    }
}

/// Inserting keeps keys unique.
proof fn lemma_inserted_unique(s: Seq<(u64, u64)>, k: u64, v: u64)
    requires
        unique_keys(s),
    ensures
        unique_keys(inserted(s, k, v)),
{
    if has_key(s, k) {
        let i = key_index(s, k);
        let t = inserted(s, k, v);
        assert forall|a: int, b: int|
            0 <= a < t.len() && 0 <= b < t.len() && #[trigger] t[a].0 == #[trigger] t[b].0 implies a == b by {
            assert(t[a].0 == s[a].0);
            assert(t[b].0 == s[b].0);
        }
    } else {
        let t = inserted(s, k, v);
        assert forall|a: int, b: int|
            0 <= a < t.len() && 0 <= b < t.len() && #[trigger] t[a].0 == #[trigger] t[b].0 implies a == b by {
            if a < s.len() && b < s.len() {
                assert(t[a] == s[a] && t[b] == s[b]);
            } else if a < s.len() {
                assert(t[a] == s[a]);
            } else if b < s.len() {
                assert(t[b] == s[b]);
            }
        }
    }
}

/// Removing keeps keys unique.
proof fn lemma_removed_unique(s: Seq<(u64, u64)>, k: u64)
    requires
        unique_keys(s),
    ensures
        unique_keys(removed(s, k)),
{
    if has_key(s, k) {
        let i = key_index(s, k);
        let n = s.len() - 1;
        let t = removed(s, k);
        assert forall|a: int, b: int|
            0 <= a < t.len() && 0 <= b < t.len() && #[trigger] t[a].0 == #[trigger] t[b].0 implies a == b by {
            let a0 = if a == i { n } else { a };
            let b0 = if b == i { n } else { b };
            assert(t[a] == s[a0]);
            assert(t[b] == s[b0]);
        }
    }
}

} // verus!

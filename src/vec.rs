//! A growable sequence held in one lock-checked cell.
use crate::lock::ThreadLock;
use crate::mcell::MCell;
use vstd::prelude::*;

verus! {

/// A growable sequence whose accesses take the thread's lock.
pub struct MutVec<T> {
    data: MCell<Vec<T>>,
}

/// A position in a `MutVec`; each step reads the element at the current
/// position of the sequence as it is at that step, so changes made between
/// steps are seen by the later ones.
pub struct Iter {
    index: usize,
}

impl<T> View for MutVec<T> {
    type V = Seq<T>;

    closed spec fn view(&self) -> Seq<T> {
        self.data@@
    }
}

impl<T> MutVec<T> {
    /// An empty sequence.
    pub fn new() -> (r: Self)
        ensures
            r@ == Seq::<T>::empty(),
    {
        MutVec { data: MCell::new(Vec::new()) }
    }

    /// A sequence holding the elements of `v`, in order.
    pub fn from_vec(v: Vec<T>) -> (r: Self)
        ensures
            r@ == v@,
    {
        MutVec { data: MCell::new(v) }
    }

    /// The length of a sequence fits in a `usize`.
    pub proof fn lemma_len_fits(&self)
        ensures
            self@.len() <= usize::MAX,
    {
        assert(self.data@.len() == self.data@@.len());
    }

    /// The number of elements, read under a shared lock.
    pub fn len(&self, lock: &mut ThreadLock) -> (r: usize)
        requires
            old(lock)@.can_read(),
        ensures
            r == self@.len(),
            final(lock)@ == old(lock)@,
    {
        proof { lock.lemma_in_range(); }
        let data = self.data.borrow(lock);
        let r = data.data.len();
        data.release(lock);
        r
    }

    /// A clone of the element at `index`, or `None` past the end.
    pub fn get(&self, lock: &mut ThreadLock, index: usize) -> (r: Option<T>) where T: Clone
        requires
            old(lock)@.can_read(),
        ensures
            index < self@.len() <==> r is Some,
            r is Some ==> cloned(self@[index as int], r->0),
            final(lock)@ == old(lock)@,
    {
        proof { lock.lemma_in_range(); }
        let data = self.data.borrow(lock);
        let r = if index < data.data.len() {
            Some(data.data[index].clone())
        } else {
            None
        };
        data.release(lock);
        r
    }

    /// A clone of the element at `index`, which must exist.
    pub fn at(&self, lock: &mut ThreadLock, index: usize) -> (r: T) where T: Clone
        requires
            old(lock)@.can_read(),
            index < self@.len(),
        ensures
            cloned(self@[index as int], r),
            final(lock)@ == old(lock)@,
    {
        let r = self.get(lock, index);
        r.unwrap()
    }

    /// Appends `value`, under the exclusive lock.
    pub fn push(&mut self, lock: &mut ThreadLock, value: T)
        requires
            old(lock)@.can_write(),
        ensures
            final(self)@ == old(self)@.push(value),
            final(self)@ == apply_op(old(self)@, Some(value)),
            final(lock)@ == old(lock)@,
    {
        let data = self.data.borrow_mut(lock);
        data.data.push(value);
        data.release(lock);
    }

    /// Removes and returns the last element, or `None` when empty, under the
    /// exclusive lock.
    pub fn pop(&mut self, lock: &mut ThreadLock) -> (r: Option<T>)
        requires
            old(lock)@.can_write(),
        ensures
            old(self)@.len() == 0 ==> r is None && final(self)@ == old(self)@,
            old(self)@.len() > 0 ==> r == Some(old(self)@.last())
                && final(self)@ == old(self)@.drop_last(),
            final(self)@ == apply_op(old(self)@, None),
            final(lock)@ == old(lock)@,
    {
        let data = self.data.borrow_mut(lock);
        let r = data.data.pop();
        data.release(lock);
        r
    }

    /// A cursor at the first element.
    pub fn iter(&self) -> (r: Iter)
        ensures
            r.index() == 0,
    {
        Iter { index: 0 }
    }

    /// Puts `v` in place of the elements and returns the old ones. Nothing may
    /// be locked.
    pub fn replace(&mut self, lock: &ThreadLock, v: Vec<T>) -> (r: Vec<T>)
        requires
            lock@.is_unlocked(),
        ensures
            r@ == old(self)@,
            final(self)@ == v@,
    {
        self.data.replace(lock, v)
    }

    /// Returns the elements, leaving the sequence empty. Nothing may be locked.
    pub fn take(&mut self, lock: &ThreadLock) -> (r: Vec<T>)
        requires
            lock@.is_unlocked(),
        ensures
            r@ == old(self)@,
            final(self)@ == Seq::<T>::empty(),
    {
        self.data.take(lock)
    }

    /// A new sequence holding a clone of each element, read under a shared
    /// lock.
    pub fn clone(&self, lock: &mut ThreadLock) -> (r: Self) where T: Clone
        requires
            old(lock)@.can_read(),
        ensures
            r@.len() == self@.len(),
            forall|i: int| 0 <= i < self@.len() ==> cloned(#[trigger] self@[i], r@[i]),
            final(lock)@ == old(lock)@,
    {
        proof { lock.lemma_in_range(); }
        let data = self.data.borrow(lock);
        let v = data.data.clone();
        data.release(lock);
        MutVec { data: MCell::new(v) }
    }
}

/// The sequence after one operation: `Some(v)` is a `push(v)`, `None` a
/// `pop()`, which leaves an empty sequence as it is.
pub open spec fn apply_op<T>(s: Seq<T>, op: Option<T>) -> Seq<T> {
    match op {
        Some(v) => s.push(v),
        None => if s.len() > 0 {
            s.drop_last()
        } else {
            s
        },
    }
}

/// The sequence after the operations `ops`, in order, starting from `s`.
pub open spec fn apply_ops<T>(s: Seq<T>, ops: Seq<Option<T>>) -> Seq<T>
    decreases ops.len(),
{
    if ops.len() == 0 {
        s
    } else {
        apply_op(apply_ops(s, ops.drop_last()), ops.last())
    }
}

/// The number of pushes among `ops`.
pub open spec fn count_pushes<T>(ops: Seq<Option<T>>) -> nat
    decreases ops.len(),
{
    if ops.len() == 0 {
        0
    } else {
        count_pushes(ops.drop_last()) + if ops.last() is Some {
            1nat
        } else {
            0nat
        }
    }
}

/// The number of pops among `ops`.
pub open spec fn count_pops<T>(ops: Seq<Option<T>>) -> nat
    decreases ops.len(),
{
    if ops.len() == 0 {
        0
    } else {
        count_pops(ops.drop_last()) + if ops.last() is None {
            1nat
        } else {
            0nat
        }
    }
}

/// At no point of `ops` have there been more pops than pushes.
pub open spec fn pops_never_exceed_pushes<T>(ops: Seq<Option<T>>) -> bool {
    forall|k: int|
        0 <= k <= ops.len() ==> count_pops(#[trigger] ops.subrange(0, k)) <= count_pushes(
            ops.subrange(0, k),
        )
}

/// After a run of pushes and pops on an empty sequence in which pops never
/// outnumber the pushes before them, the length is the number of pushes
/// minus the number of pops.
pub proof fn lemma_push_pop_len<T>(ops: Seq<Option<T>>)
    requires
        pops_never_exceed_pushes(ops),
    ensures
        apply_ops(Seq::<T>::empty(), ops).len() == count_pushes(ops) - count_pops(ops),
    decreases ops.len(),
{
    if ops.len() > 0 {
        let prefix = ops.drop_last();
        assert forall|k: int| 0 <= k <= prefix.len() implies count_pops(
            #[trigger] prefix.subrange(0, k),
        ) <= count_pushes(prefix.subrange(0, k)) by {
            assert(prefix.subrange(0, k) == ops.subrange(0, k));
        }
        lemma_push_pop_len(prefix);
        assert(ops.subrange(0, ops.len() as int) == ops);
    }
}

impl<T> Default for MutVec<T> {
    fn default() -> (r: Self)
        ensures
            r@ == Seq::<T>::empty(),
    {
        MutVec::new()
    }
}

impl Iter {
    /// The position of the next element to visit.
    pub closed spec fn index(&self) -> nat {
        self.index as nat
    }

    /// A clone of the element at the cursor in `vec` as it is now, moving the
    /// cursor one on; `None`, and no move, once the cursor is at or past the
    /// end.
    pub fn next<T: Clone>(&mut self, vec: &MutVec<T>, lock: &mut ThreadLock) -> (r: Option<T>)
        requires
            old(lock)@.can_read(),
        ensures
            old(self).index() < vec@.len() ==> r is Some
                && cloned(vec@[old(self).index() as int], r->0)
                && final(self).index() == old(self).index() + 1,
            old(self).index() >= vec@.len() ==> r is None && final(self).index() == old(self).index(),
            final(lock)@ == old(lock)@,
    {
        proof { vec.lemma_len_fits(); }
        let r = vec.get(lock, self.index);
        if r.is_some() {
            self.index = self.index + 1;
        }
        r
    }
}

} // verus!

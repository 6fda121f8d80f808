//! A single value held in one lock-checked cell.
use crate::lock::ThreadLock;
use crate::mcell::MCell;
use vstd::prelude::*;

verus! {

/// One value whose accesses take the thread's lock.
pub struct Mut<T> {
    data: MCell<T>,
}

impl<T> View for Mut<T> {
    type V = T;

    closed spec fn view(&self) -> T {
        self.data@
    }
}

impl<T> Mut<T> {
    /// Holds `value`.
    pub fn new(value: T) -> (r: Self)
        ensures
            r@ == value,
    {
        Mut { data: MCell::new(value) }
    }

    /// Stores `new_value` and returns the old value. Nothing may be locked.
    pub fn replace(&mut self, lock: &ThreadLock, new_value: T) -> (r: T)
        requires
            lock@.is_unlocked(),
        ensures
            r == old(self)@,
            final(self)@ == new_value,
    {
        self.data.replace(lock, new_value)
    }

    /// A clone of the value, read under a shared lock.
    pub fn get(&self, lock: &mut ThreadLock) -> (r: T) where T: Clone
        requires
            old(lock)@.can_read(),
        ensures
            cloned(self@, r),
            final(lock)@ == old(lock)@,
    {
        proof { lock.lemma_in_range(); }
        let data = self.data.borrow(lock);
        let r = data.data.clone();
        data.release(lock);
        r
    }

    /// Stores `new_value`, dropping the old value. Nothing may be locked.
    pub fn set(&mut self, lock: &ThreadLock, new_value: T)
        requires
            lock@.is_unlocked(),
        ensures
            final(self)@ == new_value,
    {
        self.data.set(lock, new_value)
    }
}

} // verus!

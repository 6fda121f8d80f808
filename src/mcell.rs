//! A cell whose every access goes through the thread's lock, and the guards
//! that its access operations hand out.
//!
//! Each guard stands for one lock taken on the thread: a `ShareGuard` for a
//! shared lock, a `MutGuard` for the exclusive one, and a `CheckOutGuard` for
//! a shared lock held while the cell's content is moved out of it. A guard is
//! handed back through its `release`, which gives the lock back.
use crate::lock::{LockMode, ThreadLock};
use vstd::prelude::*;

verus! {

/// `v` is a value that `T::default()` may return.
pub open spec fn is_default<T: Default>(v: T) -> bool {
    call_ensures(T::default, (), v)
}

/// Holds one value; reading it needs a shared lock, writing it the exclusive
/// lock or a check-out.
pub struct MCell<T> {
    data: T,
}

/// Read access to a cell's value while a shared lock is held.
pub struct ShareGuard<'a, T> {
    pub data: &'a T,
}

/// Read-write access to a cell's value while the exclusive lock is held.
pub struct MutGuard<'a, T> {
    pub data: &'a mut T,
}

/// A cell's value moved out of it, with a shared lock held; the cell holds a
/// default value until the guard is released.
pub struct CheckOutGuard<T> {
    pub data: T,
}

impl<T> View for MCell<T> {
    type V = T;

    closed spec fn view(&self) -> T {
        self.data
    }
}

impl<T> MCell<T> {
    /// A cell holding `value`.
    pub fn new(value: T) -> (r: Self)
        ensures
            r@ == value,
    {
        MCell { data: value }
    }

    /// Moves the value out, leaving a default one. Nothing may be locked.
    pub fn take(&mut self, lock: &ThreadLock) -> (r: T) where T: Default
        requires
            lock@.is_unlocked(),
        ensures
            r == old(self)@,
            is_default(final(self)@),
    {
        let mut value = T::default();
        std::mem::swap(&mut self.data, &mut value);
        value
    }

    /// Stores `value`, dropping the old one. Nothing may be locked.
    pub fn set(&mut self, lock: &ThreadLock, value: T)
        requires
            lock@.is_unlocked(),
        ensures
            final(self)@ == value,
    {
        self.data = value;
    }

    /// Stores `value` and returns the old one. Nothing may be locked.
    pub fn replace(&mut self, lock: &ThreadLock, value: T) -> (r: T)
        requires
            lock@.is_unlocked(),
        ensures
            r == old(self)@,
            final(self)@ == value,
    {
        let mut value = value;
        std::mem::swap(&mut self.data, &mut value);
        value
    }

    /// Takes a shared lock and gives read access to the value.
    pub fn borrow(&self, lock: &mut ThreadLock) -> (g: ShareGuard<'_, T>)
        requires
            old(lock)@.can_read(),
        ensures
            *g.data == self@,
            final(lock)@ == old(lock)@.after_read(),
    {
        lock.acquire_read();
        ShareGuard { data: &self.data }
    }

    /// Takes the exclusive lock and gives read-write access to the value;
    /// what is written through the guard is what the cell holds afterwards.
    pub fn borrow_mut(&mut self, lock: &mut ThreadLock) -> (g: MutGuard<'_, T>)
        requires
            old(lock)@.can_write(),
        ensures
            *g.data == old(self)@,
            final(self)@ == *final(g.data),
            final(lock)@ == LockMode::Exclusive,
    {
        lock.acquire_write();
        MutGuard { data: &mut self.data }
    }

    /// Moves the value out into a guard and takes a shared lock; until the
    /// guard is released the cell holds a default value, which is what any
    /// read of this cell sees, while other cells stay readable.
    pub fn check_out(&mut self, lock: &mut ThreadLock) -> (g: CheckOutGuard<T>) where T: Default
        requires
            old(lock)@.is_unlocked(),
        ensures
            g.data == old(self)@,
            is_default(final(self)@),
            final(lock)@ == LockMode::Shared(1),
    {
        let data = self.take(lock);
        lock.acquire_read();
        CheckOutGuard { data }
    }
}

/// While a cell is checked out only a shared lock is held: other cells, and
/// this one, can still be read, but nothing can be written. A read of the
/// checked-out cell sees the default placeholder, which for a `Vec` is
/// empty.
pub proof fn lemma_check_out_reentrancy<T>(placeholder: Vec<T>)
    requires
        is_default(placeholder),
    ensures
        LockMode::Shared(1).can_read(),
        !LockMode::Shared(1).can_write(),
        placeholder@ == Seq::<T>::empty(),
{
}

impl<'a, T> ShareGuard<'a, T> {
    /// Gives back the shared lock.
    pub fn release(self, lock: &mut ThreadLock)
        requires
            old(lock)@.is_shared(),
        ensures
            final(lock)@ == old(lock)@.after_release_read(),
    {
        lock.release_read();
    }
}

impl<'a, T> MutGuard<'a, T> {
    /// Gives back the exclusive lock; the value is left as the guard has it.
    pub fn release(self, lock: &mut ThreadLock)
        requires
            old(lock)@.is_exclusive(),
        ensures
            *final(self.data) == *old(self.data),
            final(lock)@ == LockMode::Unlocked,
    {
        lock.release_write();
    }
}

impl<T> CheckOutGuard<T> {
    /// Puts the (possibly changed) value back into `cell`, dropping the
    /// placeholder there, and gives back the shared lock.
    pub fn release(self, cell: &mut MCell<T>, lock: &mut ThreadLock)
        requires
            old(lock)@.is_shared(),
        ensures
            final(cell)@ == self.data,
            final(lock)@ == old(lock)@.after_release_read(),
    {
        lock.release_read();
        cell.data = self.data;
    }
}

} // verus!

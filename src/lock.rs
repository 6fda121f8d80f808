//! The per-thread lock consulted by every cell operation.
//!
//! A thread holds either nothing, some number of shared (read) locks, or a
//! single exclusive (write) lock. The state is one counter: `0` is unlocked,
//! `WRITE_LOCK` is the exclusive lock and anything in between counts readers.
use vstd::prelude::*;

verus! {

/// Counter value that marks the exclusive lock.
pub const WRITE_LOCK: u32 = 0xffff_ffffu32;

/// The largest number of shared locks that may be held at once.
pub const MAX_READERS: u32 = 0xffff_fffeu32;

/// What a thread's lock currently grants.
pub enum LockMode {
    Unlocked,
    Shared(nat),
    Exclusive,
}

impl LockMode {
    pub open spec fn is_unlocked(self) -> bool {
        self is Unlocked
    }

    pub open spec fn is_shared(self) -> bool {
        self is Shared
    }

    pub open spec fn is_exclusive(self) -> bool {
        self is Exclusive
    }

    /// Number of shared locks held.
    pub open spec fn readers(self) -> nat {
        match self {
            LockMode::Shared(n) => n,
            _ => 0,
        }
    }

    /// A shared lock may be taken: nobody writes and the reader count has room.
    pub open spec fn can_read(self) -> bool {
        match self {
            LockMode::Unlocked => true,
            LockMode::Shared(n) => n < MAX_READERS,
            LockMode::Exclusive => false,
        }
    }

    /// An exclusive lock may be taken: nothing at all is held.
    pub open spec fn can_write(self) -> bool {
        self is Unlocked
    }

    /// The mode after one more shared lock is taken.
    pub open spec fn after_read(self) -> LockMode {
        LockMode::Shared(self.readers() + 1)
    }

    /// The mode after one shared lock is given back.
    pub open spec fn after_release_read(self) -> LockMode {
        if self.readers() <= 1 {
            LockMode::Unlocked
        } else {
            LockMode::Shared((self.readers() - 1) as nat)
        }
    }

    /// Every reachable mode is within what the counter can represent.
    pub open spec fn in_range(self) -> bool {
        match self {
            LockMode::Shared(n) => 1 <= n <= MAX_READERS,
            _ => true,
        }
    }
}

/// The mode after `n` shared locks are taken, one after another, starting
/// from no lock.
pub open spec fn nested_reads(n: nat) -> LockMode
    decreases n,
{
    if n == 0 {
        LockMode::Unlocked
    } else {
        nested_reads((n - 1) as nat).after_read()
    }
}

/// While the exclusive lock is held, neither a second exclusive lock nor a
/// shared lock can be taken. Shared locks stack: after `n` of them, another
/// can be taken exactly while `n` is below `MAX_READERS`, and the exclusive
/// lock cannot be taken at all once one is held.
pub proof fn lemma_lock_discipline(n: nat)
    requires
        n <= MAX_READERS,
    ensures
        !LockMode::Exclusive.can_write(),
        !LockMode::Exclusive.can_read(),
        n > 0 ==> nested_reads(n) == LockMode::Shared(n),
        nested_reads(n).can_read() <==> n < MAX_READERS,
        nested_reads(n).can_write() <==> n == 0,
    decreases n,
{
    if n > 0 {
        lemma_lock_discipline((n - 1) as nat);
    }
}

/// The lock state of one thread. Every cell operation of that thread takes
/// it, so that a borrow of any cell constrains all the others.
pub struct ThreadLock {
    state: u32,
}

impl View for ThreadLock {
    type V = LockMode;

    closed spec fn view(&self) -> LockMode {
        if self.state == 0 {
            LockMode::Unlocked
        } else if self.state == WRITE_LOCK {
            LockMode::Exclusive
        } else {
            LockMode::Shared(self.state as nat)
        }
    }
}

impl ThreadLock {
    /// Every lock value is in range.
    pub proof fn lemma_in_range(&self)
        ensures
            self@.in_range(),
    {
    }

    /// A fresh thread holds no lock.
    pub fn new() -> (r: Self)
        ensures
            r@ == LockMode::Unlocked,
    {
        ThreadLock { state: 0 }
    }

    /// Whether no lock at all is held.
    pub fn is_unlocked(&self) -> (r: bool)
        ensures
            r == self@.is_unlocked(),
    {
        self.state == 0
    }

    /// Whether at least one shared lock and no exclusive lock is held.
    pub fn is_read_locked(&self) -> (r: bool)
        ensures
            r == self@.is_shared(),
    {
        self.state != 0 && self.state != WRITE_LOCK
    }

    /// Whether the exclusive lock is held.
    pub fn is_write_locked(&self) -> (r: bool)
        ensures
            r == self@.is_exclusive(),
    {
        self.state == WRITE_LOCK
    }

    /// Whether one more shared lock may be taken.
    pub fn can_read(&self) -> (r: bool)
        ensures
            r == self@.can_read(),
    {
        self.state != WRITE_LOCK && self.state != MAX_READERS
    }

    /// Takes one more shared lock.
    pub fn acquire_read(&mut self)
        requires
            old(self)@.can_read(),
        ensures
            final(self)@ == old(self)@.after_read(),
    {
        self.state = self.state + 1;
    }

    /// Gives back one shared lock.
    pub fn release_read(&mut self)
        requires
            old(self)@.is_shared(),
        ensures
            final(self)@ == old(self)@.after_release_read(),
    {
        self.state = self.state - 1;
    }

    /// Takes the exclusive lock.
    pub fn acquire_write(&mut self)
        requires
            old(self)@.can_write(),
        ensures
            final(self)@ == LockMode::Exclusive,
    {
        self.state = WRITE_LOCK;
    }

    /// Gives back the exclusive lock.
    pub fn release_write(&mut self)
        requires
            old(self)@.is_exclusive(),
        ensures
            final(self)@ == LockMode::Unlocked,
    {
        self.state = 0;
    }
}

} // verus!

//! Cells whose borrows are checked against one lock shared by every cell
//! of a thread, and the containers built on them.
//!
//! Every access takes the thread's `ThreadLock`: a read takes a shared lock,
//! a write the exclusive one, and a check-out moves a cell's content out
//! while holding a shared lock. So while any cell is being written, no other
//! cell of the thread can be read or written.
//!
//! A thread makes one `ThreadLock` and hands it to every cell operation it
//! performs; the contracts say which lock states each operation accepts and
//! in which state it leaves the lock.

pub mod lock;
pub mod map;
pub mod mcell;
pub mod mutbl;
pub mod vec;

pub use lock::ThreadLock;
pub use map::MutMap;
pub use mutbl::Mut;
pub use vec::MutVec;

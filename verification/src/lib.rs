//! A thread-safe "create-once" map: values are computed lazily, at most one
//! value is ever stored per key, and reads of existing entries proceed
//! concurrently under a shared lock.
//!
//! The mapping lives inside a verified reader-writer lock
//! ([`vstd::rwlock::RwLock`]), which enforces the exclusivity invariant that
//! the classic raw-lock-plus-unchecked-cell pattern leaves to the programmer.
//! The sequential content of each operation (lookup, insert-if-absent,
//! overwrite) is carried by [`table::Table`], whose contracts pin the result
//! exactly; the concurrent entry points in [`store`] state what a caller can
//! rely on in the presence of other threads.

pub mod laws;
pub mod outcome;
pub mod store;
pub mod table;

//! Processes, threads, coroutines and their schedulers.
//!
//! Identifier 0 is reserved as the empty identifier.

pub mod coroutine;
pub mod process;
pub mod scheduler;
pub mod thread;

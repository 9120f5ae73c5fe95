//! Threads of a process.
//!
//! Apart from the main thread, which starts at the program's entry point,
//! every thread runs one call of a function of the program and exits when
//! that function returns.

pub mod context;

use vstd::prelude::*;
use context::Context;

verus! {

/// What a thread of a process provides.
pub trait Thread: Sized {
    /// Thread `tid` of process `pid`.
    fn new(pid: usize, tid: usize) -> Self;

    fn empty() -> Self;

    /// A copy of the thread.
    fn clone(&self) -> Self;
}

/// The state of a thread.
pub struct ModelThread {
    pub pid: usize,
    pub tid: usize,
    pub context: Context,
}

impl ModelThread {
    /// Thread `tid` of process `pid`, with an empty context.
    pub fn new(pid: usize, tid: usize) -> (r: Self)
        ensures
            r.pid == pid,
            r.tid == tid,
            r.context.pc == 0,
            r.context.sp == 0,
            r.context.s@ == Seq::new(12, |i: int| 0usize),
    {
        let context = Context::empty();

        ModelThread { pid, tid, context }
    }
}

} // verus!

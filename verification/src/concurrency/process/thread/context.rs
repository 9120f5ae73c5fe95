//! The saved registers of a thread of a process.

use vstd::prelude::*;

verus! {

/// The registers saved when a thread is switched out.
#[derive(Clone, Debug)]
pub struct Context {
    /// return address
    pub pc: usize,
    /// kernel stack pointer
    pub sp: usize,
    /// saved register
    pub s: [usize; 12],
}

impl Context {
    /// A context that resumes at `ra` with stack pointer `sp`, saved
    /// registers zero.
    pub fn new(sp: usize, ra: usize) -> (r: Self)
        ensures
            r.pc == ra,
            r.sp == sp,
            r.s@ == Seq::new(12, |i: int| 0usize),
    {
        let r = Self { pc: ra, sp, s: [0; 12] };
        assert(r.s@ =~= Seq::new(12, |i: int| 0usize));
        r
    }

    /// A context with every register zero.
    pub fn empty() -> (r: Self)
        ensures
            r.pc == 0,
            r.sp == 0,
            r.s@ == Seq::new(12, |i: int| 0usize),
    {
        let r = Self { pc: 0, sp: 0, s: [0; 12] };
        assert(r.s@ =~= Seq::new(12, |i: int| 0usize));
        r
    }
}

} // verus!

//! The registers saved when a coroutine is switched out.

use vstd::prelude::*;

verus! {

/// Return address, stack pointer and saved registers.
#[derive(Clone, Debug)]
pub struct Context {
    /// return address
    pub ra: usize,
    pub sp: usize,
    /// saved register
    pub s: [usize; 12],
}

impl Context {
    /// A context that returns to `ra` with stack pointer `sp`, saved
    /// registers zero.
    pub fn new(ra: usize, sp: usize) -> (r: Self)
        ensures
            r.ra == ra,
            r.sp == sp,
            r.s@ == Seq::new(12, |i: int| 0usize),
    {
        let r = Self { ra, sp, s: [0; 12] };
        assert(r.s@ =~= Seq::new(12, |i: int| 0usize));
        r
    }

    /// A context with every register zero.
    pub fn empty() -> (r: Self)
        ensures
            r.ra == 0,
            r.sp == 0,
            r.s@ == Seq::new(12, |i: int| 0usize),
    {
        let r = Self { ra: 0, sp: 0, s: [0; 12] };
        assert(r.s@ =~= Seq::new(12, |i: int| 0usize));
        r
    }
}

} // verus!

//! The registers saved when a thread enters the kernel.

use vstd::prelude::*;

verus! {

/// Register access that a platform provides on a saved context.
pub trait Lib {
    /// The intervene return value that `context` holds, in whichever
    /// register the platform keeps it.
    spec fn spec_iret(context: Context) -> usize;

    /// The intervene (system call) id that `context` holds.
    spec fn spec_iid(context: Context) -> usize;

    /// The intervene arguments that `context` holds.
    spec fn spec_iarg(context: Context) -> [usize; 3];

    /// intervene id
    fn iid(context: &Context) -> (r: usize)
        ensures
            r == Self::spec_iid(*context),
    ;

    /// intervene return
    fn iret(context: &Context) -> (r: usize)
        ensures
            r == Self::spec_iret(*context),
    ;

    /// Sets the intervene return value.
    fn iret_set(context: &mut Context, value: usize)
        ensures
            Self::spec_iret(*final(context)) == value,
    ;

    /// intervene argument
    fn iarg(context: &Context) -> (r: [usize; 3])
        ensures
            r == Self::spec_iarg(*context),
    ;

    fn sp_set(context: &mut Context, value: usize);
}

/// Data registers, status and program counter.
#[derive(Clone, Debug)]
pub struct Context {
    pub data_reg: [usize; 32],
    pub status: usize,
    pub pc: usize,
}

impl Context {
    /// A context that resumes at `entry` with the given status, data
    /// registers zero.
    pub fn new(status: usize, entry: usize) -> (r: Self)
        ensures
            r.data_reg@ == Seq::new(32, |i: int| 0usize),
            r.status == status,
            r.pc == entry,
    {
        let r = Self { data_reg: [0; 32], status, pc: entry };
        assert(r.data_reg@ =~= Seq::new(32, |i: int| 0usize));
        r
    }

    /// A context with every register zero.
    pub fn empty() -> (r: Self)
        ensures
            r.data_reg@ == Seq::new(32, |i: int| 0usize),
            r.status == 0,
            r.pc == 0,
    {
        let r = Self { data_reg: [0; 32], status: 0, pc: 0 };
        assert(r.data_reg@ =~= Seq::new(32, |i: int| 0usize));
        r
    }
}

} // verus!

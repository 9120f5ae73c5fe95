//! The CPU's data registers.

use vstd::prelude::*;

verus! {

/// Data registers as an intervene sees them.
pub trait DataReg: Sized {
    fn empty() -> Self;

    /// intervene id
    fn iid(&self) -> usize;

    /// intervene return
    fn iret(&self) -> usize;

    /// Sets the intervene return value.
    fn iret_set(&mut self, value: usize);

    /// intervene argument
    fn iarg(&self) -> [usize; 3];

    fn sp_set(&mut self, value: usize);
}

/// The 32 data registers.
#[derive(Clone, Copy)]
pub struct ModelDataReg(pub [usize; 32]);

} // verus!

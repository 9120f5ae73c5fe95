//! Memory layout of programs: segments and address spaces.

pub mod address_space;
pub mod elf;

use vstd::prelude::*;
use crate::memory::Flag;

verus! {

/// A range of pages, both ends included, with the flags they are mapped
/// with.
#[derive(Clone, Copy)]
pub struct Segment {
    pub range: (usize, usize),
    pub flag: Flag,
}

impl View for Segment {
    type V = ((usize, usize), u8);

    open spec fn view(&self) -> ((usize, usize), u8) {
        (self.range, self.flag@)
    }
}

/// Start-up steps that a platform provides.
pub trait Runtime {
    fn init();

    fn clear_bss();
}

} // verus!

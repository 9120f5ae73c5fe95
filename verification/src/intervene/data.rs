//! The data page of an intervene: the saved context and what the kernel
//! needs to take over.

use vstd::prelude::*;
use crate::concurrency::thread::context::Context;

verus! {

/// The saved context and the kernel's information.
pub struct Data {
    /// context
    pub cx: Context,
    /// kernel information
    pub ki: KernelInfo,
}

/// What the kernel needs to take over an intervene.
pub struct KernelInfo {
    /// The kernel's address translation.
    pub addr_trans: usize,
    /// kernel stack pointer
    pub sp: usize,
    /// the address of service routine
    pub service: usize,
}

} // verus!

//! Definitions shared by VirtIO drivers.

use vstd::prelude::*;

verus! {

/// The page size in bytes supported by the drivers (4 KiB).
pub const PAGE_SIZE: usize = 0x1000;

/// The error type of VirtIO drivers.
#[derive(Copy, Clone, Debug, Eq, PartialEq, Structural)]
pub enum Error {
    /// The buffer is too small.
    BufferTooSmall,
    /// The device is not ready.
    NotReady,
    /// The queue is already in use.
    AlreadyUsed,
    /// Invalid parameter.
    InvalidParam,
    /// Failed to alloc DMA memory.
    DmaError,
    /// I/O Error
    IoError,
}

/// Align `size` up to a page: the smallest multiple of `PAGE_SIZE` that is
/// at least `size`.
pub fn align_up(size: usize) -> (r: usize)
    requires
        size + PAGE_SIZE - 1 <= usize::MAX,
    ensures
        r % PAGE_SIZE == 0,
        size <= r < size + PAGE_SIZE,
{
    let s = size + (PAGE_SIZE - 1);
    let r = s & !(PAGE_SIZE - 1);
    assert(r % 0x1000 == 0 && s - 0xfff <= r && r <= s) by (bit_vector)
        requires
            r == s & !0xfffusize,
            s >= 0xfff,
    ;
    r
}

/// The number of pages required to store `size` bytes, rounded up to a
/// whole number of pages.
pub fn pages(size: usize) -> (r: usize)
    requires
        size + PAGE_SIZE - 1 <= usize::MAX,
    ensures
        r == (size + PAGE_SIZE - 1) / (PAGE_SIZE as int),
        r * PAGE_SIZE >= size,
        r * PAGE_SIZE < size + PAGE_SIZE,
{
    let r = (size + (PAGE_SIZE - 1)) / PAGE_SIZE;
    assert(r * 0x1000 >= size && r * 0x1000 < size + 0x1000) by (nonlinear_arith)
        requires
            r == (size + 0xfff) / 0x1000,
    ;
    r
}

} // verus!

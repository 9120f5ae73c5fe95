//! Peripheral devices.

pub mod instance;
pub mod plic;
pub mod virtio;

use vstd::prelude::*;

verus! {

/// Exception handling that a platform provides.
pub trait Lib {
    /// Handle exception.
    fn handle();

    fn init();
}

/// A block device, read and written a block at a time.
pub trait Block: Sized {
    /// The device `before` read the block at `address` as `data`, and is
    /// `after` then.
    spec fn spec_read(before: Self, after: Self, address: usize, data: Seq<u8>) -> bool;

    /// The device `before` wrote `data` to the block at `address`, and is
    /// `after` then.
    spec fn spec_write(before: Self, after: Self, address: usize, data: Seq<u8>) -> bool;

    /// Reads the block at `address` into `cache`, which keeps its length.
    fn read(&mut self, address: usize, cache: &mut [u8])
        ensures
            final(cache)@.len() == old(cache)@.len(),
            Self::spec_read(*old(self), *final(self), address, final(cache)@),
    ;

    /// Writes `cache` to the block at `address`.
    fn write(&mut self, address: usize, cache: &[u8])
        ensures
            Self::spec_write(*old(self), *final(self), address, cache@),
    ;
}

/// A character device.
pub trait Character {
    fn read(&mut self) -> u8;

    fn write(&mut self, char: u8);
}

pub trait Network {

}

pub trait Bus {

}

} // verus!

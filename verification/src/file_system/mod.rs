//! Files, their open flags, and the bitmaps that track free blocks.

pub mod bitmap;
pub mod file;

use vstd::prelude::*;

verus! {

/// Flags that a file is opened with.
#[derive(Clone, Copy, PartialEq, Eq, Structural, Debug)]
pub struct Flag {
    bits: u32,
}

impl View for Flag {
    type V = u32;

    closed spec fn view(&self) -> u32 {
        self.bits
    }
}

impl Flag {
    /// Opened for reading only: no bit set.
    #[allow(non_snake_case)]
    pub fn READ() -> (r: Flag)
        ensures
            r@ == 0,
    {
        Flag { bits: 0 }
    }

    /// Opened for writing only.
    #[allow(non_snake_case)]
    pub fn WRITE() -> (r: Flag)
        ensures
            r@ == 1,
    {
        Flag { bits: 1 }
    }

    /// Opened for reading and writing.
    #[allow(non_snake_case)]
    pub fn R_W() -> (r: Flag)
        ensures
            r@ == 2,
    {
        Flag { bits: 2 }
    }

    /// Created when it does not exist.
    #[allow(non_snake_case)]
    pub fn CREATE() -> (r: Flag)
        ensures
            r@ == 0x200,
    {
        Flag { bits: 0x200 }
    }

    /// Truncated to length zero.
    #[allow(non_snake_case)]
    pub fn TRUNC() -> (r: Flag)
        ensures
            r@ == 0x400,
    {
        Flag { bits: 0x400 }
    }

    /// The flag with the given bits, keeping only the bits that name a flag.
    pub fn from_bits_truncate(bits: u32) -> (r: Flag)
        ensures
            r@ == bits & 0x603,
    {
        Flag { bits: bits & 0x603 }
    }

    /// The raw bits.
    pub fn bits(&self) -> (r: u32)
        ensures
            r == self@,
    {
        self.bits
    }

    /// Both flags' bits.
    pub fn union(self, other: Flag) -> (r: Flag)
        ensures
            r@ == self@ | other@,
    {
        Flag { bits: self.bits | other.bits }
    }

    /// Every bit of `other` is set in `self`.
    pub fn contains(&self, other: Flag) -> (r: bool)
        ensures
            r == (self@ & other@ == other@),
    {
        self.bits & other.bits == other.bits
    }

    /// No bit is set.
    pub fn is_empty(&self) -> (r: bool)
        ensures
            r == (self@ == 0),
    {
        self.bits == 0
    }

    /// Readable: the write-only bit is clear. Other combinations are not
    /// checked for validity.
    pub fn read(&self) -> (r: bool)
        ensures
            r == (self@ & 1 != 1),
    {
        if self.contains(Flag::WRITE()) {
            false
        } else {
            true
        }
    }

    /// Writable: some bit is set. Other combinations are not checked for
    /// validity.
    pub fn write(&self) -> (r: bool)
        ensures
            r == (self@ != 0),
    {
        if self.is_empty() {
            false
        } else {
            true
        }
    }
}

/// What opening a file by name does, given whether a file of that name
/// is found.
#[derive(Clone, Copy, PartialEq, Eq, Structural, Debug)]
pub enum OpenAction {
    /// Open the existing file as it is.
    Open,
    /// Empty the existing file, then open it.
    ClearAndOpen,
    /// Create the file, then open it.
    Create,
    /// Fail: there is no such file.
    NotFound,
}

/// Decides how to open a file: with `CREATE`, an existing file is emptied
/// and a missing one created; without it, an existing file is emptied when
/// `TRUNC` is set and a missing one is not found.
pub fn open_action(flag: Flag, found: bool) -> (r: OpenAction)
    ensures
        r == if flag@ & 0x200 == 0x200 {
            if found {
                OpenAction::ClearAndOpen
            } else {
                OpenAction::Create
            }
        } else if found {
            if flag@ & 0x400 == 0x400 {
                OpenAction::ClearAndOpen
            } else {
                OpenAction::Open
            }
        } else {
            OpenAction::NotFound
        },
{
    if flag.contains(Flag::CREATE()) {
        if found {
            OpenAction::ClearAndOpen
        } else {
            OpenAction::Create
        }
    } else {
        if found {
            if flag.contains(Flag::TRUNC()) {
                OpenAction::ClearAndOpen
            } else {
                OpenAction::Open
            }
        } else {
            OpenAction::NotFound
        }
    }
}

} // verus!

//! Page-table entries.

use vstd::prelude::*;
use crate::memory::Flag;

verus! {

/// How a platform packs a frame number and flags into an entry.
pub trait Lib {
    fn new(frame_num: usize, page_flag: Flag) -> Entry;

    fn frame_number(entry: &Entry) -> usize;

    fn flag(entry: &Entry) -> Flag;

    fn flag_set(entry: &mut Entry, page_flag: Flag);
}

/// A page-table entry: a frame number and flags packed in one word.
#[derive(Clone, Copy)]
pub struct Entry(usize);

impl View for Entry {
    type V = usize;

    closed spec fn view(&self) -> usize {
        self.0
    }
}

impl Entry {
    /// The raw word.
    pub fn bits(&self) -> (r: usize)
        ensures
            r == self@,
    {
        self.0
    }

    /// The entry whose raw word is `bits`.
    pub fn from_bits(bits: usize) -> (r: Self)
        ensures
            r@ == bits,
    {
        Self(bits)
    }

    /// Replaces the raw word.
    pub fn bits_set(&mut self, bits: usize)
        ensures
            final(self)@ == bits,
    {
        self.0 = bits
    }
}

} // verus!

//! A bitmap over a byte vector: bit `i` is bit `i % 8` of byte `i / 8`.

use vstd::prelude::*;

verus! {

/// Whether bit `order` of `bytes` is set.
pub open spec fn bit_is_set(bytes: Seq<u8>, order: int) -> bool {
    bytes[order / 8] & (1u8 << ((order % 8) as u8)) != 0
}

/// The number of orders that `allocate` searches: every bit, but no
/// further than the orders a `u32` can name.
pub open spec fn searchable_bits(bytes: Seq<u8>) -> int {
    if 8 * bytes.len() <= 0x1_0000_0000 {
        8 * bytes.len() as int
    } else {
        0x1_0000_0000
    }
}

/// A bitmap stored in bytes, least significant bit first.
pub struct BitMap(pub Vec<u8>);

impl View for BitMap {
    type V = Seq<bool>;

    open spec fn view(&self) -> Seq<bool> {
        Seq::new((8 * self.0@.len()) as nat, |i: int| bit_is_set(self.0@, i))
    }
}

proof fn lemma_byte_bits(b: u8, k: u8, j: u8)
    requires
        k < 8,
        j < 8,
    ensures
        (b | (1u8 << k)) & (1u8 << j) != 0 <==> (j == k || b & (1u8 << j) != 0),
        (b & !(1u8 << k)) & (1u8 << j) != 0 <==> (j != k && b & (1u8 << j) != 0),
{
    assert((b | (1u8 << k)) & (1u8 << j) != 0 <==> (j == k || b & (1u8 << j) != 0)) by (bit_vector)
        requires
            k < 8,
            j < 8,
    ;
    assert((b & !(1u8 << k)) & (1u8 << j) != 0 <==> (j != k && b & (1u8 << j) != 0)) by (bit_vector)
        requires
            k < 8,
            j < 8,
    ;
}

impl BitMap {
    /// Sets bit `order` to `value`; `Err` when the bitmap has no such bit.
    pub fn set(&mut self, order: u32, value: bool) -> (r: Result<(), ()>)
        ensures
            r is Err <==> order >= old(self)@.len(),
            r is Ok ==> final(self)@ == old(self)@.update(order as int, value),
            r is Err ==> final(self)@ == old(self)@,
            final(self).0@.len() == old(self).0@.len(),
    {
        let byte_index = (order / 8) as usize;

        if byte_index >= self.0.len() {
            return Err(());
        }

        let bit_index = (order % 8) as u8;
        let old_byte = self.0[byte_index];
        let new_byte = if value {
            old_byte | (1u8 << bit_index)
        } else {
            old_byte & !(1u8 << bit_index)
        };
        let ghost before = self.0@;
        self.0.set(byte_index, new_byte);

        proof {
            assert forall|i: int| 0 <= i < 8 * before.len() implies bit_is_set(self.0@, i) == (if i
                == order as int {
                value
            } else {
                bit_is_set(before, i)
            }) by {
                if i / 8 == byte_index as int {
                    lemma_byte_bits(old_byte, bit_index, (i % 8) as u8);
                }
            }
            assert(self@ =~= old(self)@.update(order as int, value));
        }
        Ok(())
    }

    /// Whether bit `order` is set; `Err` when the bitmap has no such bit.
    pub fn test(&self, order: u32) -> (r: Result<bool, ()>)
        ensures
            r is Err <==> order >= self@.len(),
            r is Ok ==> r == Ok::<bool, ()>(self@[order as int]),
    {
        let byte_index = (order / 8) as usize;

        if byte_index >= self.0.len() {
            return Err(());
        }

        let bit_index = (order % 8) as u8;

        Ok((self.0[byte_index] & (1u8 << bit_index)) != 0)
    }

    /// The lowest clear bit; `Err` when every bit that a `u32` can name
    /// is set.
    pub fn allocate(&self) -> (r: Result<u32, ()>)
        requires
            8 * self.0@.len() <= usize::MAX,
        ensures
            r matches Ok(i) ==> i < 8 * self.0@.len() && !self@[i as int] && forall|j: int|
                0 <= j < i ==> #[trigger] self@[j],
            r is Err ==> forall|j: int|
                0 <= j < 8 * self.0@.len() && j < 0x1_0000_0000 ==> #[trigger] self@[j],
    {
        let n = 8 * self.0.len();
        let mut i: usize = 0;
        while i < n
            invariant
                n == 8 * self.0@.len(),
                0 <= i <= n,
                forall|j: int| 0 <= j < i && j < 0x1_0000_0000 ==> #[trigger] self@[j],
            decreases n - i,
        {
            if let Ok(false) = self.test(i as u32) {
                return Ok(i as u32);
            }
            i += 1;
        }
        Err(())
    }
}

} // verus!

verus! {

/// `allocate` finds a clear bit whenever there is one among the first
/// `2^32` bits: its result is clear, no lower bit is, and it is no higher
/// than any clear bit; it reports the bitmap full only when every bit below
/// `8 * len` (and below `2^32`) is set.
pub proof fn lemma_allocate_lowest_clear(bytes: Seq<u8>, r: Result<u32, ()>, j: int)
    requires
        r matches Ok(i) ==> i < 8 * bytes.len() && !bit_is_set(bytes, i as int) && forall|k: int|
            0 <= k < i ==> #[trigger] bit_is_set(bytes, k),
        r is Err ==> forall|k: int|
            0 <= k < 8 * bytes.len() && k < 0x1_0000_0000 ==> #[trigger] bit_is_set(bytes, k),
        0 <= j < 8 * bytes.len(),
        j < 0x1_0000_0000,
        !bit_is_set(bytes, j),
    ensures
        r matches Ok(i) && i <= j && !bit_is_set(bytes, i as int),
{
    if let Ok(i) = r {
        if i > j {
            assert(bit_is_set(bytes, j));
        }
    }
}

/// A bit that is set reads back as set to the value written, and every
/// other bit keeps its value.
pub proof fn lemma_test_after_set(before: Seq<bool>, after: Seq<bool>, order: int, value: bool, other: int)
    requires
        0 <= order < before.len(),
        0 <= other < before.len(),
        after == before.update(order, value),
    ensures
        after[order] == value,
        other != order ==> after[other] == before[other],
        after.len() == before.len(),
{
}

} // verus!

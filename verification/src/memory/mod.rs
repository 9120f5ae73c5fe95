//! Page flags and the split of an address into page number and offset.

pub mod cache;
pub mod page;

use vstd::prelude::*;
use vstd::std_specs::bits::u64_trailing_zeros;
use vstd::std_specs::bits::axiom_u64_trailing_zeros;

verus! {

/// The flags of a page-table entry, one bit each.
#[derive(Clone, Copy, PartialEq, Eq, Structural, Debug)]
pub struct Flag {
    bits: u8,
}

impl View for Flag {
    type V = u8;

    closed spec fn view(&self) -> u8 {
        self.bits
    }
}

impl Flag {
    /// The page is valid.
    #[allow(non_snake_case)]
    pub fn V() -> (r: Flag)
        ensures
            r@ == 1,
    {
        Flag { bits: 1 }
    }

    /// The page may be read.
    #[allow(non_snake_case)]
    pub fn R() -> (r: Flag)
        ensures
            r@ == 2,
    {
        Flag { bits: 2 }
    }

    /// The page may be written.
    #[allow(non_snake_case)]
    pub fn W() -> (r: Flag)
        ensures
            r@ == 4,
    {
        Flag { bits: 4 }
    }

    /// Instructions may be fetched from the page.
    #[allow(non_snake_case)]
    pub fn X() -> (r: Flag)
        ensures
            r@ == 8,
    {
        Flag { bits: 8 }
    }

    /// User programs may access the page.
    #[allow(non_snake_case)]
    pub fn U() -> (r: Flag)
        ensures
            r@ == 16,
    {
        Flag { bits: 16 }
    }

    /// The mapping is global.
    #[allow(non_snake_case)]
    pub fn G() -> (r: Flag)
        ensures
            r@ == 32,
    {
        Flag { bits: 32 }
    }

    /// The page has been accessed.
    #[allow(non_snake_case)]
    pub fn A() -> (r: Flag)
        ensures
            r@ == 64,
    {
        Flag { bits: 64 }
    }

    /// The page has been written to.
    #[allow(non_snake_case)]
    pub fn D() -> (r: Flag)
        ensures
            r@ == 128,
    {
        Flag { bits: 128 }
    }

    /// No flag.
    pub fn empty() -> (r: Flag)
        ensures
            r@ == 0,
    {
        Flag { bits: 0 }
    }

    /// The flags with the given bits; every bit of a `u8` names a flag, so
    /// this never fails.
    pub fn from_bits(bits: u8) -> (r: Option<Flag>)
        ensures
            r matches Some(f) && f@ == bits,
    {
        Some(Flag { bits })
    }

    /// The raw bits.
    pub fn bits(&self) -> (r: u8)
        ensures
            r == self@,
    {
        self.bits
    }

    /// The flags of both.
    pub fn union(self, other: Flag) -> (r: Flag)
        ensures
            r@ == self@ | other@,
    {
        Flag { bits: self.bits | other.bits }
    }

    /// Every flag of `other` is in `self`.
    pub fn contains(&self, other: Flag) -> (r: bool)
        ensures
            r == (self@ & other@ == other@),
    {
        self.bits & other.bits == other.bits
    }

    /// The valid flag is set.
    pub fn is_valid(&self) -> (r: bool)
        ensures
            r == (self@ & 1 != 0),
    {
        (self.bits & 1) != 0
    }
}

/// The shift that moves the lowest set bit of `mask` to bit 0.
pub open spec fn mask_shift(mask: u64) -> u32 {
    u64_trailing_zeros(mask)
}

/// The bits of `address` under `mask`, moved down by `mask`'s shift.
pub open spec fn masked_field(address: usize, mask: u64) -> usize {
    (((address as u64) & mask) >> mask_shift(mask)) as usize
}

/// A non-zero mask's shift is below 64.
pub proof fn lemma_mask_shift_bound(mask: u64)
    requires
        mask != 0,
    ensures
        mask_shift(mask) < 64,
{
    broadcast use axiom_u64_trailing_zeros;

}

/// Masking a value never makes it larger.
proof fn lemma_and_le(x: u64, m: u64)
    ensures
        x & m <= x,
{
    assert(x & m <= x) by (bit_vector);
}

/// Moving a value right never makes it larger.
proof fn lemma_shift_right_le(x: u64, s: u64)
    requires
        s < 64,
    ensures
        x >> s <= x,
{
    assert(x >> s <= x) by (bit_vector);
}

/// The number of trailing zero bits of `mask`.
fn mask_trailing_zeros(mask: u64) -> (r: u32)
    ensures
        r == mask_shift(mask),
{
    mask.trailing_zeros()
}

/// An address made of a page number and an offset within the page, picked
/// out by two masks. Nothing checks that an address is valid.
pub struct ModelAddress<const NUMBER_MASK: u64, const OFFSET_MASK: u64>;

/// The page-number bits of an address of a 4 KiB page.
pub const PAGE_NUMBER_MASK: u64 = 0xffff_ffff_ffff_f000;

/// The offset bits of an address of a 4 KiB page.
pub const PAGE_OFFSET_MASK: u64 = 0xfff;

/// Addresses of 4 KiB pages.
pub type Address = ModelAddress<0xffff_ffff_ffff_f000, 0xfff>;

/// The shifts of the page masks: page numbers start at bit 12, offsets at
/// bit 0.
pub proof fn lemma_page_mask_shifts()
    ensures
        mask_shift(PAGE_NUMBER_MASK) == 12,
        mask_shift(PAGE_OFFSET_MASK) == 0,
{
    broadcast use axiom_u64_trailing_zeros;

    let m = PAGE_NUMBER_MASK;
    assert(forall|t: u64| t < 12 ==> (0xffff_ffff_ffff_f000u64 >> t) & 1u64 == 0u64) by (bit_vector);
    assert((0xffff_ffff_ffff_f000u64 >> 12u64) & 1u64 == 1u64) by (bit_vector);
    let t = u64_trailing_zeros(m) as u64;
    if t < 12 {
        assert((m >> t) & 1u64 == 0u64);
    }
    if t > 12 {
        assert((m >> 12u64) & 1u64 == 0u64);
    }
    assert((0xfffu64 >> 0u64) & 1u64 == 1u64) by (bit_vector);
}

/// An address of a 4 KiB page is its page number moved up by 12 bits plus
/// its offset; the page number is the address moved down by 12 bits and
/// the offset its low 12 bits.
pub proof fn lemma_page_address_split(address: usize)
    ensures
        masked_field(address, PAGE_NUMBER_MASK) == address >> 12usize,
        masked_field(address, PAGE_OFFSET_MASK) == address & 0xfff,
        masked_field(address, PAGE_OFFSET_MASK) < 4096,
        (masked_field(address, PAGE_NUMBER_MASK) << mask_shift(PAGE_NUMBER_MASK)) + masked_field(
            address,
            PAGE_OFFSET_MASK,
        ) == address,
{
    lemma_page_mask_shifts();
    assert(((((address as u64) & 0xffff_ffff_ffff_f000u64) >> 12u32) as usize) == address >> 12usize) by (bit_vector);
    assert(((((address as u64) & 0xfffu64) >> 0u32) as usize) == address & 0xfffusize) by (bit_vector);
    assert(address & 0xfffusize < 4096) by (bit_vector);
    assert(((address >> 12usize) << 12u32) + (address & 0xfffusize) == address) by (bit_vector);
}

/// The page that starts at `number << 12` has number `number` and the
/// address has offset 0, for every page number that fits.
pub proof fn lemma_page_number_of_address(number: usize)
    requires
        (number << 12usize) >> 12usize == number,
    ensures
        masked_field(number << mask_shift(PAGE_NUMBER_MASK), PAGE_NUMBER_MASK) == number,
        masked_field(number << mask_shift(PAGE_NUMBER_MASK), PAGE_OFFSET_MASK) == 0,
{
    lemma_page_mask_shifts();
    assert(((((number << 12u32) as u64) & 0xffff_ffff_ffff_f000u64) >> 12u32) as usize == number)
        by (bit_vector)
        requires
            (number << 12usize) >> 12usize == number,
    ;
    assert(((((number << 12u32) as u64) & 0xfffu64) >> 0u32) as usize == 0usize) by (bit_vector);
}

/// With a 64-bit `usize`, the address of an address's page number plus
/// its offset is the address again, and every page number below `1 << 52`
/// is the number of the address its page starts at.
pub proof fn lemma_page_round_trip(address: usize, number: usize)
    requires
        usize::BITS == 64,
        number < 1usize << 52usize,
    ensures
        masked_field(address, PAGE_NUMBER_MASK) == address >> 12usize,
        masked_field(address, PAGE_OFFSET_MASK) == address & 0xfff,
        (masked_field(address, PAGE_NUMBER_MASK) << 12usize) + masked_field(address, PAGE_OFFSET_MASK)
            == address,
        masked_field(number << 12usize, PAGE_NUMBER_MASK) == number,
        masked_field(number << 12usize, PAGE_OFFSET_MASK) == 0,
{
    lemma_page_mask_shifts();
    lemma_page_address_split(address);
    assert((number << 12usize) >> 12usize == number) by (bit_vector)
        requires
            usize::BITS == 64,
            number < 1usize << 52usize,
    ;
    lemma_page_number_of_address(number);
}

/// The page that `ceil` names starts at or after the address, less than a
/// page after it.
pub proof fn lemma_ceil_page_start(address: usize, ceil: usize)
    requires
        ceil == if masked_field(address, PAGE_OFFSET_MASK) == 0 {
            masked_field(address, PAGE_NUMBER_MASK) as int
        } else {
            masked_field(address, PAGE_NUMBER_MASK) + 1
        },
        (ceil << 12usize) >> 12usize == ceil,
    ensures
        address <= (ceil as int) * 4096 < address + 4096,
{
    lemma_page_address_split(address);
    let n = address >> 12usize;
    let o = address & 0xfffusize;
    assert((n << 12u32) as int == n as int * 4096 && (n << 12u32) + o == address) by (bit_vector)
        requires
            n == address >> 12usize,
            o == address & 0xfffusize,
    ;
}

impl<const NUMBER_MASK: u64, const OFFSET_MASK: u64> ModelAddress<NUMBER_MASK, OFFSET_MASK> {
    /// The page number of `address`.
    pub fn number(address: usize) -> (r: usize)
        requires
            NUMBER_MASK != 0,
        ensures
            r == masked_field(address, NUMBER_MASK),
    {
        proof {
            lemma_mask_shift_bound(NUMBER_MASK);
            lemma_shift_right_le((address as u64) & NUMBER_MASK, mask_shift(NUMBER_MASK) as u64);
            lemma_and_le(address as u64, NUMBER_MASK);
        }
        (((address as u64) & NUMBER_MASK) >> mask_trailing_zeros(NUMBER_MASK)) as usize
    }

    /// The offset of `address` within its page.
    pub fn offset(address: usize) -> (r: usize)
        requires
            OFFSET_MASK != 0,
        ensures
            r == masked_field(address, OFFSET_MASK),
    {
        proof {
            lemma_mask_shift_bound(OFFSET_MASK);
            lemma_shift_right_le((address as u64) & OFFSET_MASK, mask_shift(OFFSET_MASK) as u64);
            lemma_and_le(address as u64, OFFSET_MASK);
        }
        (((address as u64) & OFFSET_MASK) >> mask_trailing_zeros(OFFSET_MASK)) as usize
    }

    /// The number of the first page that starts at or after `address`.
    pub fn ceil(address: usize) -> (r: usize)
        requires
            NUMBER_MASK != 0,
            OFFSET_MASK != 0,
            masked_field(address, OFFSET_MASK) != 0 ==> masked_field(address, NUMBER_MASK) < usize::MAX,
        ensures
            r == if masked_field(address, OFFSET_MASK) == 0 {
                masked_field(address, NUMBER_MASK) as int
            } else {
                masked_field(address, NUMBER_MASK) + 1
            },
    {
        if Self::offset(address) == 0 {
            Self::number(address)
        } else {
            Self::number(address) + 1
        }
    }

    /// The address where page `number` starts.
    pub fn address(number: usize) -> (r: usize)
        requires
            mask_shift(NUMBER_MASK) < usize::BITS,
        ensures
            r == number << mask_shift(NUMBER_MASK),
    {
        number << mask_trailing_zeros(NUMBER_MASK)
    }
}

} // verus!

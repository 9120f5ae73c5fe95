//! Address spaces.
//!
//! Kernel space, from high addresses down: the intervene text page, then
//! one intervene stack page per thread with a guard page between
//! neighbouring stacks. From low addresses up: text, read-only data, data,
//! static data and the frame area.
//!
//! User space: the segments of the program's ELF image at low addresses,
//! a guard page, then the user stacks upward by id, with a guard page
//! between neighbouring stacks.

use vstd::prelude::*;
use crate::memory::Address;
use crate::memory::Flag;
use crate::memory::PAGE_NUMBER_MASK;
use crate::memory::masked_field;
use crate::runtime::Segment;
use crate::runtime::elf::ElfHeader;
use crate::runtime::elf::ProgramHeader;
use crate::runtime::elf::elf_header;
use crate::runtime::elf::elf_program_header;
use crate::runtime::elf::SegmentType;
use crate::runtime::elf::ph_readable;
use crate::runtime::elf::read_elf_header;
use crate::runtime::elf::read_program_header;
use crate::runtime::elf::ElfImage;
use crate::runtime::elf::elf_image;
use crate::runtime::elf::header_aligned;

verus! {

/// The page number of the intervene text: the highest page number,
/// `(1 << 52) - 1` where `usize` has 64 bits.
pub const INTERVENE_TEXT: usize = usize::MAX >> 12;

/// The number of pages of a user stack beyond its first.
pub const USER_STACK_SIZE: usize = 2;

/// Flag bits: read and write.
pub open spec fn bits_rw() -> u8 {
    6
}

/// Flag bits: read and execute.
pub open spec fn bits_rx() -> u8 {
    10
}

/// Flag bits: read only.
pub open spec fn bits_r() -> u8 {
    2
}

/// The ELF readable bit of a program header's flags.
pub open spec fn elf_is_read(flags: u32) -> bool {
    flags & 0x4 == 0x4
}

/// The ELF writable bit of a program header's flags.
pub open spec fn elf_is_write(flags: u32) -> bool {
    flags & 0x2 == 0x2
}

/// The ELF executable bit of a program header's flags.
pub open spec fn elf_is_execute(flags: u32) -> bool {
    flags & 0x1 == 0x1
}

/// The page flags of a loaded ELF segment: user-accessible, plus read,
/// write and execute as the segment's flags say.
pub open spec fn elf_flag_bits(flags: u32) -> u8 {
    let b0: u8 = 16;
    let b1: u8 = if elf_is_read(flags) { b0 | 2 } else { b0 };
    let b2: u8 = if elf_is_write(flags) { b1 | 4 } else { b1 };
    if elf_is_execute(flags) { b2 | 8 } else { b2 }
}

/// The first and last address of a loaded segment, as the layout takes
/// them (the address size of the ELF file may exceed `usize`).
pub open spec fn load_start(p: ProgramHeader) -> int {
    (p.virtual_addr as usize) as int
}

pub open spec fn load_end(p: ProgramHeader) -> int {
    (p.virtual_addr as usize) + (p.mem_size as usize) - 1
}

/// A loaded segment can be laid out without overflow: its last address
/// and the end of its file data are representable.
pub open spec fn load_header_fits(p: ProgramHeader) -> bool {
    p.type_ is Load ==> {
        &&& 1 <= (p.virtual_addr as usize) + (p.mem_size as usize) <= usize::MAX
        &&& p.offset + p.file_size <= u64::MAX
    }
}

/// The segment of a loaded program header: the pages from its first to
/// its last address.
pub open spec fn load_segment(p: ProgramHeader) -> ((usize, usize), u8) {
    (
        (
            masked_field(load_start(p) as usize, PAGE_NUMBER_MASK),
            masked_field(load_end(p) as usize, PAGE_NUMBER_MASK),
        ),
        elf_flag_bits(p.flags),
    )
}

/// Where the file data of a loaded program header lies in the ELF image.
pub open spec fn load_data_range(p: ProgramHeader) -> (usize, usize) {
    (p.offset as usize, (p.offset + p.file_size) as usize)
}

/// The views of segments.
pub open spec fn segment_views(segs: Seq<Segment>) -> Seq<((usize, usize), u8)> {
    segs.map_values(|s: Segment| s@)
}

/// Read-write segments over the given ranges.
pub open spec fn rw_segments(ranges: Seq<(usize, usize)>) -> Seq<((usize, usize), u8)> {
    ranges.map_values(|m: (usize, usize)| (m, bits_rw()))
}

/// The segments of the given loaded program headers.
pub open spec fn load_segments(phs: Seq<ProgramHeader>) -> Seq<((usize, usize), u8)> {
    phs.map_values(|p: ProgramHeader| load_segment(p))
}

/// The file data ranges of the given loaded program headers.
pub open spec fn load_data_ranges(phs: Seq<ProgramHeader>) -> Seq<(usize, usize)> {
    phs.map_values(|p: ProgramHeader| load_data_range(p))
}

/// The program headers of type `LOAD`, in order.
pub open spec fn load_headers(phs: Seq<ProgramHeader>) -> Seq<ProgramHeader>
    decreases phs.len(),
{
    if phs.len() == 0 {
        Seq::empty()
    } else if phs.last().type_ is Load {
        load_headers(phs.drop_last()).push(phs.last())
    } else {
        load_headers(phs.drop_last())
    }
}

/// The stack base of a program: the last page of its last loaded segment,
/// or 0 when nothing is loaded.
pub open spec fn elf_stack_base(phs: Seq<ProgramHeader>) -> usize {
    let loads = load_headers(phs);
    if loads.len() == 0 {
        0
    } else {
        load_segment(loads.last()).0.1
    }
}

/// The address space of a program made from its ELF header and program
/// headers.
pub open spec fn elf_address_space(a: AddressSpace, header: ElfHeader, phs: Seq<ProgramHeader>) -> bool {
    &&& a.entry == header.entry_point as usize
    &&& segment_views(a.segement@) == load_segments(load_headers(phs))
    &&& a.stack_base == elf_stack_base(phs)
}

/// The empty address space: no segment, entry and stack base 0.
pub open spec fn empty_address_space(a: AddressSpace) -> bool {
    &&& a.entry == 0
    &&& a.segement@.len() == 0
    &&& a.stack_base == 0
}

/// The empty layout: the empty address space and no data.
pub open spec fn empty_layout(r: (AddressSpace, Vec<(usize, usize)>)) -> bool {
    &&& empty_address_space(r.0)
    &&& r.1@.len() == 0
}

/// The layout of a program made from its ELF header and program headers:
/// its address space and the file ranges of its loaded segments.
pub open spec fn elf_layout(
    r: (AddressSpace, Vec<(usize, usize)>),
    header: ElfHeader,
    phs: Seq<ProgramHeader>,
) -> bool {
    &&& elf_address_space(r.0, header, phs)
    &&& r.1@ == load_data_ranges(load_headers(phs))
}

/// The program headers that `xmas_elf` reads from `elf`, when it reads all
/// of them.
pub open spec fn elf_program_headers(elf: Seq<u8>, count: u16) -> Seq<ProgramHeader> {
    Seq::new(count as nat, |i: int| elf_program_header(elf, i as u16)->0)
}

/// `xmas_elf` reads the header and every program header of `elf`, and every
/// loaded segment can be laid out.
pub open spec fn elf_loadable(elf: Seq<u8>) -> bool {
    &&& elf_header(elf) is Some
    &&& forall|i: int|
        0 <= i < elf_header(elf)->0.ph_count ==> {
            &&& ph_readable(elf, elf_header(elf)->0, i as u16)
            &&& #[trigger] elf_program_header(elf, i as u16) is Some
            &&& load_header_fits(elf_program_header(elf, i as u16)->0)
        }
}

/// The flag bits that the layout combines.
proof fn lemma_flag_bits()
    ensures
        2u8 | 4u8 == 6u8,
        2u8 | 8u8 == 10u8,
{
    assert(2u8 | 4u8 == 6u8) by (bit_vector);
    assert(2u8 | 8u8 == 10u8) by (bit_vector);
}

proof fn lemma_load_headers_step(phs: Seq<ProgramHeader>, i: int)
    requires
        0 <= i < phs.len(),
    ensures
        load_headers(phs.take(i + 1)) == if phs[i].type_ is Load {
            load_headers(phs.take(i)).push(phs[i])
        } else {
            load_headers(phs.take(i))
        },
{
    assert(phs.take(i + 1).drop_last() =~= phs.take(i));
}

/// The static layout of an address space, and its dynamic segments.
#[derive(Clone)]
pub struct AddressSpace {
    /// Address of program entry.
    pub entry: usize,
    pub segement: Vec<Segment>,
    /// Page number of program end.
    pub stack_base: usize,
}

impl AddressSpace {
    /// An address space with no segment, entry or stack base 0.
    pub fn empty() -> (r: Self)
        ensures
            r.entry == 0,
            r.segement@.len() == 0,
            r.stack_base == 0,
    {
        Self { entry: 0, segement: Vec::new(), stack_base: 0 }
    }

    /// The kernel address space, mapped identically: each memory-mapped
    /// I/O range read-write, then text read-execute, read-only data read,
    /// and data, static data and the frame area read-write. User stacks
    /// start after the frame area.
    pub fn new_kernel(
        entry: usize,
        mmio: &[(usize, usize)],
        text: (usize, usize),
        read_only_data: (usize, usize),
        data: (usize, usize),
        static_data: (usize, usize),
        frame: (usize, usize),
    ) -> (r: Self)
        requires
            frame.1 < usize::MAX,
        ensures
            r.entry == entry,
            r.stack_base == frame.1 + 1,
            segment_views(r.segement@) == rw_segments(mmio@) + seq![
                (text, bits_rx()),
                (read_only_data, bits_r()),
                (data, bits_rw()),
                (static_data, bits_rw()),
                (frame, bits_rw()),
            ],
    {
        let mut segement: Vec<Segment> = Vec::new();
        proof {
            lemma_flag_bits();
        }

        let mut i: usize = 0;
        while i < mmio.len()
            invariant
                0 <= i <= mmio@.len(),
                segment_views(segement@) == rw_segments(mmio@.take(i as int)),
            decreases mmio@.len() - i,
        {
            let range = mmio[i];
            let ghost before = segement@;
            let segment = Segment { range, flag: Flag::R().union(Flag::W()) };
            segement.push(segment);
            proof {
                lemma_flag_bits();
                let prev = rw_segments(mmio@.take(i as int));
                assert(segment_views(before).len() == before.len());
                assert(before.len() == i);
                assert(segement@ == before.push(segment));
                assert forall|j: int| 0 <= j < i implies #[trigger] segement@[j]@ == prev[j] by {
                    assert(segement@[j] == before[j]);
                    assert(segment_views(before)[j] == before[j]@);
                    assert(segment_views(before)[j] == prev[j]);
                }
                assert(segment_views(segement@) =~= rw_segments(mmio@.take(i + 1)));
            }
            i += 1;
        }
        proof {
            assert(mmio@.take(mmio@.len() as int) =~= mmio@);
        }
        let ghost prefix = segment_views(segement@);

        segement.push(Segment { range: text, flag: Flag::R().union(Flag::X()) });
        segement.push(Segment { range: read_only_data, flag: Flag::R() });
        segement.push(Segment { range: data, flag: Flag::R().union(Flag::W()) });
        segement.push(Segment { range: static_data, flag: Flag::R().union(Flag::W()) });
        segement.push(Segment { range: frame, flag: Flag::R().union(Flag::W()) });

        proof {
            assert(segment_views(segement@) =~= prefix + seq![
                (text, bits_rx()),
                (read_only_data, bits_r()),
                (data, bits_rw()),
                (static_data, bits_rw()),
                (frame, bits_rw()),
            ]);
        }

        Self { entry, segement, stack_base: frame.1 + 1 }
    }

    /// The layout of a program, from its ELF header and its program
    /// headers: one user-accessible segment per `LOAD` header, with the
    /// range of its file data; the stack base is the last page of the last
    /// such segment.
    pub fn from_elf_headers(header: &ElfHeader, program_headers: &Vec<ProgramHeader>) -> (r: (
        Self,
        Vec<(usize, usize)>,
    ))
        requires
            forall|i: int|
                0 <= i < program_headers@.len() ==> load_header_fits(#[trigger] program_headers@[i]),
        ensures
            elf_layout(r, *header, program_headers@),
    {
        let entry = header.entry_point as usize;
        let mut stack_base: usize = 0;
        let mut data_offset: Vec<(usize, usize)> = Vec::new();
        let mut segement: Vec<Segment> = Vec::new();
        let ghost phs = program_headers@;

        let mut i: usize = 0;
        while i < program_headers.len()
            invariant
                phs == program_headers@,
                0 <= i <= phs.len(),
                PAGE_NUMBER_MASK != 0,
                forall|j: int| 0 <= j < phs.len() ==> load_header_fits(#[trigger] phs[j]),
                segment_views(segement@) == load_segments(load_headers(phs.take(i as int))),
                data_offset@ == load_data_ranges(load_headers(phs.take(i as int))),
                stack_base == elf_stack_base(phs.take(i as int)),
            decreases phs.len() - i,
        {
            let program_header = program_headers[i];
            proof {
                lemma_load_headers_step(phs, i as int);
                assert(load_header_fits(phs[i as int]));
            }
            if let SegmentType::Load = program_header.type_ {
                let start = program_header.virtual_addr as usize;
                let size = program_header.mem_size as usize;
                let end = start + size - 1;

                let range = (Address::number(start), Address::number(end));

                let ph_flags = program_header.flags;
                let mut flag = Flag::U();
                if ph_flags & 0x4 == 0x4 {
                    flag = flag.union(Flag::R());
                }
                if ph_flags & 0x2 == 0x2 {
                    flag = flag.union(Flag::W());
                }
                if ph_flags & 0x1 == 0x1 {
                    flag = flag.union(Flag::X());
                }

                let ghost seg_before = segement@;
                let ghost data_before = data_offset@;
                let segment = Segment { range, flag };
                assert(program_header == phs[i as int]);
                assert(start == load_start(phs[i as int]) as usize);
                assert(range.0 == load_segment(phs[i as int]).0.0);
                assert(range.1 == load_segment(phs[i as int]).0.1);
                assert(flag@ == load_segment(phs[i as int]).1);
                assert(segment@ == load_segment(phs[i as int]));
                segement.push(segment);
                let data_range = (
                    program_header.offset as usize,
                    (program_header.offset + program_header.file_size) as usize,
                );
                assert(data_range == load_data_range(phs[i as int]));
                data_offset.push(data_range);

                stack_base = range.1;
                proof {
                    let prev = load_headers(phs.take(i as int));
                    let next = load_headers(phs.take(i + 1));
                    assert(next == prev.push(phs[i as int]));
                    assert(segement@ == seg_before.push(segment));
                    assert(data_offset@ == data_before.push(data_range));
                    assert(segment_views(seg_before).len() == seg_before.len());
                    assert(load_segments(prev).len() == prev.len());
                    assert(seg_before.len() == prev.len());
                    assert(load_data_ranges(prev).len() == prev.len());
                    assert forall|j: int| 0 <= j < prev.len() implies #[trigger] segement@[j]@
                        == load_segment(next[j]) && data_offset@[j] == load_data_range(next[j]) by {
                        assert(next[j] == prev[j]);
                        assert(segement@[j] == seg_before[j]);
                        assert(data_offset@[j] == data_before[j]);
                        assert(segment_views(seg_before)[j] == seg_before[j]@);
                        assert(segment_views(seg_before)[j] == load_segments(prev)[j]);
                        assert(data_before[j] == load_data_ranges(prev)[j]);
                    }
                    assert(segment_views(segement@) =~= load_segments(next));
                    assert(data_offset@ =~= load_data_ranges(next));
                }
            }
            i += 1;
        }
        proof {
            assert(phs.take(phs.len() as int) =~= phs);
        }

        (Self { entry, segement, stack_base }, data_offset)
    }

    /// The layout of the program in the ELF image `elf` (see
    /// [`AddressSpace::from_elf_headers`]); the image must be one that
    /// `xmas_elf` reads whole and whose segments can be laid out. When
    /// `elf` does not start at an address aligned for the parser's header
    /// records (see [`ElfImage::is_aligned`]), the parser cannot read it in
    /// place, and the result is the empty layout.
    pub fn from_elf(elf: &[u8]) -> (r: (Self, Vec<(usize, usize)>))
        requires
            elf_loadable(elf@),
        ensures
            elf_layout(
                r,
                elf_header(elf@)->0,
                elf_program_headers(elf@, elf_header(elf@)->0.ph_count),
            ) || empty_layout(r),
    {
        let image = elf_image(elf);
        Self::layout_of(&image)
    }

    /// The layout of the program in the ELF image `image` when its address
    /// is aligned for the parser's header records (see
    /// [`ElfImage::is_aligned`]), else the empty layout; the image must be
    /// one that `xmas_elf` reads whole and whose segments can be laid out.
    pub fn layout_of(image: &ElfImage) -> (r: (Self, Vec<(usize, usize)>))
        requires
            elf_loadable(image.bytes()),
        ensures
            header_aligned(image.bytes(), image.spec_address()) ==> elf_layout(
                r,
                elf_header(image.bytes())->0,
                elf_program_headers(image.bytes(), elf_header(image.bytes())->0.ph_count),
            ),
            !header_aligned(image.bytes(), image.spec_address()) ==> empty_layout(r),
    {
        if !image.is_aligned() {
            return (Self::empty(), Vec::new());
        }
        Self::read_layout(image)
    }

    /// The layout of the program in an image whose header records the
    /// parser can read in place.
    fn read_layout(image: &ElfImage) -> (r: (Self, Vec<(usize, usize)>))
        requires
            elf_loadable(image.bytes()),
            header_aligned(image.bytes(), image.spec_address()),
        ensures
            elf_layout(
                r,
                elf_header(image.bytes())->0,
                elf_program_headers(image.bytes(), elf_header(image.bytes())->0.ph_count),
            ),
    {
        let ghost elf = image.bytes();
        let header = match read_elf_header(image) {
            Some(header) => header,
            None => {
                proof {
                    assert(false);
                }
                ElfHeader { is_64: true, entry_point: 0, ph_offset: 0, ph_entry_size: 0, ph_count: 0 }
            },
        };
        let ph_count = header.ph_count;
        let ghost expected = elf_program_headers(elf, ph_count);
        let mut program_headers: Vec<ProgramHeader> = Vec::new();
        let mut i: u16 = 0;
        while i < ph_count
            invariant
                elf == image.bytes(),
                header_aligned(elf, image.spec_address()),
                header == elf_header(elf)->0,
                ph_count == header.ph_count,
                elf_loadable(elf),
                expected == elf_program_headers(elf, ph_count),
                0 <= i <= ph_count,
                program_headers@ == expected.take(i as int),
            decreases ph_count - i,
        {
            proof {
                assert(elf_program_header(elf, (i as int) as u16) is Some);
            }
            let program_header = match read_program_header(image, i) {
                Some(p) => p,
                None => {
                    proof {
                        assert(elf_program_header(elf, i as u16) is Some);
                        assert(false);
                    }
                    return (Self::empty(), Vec::new());
                },
            };
            program_headers.push(program_header);
            proof {
                assert(program_headers@ =~= expected.take(i + 1));
            }
            i += 1;
        }
        proof {
            assert(program_headers@ =~= expected);
            assert forall|j: int| 0 <= j < program_headers@.len() implies load_header_fits(
                #[trigger] program_headers@[j],
            ) by {
                assert(elf_program_header(elf, j as u16) is Some);
            }
        }
        Self::from_elf_headers(&header, &program_headers)
    }

    /// The layout of the program in `elf`, or `None` when `xmas_elf` refuses
    /// the image or one of its program headers, a program header cannot be
    /// read whole, a loaded segment cannot be laid out, or `elf` does not
    /// start at an address aligned for the parser's header records.
    pub fn try_from_elf(elf: &[u8]) -> (r: Option<(Self, Vec<(usize, usize)>)>)
        ensures
            !elf_loadable(elf@) ==> r is None,
            r matches Some(v) ==> elf_loadable(elf@) && elf_layout(
                v,
                elf_header(elf@)->0,
                elf_program_headers(elf@, elf_header(elf@)->0.ph_count),
            ),
    {
        let image = elf_image(elf);
        Self::try_layout_of(&image)
    }

    /// The layout of the program in `image` (see [`AddressSpace::layout_of`]),
    /// or `None` when the image is not loadable or its address is not
    /// aligned for the parser's header records.
    pub fn try_layout_of(image: &ElfImage) -> (r: Option<(Self, Vec<(usize, usize)>)>)
        ensures
            header_aligned(image.bytes(), image.spec_address()) ==> (r is Some <==> elf_loadable(
                image.bytes(),
            )),
            !header_aligned(image.bytes(), image.spec_address()) ==> r is None,
            r matches Some(v) ==> elf_loadable(image.bytes()) && elf_layout(
                v,
                elf_header(image.bytes())->0,
                elf_program_headers(image.bytes(), elf_header(image.bytes())->0.ph_count),
            ),
    {
        if !image.is_aligned() {
            return None;
        }
        let ghost b = image.bytes();
        let header = match read_elf_header(image) {
            Some(header) => header,
            None => {
                return None;
            },
        };
        let mut i: u16 = 0;
        while i < header.ph_count
            invariant
                b == image.bytes(),
                header_aligned(b, image.spec_address()),
                elf_header(b) == Some(header),
                0 <= i <= header.ph_count,
                forall|j: int|
                    0 <= j < i ==> {
                        &&& ph_readable(b, header, j as u16)
                        &&& #[trigger] elf_program_header(b, j as u16) is Some
                        &&& load_header_fits(elf_program_header(b, j as u16)->0)
                    },
            decreases header.ph_count - i,
        {
            if !Self::program_header_readable(image.as_bytes(), &header, i) {
                proof {
                    assert((i as int) as u16 == i);
                    assert(!ph_readable(b, elf_header(b)->0, (i as int) as u16));
                }
                return None;
            }
            let read = read_program_header(image, i);
            proof {
                assert((i as int) as u16 == i);
            }
            match read {
                Some(p) => {
                    if let SegmentType::Load = p.type_ {
                        let start = p.virtual_addr as usize;
                        let size = p.mem_size as usize;
                        if start as u128 + size as u128 == 0 || start as u128 + size as u128
                            > usize::MAX as u128 {
                            proof {
                                assert(!load_header_fits(elf_program_header(b, (i as int) as u16)->0));
                            }
                            return None;
                        }
                        if p.offset as u128 + p.file_size as u128 > u64::MAX as u128 {
                            proof {
                                assert(!load_header_fits(elf_program_header(b, (i as int) as u16)->0));
                            }
                            return None;
                        }
                    }
                },
                None => {
                    proof {
                        assert(!(elf_program_header(b, (i as int) as u16) is Some));
                    }
                    return None;
                },
            }
            i += 1;
        }
        Some(Self::read_layout(image))
    }

    /// Whether entry `index` of the program header table of `header` can be
    /// read from `elf` (see [`ph_readable`]).
    fn program_header_readable(elf: &[u8], header: &ElfHeader, index: u16) -> (r: bool)
        ensures
            r == ph_readable(elf@, *header, index),
    {
        if !(index < header.ph_count && header.ph_offset > 0 && header.ph_entry_size > 0) {
            return true;
        }
        let i: u128 = index as u128;
        let n: u128 = header.ph_entry_size as u128;
        assert(i * n <= 0xffff * 0xffff) by (nonlinear_arith)
            requires
                i <= 0xffff,
                n <= 0xffff,
        ;
        let start: u128 = header.ph_offset as u128 + i * n;
        let size: u128 = header.ph_entry_size as u128;
        let (least, align): (u128, u128) = if header.is_64 {
            (56, 8)
        } else {
            (32, 4)
        };
        start + size <= elf.len() as u128 && size >= least && start % align == 0
    }

    /// The intervene stack of thread `tid`: one read-write page, with a
    /// guard page between the stacks of neighbouring threads.
    pub fn istack(tid: usize) -> (r: Segment)
        requires
            2 * tid + 1 <= INTERVENE_TEXT,
        ensures
            r@ == istack_view(tid),
    {
        proof {
            lemma_flag_bits();
        }
        let page_number = INTERVENE_TEXT - 1 - tid * 2;

        Segment { range: (page_number, page_number), flag: Flag::R().union(Flag::W()) }
    }

    /// The intervene data page of thread `tid`, read-write: the same page
    /// as its intervene stack.
    pub fn idata(tid: usize) -> (r: Segment)
        requires
            2 * tid + 1 <= INTERVENE_TEXT,
        ensures
            r@ == idata_view(tid),
    {
        proof {
            lemma_flag_bits();
        }
        let page_number = INTERVENE_TEXT - 1 - tid * 2;

        Segment { range: (page_number, page_number), flag: Flag::R().union(Flag::W()) }
    }

    /// The intervene text page, read-execute.
    pub fn itext() -> (r: Segment)
        ensures
            r@ == ((INTERVENE_TEXT, INTERVENE_TEXT), bits_rx()),
    {
        proof {
            lemma_flag_bits();
        }
        Segment { range: (INTERVENE_TEXT, INTERVENE_TEXT), flag: Flag::R().union(Flag::X()) }
    }

    /// The user stack of coroutine `cid`, read-write: pages `start` to
    /// `start + USER_STACK_SIZE` (see [`AddressSpace::stack_of_size`]).
    pub fn stack(&self, cid: usize) -> (r: Segment)
        requires
            stack_start(self.stack_base, cid, USER_STACK_SIZE) + USER_STACK_SIZE <= usize::MAX,
        ensures
            r@ == stack_segment(self.stack_base, cid, USER_STACK_SIZE),
    {
        self.stack_of_size(cid, USER_STACK_SIZE)
    }

    /// The user stack of coroutine `cid` for stacks of `size` pages beyond
    /// their first, read-write. Stacks lie upward by id from the page after
    /// a guard page that follows the program's end (`stack_base`), with a
    /// guard page between neighbouring stacks.
    pub fn stack_of_size(&self, cid: usize, size: usize) -> (r: Segment)
        requires
            stack_start(self.stack_base, cid, size) + size <= usize::MAX,
        ensures
            r@ == stack_segment(self.stack_base, cid, size),
    {
        proof {
            lemma_flag_bits();
            assert(cid * (size + 2) <= stack_start(self.stack_base, cid, size)) by (nonlinear_arith)
                requires
                    stack_start(self.stack_base, cid, size) == self.stack_base + 2 + cid * (size
                        + 2),
            ;
        }
        let start = self.stack_base + 2 + cid * (size + 2);
        let end = start + size;

        Segment { range: (start, end), flag: Flag::R().union(Flag::W()) }
    }
}

/// The first page of the user stack of `cid`, for stacks of `size` pages
/// beyond their first above the program end `base`.
pub open spec fn stack_start(base: usize, cid: usize, size: usize) -> int {
    base + 2 + cid * (size + 2)
}

/// The user stack of `cid`, for stacks of `size` pages beyond their first
/// above the program end `base`.
pub open spec fn stack_segment(base: usize, cid: usize, size: usize) -> ((usize, usize), u8) {
    (
        (stack_start(base, cid, size) as usize, (stack_start(base, cid, size) + size) as usize),
        bits_rw(),
    )
}

/// User stacks of the same size lie above the program end with a guard
/// page between it and the first stack, and a guard page between the
/// stacks of any two coroutines (so they never overlap).
pub proof fn lemma_user_stacks_guarded(base: usize, size: usize, c1: usize, c2: usize)
    requires
        c1 < c2,
    ensures
        stack_start(base, 0, size) == base + 2,
        stack_start(base, c1, size) + size + 1 < stack_start(base, c2, size),
{
    assert(c1 * (size + 2) + size + 2 <= c2 * (size + 2)) by (nonlinear_arith)
        requires
            c1 < c2,
    ;
}

/// A loadable image that the parser can read in place is laid out, never
/// given the empty layout: `layout_of` gives the header's entry point, one
/// segment and one data range for each `LOAD` program header, in order, and
/// as stack base the last page of the last loaded segment.
pub proof fn lemma_layout_of_lays_out(elf: Seq<u8>, address: usize, r: (AddressSpace, Vec<(usize, usize)>))
    requires
        elf_loadable(elf),
        header_aligned(elf, address),
        header_aligned(elf, address) ==> elf_layout(
            r,
            elf_header(elf)->0,
            elf_program_headers(elf, elf_header(elf)->0.ph_count),
        ),
    ensures
        r.0.entry == elf_header(elf)->0.entry_point as usize,
        r.0.segement@.len() == load_headers(elf_program_headers(elf, elf_header(elf)->0.ph_count)).len(),
        r.1@.len() == r.0.segement@.len(),
        forall|i: int|
            0 <= i < r.0.segement@.len() ==> #[trigger] r.0.segement@[i]@ == load_segment(
                load_headers(elf_program_headers(elf, elf_header(elf)->0.ph_count))[i],
            ),
        r.0.stack_base == elf_stack_base(elf_program_headers(elf, elf_header(elf)->0.ph_count)),
{
    let phs = elf_program_headers(elf, elf_header(elf)->0.ph_count);
    assert(segment_views(r.0.segement@).len() == r.0.segement@.len());
    assert forall|i: int| 0 <= i < r.0.segement@.len() implies #[trigger] r.0.segement@[i]@
        == load_segment(load_headers(phs)[i]) by {
        assert(segment_views(r.0.segement@)[i] == r.0.segement@[i]@);
        assert(load_segments(load_headers(phs))[i] == load_segment(load_headers(phs)[i]));
    }
}

/// `try_layout_of` and `layout_of` agree: on an image that the parser can
/// read in place, the first gives a layout exactly when the image is
/// loadable, and then the same segments, data ranges, entry and stack base
/// as the second.
pub proof fn lemma_try_layout_of_agrees(
    elf: Seq<u8>,
    address: usize,
    tried: Option<(AddressSpace, Vec<(usize, usize)>)>,
    laid: (AddressSpace, Vec<(usize, usize)>),
)
    requires
        header_aligned(elf, address),
        elf_loadable(elf),
        header_aligned(elf, address) ==> (tried is Some <==> elf_loadable(elf)),
        tried matches Some(v) ==> elf_loadable(elf) && elf_layout(
            v,
            elf_header(elf)->0,
            elf_program_headers(elf, elf_header(elf)->0.ph_count),
        ),
        header_aligned(elf, address) ==> elf_layout(
            laid,
            elf_header(elf)->0,
            elf_program_headers(elf, elf_header(elf)->0.ph_count),
        ),
    ensures
        tried matches Some(v) && {
            &&& segment_views(v.0.segement@) == segment_views(laid.0.segement@)
            &&& v.1@ == laid.1@
            &&& v.0.entry == laid.0.entry
            &&& v.0.stack_base == laid.0.stack_base
        },
{
}

/// The page of thread `tid`'s intervene stack.
pub open spec fn intervene_page(tid: usize) -> usize {
    (INTERVENE_TEXT - 1 - 2 * tid) as usize
}

/// The intervene stack of thread `tid`: its page, read-write.
pub open spec fn istack_view(tid: usize) -> ((usize, usize), u8) {
    ((intervene_page(tid), intervene_page(tid)), bits_rw())
}

/// The intervene data of thread `tid`: the page `INTERVENE_TEXT - 1 - 2 *
/// tid`, read-write.
pub open spec fn idata_view(tid: usize) -> ((usize, usize), u8) {
    (
        ((INTERVENE_TEXT - 1 - 2 * tid) as usize, (INTERVENE_TEXT - 1 - 2 * tid) as usize),
        bits_rw(),
    )
}

/// A thread's intervene data lies on the page of its intervene stack, with
/// the same flags.
pub proof fn lemma_intervene_data_on_stack_page(tid: usize)
    ensures
        idata_view(tid) == istack_view(tid),
{
}

/// With a 64-bit `usize`: the intervene text is page `(1 << 52) - 1`, and
/// the intervene stack of thread `t` (for `t` below `1 << 50`) is page
/// `(1 << 52) - 2 - 2 * t`.
pub proof fn lemma_intervene_pages_64(t: usize)
    requires
        usize::BITS == 64,
        t < 1usize << 50usize,
    ensures
        INTERVENE_TEXT == (1usize << 52usize) - 1,
        2 * t + 1 <= INTERVENE_TEXT,
        intervene_page(t) == (1usize << 52usize) - 2 - 2 * t,
{
    let m: usize = usize::MAX;
    assert(m == 0xffff_ffff_ffff_ffffint);
    assert(m >> 12usize == (1usize << 52usize) - 1) by (bit_vector)
        requires
            usize::BITS == 64,
            m as u64 == 0xffff_ffff_ffff_ffffu64,
    ;
    assert(2 * t + 1 <= (1usize << 52usize) - 1 && (1usize << 52usize) >= 2) by (bit_vector)
        requires
            usize::BITS == 64,
            t < 1usize << 50usize,
    ;
}

/// Intervene stacks of different threads never share a page, never touch
/// (a guard page lies between any two), and lie below the intervene text.
pub proof fn lemma_intervene_stacks_guarded(t1: usize, t2: usize)
    requires
        2 * t1 + 1 <= INTERVENE_TEXT,
        2 * t2 + 1 <= INTERVENE_TEXT,
        t1 != t2,
    ensures
        intervene_page(t1) < INTERVENE_TEXT,
        intervene_page(t1) + 2 <= intervene_page(t2) || intervene_page(t2) + 2 <= intervene_page(t1),
{
}

} // verus!

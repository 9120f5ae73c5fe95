//! What the address-space layout reads of an ELF image, read by the
//! `xmas_elf` parser.
//!
//! The parser reads the file header and the program headers in place, in
//! the byte order of the machine it runs on (`vstd::endian::endianness`),
//! and asserts that each record it reads lies whole in the input and at an
//! address aligned for it. The spec functions here say which bytes it
//! reads, when it refuses an image, and what keeps its assertions.

use vstd::prelude::*;
use vstd::endian::Endian;
use vstd::endian::endianness;

verus! {

/// The parts of an ELF file header that the layout reads.
#[derive(Clone, Copy)]
pub struct ElfHeader {
    /// The file is of class 64 (else of class 32).
    pub is_64: bool,
    pub entry_point: u64,
    /// Where the program header table starts in the file.
    pub ph_offset: u64,
    /// The size of one program header table entry.
    pub ph_entry_size: u16,
    pub ph_count: u16,
}

/// The type of a segment.
#[derive(Clone, Copy, PartialEq, Eq, Structural, Debug)]
pub enum SegmentType {
    Null,
    Load,
    Dynamic,
    Interp,
    Note,
    ShLib,
    Phdr,
    Tls,
    GnuRelro,
    OsSpecific(u32),
    ProcessorSpecific(u32),
}

/// The parts of an ELF program header that the layout reads.
#[derive(Clone, Copy)]
pub struct ProgramHeader {
    pub type_: SegmentType,
    pub virtual_addr: u64,
    pub mem_size: u64,
    /// The raw `p_flags` word.
    pub flags: u32,
    pub offset: u64,
    pub file_size: u64,
}

/// The unsigned number in the `n` bytes of `b` from `off`, in byte order
/// `e`.
pub open spec fn uint_at(b: Seq<u8>, off: int, n: nat, e: Endian) -> int
    decreases n,
{
    if n == 0 {
        0
    } else {
        match e {
            Endian::Little => b[off] + 256 * uint_at(b, off + 1, (n - 1) as nat, e),
            Endian::Big => uint_at(b, off, (n - 1) as nat, e) * 256 + b[off + n - 1],
        }
    }
}

/// The ELF magic number `\x7fELF` starts `b`.
pub open spec fn has_elf_magic(b: Seq<u8>) -> bool {
    &&& b.len() >= 4
    &&& b[0] == 0x7f
    &&& b[1] == 0x45
    &&& b[2] == 0x4c
    &&& b[3] == 0x46
}

/// The file header of `b` as the parser reads it in byte order `e`, or
/// `None` when it refuses the bytes: too short, no magic number, or a
/// class other than 32 (`1`) and 64 (`2`).
pub open spec fn parse_elf_header(b: Seq<u8>, e: Endian) -> Option<ElfHeader> {
    if b.len() < 16 || !has_elf_magic(b) {
        None
    } else if b[4] == 1 {
        if b.len() < 52 {
            None
        } else {
            Some(
                ElfHeader {
                    is_64: false,
                    entry_point: uint_at(b, 24, 4, e) as u64,
                    ph_offset: uint_at(b, 28, 4, e) as u64,
                    ph_entry_size: uint_at(b, 42, 2, e) as u16,
                    ph_count: uint_at(b, 44, 2, e) as u16,
                },
            )
        }
    } else if b[4] == 2 {
        if b.len() < 64 {
            None
        } else {
            Some(
                ElfHeader {
                    is_64: true,
                    entry_point: uint_at(b, 24, 8, e) as u64,
                    ph_offset: uint_at(b, 32, 8, e) as u64,
                    ph_entry_size: uint_at(b, 54, 2, e) as u16,
                    ph_count: uint_at(b, 56, 2, e) as u16,
                },
            )
        }
    } else {
        None
    }
}

/// The file header that `xmas_elf` reads from `elf` on this machine.
pub open spec fn elf_header(elf: Seq<u8>) -> Option<ElfHeader> {
    parse_elf_header(elf, endianness())
}

/// The segment type of the raw type word `t`, or `None` for a word that
/// names no type.
pub open spec fn segment_type(t: u32) -> Option<SegmentType> {
    if t == 0 {
        Some(SegmentType::Null)
    } else if t == 1 {
        Some(SegmentType::Load)
    } else if t == 2 {
        Some(SegmentType::Dynamic)
    } else if t == 3 {
        Some(SegmentType::Interp)
    } else if t == 4 {
        Some(SegmentType::Note)
    } else if t == 5 {
        Some(SegmentType::ShLib)
    } else if t == 6 {
        Some(SegmentType::Phdr)
    } else if t == 7 {
        Some(SegmentType::Tls)
    } else if t == 0x6474e552 {
        Some(SegmentType::GnuRelro)
    } else if 0x60000000 <= t <= 0x6fffffff {
        Some(SegmentType::OsSpecific(t))
    } else if 0x70000000 <= t <= 0x7fffffff {
        Some(SegmentType::ProcessorSpecific(t))
    } else {
        None
    }
}

/// Where entry `index` of the program header table of header `h` starts.
pub open spec fn ph_start(h: ElfHeader, index: u16) -> int {
    h.ph_offset + index * h.ph_entry_size
}

/// The file has a program header `index` to read: it is in the table, and
/// the table is there.
pub open spec fn ph_present(h: ElfHeader, index: u16) -> bool {
    &&& index < h.ph_count
    &&& h.ph_offset > 0
    &&& h.ph_entry_size > 0
}

/// Program header `index` of `b` with file header `h`, read in byte order
/// `e`, or `None` when there is no such entry or its type word names no
/// type.
pub open spec fn parse_program_header(b: Seq<u8>, h: ElfHeader, index: u16, e: Endian) -> Option<
    ProgramHeader,
> {
    let s = ph_start(h, index);
    if !ph_present(h, index) {
        None
    } else {
        match segment_type(uint_at(b, s, 4, e) as u32) {
            None => None,
            Some(t) => if h.is_64 {
                Some(
                    ProgramHeader {
                        type_: t,
                        flags: uint_at(b, s + 4, 4, e) as u32,
                        offset: uint_at(b, s + 8, 8, e) as u64,
                        virtual_addr: uint_at(b, s + 16, 8, e) as u64,
                        file_size: uint_at(b, s + 32, 8, e) as u64,
                        mem_size: uint_at(b, s + 40, 8, e) as u64,
                    },
                )
            } else {
                Some(
                    ProgramHeader {
                        type_: t,
                        offset: uint_at(b, s + 4, 4, e) as u64,
                        virtual_addr: uint_at(b, s + 8, 4, e) as u64,
                        file_size: uint_at(b, s + 16, 4, e) as u64,
                        mem_size: uint_at(b, s + 20, 4, e) as u64,
                        flags: uint_at(b, s + 24, 4, e) as u32,
                    },
                )
            },
        }
    }
}

/// Program header `index` that `xmas_elf` reads from `elf` on this machine,
/// or `None` when it refuses the file or the entry.
pub open spec fn elf_program_header(elf: Seq<u8>, index: u16) -> Option<ProgramHeader> {
    match elf_header(elf) {
        None => None,
        Some(h) => parse_program_header(elf, h, index, endianness()),
    }
}

/// Entry `index` of the program header table lies whole within `elf`, is
/// at least as large as the parser's record of its class, and sits at a
/// multiple of that record's alignment from the start of the file: the
/// parser reads it without failing an assertion when the file itself starts
/// at such a multiple.
pub open spec fn ph_readable(elf: Seq<u8>, h: ElfHeader, index: u16) -> bool {
    ph_present(h, index) ==> {
        &&& ph_start(h, index) + h.ph_entry_size <= elf.len()
        &&& h.ph_entry_size >= (if h.is_64 { 56int } else { 32int })
        &&& ph_start(h, index) % (if h.is_64 { 8int } else { 4int }) == 0
    }
}

/// An ELF image in memory: its bytes, and the address its first byte
/// lies at. Only [`elf_image`] makes one, from a slice and that slice's own
/// address.
pub struct ElfImage<'a> {
    bytes: &'a [u8],
    address: usize,
}

impl<'a> ElfImage<'a> {
    /// The bytes of the image.
    pub closed spec fn bytes(&self) -> Seq<u8> {
        self.bytes@
    }

    /// The address of the image's first byte.
    pub closed spec fn spec_address(&self) -> usize {
        self.address
    }

    /// The address of the image's first byte.
    pub fn address(&self) -> (r: usize)
        ensures
            r == self.spec_address(),
    {
        self.address
    }

    /// The bytes of the image.
    pub fn as_bytes(&self) -> (r: &'a [u8])
        ensures
            r@ == self.bytes(),
    {
        self.bytes
    }

    /// Whether the parser can read the image's file header in place: the
    /// image starts at an address aligned for the header record of its
    /// class, 4 for class 32 and 8 for class 64 (or the parser refuses the
    /// image before it reads that record).
    pub fn is_aligned(&self) -> (r: bool)
        ensures
            r == header_aligned(self.bytes(), self.spec_address()),
    {
        let b = self.bytes;
        if b.len() < 16 || !(b[0] == 0x7f && b[1] == 0x45 && b[2] == 0x4c && b[3] == 0x46) {
            return true;
        }
        if b[4] == 1 {
            b.len() < 52 || self.address % 4 == 0
        } else if b[4] == 2 {
            b.len() < 64 || self.address % 8 == 0
        } else {
            true
        }
    }
}

/// The parser reads the file header of the bytes `b` lying at `address`
/// without failing its alignment assertion: a header it reads starts at a
/// multiple of its record's alignment.
pub open spec fn header_aligned(b: Seq<u8>, address: usize) -> bool {
    elf_header(b) matches Some(h) ==> (address as int) % (if h.is_64 { 8int } else { 4int }) == 0
}

/// The image of `elf`: its bytes, and the address of its first byte as
/// `<[u8]>::as_ptr` gives it.
#[verifier::external_body]
pub(crate) fn elf_image<'a>(elf: &'a [u8]) -> (r: ElfImage<'a>)
    ensures
        r.bytes() == elf@,
{
    ElfImage { bytes: elf, address: elf.as_ptr() as usize }
}

/// Reads the file header of the image with `xmas_elf::ElfFile::new`, then
/// its class, `entry_point`, `ph_offset`, `ph_entry_size` and `ph_count`:
/// `None` when the parser refuses the bytes. The parser reads the header
/// records in place and asserts their alignment, hence the requirement on
/// the image's address.
#[verifier::external_body]
pub(crate) fn read_elf_header(image: &ElfImage) -> (r: Option<ElfHeader>)
    requires
        header_aligned(image.bytes(), image.spec_address()),
    ensures
        r == elf_header(image.bytes()),
{
    match xmas_elf::ElfFile::new(image.bytes) {
        Ok(file) => Some(
            ElfHeader {
                is_64: match file.header.pt2 {
                    xmas_elf::header::HeaderPt2::Header32(_) => false,
                    xmas_elf::header::HeaderPt2::Header64(_) => true,
                },
                entry_point: file.header.pt2.entry_point(),
                ph_offset: file.header.pt2.ph_offset(),
                ph_entry_size: file.header.pt2.ph_entry_size(),
                ph_count: file.header.pt2.ph_count(),
            },
        ),
        Err(_) => None,
    }
}

/// Reads program header `index` of the image with `xmas_elf::ElfFile::new`,
/// `ElfFile::program_header` and `ProgramHeader::get_type`, then its
/// address, sizes, raw flags and offset: `None` when the parser refuses the
/// file, the entry or its type word. The parser slices the entry out and
/// reads it in place, asserting its size and alignment, hence the
/// requirements.
#[verifier::external_body]
pub(crate) fn read_program_header(image: &ElfImage, index: u16) -> (r: Option<ProgramHeader>)
    requires
        header_aligned(image.bytes(), image.spec_address()),
        elf_header(image.bytes()) matches Some(h) ==> ph_readable(image.bytes(), h, index),
    ensures
        r == elf_program_header(image.bytes(), index),
{
    let file = xmas_elf::ElfFile::new(image.bytes).ok()?;
    let header = file.program_header(index).ok()?;
    Some(ProgramHeader {
        type_: segment_type_of(header.get_type().ok()?),
        virtual_addr: header.virtual_addr(),
        mem_size: header.mem_size(),
        flags: header.flags().0,
        offset: header.offset(),
        file_size: header.file_size(),
    })
}

/// The segment types of `xmas_elf`.
#[verifier::external_type_specification]
#[verifier::external_body]
pub struct ExSegmentType(xmas_elf::program::Type);

/// The library's segment type for `xmas_elf`'s, variant for variant.
#[verifier::external_body]
fn segment_type_of(t: xmas_elf::program::Type) -> SegmentType {
    match t {
        xmas_elf::program::Type::Null => SegmentType::Null,
        xmas_elf::program::Type::Load => SegmentType::Load,
        xmas_elf::program::Type::Dynamic => SegmentType::Dynamic,
        xmas_elf::program::Type::Interp => SegmentType::Interp,
        xmas_elf::program::Type::Note => SegmentType::Note,
        xmas_elf::program::Type::ShLib => SegmentType::ShLib,
        xmas_elf::program::Type::Phdr => SegmentType::Phdr,
        xmas_elf::program::Type::Tls => SegmentType::Tls,
        xmas_elf::program::Type::GnuRelro => SegmentType::GnuRelro,
        xmas_elf::program::Type::OsSpecific(v) => SegmentType::OsSpecific(v),
        xmas_elf::program::Type::ProcessorSpecific(v) => SegmentType::ProcessorSpecific(v),
    }
}

} // verus!

use ones::runtime::address_space::{AddressSpace, INTERVENE_TEXT, USER_STACK_SIZE};
use ones::runtime::elf::{ElfHeader, ProgramHeader, SegmentType};

fn push_u16(v: &mut Vec<u8>, x: u16) {
    v.extend_from_slice(&x.to_le_bytes());
}
fn push_u32(v: &mut Vec<u8>, x: u32) {
    v.extend_from_slice(&x.to_le_bytes());
}
fn push_u64(v: &mut Vec<u8>, x: u64) {
    v.extend_from_slice(&x.to_le_bytes());
}

/// A 64-bit little-endian ELF image with the given program headers
/// (type, flags, offset, virtual address, file size, memory size).
fn elf_image(entry: u64, headers: &[(u32, u32, u64, u64, u64, u64)]) -> Vec<u8> {
    let mut v = Vec::new();
    v.extend_from_slice(&[0x7f, b'E', b'L', b'F', 2, 1, 1, 0, 0, 0, 0, 0, 0, 0, 0, 0]);
    push_u16(&mut v, 2);
    push_u16(&mut v, 0xf3);
    push_u32(&mut v, 1);
    push_u64(&mut v, entry);
    push_u64(&mut v, 64);
    push_u64(&mut v, 0);
    push_u32(&mut v, 0);
    push_u16(&mut v, 64);
    push_u16(&mut v, 56);
    push_u16(&mut v, headers.len() as u16);
    push_u16(&mut v, 64);
    push_u16(&mut v, 0);
    push_u16(&mut v, 0);
    for &(ty, flags, offset, vaddr, filesz, memsz) in headers {
        push_u32(&mut v, ty);
        push_u32(&mut v, flags);
        push_u64(&mut v, offset);
        push_u64(&mut v, vaddr);
        push_u64(&mut v, vaddr);
        push_u64(&mut v, filesz);
        push_u64(&mut v, memsz);
        push_u64(&mut v, 0x1000);
    }
    v
}

#[test]
fn empty_address_space() {
    let a = AddressSpace::empty();
    assert_eq!(a.entry, 0);
    assert!(a.segement.is_empty());
    assert_eq!(a.stack_base, 0);
}

#[test]
fn kernel_address_space_layout() {
    let mmio = [(0x10, 0x10), (0x20, 0x21)];
    let a = AddressSpace::new_kernel(0x8020_0000, &mmio, (1, 2), (3, 4), (5, 6), (7, 8), (9, 100));
    assert_eq!(a.entry, 0x8020_0000);
    assert_eq!(a.stack_base, 101);
    let got: Vec<((usize, usize), u8)> = a.segement.iter().map(|s| (s.range, s.flag.bits())).collect();
    assert_eq!(
        got,
        vec![
            ((0x10, 0x10), 6),
            ((0x20, 0x21), 6),
            ((1, 2), 10),
            ((3, 4), 2),
            ((5, 6), 6),
            ((7, 8), 6),
            ((9, 100), 6),
        ]
    );
}

#[test]
fn intervene_pages() {
    let t0 = AddressSpace::istack(0);
    assert_eq!(t0.range, (INTERVENE_TEXT - 1, INTERVENE_TEXT - 1));
    assert_eq!(t0.flag.bits(), 6);
    let t3 = AddressSpace::istack(3);
    assert_eq!(t3.range, (INTERVENE_TEXT - 7, INTERVENE_TEXT - 7));
    assert_eq!(AddressSpace::idata(3).range, t3.range);
    let text = AddressSpace::itext();
    assert_eq!(text.range, (INTERVENE_TEXT, INTERVENE_TEXT));
    assert_eq!(text.flag.bits(), 10);
    assert_eq!(INTERVENE_TEXT, (1usize << 52) - 1);
}

#[test]
fn intervene_stacks_have_guard_pages() {
    let a = AddressSpace::istack(4).range.0;
    let b = AddressSpace::istack(5).range.0;
    assert_eq!(a - b, 2);
}

#[test]
fn user_stack() {
    let mut a = AddressSpace::empty();
    a.stack_base = 50;
    let s = a.stack(3);
    assert_eq!(s.range, (64, 64 + USER_STACK_SIZE));
    assert_eq!(a.stack(0).range, (52, 54));
    assert_eq!(a.stack(1).range.0, a.stack(0).range.1 + 2);
    assert_eq!(a.stack_of_size(1, 4).range, (58, 62));
    assert_eq!(s.flag.bits(), 6);
}

#[test]
fn layout_from_headers() {
    let header = ElfHeader { is_64: true, entry_point: 0x1_0000, ph_offset: 64, ph_entry_size: 56, ph_count: 3 };
    let headers = vec![
        ProgramHeader { type_: SegmentType::Load, virtual_addr: 0x1_0000, mem_size: 0x2000, flags: 5, offset: 0x1000, file_size: 0x1800 },
        ProgramHeader { type_: SegmentType::Note, virtual_addr: 0, mem_size: 0, flags: 4, offset: 0, file_size: 0 },
        ProgramHeader { type_: SegmentType::Load, virtual_addr: 0x1_3000, mem_size: 0x10, flags: 6, offset: 0x3000, file_size: 0x8 },
    ];
    let (a, data) = AddressSpace::from_elf_headers(&header, &headers);
    assert_eq!(a.entry, 0x1_0000);
    let got: Vec<((usize, usize), u8)> = a.segement.iter().map(|s| (s.range, s.flag.bits())).collect();
    assert_eq!(got, vec![((0x10, 0x11), 16 | 2 | 8), ((0x13, 0x13), 16 | 2 | 4)]);
    assert_eq!(data, vec![(0x1000, 0x2800), (0x3000, 0x3008)]);
    assert_eq!(a.stack_base, 0x13);
}

#[test]
fn layout_from_elf_image() {
    let image = elf_image(
        0x1_0040,
        &[
            (1, 5, 0x1000, 0x1_0000, 0x1800, 0x2000),
            (4, 4, 0, 0, 0, 0),
            (1, 6, 0x3000, 0x1_3000, 0x8, 0x10),
        ],
    );
    let (a, data) = AddressSpace::from_elf(&image);
    assert_eq!(a.entry, 0x1_0040);
    let got: Vec<((usize, usize), u8)> = a.segement.iter().map(|s| (s.range, s.flag.bits())).collect();
    assert_eq!(got, vec![((0x10, 0x11), 26), ((0x13, 0x13), 22)]);
    assert_eq!(data, vec![(0x1000, 0x2800), (0x3000, 0x3008)]);
    assert_eq!(a.stack_base, 0x13);

    let checked = AddressSpace::try_from_elf(&image).unwrap();
    assert_eq!(checked.1, data);
}

#[test]
fn elf_image_refused() {
    assert!(AddressSpace::try_from_elf(b"not an elf").is_none());
    let mut image = elf_image(0, &[]);
    image[1] = b'X';
    assert!(AddressSpace::try_from_elf(&image).is_none());
}

#[test]
fn elf_segment_that_cannot_be_laid_out() {
    let image = elf_image(0, &[(1, 4, 0, 0, 0, 0)]);
    assert!(AddressSpace::try_from_elf(&image).is_none());
}

#[test]
fn elf_program_table_cut_short_or_too_small() {
    let mut cut = elf_image(0, &[(1, 4, 0, 0x1000, 0, 0x10), (1, 4, 0, 0x2000, 0, 0x10)]);
    let len = cut.len();
    cut.truncate(len - 56);
    assert!(AddressSpace::try_from_elf(&cut).is_none());

    let mut small = elf_image(0, &[(1, 4, 0, 0x1000, 0, 0x10)]);
    small[54] = 8;
    small[55] = 0;
    assert!(AddressSpace::try_from_elf(&small).is_none());

    let whole = elf_image(0, &[(1, 4, 0, 0x1000, 0, 0x10)]);
    assert!(AddressSpace::try_from_elf(&whole).is_some());
}

#[test]
fn elf_image_at_misaligned_address() {
    let image = elf_image(0x1_0040, &[(1, 5, 0x1000, 0x1_0000, 0x1800, 0x2000)]);
    let mut shifted = vec![0u8];
    shifted.extend_from_slice(&image);
    let misaligned = &shifted[1..];
    assert_eq!(misaligned, &image[..]);
    assert!(AddressSpace::try_from_elf(misaligned).is_none());
    let (a, data) = AddressSpace::from_elf(misaligned);
    assert_eq!((a.entry, a.segement.len(), a.stack_base, data.len()), (0, 0, 0, 0));
    assert!(AddressSpace::try_from_elf(&image).is_some());
}

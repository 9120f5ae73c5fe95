use ones::memory::page::entry::Entry;
use ones::memory::page::frame::Frame;
use ones::memory::page::{Mapping, Table};
use ones::memory::{Address, Flag, ModelAddress};
use ones::Allocator;

#[test]
fn flag_bits_and_validity() {
    assert_eq!(Flag::V().bits(), 1);
    assert_eq!(Flag::R().bits(), 2);
    assert_eq!(Flag::W().bits(), 4);
    assert_eq!(Flag::X().bits(), 8);
    assert_eq!(Flag::U().bits(), 16);
    assert_eq!(Flag::G().bits(), 32);
    assert_eq!(Flag::A().bits(), 64);
    assert_eq!(Flag::D().bits(), 128);
    assert_eq!(Flag::R().union(Flag::W()).bits(), 6);
    assert!(Flag::V().union(Flag::R()).is_valid());
    assert!(!Flag::R().union(Flag::X()).is_valid());
    assert!(!Flag::empty().is_valid());
    assert!(Flag::R().union(Flag::W()).contains(Flag::W()));
    assert!(!Flag::R().contains(Flag::W()));
    assert_eq!(Flag::from_bits(0xa5).unwrap().bits(), 0xa5);
}

#[test]
fn address_number_offset_and_back() {
    let a = 0x1234_5678usize;
    assert_eq!(Address::number(a), 0x12345);
    assert_eq!(Address::offset(a), 0x678);
    assert_eq!(Address::address(0x12345), 0x1234_5000);
    assert_eq!(Address::address(Address::number(a)) + Address::offset(a), a);
}

#[test]
fn address_ceil() {
    assert_eq!(Address::ceil(0x3000), 3);
    assert_eq!(Address::ceil(0x3001), 4);
    assert_eq!(Address::ceil(0x3fff), 4);
    assert_eq!(Address::ceil(0), 0);
}

#[test]
fn model_address_other_masks() {
    type Small = ModelAddress<0xff00, 0x00f0>;
    assert_eq!(Small::number(0xabcd), 0xab);
    assert_eq!(Small::offset(0xabcd), 0xc);
    assert_eq!(Small::address(0xab), 0xab00);
}

#[test]
fn entry_bits_round_trip() {
    let mut e = Entry::from_bits(0xdead_b00f);
    assert_eq!(e.bits(), 0xdead_b00f);
    e.bits_set(7);
    assert_eq!(e.bits(), 7);
}

#[test]
fn frames_from_the_allocator() {
    let mut slot: Option<Allocator> = None;
    Frame::init(&mut slot, 100, 105);
    Frame::init(&mut slot, 0, 1);
    let f = Frame::new(&mut slot);
    assert_eq!(f.number, 100);
    let block = Frame::new_contig(&mut slot, 3);
    let numbers: Vec<usize> = block.iter().map(|f| f.number).collect();
    assert_eq!(numbers, vec![101, 102, 103]);
    f.release(&mut slot);
    let again = Frame::new(&mut slot);
    assert_eq!(again.number, 100);
    let next = Frame::new(&mut slot);
    assert_eq!(next.number, 104);
}

#[test]
fn table_takes_a_root_frame() {
    let mut slot: Option<Allocator> = None;
    Frame::init(&mut slot, 7, 9);
    let table = Table::new(&mut slot);
    assert_eq!(table.root.number, 7);
    assert!(table.frame.is_empty());
    let other = Table::new(&mut slot);
    assert_eq!(other.root.number, 8);
    match Mapping::Fixed(3) {
        Mapping::Fixed(n) => assert_eq!(n, 3),
        Mapping::Random => panic!(),
    }
}

#[test]
fn address_of_page_number_round_trip() {
    for n in [0usize, 1, 0x12345, (1 << 52) - 1] {
        let a = Address::address(n);
        assert_eq!(Address::number(a), n);
        assert_eq!(Address::offset(a), 0);
    }
    let a = 0x7001usize;
    let c = Address::ceil(a);
    assert!(Address::address(c) >= a && Address::address(c) < a + 4096);
}

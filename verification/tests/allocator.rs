use ones::{module_banner, Allocator};

#[test]
fn allocator_new_refuses_empty_range() {
    assert!(Allocator::new(3, 2).is_err());
    assert!(Allocator::new(2, 2).is_ok());
}

#[test]
fn allocator_hands_out_fresh_ids_in_order() {
    let mut a = Allocator::new(5, 7).unwrap();
    assert_eq!(a.allocate(), Ok(5));
    assert_eq!(a.allocate(), Ok(6));
    assert_eq!(a.allocate(), Ok(7));
    assert_eq!(a.allocate(), Err(()));
}

#[test]
fn allocator_hands_out_smallest_first() {
    let mut a = Allocator::new(0, 9).unwrap();
    assert_eq!(a.allocate(), Ok(0));
    assert_eq!(a.allocate(), Ok(1));
    assert_eq!(a.allocate(), Ok(2));
    a.dealloc(0);
    a.dealloc(1);
    assert_eq!(a.allocate(), Ok(0));
    assert_eq!(a.allocate(), Ok(1));
    assert_eq!(a.allocate(), Ok(3));
    a.dealloc(2);
    a.dealloc(0);
    assert_eq!(a.next_id(), 0);
    assert_eq!(a.allocate(), Ok(0));
    assert_eq!(a.allocate(), Ok(2));
}

#[test]
fn allocator_accepts_only_handed_out_ids_back() {
    let mut a = Allocator::new(0, 9).unwrap();
    assert!(!a.can_dealloc(0));
    assert_eq!(a.allocate(), Ok(0));
    assert!(a.can_dealloc(0));
    assert!(!a.can_dealloc(1));
    a.dealloc(0);
    assert!(!a.can_dealloc(0));
    assert_eq!(a.recycled_len(), 1);
}

#[test]
fn allocator_contiguous_block() {
    let mut a = Allocator::new(10, 20).unwrap();
    assert_eq!(a.alloc_contig(4), Ok(10));
    assert_eq!(a.allocate(), Ok(14));
    assert_eq!(a.alloc_contig(7), Err(()));
    assert_eq!(a.alloc_contig(6), Ok(15));
    assert_eq!(a.allocate(), Err(()));
}

#[test]
fn allocator_recycled_after_exhaustion() {
    let mut a = Allocator::new(1, 1).unwrap();
    assert_eq!(a.allocate(), Ok(1));
    assert_eq!(a.allocate(), Err(()));
    a.dealloc(1);
    assert_eq!(a.allocate(), Ok(1));
}

#[test]
fn module_banner_lines() {
    let (title, border) = module_banner("memory");
    assert_eq!(title, "[MEMORY MODULE]");
    assert_eq!(border, "-".repeat(15));
    let (title, border) = module_banner("straße");
    assert_eq!(title, "[STRASSE MODULE]");
    assert_eq!(border.len(), title.len());
}

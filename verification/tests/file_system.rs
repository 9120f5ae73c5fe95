use ones::file_system::bitmap::BitMap;
use ones::file_system::file::{File, UserBuffer};
use ones::file_system::{open_action, Flag, OpenAction};

#[test]
fn bitmap() {
    let vector = [1u8, 0, 1].to_vec();
    let mut bitmap = BitMap(vector);

    if let Err(_) = bitmap.set(24, true) {
        assert!(true);
    } else {
        assert!(false);
    }

    if let Err(_) = bitmap.test(24) {
        assert!(true);
    } else {
        assert!(false);
    }

    if let Ok(true) = bitmap.test(0) {
        assert!(true);
    } else {
        assert!(false);
    }

    if let Ok(1) = bitmap.allocate() {
        assert!(true);
    } else {
        assert!(false);
    }

    if let Ok(_) = bitmap.set(0, false) {
        if let Ok(false) = bitmap.test(0) {
            assert!(true);
        } else {
            assert!(false);
        }
    } else {
        assert!(false);
    }
}

#[test]
fn bitmap_set_then_test_reads_back() {
    let mut bitmap = BitMap(vec![0u8; 2]);
    assert_eq!(bitmap.set(9, true), Ok(()));
    assert_eq!(bitmap.test(9), Ok(true));
    assert_eq!(bitmap.test(8), Ok(false));
    assert_eq!(bitmap.test(10), Ok(false));
    assert_eq!(bitmap.0, vec![0u8, 0b10]);
    assert_eq!(bitmap.set(9, false), Ok(()));
    assert_eq!(bitmap.test(9), Ok(false));
    assert_eq!(bitmap.0, vec![0u8, 0]);
}

#[test]
fn bitmap_set_out_of_range_changes_nothing() {
    let mut bitmap = BitMap(vec![0xffu8]);
    assert_eq!(bitmap.set(8, false), Err(()));
    assert_eq!(bitmap.0, vec![0xffu8]);
    assert_eq!(bitmap.test(8), Err(()));
}

#[test]
fn bitmap_allocate_lowest_clear_bit() {
    let bitmap = BitMap(vec![0xffu8, 0b1111_0111]);
    assert_eq!(bitmap.allocate(), Ok(11));
    let full = BitMap(vec![0xffu8, 0xff]);
    assert_eq!(full.allocate(), Err(()));
    let empty = BitMap(Vec::new());
    assert_eq!(empty.allocate(), Err(()));
}

#[test]
fn bitmap_allocate_then_set_moves_on() {
    let mut bitmap = BitMap(vec![0b0000_0101u8]);
    let first = bitmap.allocate().unwrap();
    assert_eq!(first, 1);
    bitmap.set(first, true).unwrap();
    let second = bitmap.allocate().unwrap();
    assert_eq!(second, 3);
}

#[test]
fn file_flags_read_and_write() {
    assert!(Flag::READ().read());
    assert!(!Flag::READ().write());
    assert!(!Flag::WRITE().read());
    assert!(Flag::WRITE().write());
    assert!(Flag::R_W().read());
    assert!(Flag::R_W().write());
    assert_eq!(Flag::CREATE().union(Flag::TRUNC()).bits(), 0x600);
    assert!(Flag::CREATE().union(Flag::WRITE()).contains(Flag::CREATE()));
    assert!(!Flag::WRITE().contains(Flag::CREATE()));
    assert_eq!(Flag::from_bits_truncate(0xffff_ffff).bits(), 0x603);
    assert!(Flag::READ().is_empty());
}

#[test]
fn open_action_follows_flags() {
    let create = Flag::CREATE().union(Flag::WRITE());
    assert_eq!(open_action(create, true), OpenAction::ClearAndOpen);
    assert_eq!(open_action(create, false), OpenAction::Create);
    assert_eq!(open_action(Flag::TRUNC(), true), OpenAction::ClearAndOpen);
    assert_eq!(open_action(Flag::R_W(), true), OpenAction::Open);
    assert_eq!(open_action(Flag::R_W(), false), OpenAction::NotFound);
}

#[test]
fn file_offset_follows_reads_and_writes() {
    let mut file = File::new(Flag::R_W());
    assert_eq!(file.offset(), 0);
    assert_eq!(file.read_step(100, 0), Some(100));
    assert_eq!(file.read_step(20, 100), Some(120));
    assert_eq!(file.offset(), 120);
    assert_eq!(file.read_step(0, 120), None);
    assert_eq!(file.offset(), 120);
    assert_eq!(file.write_step(8, 8, 0), 8);
    assert_eq!(file.offset(), 128);
}

fn leaked(bytes: Vec<u8>) -> &'static mut [u8] {
    Box::leak(bytes.into_boxed_slice())
}

#[test]
fn user_buffer_length() {
    let buf = UserBuffer::new(vec![leaked(vec![1, 2, 3]), leaked(vec![]), leaked(vec![4, 5])]);
    assert_eq!(buf.len(), 5);
    let empty = UserBuffer::new(Vec::new());
    assert_eq!(empty.len(), 0);
}

#[test]
fn user_buffer_bytes_in_order() {
    let buf = UserBuffer::new(vec![leaked(vec![7, 8]), leaked(vec![9])]);
    let mut it = buf.into_iter();
    assert_eq!(it.next_position(), Some((0, 0)));
    assert_eq!(it.next_position(), Some((0, 1)));
    assert_eq!((it.current_buffer, it.current_idx), (1, 0));
    assert_eq!(it.next_position(), Some((1, 0)));
    assert_eq!(it.next_position(), None);
    assert_eq!(it.next_position(), None);
    assert_eq!(it.buffers[0][1], 8);
}

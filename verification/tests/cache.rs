use ones::memory::cache::get::Back;
use ones::memory::cache::map::Direct;
use ones::memory::cache::replace::Clock;
use ones::memory::cache::{Cache, Get, Line, LineMap, Replace, LINE_BYTES, SIZE};
use ones::peripheral::Block;

/// A disk of 512-byte blocks; block `n` is filled with `n as u8` until
/// written.
struct MemDisk {
    writes: Vec<(usize, Vec<u8>)>,
    reads: Vec<usize>,
}

impl Block for MemDisk {
    fn spec_read(_before: Self, _after: Self, _address: usize, _data: vstd::seq::Seq<u8>) -> bool {
        true
    }
    fn spec_write(_before: Self, _after: Self, _address: usize, _data: vstd::seq::Seq<u8>) -> bool {
        true
    }
    fn read(&mut self, address: usize, cache: &mut [u8]) {
        self.reads.push(address);
        let stored = self.writes.iter().rev().find(|(a, _)| *a == address);
        for (i, b) in cache.iter_mut().enumerate() {
            *b = match stored {
                Some((_, data)) => data[i],
                None => address as u8,
            };
        }
    }
    fn write(&mut self, address: usize, cache: &[u8]) {
        self.writes.push((address, cache.to_vec()));
    }
}

fn disk() -> MemDisk {
    MemDisk { writes: Vec::new(), reads: Vec::new() }
}

fn line(valid: bool, used: bool, tag: usize) -> Line {
    let mut l = Line::new();
    l.valid = valid;
    l.used = used;
    l.tag = tag;
    l
}

#[test]
fn new_line() {
    let l = Line::new();
    assert!(!l.valid && l.used && !l.dirty);
    assert_eq!(l.tag, 0);
    assert_eq!(l.data, vec![0u8; LINE_BYTES]);
}

#[test]
fn direct_search_finds_first_valid_match() {
    let lines = vec![line(false, true, 5), line(true, true, 5), line(true, true, 5)];
    assert_eq!(Direct._search(&lines, 5), Ok(1));
    assert_eq!(Direct._search(&lines, 6), Err(()));
    assert_eq!(Direct._cache_line_range(&lines, 5), 0..3);
    let mut lines = lines;
    Direct._update_tag(&mut lines, 0, 9);
    assert_eq!(lines[0].tag, 9);
    assert_eq!(Direct.parse(0b1011, 1), (0b101, 1));
    assert_eq!(Direct.parse(0x1234, 8), (0x12, 0x34));
}

#[test]
fn clock_picks_first_unused_valid_line() {
    let mut lines = vec![line(true, true, 0), line(false, false, 0), line(true, false, 0), line(true, true, 0)];
    assert_eq!(Clock._replace(&mut lines, 0..4), 2);
    let used: Vec<bool> = lines.iter().map(|l| l.used).collect();
    assert_eq!(used, vec![false, false, false, true]);
}

#[test]
fn clock_without_candidate_clears_and_takes_first() {
    let mut lines = vec![line(true, true, 0), line(true, true, 0), line(false, true, 0)];
    assert_eq!(Clock._replace(&mut lines, 1..3), 1);
    let used: Vec<bool> = lines.iter().map(|l| l.used).collect();
    assert_eq!(used, vec![true, false, false]);
    assert_eq!(Clock._replace(&mut lines, 1..3), 1);
    assert_eq!(Clock._replace(&mut lines, 2..2), 0);
    #[allow(clippy::reversed_empty_ranges)]
    let reversed = 3..1;
    assert_eq!(Clock._replace(&mut lines, reversed), 0);
    let used: Vec<bool> = lines.iter().map(|l| l.used).collect();
    assert_eq!(used, vec![true, false, false]);
}

#[test]
fn back_hit_uses_cached_line() {
    let mut lines = vec![line(true, true, 3), line(true, true, 4)];
    lines[1].data = vec![7; LINE_BYTES];
    let mut d = disk();
    let k = Back.get_ref(&Direct, &Clock, &mut d, &mut lines, 4);
    assert_eq!(k, 1);
    assert!(d.reads.is_empty());
    assert_eq!(lines[1].data[0], 7);
}

#[test]
fn back_miss_writes_back_dirty_and_reads() {
    let mut lines = vec![line(true, false, 3)];
    lines[0].dirty = true;
    lines[0].data = vec![9; LINE_BYTES];
    let mut d = disk();
    let k = Back.get_mut(&Direct, &Clock, &mut d, &mut lines, 8);
    assert_eq!(k, 0);
    assert_eq!(lines[0].tag, 8);
    assert!(lines[0].dirty);
    assert_eq!(d.writes.len(), 1);
    assert_eq!(d.writes[0].0, 8);
    assert_eq!(d.reads, vec![8]);
    assert_eq!(lines[0].data[0], 9);
}

#[test]
fn cache_read_fetches_from_disk() {
    let mut cache = Cache::new(disk(), Direct, Clock, Back);
    let bytes = cache.read(6, 4);
    assert_eq!(bytes, vec![3u8; 4]);
    let bytes = cache.read(7, 3);
    assert_eq!(bytes, vec![3u8; 2]);
    assert_eq!(SIZE, 16);
}

#[test]
fn cache_write_then_read_rereads_the_disk() {
    let mut cache = Cache::new(disk(), Direct, Clock, Back);
    cache.write(4, &vec![1, 2, 3]);
    let bytes = cache.read(4, 3);
    assert_eq!(bytes, vec![2u8, 2, 2]);
}

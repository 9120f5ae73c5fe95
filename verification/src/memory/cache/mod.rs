//! A block cache in front of a block device.
//!
//! A byte address is split into a disk line (the high bits) and an offset
//! within the line (the low `line_bit` bits). Where a disk line may be
//! cached, how a line is found, which line is replaced and how a line is
//! fetched are pluggable.

pub mod get;
pub mod map;
pub mod replace;

use vstd::prelude::*;
use crate::peripheral::Block;

verus! {

/// The number of cache lines.
pub const SIZE: usize = 16;

/// The number of bytes of a cache line.
pub const LINE_BYTES: usize = 512;

/// A cache line: its state bits, the disk line it holds, and its bytes.
#[derive(Clone)]
pub struct Line {
    pub valid: bool,
    pub used: bool,
    pub dirty: bool,
    pub tag: usize,
    pub data: Vec<u8>,
}

impl Line {
    /// An invalid, clean line marked used, holding disk line 0 and
    /// `LINE_BYTES` zero bytes.
    pub fn new() -> (r: Self)
        ensures
            !r.valid,
            r.used,
            !r.dirty,
            r.tag == 0,
            r.data@ == Seq::new(LINE_BYTES as nat, |i: int| 0u8),
    {
        let mut data: Vec<u8> = Vec::new();
        let mut i: usize = 0;
        while i < LINE_BYTES
            invariant
                0 <= i <= LINE_BYTES,
                data@ == Seq::new(i as nat, |j: int| 0u8),
            decreases LINE_BYTES - i,
        {
            data.push(0);
            i += 1;
            proof {
                assert(data@ =~= Seq::new(i as nat, |j: int| 0u8));
            }
        }
        Self { valid: false, used: true, dirty: false, tag: 0, data }
    }
}

/// Every line keeps its number of bytes.
pub open spec fn same_line_lengths(a: Seq<Line>, b: Seq<Line>) -> bool {
    &&& a.len() == b.len()
    &&& forall|i: int| 0 <= i < a.len() ==> #[trigger] b[i].data@.len() == a[i].data@.len()
}

/// `b` is `a` with at most the used bits changed.
pub open spec fn same_but_used(a: Seq<Line>, b: Seq<Line>) -> bool {
    &&& a.len() == b.len()
    &&& forall|i: int| 0 <= i < a.len() ==> #[trigger] b[i] == (Line { used: b[i].used, ..a[i] })
}

/// The line `cache_line` of `lines` with its tag set to `disk_line`.
pub open spec fn with_tag(lines: Seq<Line>, cache_line: int, disk_line: usize) -> Seq<Line> {
    lines.update(cache_line, Line { tag: disk_line, ..lines[cache_line] })
}

/// Where disk lines may be cached, and how a cached one is found.
pub trait LineMap {
    /// The cache lines that may hold `disk_line`, as `start..end`.
    spec fn spec_range(&self, lines: Seq<Line>, disk_line: usize) -> (usize, usize);

    /// The cache line found to hold `disk_line`.
    spec fn spec_search(&self, lines: Seq<Line>, disk_line: usize) -> Result<usize, ()>;

    /// The cache lines that may hold `disk_line`.
    fn _cache_line_range(&self, line: &Vec<Line>, disk_line: usize) -> (r: core::ops::Range<usize>)
        ensures
            (r.start, r.end) == self.spec_range(line@, disk_line),
            r.start <= r.end <= line@.len(),
    ;

    /// The cache line that holds `disk_line`, if any.
    fn _search(&self, line: &Vec<Line>, disk_line: usize) -> (r: Result<usize, ()>)
        ensures
            r == self.spec_search(line@, disk_line),
            r matches Ok(i) ==> i < line@.len() && line@[i as int].valid && line@[i as int].tag
                == disk_line,
    ;

    /// Splits a byte address into its disk line and its offset within the
    /// line.
    fn parse(&self, address: usize, line_bit: usize) -> (r: (usize, usize))
        requires
            line_bit < usize::BITS,
        ensures
            r.0 == address >> line_bit,
            r.1 == address & (((1usize << line_bit) - 1) as usize),
    {
        let disk_line = address >> line_bit;

        assert((1usize << line_bit) >= 1usize) by (bit_vector)
            requires
                line_bit < usize::BITS,
        ;
        let mask = (1usize << line_bit) - 1;
        let offset = address & mask;

        (disk_line, offset)
    }

    /// Records that cache line `cache_line` holds `disk_line`; it should be
    /// one of the lines that may hold it.
    fn _update_tag(&self, line: &mut Vec<Line>, cache_line: usize, disk_line: usize)
        requires
            cache_line < old(line)@.len(),
        ensures
            final(line)@ == with_tag(old(line)@, cache_line as int, disk_line),
    ;
}

/// Which cache line is replaced.
pub trait Replace {
    /// The line replaced among `start..end`, and the lines after the
    /// replacement policy has updated its bookkeeping.
    spec fn spec_replace(&self, lines: Seq<Line>, start: usize, end: usize) -> (usize, Seq<Line>);

    /// Picks the line to replace among `cache_line_range`: one in the range,
    /// or 0 when the range is empty. Only the policy's bookkeeping (the used
    /// bits) changes.
    fn _replace(&self, line: &mut Vec<Line>, cache_line_range: core::ops::Range<usize>) -> (r: usize)
        requires
            cache_line_range.end <= old(line)@.len(),
        ensures
            same_but_used(old(line)@, final(line)@),
            (r, final(line)@) == self.spec_replace(
                old(line)@,
                cache_line_range.start,
                cache_line_range.end,
            ),
            same_line_lengths(old(line)@, final(line)@),
            cache_line_range.start < cache_line_range.end ==> cache_line_range.start <= r
                < cache_line_range.end,
            cache_line_range.start >= cache_line_range.end ==> r == 0,
    ;
}

/// The line a fetch of `disk_line` uses: the line that holds it on a hit,
/// else the replacement policy's choice among the lines that may hold it.
pub open spec fn fetch_choice<M: LineMap, R: Replace>(map: M, replace: R, lines: Seq<Line>, disk_line: usize) -> usize {
    match map.spec_search(lines, disk_line) {
        Ok(i) => i,
        Err(_) => {
            let range = map.spec_range(lines, disk_line);
            replace.spec_replace(lines, range.0, range.1).0
        },
    }
}

/// A fetch of `disk_line` takes the lines `lines` and the disk `d0` to the
/// lines `after` and the disk `d1`: on a hit nothing changes; on a miss the
/// chosen line holds the bytes the disk read of `disk_line` gave, and is
/// marked dirty when fetched for writing.
pub open spec fn fetch_effect<M: LineMap, R: Replace, D: Block>(
    map: M,
    replace: R,
    lines: Seq<Line>,
    d0: D,
    after: Seq<Line>,
    d1: D,
    disk_line: usize,
    for_write: bool,
) -> bool {
    match map.spec_search(lines, disk_line) {
        Ok(_) => after == lines && d1 == d0,
        Err(_) => {
            let v = fetch_choice(map, replace, lines, disk_line) as int;
            &&& exists|d: D| D::spec_read(d, d1, disk_line, #[trigger] after[v].data@)
            &&& for_write ==> after[v].dirty
        },
    }
}

/// `s` with `data` written over it from `off` on.
pub open spec fn overwritten(s: Seq<u8>, off: int, data: Seq<u8>) -> Seq<u8> {
    s.subrange(0, off) + data + s.subrange(off + data.len(), s.len() as int)
}

/// How a disk line is brought into the cache.
pub trait Get {
    /// Brings `disk_line` into a cache line for reading; returns that line.
    fn get_ref<M: LineMap, R: Replace, D: Block>(
        &self,
        map: &M,
        replace: &R,
        disk: &mut D,
        line: &mut Vec<Line>,
        disk_line: usize,
    ) -> (r: usize)
        requires
            old(line)@.len() > 0,
        ensures
            r < final(line)@.len(),
            final(line)@[r as int].tag == disk_line,
            same_line_lengths(old(line)@, final(line)@),
            forall|j: int|
                0 <= j < old(line)@.len() && j != r ==> #[trigger] final(line)@[j] == (Line {
                    used: final(line)@[j].used,
                    ..old(line)@[j]
                }),
            r == fetch_choice(*map, *replace, old(line)@, disk_line),
            fetch_effect(*map, *replace, old(line)@, *old(disk), final(line)@, *final(disk), disk_line, false),
    ;

    /// Brings `disk_line` into a cache line for writing; returns that line.
    fn get_mut<M: LineMap, R: Replace, D: Block>(
        &self,
        map: &M,
        replace: &R,
        disk: &mut D,
        line: &mut Vec<Line>,
        disk_line: usize,
    ) -> (r: usize)
        requires
            old(line)@.len() > 0,
        ensures
            r < final(line)@.len(),
            final(line)@[r as int].tag == disk_line,
            same_line_lengths(old(line)@, final(line)@),
            forall|j: int|
                0 <= j < old(line)@.len() && j != r ==> #[trigger] final(line)@[j] == (Line {
                    used: final(line)@[j].used,
                    ..old(line)@[j]
                }),
            r == fetch_choice(*map, *replace, old(line)@, disk_line),
            fetch_effect(*map, *replace, old(line)@, *old(disk), final(line)@, *final(disk), disk_line, true),
    ;
}

/// A cache of `SIZE` lines over the disk `D`.
pub struct Cache<D: Block, M: LineMap, R: Replace, G: Get> {
    /// The number of offset bits of an address.
    line_bit: usize,
    line: Vec<Line>,
    disk: D,
    map: M,
    replace: R,
    get: G,
}

impl<D: Block, M: LineMap, R: Replace, G: Get> Cache<D, M, R, G> {
    /// The number of offset bits of an address.
    pub closed spec fn spec_line_bit(&self) -> usize {
        self.line_bit
    }

    /// The cache lines.
    pub closed spec fn lines(&self) -> Seq<Line> {
        self.line@
    }

    /// The disk.
    pub closed spec fn spec_disk(&self) -> D {
        self.disk
    }

    /// Where disk lines may be cached.
    pub closed spec fn spec_map(&self) -> M {
        self.map
    }

    /// Which line is replaced.
    pub closed spec fn spec_replace(&self) -> R {
        self.replace
    }

    /// The line a read or write of `address` uses.
    pub open spec fn line_for(&self, address: usize) -> int {
        fetch_choice(self.spec_map(), self.spec_replace(), self.lines(), address >> 1usize) as int
    }

    /// `SIZE` lines of `LINE_BYTES` bytes each, and an offset that fits a
    /// line.
    pub closed spec fn wf(&self) -> bool {
        &&& self.line_bit == 1
        &&& self.line@.len() == SIZE
        &&& forall|i: int| 0 <= i < SIZE ==> #[trigger] self.line@[i].data@.len() == LINE_BYTES
    }

    /// A cache of `SIZE` fresh lines with one offset bit per address.
    pub fn new(disk: D, map: M, replace: R, get: G) -> (r: Self)
        ensures
            r.wf(),
            r.spec_line_bit() == 1,
            forall|i: int|
                0 <= i < SIZE ==> {
                    &&& !(#[trigger] r.lines()[i]).valid
                    &&& r.lines()[i].used
                    &&& !r.lines()[i].dirty
                    &&& r.lines()[i].tag == 0
                    &&& r.lines()[i].data@ == Seq::new(LINE_BYTES as nat, |j: int| 0u8)
                },
    {
        let mut line: Vec<Line> = Vec::new();
        let mut i: usize = 0;
        while i < SIZE
            invariant
                0 <= i <= SIZE,
                line@.len() == i,
                forall|j: int|
                    0 <= j < i ==> {
                        &&& !(#[trigger] line@[j]).valid
                        &&& line@[j].used
                        &&& !line@[j].dirty
                        &&& line@[j].tag == 0
                        &&& line@[j].data@ == Seq::new(LINE_BYTES as nat, |k: int| 0u8)
                    },
            decreases SIZE - i,
        {
            line.push(Line::new());
            i += 1;
        }
        Self { line_bit: 1, line, disk, map, replace, get }
    }

    /// Reads the bytes from the offset of `address` up to (not including)
    /// byte `number` of the line that holds `address`'s disk line, fetched
    /// through the fetch policy: on a hit the cached line as it is, on a
    /// miss the line the replacement policy picks, holding what the disk
    /// read of the disk line gave.
    pub fn read(&mut self, address: usize, number: usize) -> (r: Vec<u8>)
        requires
            old(self).wf(),
            address & 1 <= number <= LINE_BYTES,
        ensures
            final(self).wf(),
            r@.len() == number - (address & 1),
            final(self).spec_map() == old(self).spec_map(),
            final(self).spec_replace() == old(self).spec_replace(),
            ({
                let k = old(self).line_for(address);
                &&& 0 <= k < SIZE
                &&& final(self).lines()[k].tag == address >> 1usize
                &&& r@ == final(self).lines()[k].data@.subrange((address & 1) as int, number as int)
                &&& forall|j: int|
                    0 <= j < SIZE && j != k ==> #[trigger] final(self).lines()[j] == (Line {
                        used: final(self).lines()[j].used,
                        ..old(self).lines()[j]
                    })
                &&& fetch_effect(
                    old(self).spec_map(),
                    old(self).spec_replace(),
                    old(self).lines(),
                    old(self).spec_disk(),
                    final(self).lines(),
                    final(self).spec_disk(),
                    address >> 1usize,
                    false,
                )
            }),
    {
        let (disk_line, offset) = self.map.parse(address, self.line_bit);
        assert(offset == address & 1) by (bit_vector)
            requires
                offset == address & (((1usize << 1usize) - 1) as usize),
        ;

        let k = self.get.get_ref(&self.map, &self.replace, &mut self.disk, &mut self.line, disk_line);
        proof {
            assert(self.line@[k as int].data@.len() == LINE_BYTES);
        }

        let mut out: Vec<u8> = Vec::new();
        let mut i = offset;
        while i < number
            invariant
                offset <= i <= number <= LINE_BYTES,
                k < self.line@.len(),
                self.line@[k as int].data@.len() == LINE_BYTES,
                out@ == self.line@[k as int].data@.subrange(offset as int, i as int),
            decreases number - i,
        {
            out.push(self.line[k].data[i]);
            i += 1;
            proof {
                assert(out@ =~= self.line@[k as int].data@.subrange(offset as int, i as int));
            }
        }
        assert(out@ == self.lines()[k as int].data@.subrange(offset as int, number as int));
        out
    }

    /// Writes `data` into the line that holds `address`'s disk line, from
    /// the offset of `address` on. The line is first fetched for writing
    /// through the fetch policy (on a miss: the line the replacement policy
    /// picks, read from the disk and marked dirty); the rest of its bytes
    /// stay as fetched.
    pub fn write(&mut self, address: usize, data: &Vec<u8>)
        requires
            old(self).wf(),
            (address & 1) + data@.len() <= LINE_BYTES,
        ensures
            final(self).wf(),
            final(self).spec_map() == old(self).spec_map(),
            final(self).spec_replace() == old(self).spec_replace(),
            ({
                let k = old(self).line_for(address);
                &&& 0 <= k < SIZE
                &&& exists|fetched: Seq<Line>|
                    {
                        &&& fetched.len() == SIZE
                        &&& fetch_effect(
                            old(self).spec_map(),
                            old(self).spec_replace(),
                            old(self).lines(),
                            old(self).spec_disk(),
                            fetched,
                            final(self).spec_disk(),
                            address >> 1usize,
                            true,
                        )
                        &&& final(self).lines() == fetched.update(
                            k,
                            Line {
                                data: final(self).lines()[k].data,
                                ..fetched[k]
                            },
                        )
                        &&& final(self).lines()[k].data@ == overwritten(
                            fetched[k].data@,
                            (address & 1) as int,
                            data@,
                        )
                    }
                &&& final(self).lines()[k].tag == address >> 1usize
                &&& forall|j: int|
                    0 <= j < SIZE && j != k ==> #[trigger] final(self).lines()[j] == (Line {
                        used: final(self).lines()[j].used,
                        ..old(self).lines()[j]
                    })
            }),
    {
        let (disk_line, offset) = self.map.parse(address, self.line_bit);
        assert(offset == address & 1) by (bit_vector)
            requires
                offset == address & (((1usize << 1usize) - 1) as usize),
        ;

        let k = self.get.get_mut(&self.map, &self.replace, &mut self.disk, &mut self.line, disk_line);
        let ghost mid = self.line@;
        let ghost disk_mid = self.disk;

        let mut i: usize = 0;
        while i < data.len()
            invariant
                offset + data@.len() <= LINE_BYTES,
                self.line_bit == 1,
                self.line@.len() == SIZE,
                k < SIZE,
                self.line@[k as int].tag == address >> 1usize,
                forall|j: int| 0 <= j < SIZE ==> #[trigger] self.line@[j].data@.len() == LINE_BYTES,
                0 <= i <= data@.len(),
                self.line@[k as int].data@.subrange(offset as int, offset + i) == data@.subrange(0, i as int),
                mid.len() == SIZE,
                forall|j: int| 0 <= j < SIZE && j != k ==> #[trigger] self.line@[j] == mid[j],
                self.map == old(self).map,
                self.replace == old(self).replace,
                self.disk == disk_mid,
                self.line@[k as int] == (Line { data: self.line@[k as int].data, ..mid[k as int] }),
                forall|t: int|
                    0 <= t < LINE_BYTES ==> #[trigger] self.line@[k as int].data@[t] == if offset <= t
                        < offset + i {
                        data@[t - offset]
                    } else {
                        mid[k as int].data@[t]
                    },
            decreases data@.len() - i,
        {
            let ghost before = self.line@[k as int].data@;
            self.line[k].data.set(offset + i, data[i]);
            i += 1;
            proof {
                assert(self.line@[k as int].data@ == before.update(offset + i - 1, data@[i - 1]));
                assert(self.line@[k as int].data@.subrange(offset as int, offset + i) =~= data@.subrange(
                    0,
                    i as int,
                ));
            }
        }
        proof {
            assert(data@.subrange(0, data@.len() as int) =~= data@);
            assert(self.lines()[k as int].data@.subrange(offset as int, offset + data@.len()) == data@);
            assert(mid[k as int].data@.len() == LINE_BYTES);
            assert(self.line@[k as int].data@ =~= overwritten(mid[k as int].data@, offset as int, data@));
            assert(self.line@ =~= mid.update(
                k as int,
                Line { data: self.line@[k as int].data, ..mid[k as int] },
            ));
        }
    }
}

} // verus!

//! Page tables: entries, frames, and the frames a table holds.

pub mod entry;
pub mod frame;

use vstd::prelude::*;
use crate::Allocator;
use crate::memory::Flag;
use frame::Frame;
use frame::frame_allocator_ready;

verus! {

/// How a page is mapped: to a given frame, or to any free frame.
#[derive(Clone, Copy)]
pub enum Mapping {
    Fixed(usize),
    Random,
}

/// A page table: its root frame and the frames it holds.
pub struct Table {
    pub root: Frame,
    pub frame: Vec<Frame>,
}

impl Table {
    /// A table with a freshly allocated root frame and no other frame.
    pub fn new(allocator: &mut Option<Allocator>) -> (r: Self)
        requires
            frame_allocator_ready(*old(allocator)),
            old(allocator)->0@.can_alloc(),
            old(allocator)->0@.has_free(),
        ensures
            frame_allocator_ready(*final(allocator)),
            old(allocator)->0@.alloc_post(final(allocator)->0@, Ok(r.root.number)),
            r.frame@ == Seq::<Frame>::empty(),
    {
        let root = Frame::new(allocator);
        Self { root, frame: Vec::new() }
    }
}

/// The operations a platform provides on page tables.
pub trait Lib {
    /// `after` is the table `before` with page `page_num` mapped to a fresh
    /// frame with the given flags, as the platform's `map` does it.
    spec fn spec_map(before: Table, after: Table, page_num: usize, page_flag: Flag) -> bool;

    /// `after` is the table `before` with page `page_num` mapped to frame
    /// `frame_num` with the given flags, as the platform's `fixed_map` does
    /// it.
    spec fn spec_fixed_map(
        before: Table,
        after: Table,
        page_num: usize,
        frame_num: usize,
        page_flag: Flag,
    ) -> bool;

    /// Unmaps page `page_num`.
    fn unmap(table: &mut Table, page_num: usize);

    /// Maps page `page_num` to a fresh frame with the given flags.
    fn map(table: &mut Table, page_num: usize, page_flag: Flag)
        ensures
            Self::spec_map(*old(table), *final(table), page_num, page_flag),
    ;

    /// Maps page `page_num` to frame `frame_num` with the given flags.
    fn fixed_map(table: &mut Table, page_num: usize, frame_num: usize, page_flag: Flag)
        ensures
            Self::spec_fixed_map(*old(table), *final(table), page_num, frame_num, page_flag),
    ;

    /// The frame number and flags that page `page_num` is mapped with.
    fn get(table: &mut Table, page_num: usize) -> (usize, Flag);

    /// Copies `data` into the pages of `range`.
    fn copy_data(&mut self, range: (usize, usize), data: &[u8]);

    /// Maps every page of `start..=end`, in increasing order; `start` may
    /// not exceed `end`. The tables `ts` pass from the table before to the
    /// table after, one `map` of page `start + i` from `ts[i]` to `ts[i + 1]`.
    fn map_area(table: &mut Table, page_num: (usize, usize), page_flag: Flag)
        requires
            page_num.0 <= page_num.1,
        ensures
            exists|ts: Seq<Table>|
                {
                    &&& ts.len() == page_num.1 - page_num.0 + 2
                    &&& ts[0] == *old(table)
                    &&& ts.last() == *final(table)
                    &&& forall|i: int|
                        0 <= i <= page_num.1 - page_num.0 ==> #[trigger] Self::spec_map(
                            ts[i],
                            ts[i + 1],
                            (page_num.0 + i) as usize,
                            page_flag,
                        )
                },
    {
        let (start, end) = page_num;
        let n = end - start;
        let mut i: usize = 0;
        let ghost mut ts: Seq<Table> = seq![*table];
        loop
            invariant_except_break
                ts.len() == i + 1,
                forall|j: int| 0 <= j < i ==> #[trigger] Self::spec_map(
                    ts[j],
                    ts[j + 1],
                    (start + j) as usize,
                    page_flag,
                ),
            invariant
                start + n == end,
                i <= n,
                ts[0] == *old(table),
                ts.last() == *table,
            ensures
                ts.len() == n + 2,
                ts[0] == *old(table),
                ts.last() == *table,
                forall|j: int| 0 <= j <= n ==> #[trigger] Self::spec_map(
                    ts[j],
                    ts[j + 1],
                    (start + j) as usize,
                    page_flag,
                ),
            decreases n - i,
        {
            Self::map(table, start + i, page_flag);
            proof {
                ts = ts.push(*table);
            }
            if i == n {
                break;
            }
            i += 1;
        }
    }

    /// Maps the pages of `page.0..=page.1` to the frames from `frame` on, in
    /// increasing order; the first page may not exceed the last, and the
    /// frames may not run past the largest frame number. The tables `ts`
    /// pass from the table before to the table after, one `fixed_map` of
    /// page `page.0 + i` to frame `frame + i` from `ts[i]` to `ts[i + 1]`.
    fn fixed_map_area(table: &mut Table, page: (usize, usize), frame: usize, flag: Flag)
        requires
            page.0 <= page.1,
            frame + (page.1 - page.0) <= usize::MAX,
        ensures
            exists|ts: Seq<Table>|
                {
                    &&& ts.len() == page.1 - page.0 + 2
                    &&& ts[0] == *old(table)
                    &&& ts.last() == *final(table)
                    &&& forall|i: int|
                        0 <= i <= page.1 - page.0 ==> #[trigger] Self::spec_fixed_map(
                            ts[i],
                            ts[i + 1],
                            (page.0 + i) as usize,
                            (frame + i) as usize,
                            flag,
                        )
                },
    {
        let (start, end) = page;
        let n = end - start;
        let mut i: usize = 0;
        let ghost mut ts: Seq<Table> = seq![*table];
        loop
            invariant_except_break
                ts.len() == i + 1,
                forall|j: int| 0 <= j < i ==> #[trigger] Self::spec_fixed_map(
                    ts[j],
                    ts[j + 1],
                    (start + j) as usize,
                    (frame + j) as usize,
                    flag,
                ),
            invariant
                start + n == end,
                frame + n <= usize::MAX,
                i <= n,
                ts[0] == *old(table),
                ts.last() == *table,
            ensures
                ts.len() == n + 2,
                ts[0] == *old(table),
                ts.last() == *table,
                forall|j: int| 0 <= j <= n ==> #[trigger] Self::spec_fixed_map(
                    ts[j],
                    ts[j + 1],
                    (start + j) as usize,
                    (frame + j) as usize,
                    flag,
                ),
            decreases n - i,
        {
            Self::fixed_map(table, start + i, frame + i, flag);
            proof {
                ts = ts.push(*table);
            }
            if i == n {
                break;
            }
            i += 1;
        }
    }
}

} // verus!

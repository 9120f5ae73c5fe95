//! Write-back fetching.

use vstd::prelude::*;
use crate::peripheral::Block;
use super::Get;
use super::Line;
use super::LineMap;
use super::Replace;
use super::same_line_lengths;
use super::with_tag;

verus! {

/// The lines after `Back` fetched `disk_line` into line `v`, chosen by the
/// replacement policy that left the lines `after`: line `v` holds
/// `disk_line` with the policy's state bits (marked dirty when fetched for
/// writing, `dirty`), and its bytes are what the disk read gave; every other
/// line is as the policy left it.
pub open spec fn fetched(
    lines: Seq<Line>,
    after: Seq<Line>,
    v: int,
    disk_line: usize,
    dirty: bool,
) -> bool {
    &&& lines.len() == after.len()
    &&& 0 <= v < lines.len()
    &&& forall|j: int| 0 <= j < lines.len() && j != v ==> #[trigger] lines[j] == after[j]
    &&& lines[v].tag == disk_line
    &&& lines[v].valid == after[v].valid
    &&& lines[v].used == after[v].used
    &&& lines[v].dirty == (dirty || after[v].dirty)
    &&& lines[v].data@.len() == after[v].data@.len()
}

/// What `Back` asks of the disk when it fetches `address` into the line
/// `victim` (as the replacement policy left it, tagged anew): the line is
/// first written to the block at `address` when it is valid and dirty, then
/// the block at `address` is read as `data`; the disk goes from `before` to
/// `after`.
pub open spec fn disk_fetched<D: Block>(before: D, after: D, victim: Line, address: usize, data: Seq<u8>) -> bool {
    exists|written: D|
        {
            &&& if victim.valid && victim.dirty {
                D::spec_write(before, written, address, victim.data@)
            } else {
                written == before
            }
            &&& D::spec_read(written, after, address, data)
        }
}

/// Write-back fetching: a disk line already cached is used as it is;
/// otherwise the replacement policy picks a line among those that may
/// hold it, the line is tagged with it, written to the disk first when it
/// is valid and dirty, and then read from the disk. Fetching for writing
/// marks the line dirty.
pub struct Back;

impl Back {
    /// The common part of both fetches.
    fn fetch<M: LineMap, R: Replace, D: Block>(
        map: &M,
        replace: &R,
        disk: &mut D,
        line: &mut Vec<Line>,
        address: usize,
        for_write: bool,
    ) -> (r: usize)
        requires
            old(line)@.len() > 0,
        ensures
            r < final(line)@.len(),
            final(line)@[r as int].tag == address,
            same_line_lengths(old(line)@, final(line)@),
            forall|j: int|
                0 <= j < old(line)@.len() && j != r ==> #[trigger] final(line)@[j] == (Line {
                    used: final(line)@[j].used,
                    ..old(line)@[j]
                }),
            match map.spec_search(old(line)@, address) {
                Ok(i) => r == i && final(line)@ == old(line)@ && *final(disk) == *old(disk),
                Err(_) => {
                    let range = map.spec_range(old(line)@, address);
                    let (v, after) = replace.spec_replace(old(line)@, range.0, range.1);
                    &&& r == v
                    &&& fetched(final(line)@, after, v as int, address, for_write)
                    &&& disk_fetched(
                        *old(disk),
                        *final(disk),
                        with_tag(after, v as int, address)[v as int],
                        address,
                        final(line)@[v as int].data@,
                    )
                },
            },
    {
        if let Ok(offset) = map._search(line, address) {
            offset
        } else {
            let offset_range = map._cache_line_range(line, address);
            let offset = replace._replace(line, offset_range);
            let ghost after = line@;
            map._update_tag(line, offset, address);

            let ghost victim = line@[offset as int];
            let ghost d0 = *disk;
            let l = &mut line[offset];
            if l.valid && l.dirty {
                disk.write(address, l.data.as_slice());
            }
            let ghost written = *disk;
            if for_write {
                l.dirty = true;
            }
            disk.read(address, l.data.as_mut_slice());
            proof {
                assert(victim == with_tag(after, offset as int, address)[offset as int]);
                assert(victim.valid && victim.dirty ==> D::spec_write(d0, written, address, victim.data@));
                assert(!(victim.valid && victim.dirty) ==> written == d0);
            }

            offset
        }
    }
}

impl Get for Back {
    fn get_ref<M: LineMap, R: Replace, D: Block>(
        &self,
        map: &M,
        replace: &R,
        disk: &mut D,
        line: &mut Vec<Line>,
        address: usize,
    ) -> (r: usize)
        ensures
            match map.spec_search(old(line)@, address) {
                Ok(i) => r == i && final(line)@ == old(line)@ && *final(disk) == *old(disk),
                Err(_) => {
                    let range = map.spec_range(old(line)@, address);
                    let (v, after) = replace.spec_replace(old(line)@, range.0, range.1);
                    &&& r == v
                    &&& fetched(final(line)@, after, v as int, address, false)
                    &&& disk_fetched(
                        *old(disk),
                        *final(disk),
                        with_tag(after, v as int, address)[v as int],
                        address,
                        final(line)@[v as int].data@,
                    )
                },
            },
    {
        Self::fetch(map, replace, disk, line, address, false)
    }

    fn get_mut<M: LineMap, R: Replace, D: Block>(
        &self,
        map: &M,
        replace: &R,
        disk: &mut D,
        line: &mut Vec<Line>,
        address: usize,
    ) -> (r: usize)
        ensures
            match map.spec_search(old(line)@, address) {
                Ok(i) => r == i && final(line)@ == old(line)@ && *final(disk) == *old(disk),
                Err(_) => {
                    let range = map.spec_range(old(line)@, address);
                    let (v, after) = replace.spec_replace(old(line)@, range.0, range.1);
                    &&& r == v
                    &&& fetched(final(line)@, after, v as int, address, true)
                    &&& disk_fetched(
                        *old(disk),
                        *final(disk),
                        with_tag(after, v as int, address)[v as int],
                        address,
                        final(line)@[v as int].data@,
                    )
                },
            },
    {
        Self::fetch(map, replace, disk, line, address, true)
    }
}

} // verus!

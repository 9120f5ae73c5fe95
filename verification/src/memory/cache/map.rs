//! Fully associative placement: any line may hold any disk line.

use vstd::prelude::*;
use super::Line;
use super::LineMap;
use super::with_tag;

verus! {

/// The first valid line from `i` on that holds `disk_line`.
pub open spec fn search_from(lines: Seq<Line>, disk_line: usize, i: int) -> Result<usize, ()>
    decreases lines.len() - i,
{
    if i >= lines.len() {
        Err(())
    } else if lines[i].valid && lines[i].tag == disk_line {
        Ok(i as usize)
    } else {
        search_from(lines, disk_line, i + 1)
    }
}

/// Any line may hold any disk line; a disk line is found by scanning the
/// lines in order.
pub struct Direct;

impl LineMap for Direct {
    open spec fn spec_range(&self, lines: Seq<Line>, disk_line: usize) -> (usize, usize) {
        (0, lines.len() as usize)
    }

    open spec fn spec_search(&self, lines: Seq<Line>, disk_line: usize) -> Result<usize, ()> {
        search_from(lines, disk_line, 0)
    }

    fn _cache_line_range(&self, line: &Vec<Line>, _address: usize) -> (r: core::ops::Range<usize>) {
        0..line.len()
    }

    fn _search(&self, line: &Vec<Line>, address: usize) -> (r: Result<usize, ()>) {
        let mut i: usize = 0;
        while i < line.len()
            invariant
                0 <= i <= line@.len(),
                search_from(line@, address, 0) == search_from(line@, address, i as int),
            decreases line@.len() - i,
        {
            let valid = line[i].valid;
            let tag = line[i].tag;

            if valid && tag == address {
                return Ok(i);
            }
            i += 1;
        }

        Err(())
    }

    fn _update_tag(&self, line: &mut Vec<Line>, offset: usize, address: usize) {
        line[offset].tag = address;
        proof {
            assert(line@ =~= with_tag(old(line)@, offset as int, address));
        }
    }
}

/// What a search with `Direct` finds: the first valid line that holds the
/// disk line, or `Err` when no valid line holds it.
pub proof fn lemma_search_finds_first(lines: Seq<Line>, disk_line: usize, i: int)
    requires
        0 <= i <= lines.len(),
        lines.len() <= usize::MAX,
    ensures
        search_from(lines, disk_line, i) matches Ok(k) ==> {
            &&& i <= k < lines.len()
            &&& lines[k as int].valid
            &&& lines[k as int].tag == disk_line
            &&& forall|j: int| i <= j < k ==> !(#[trigger] lines[j].valid && lines[j].tag == disk_line)
        },
        search_from(lines, disk_line, i) is Err ==> forall|j: int|
            i <= j < lines.len() ==> !(#[trigger] lines[j].valid && lines[j].tag == disk_line),
    decreases lines.len() - i,
{
    if i < lines.len() {
        lemma_search_finds_first(lines, disk_line, i + 1);
    }
}

} // verus!

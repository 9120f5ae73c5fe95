//! Clock replacement.

use vstd::prelude::*;
use super::Line;
use super::Replace;
use super::same_line_lengths;
use super::same_but_used;

verus! {

/// The first line among `i..end` that is valid and not recently used.
pub open spec fn clock_victim(lines: Seq<Line>, i: int, end: int) -> Option<int>
    decreases end - i,
{
    if i >= end {
        None
    } else if lines[i].valid && !lines[i].used {
        Some(i)
    } else {
        clock_victim(lines, i + 1, end)
    }
}

/// `lines` with the used bit cleared on the lines `start..stop`.
pub open spec fn clear_used(lines: Seq<Line>, start: int, stop: int) -> Seq<Line> {
    Seq::new(
        lines.len(),
        |j: int|
            if start <= j < stop {
                Line { used: false, ..lines[j] }
            } else {
                lines[j]
            },
    )
}

/// Clock replacement: the lines of the range are visited in order; the
/// first valid line not used since the last visit is replaced, and every
/// line visited before it loses its used bit. When there is no such line,
/// every line of the range loses its used bit and the first is replaced.
pub struct Clock;

impl Replace for Clock {
    open spec fn spec_replace(&self, lines: Seq<Line>, start: usize, end: usize) -> (usize, Seq<Line>) {
        match clock_victim(lines, start as int, end as int) {
            Some(k) => (k as usize, clear_used(lines, start as int, k)),
            None => (
                if start < end {
                    start
                } else {
                    0
                },
                clear_used(lines, start as int, end as int),
            ),
        }
    }

    fn _replace(&self, line: &mut Vec<Line>, offset_range: core::ops::Range<usize>) -> (r: usize) {
        let start = offset_range.start;
        let end = offset_range.end;
        let ghost lines = old(line)@;

        let first = if start < end {
            let valid = line[start].valid;

            if valid && line[start].used == false {
                proof {
                    lemma_clear_used_lengths(lines, start as int, start as int);
                    assert(line@ =~= clear_used(lines, start as int, start as int));
                }
                return start;
            } else {
                line[start].used = false;
            }

            start
        } else {
            0
        };

        let mut i = if start < end {
            start + 1
        } else {
            end
        };
        proof {
            if start >= end {
                assert(line@ =~= clear_used(lines, start as int, i as int));
            }
        }
        while i < end
            invariant
                lines == old(line)@,
                start == offset_range.start,
                end == offset_range.end,
                i <= end <= lines.len(),
                start < end ==> first == start && i >= start + 1,
                start >= end ==> first == 0 && i == end,
                clock_victim(lines, start as int, end as int) == clock_victim(lines, i as int, end as int),
                line@ =~= clear_used(lines, start as int, i as int),
            decreases end - i,
        {
            let valid = line[i].valid;

            if valid && line[i].used == false {
                proof {
                    assert(line@[i as int] == lines[i as int]);
                    assert(clock_victim(lines, i as int, end as int) == Some(i as int));
                    lemma_clear_used_lengths(lines, start as int, i as int);
                }
                return i;
            } else {
                line[i].used = false;
                proof {
                    assert(line@ =~= clear_used(lines, start as int, i + 1));
                }
            }
            i += 1;
        }

        proof {
            lemma_clear_used_lengths(lines, start as int, end as int);
        }
        first
    }
}

/// Clearing used bits keeps every line's bytes and everything but its
/// used bit.
proof fn lemma_clear_used_lengths(lines: Seq<Line>, start: int, stop: int)
    ensures
        same_line_lengths(lines, clear_used(lines, start, stop)),
        same_but_used(lines, clear_used(lines, start, stop)),
{
}

} // verus!

verus! {

/// The line that clock replacement picks is the first line of the range
/// that is valid and not recently used; when there is none, no line of the
/// range is.
pub proof fn lemma_clock_victim_first(lines: Seq<Line>, i: int, end: int)
    requires
        0 <= i <= end <= lines.len(),
    ensures
        clock_victim(lines, i, end) matches Some(k) ==> {
            &&& i <= k < end
            &&& lines[k].valid && !lines[k].used
            &&& forall|j: int| i <= j < k ==> !(#[trigger] lines[j].valid && !lines[j].used)
        },
        clock_victim(lines, i, end) is None ==> forall|j: int|
            i <= j < end ==> !(#[trigger] lines[j].valid && !lines[j].used),
    decreases end - i,
{
    if i < end {
        lemma_clock_victim_first(lines, i + 1, end);
    }
}

} // verus!

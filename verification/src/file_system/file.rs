//! Open files.
//!
//! A file is opened with flags and keeps the offset at which the next read
//! or write happens; the offset moves on with every byte read or written.
//! Reads and writes go buffer by buffer: a read stops at the first buffer
//! into which nothing could be read, and every write must write its whole
//! buffer.
//!
//! A user request is a list of buffers, walked byte by byte in order.

use vstd::prelude::*;
use super::Flag;

verus! {

/// An open file: its flags and the offset of the next read or write.
pub struct File {
    flag: Flag,
    offset: usize,
}

impl File {
    /// The flags the file was opened with.
    pub closed spec fn spec_flag(&self) -> Flag {
        self.flag
    }

    /// The offset of the next read or write.
    pub closed spec fn spec_offset(&self) -> usize {
        self.offset
    }

    /// A file opened with `flag`, at offset 0.
    pub fn new(flag: Flag) -> (r: Self)
        ensures
            r.spec_flag() == flag,
            r.spec_offset() == 0,
    {
        Self { flag, offset: 0 }
    }

    /// The offset of the next read or write.
    pub fn offset(&self) -> (r: usize)
        ensures
            r == self.spec_offset(),
    {
        self.offset
    }

    /// Accounts for a read of `read_size` bytes into one buffer, with
    /// `total` bytes read so far: `None` when nothing was read, and the read
    /// stops; otherwise the offset moves on and the new total is returned.
    pub fn read_step(&mut self, read_size: usize, total: usize) -> (r: Option<usize>)
        requires
            old(self).spec_offset() + read_size <= usize::MAX,
            total + read_size <= usize::MAX,
        ensures
            final(self).spec_flag() == old(self).spec_flag(),
            read_size == 0 ==> r is None && final(self).spec_offset() == old(self).spec_offset(),
            read_size != 0 ==> r == Some((total + read_size) as usize) && final(self).spec_offset()
                == old(self).spec_offset() + read_size,
    {
        if read_size == 0 {
            return None;
        }
        self.offset += read_size;
        Some(total + read_size)
    }

    /// Accounts for a write of `write_size` bytes of a buffer of
    /// `buffer_len` bytes, with `total` bytes written so far: the whole
    /// buffer must have been written; the offset moves on and the new total
    /// is returned.
    pub fn write_step(&mut self, write_size: usize, buffer_len: usize, total: usize) -> (r: usize)
        requires
            write_size == buffer_len,
            old(self).spec_offset() + write_size <= usize::MAX,
            total + write_size <= usize::MAX,
        ensures
            final(self).spec_flag() == old(self).spec_flag(),
            final(self).spec_offset() == old(self).spec_offset() + write_size,
            r == total + write_size,
    {
        self.offset += write_size;
        total + write_size
    }
}

/// The total length of the buffers in `lengths`.
pub open spec fn total_len(lengths: Seq<nat>) -> nat
    decreases lengths.len(),
{
    if lengths.len() == 0 {
        0
    } else {
        total_len(lengths.drop_last()) + lengths.last()
    }
}

/// The lengths of `buffers`.
pub open spec fn buffer_lengths(buffers: Seq<&'static mut [u8]>) -> Seq<nat> {
    buffers.map_values(|b: &'static mut [u8]| b@.len())
}

proof fn lemma_total_len_take_step(lengths: Seq<nat>, i: int)
    requires
        0 <= i < lengths.len(),
    ensures
        total_len(lengths.take(i + 1)) == total_len(lengths.take(i)) + lengths[i],
{
    assert(lengths.take(i + 1).drop_last() =~= lengths.take(i));
}

proof fn lemma_total_len_take_bound(lengths: Seq<nat>, k: int)
    requires
        0 <= k <= lengths.len(),
    ensures
        total_len(lengths.take(k)) <= total_len(lengths),
    decreases lengths.len() - k,
{
    if k < lengths.len() {
        lemma_total_len_take_step(lengths, k);
        lemma_total_len_take_bound(lengths, k + 1);
    } else {
        assert(lengths.take(k) =~= lengths);
    }
}

/// The buffers of a user request.
pub struct UserBuffer {
    pub buffers: Vec<&'static mut [u8]>,
}

impl UserBuffer {
    /// The request made of `buffers`.
    pub fn new(buffers: Vec<&'static mut [u8]>) -> (r: Self)
        ensures
            r.buffers@ == buffers@,
    {
        Self { buffers }
    }

    /// The number of bytes of all buffers together.
    pub fn len(&self) -> (r: usize)
        requires
            total_len(buffer_lengths(self.buffers@)) <= usize::MAX,
        ensures
            r == total_len(buffer_lengths(self.buffers@)),
    {
        let ghost lengths = buffer_lengths(self.buffers@);
        let mut total: usize = 0;
        let mut i: usize = 0;
        while i < self.buffers.len()
            invariant
                0 <= i <= self.buffers@.len(),
                lengths == buffer_lengths(self.buffers@),
                total == total_len(lengths.take(i as int)),
                total_len(lengths) <= usize::MAX,
            decreases self.buffers@.len() - i,
        {
            let n = self.buffers[i].len();
            proof {
                lemma_total_len_take_step(lengths, i as int);
                lemma_total_len_take_bound(lengths, i + 1);
            }
            total += n;
            i += 1;
        }
        proof {
            assert(lengths.take(lengths.len() as int) =~= lengths);
        }
        total
    }

    /// The bytes of the request, from the first byte of the first buffer
    /// on.
    pub fn into_iter(self) -> (r: UserBufferIterator)
        ensures
            r.buffers@ == self.buffers@,
            r.current_buffer == 0,
            r.current_idx == 0,
    {
        UserBufferIterator { buffers: self.buffers, current_buffer: 0, current_idx: 0 }
    }
}

/// The bytes of a user request, one by one: the buffers and the position
/// of the next byte.
pub struct UserBufferIterator {
    pub buffers: Vec<&'static mut [u8]>,
    pub current_buffer: usize,
    pub current_idx: usize,
}

/// One step of a walk over buffers of the given lengths, from position
/// `p` (buffer, index) to position `q`, giving `r`: past the last buffer
/// nothing moves and nothing is given; else `p` is given and the walk moves
/// to the next byte of the buffer, or to the first byte of the next one.
pub open spec fn walk_step(lengths: Seq<nat>, p: (int, int), q: (int, int), r: Option<(usize, usize)>) -> bool {
    if p.0 >= lengths.len() {
        r is None && q == p
    } else {
        &&& r == Some((p.0 as usize, p.1 as usize))
        &&& q == if p.1 + 1 == lengths[p.0] {
            (p.0 + 1, 0int)
        } else {
            (p.0, p.1 + 1)
        }
    }
}

/// Where a walk from the first byte stands after `k` steps, `k` at most
/// the total length: at byte `k` of the buffers laid end to end, or past
/// the last buffer once every byte has been given.
pub open spec fn walk_at(lengths: Seq<nat>, p: (int, int), k: int) -> bool {
    if k < total_len(lengths) {
        &&& 0 <= p.0 < lengths.len()
        &&& 0 <= p.1 < lengths[p.0]
        &&& total_len(lengths.take(p.0)) + p.1 == k
    } else {
        p.0 == lengths.len()
    }
}

proof fn lemma_walk_prefix(lengths: Seq<nat>, states: Seq<(int, int)>, results: Seq<Option<(usize, usize)>>, k: int)
    requires
        forall|i: int| 0 <= i < lengths.len() ==> #[trigger] lengths[i] > 0,
        states.len() == results.len() + 1,
        states[0] == (0int, 0int),
        forall|i: int| 0 <= i < results.len() ==> #[trigger] walk_step(lengths, states[i], states[i + 1], results[i]),
        0 <= k <= results.len(),
    ensures
        k <= total_len(lengths) ==> walk_at(lengths, states[k], k),
        k > total_len(lengths) ==> states[k].0 == lengths.len(),
    decreases k,
{
    lemma_total_len_take_bound(lengths, lengths.len() as int);
    assert(lengths.take(lengths.len() as int) =~= lengths);
    if k == 0 {
        assert(lengths.take(0) =~= Seq::<nat>::empty());
        if total_len(lengths) > 0 {
            if lengths.len() == 0 {
                assert(total_len(lengths) == 0);
            }
            assert(lengths[0] > 0);
        } else {
            if lengths.len() > 0 {
                lemma_total_len_take_step(lengths, 0);
                lemma_total_len_take_bound(lengths, 1);
                assert(lengths[0] > 0);
                assert(false);
            }
        }
    } else {
        let j = k - 1;
        lemma_walk_prefix(lengths, states, results, j);
        assert(walk_step(lengths, states[j], states[j + 1], results[j]));
        let p = states[j];
        if j < total_len(lengths) {
            lemma_total_len_take_step(lengths, p.0);
            lemma_total_len_take_bound(lengths, p.0 + 1);
            if p.1 + 1 == lengths[p.0] {
                if p.0 + 1 < lengths.len() {
                    lemma_total_len_take_step(lengths, p.0 + 1);
                    lemma_total_len_take_bound(lengths, p.0 + 2);
                    assert(lengths[p.0 + 1] > 0);
                } else {
                    assert(lengths.take(p.0 + 1) =~= lengths);
                }
            }
        }
    }
}

/// Walking buffers that are all non-empty from the first byte of the first
/// one: call `k` gives the position of byte `k` of the buffers laid end to
/// end while `k` is below their total length, and nothing from then on.
pub proof fn lemma_walk_gives_bytes_in_order(
    lengths: Seq<nat>,
    states: Seq<(int, int)>,
    results: Seq<Option<(usize, usize)>>,
    k: int,
)
    requires
        forall|i: int| 0 <= i < lengths.len() ==> #[trigger] lengths[i] > 0,
        states.len() == results.len() + 1,
        states[0] == (0int, 0int),
        forall|i: int| 0 <= i < results.len() ==> #[trigger] walk_step(lengths, states[i], states[i + 1], results[i]),
        lengths.len() <= usize::MAX,
        total_len(lengths) <= usize::MAX,
        0 <= k < results.len(),
    ensures
        k < total_len(lengths) ==> {
            &&& results[k] matches Some((b, i))
            &&& b < lengths.len()
            &&& i < lengths[b as int]
            &&& total_len(lengths.take(b as int)) + i == k
        },
        k >= total_len(lengths) ==> results[k] is None,
{
    lemma_walk_prefix(lengths, states, results, k);
    assert(walk_step(lengths, states[k], states[k + 1], results[k]));
    if k < total_len(lengths) {
        let p = states[k];
        assert((p.0 as usize) as int == p.0);
        assert((p.1 as usize) as int == p.1);
    }
}

impl UserBufferIterator {
    /// The position (buffer, index) of the next byte, or `None` past the
    /// last buffer; moves on to the byte after it: the next one of the same
    /// buffer, or else the first one of the next buffer. The position must
    /// lie within its buffer.
    pub fn next_position(&mut self) -> (r: Option<(usize, usize)>)
        requires
            old(self).current_buffer < old(self).buffers@.len() ==> old(self).current_idx < old(
                self,
            ).buffers@[old(self).current_buffer as int]@.len(),
        ensures
            final(self).buffers@ == old(self).buffers@,
            old(self).current_buffer >= old(self).buffers@.len() ==> {
                &&& r is None
                &&& final(self).current_buffer == old(self).current_buffer
                &&& final(self).current_idx == old(self).current_idx
            },
            old(self).current_buffer < old(self).buffers@.len() ==> {
                &&& r == Some((old(self).current_buffer, old(self).current_idx))
                &&& if old(self).current_idx + 1 == old(self).buffers@[old(
                    self,
                ).current_buffer as int]@.len() {
                    &&& final(self).current_buffer == old(self).current_buffer + 1
                    &&& final(self).current_idx == 0
                } else {
                    &&& final(self).current_buffer == old(self).current_buffer
                    &&& final(self).current_idx == old(self).current_idx + 1
                }
            },
            walk_step(
                buffer_lengths(old(self).buffers@),
                (old(self).current_buffer as int, old(self).current_idx as int),
                (final(self).current_buffer as int, final(self).current_idx as int),
                r,
            ),
    {
        if self.current_buffer >= self.buffers.len() {
            None
        } else {
            let r = (self.current_buffer, self.current_idx);
            let len = self.buffers[self.current_buffer].len();
            if self.current_idx + 1 == len {
                self.current_idx = 0;
                self.current_buffer += 1;
            } else {
                self.current_idx += 1;
            }
            Some(r)
        }
    }
}

} // verus!

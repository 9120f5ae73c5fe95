//! Physical frames, handed out by a frame allocator.

use vstd::prelude::*;
use crate::Allocator;
use crate::AllocatorView;

verus! {

/// The state that the frame allocator slot may hold: `None` before it is
/// initialised.
pub open spec fn frame_allocator_ready(slot: Option<Allocator>) -> bool {
    slot is Some
}

/// A physical frame, by number.
#[derive(Clone)]
pub struct Frame {
    pub number: usize,
}

impl Frame {
    /// Allocates a frame; the allocator must have one to give.
    pub fn new(allocator: &mut Option<Allocator>) -> (r: Self)
        requires
            frame_allocator_ready(*old(allocator)),
            old(allocator)->0@.can_alloc(),
            old(allocator)->0@.has_free(),
        ensures
            frame_allocator_ready(*final(allocator)),
            old(allocator)->0@.alloc_post(final(allocator)->0@, Ok(r.number)),
    {
        match allocator {
            Some(a) => {
                let number = a.allocate();
                match number {
                    Ok(number) => Self { number },
                    Err(_) => {
                        proof {
                            assert(false);
                        }
                        Self { number: 0 }
                    },
                }
            },
            None => {
                proof {
                    assert(false);
                }
                Self { number: 0 }
            },
        }
    }

    /// Allocates `n` contiguous frames, the lowest first; the allocator must
    /// have that many fresh frames left.
    pub fn new_contig(allocator: &mut Option<Allocator>, n: usize) -> (r: Vec<Self>)
        requires
            frame_allocator_ready(*old(allocator)),
            1 <= old(allocator)->0@.head + n <= usize::MAX,
            old(allocator)->0@.head + n - 1 <= old(allocator)->0@.tail,
        ensures
            frame_allocator_ready(*final(allocator)),
            old(allocator)->0@.alloc_contig_post(
                n as int,
                final(allocator)->0@,
                Ok(old(allocator)->0@.head as usize),
            ),
            r.len() == n,
            forall|i: int| 0 <= i < n ==> #[trigger] r[i].number == old(allocator)->0@.head + i,
    {
        let base = match allocator {
            Some(a) => {
                match a.alloc_contig(n) {
                    Ok(base) => base,
                    Err(_) => {
                        proof {
                            assert(false);
                        }
                        0
                    },
                }
            },
            None => {
                proof {
                    assert(false);
                }
                0
            },
        };

        let mut frames: Vec<Self> = Vec::new();
        let mut i: usize = 0;
        while i < n
            invariant
                0 <= i <= n,
                base + n - 1 <= usize::MAX,
                frames.len() == i,
                forall|j: int| 0 <= j < i ==> #[trigger] frames[j].number == base + j,
            decreases n - i,
        {
            frames.push(Frame { number: base + i });
            i += 1;
        }
        frames
    }

    /// Sets up the frame allocator with the frames `head..=tail`, unless it
    /// is set up already.
    pub fn init(allocator: &mut Option<Allocator>, head: usize, tail: usize)
        requires
            *old(allocator) is None ==> head <= tail,
        ensures
            *old(allocator) is Some ==> *final(allocator) == *old(allocator),
            *old(allocator) is None ==> (*final(allocator) matches Some(a) && a@ == (AllocatorView {
                head: head as int,
                tail: tail as int,
                recycled: Seq::empty(),
            })),
    {
        if allocator.is_none() {
            match Allocator::new(head, tail) {
                Ok(a) => {
                    *allocator = Some(a);
                },
                Err(_) => {},
            }
        }
    }

    /// Gives the frame back to the allocator.
    pub fn release(self, allocator: &mut Option<Allocator>)
        requires
            frame_allocator_ready(*old(allocator)),
            old(allocator)->0@.can_dealloc(self.number),
        ensures
            frame_allocator_ready(*final(allocator)),
            old(allocator)->0@.dealloc_post(self.number, final(allocator)->0@),
    {
        match allocator {
            Some(a) => a.dealloc(self.number),
            None => {},
        }
    }
}

} // verus!

verus! {

/// A frame given back while no other frame is given back is the next frame
/// handed out, and the allocator is then as it was before the frame was
/// given back.
pub proof fn lemma_release_then_new(
    before: Option<Allocator>,
    released: Option<Allocator>,
    after: Option<Allocator>,
    frame: usize,
    number: usize,
)
    requires
        frame_allocator_ready(before),
        before->0@.recycled.len() == 0,
        before->0@.dealloc_post(frame, released->0@),
        released->0@.alloc_post(after->0@, Ok(number)),
    ensures
        number == frame,
        after->0@ == before->0@,
{
    crate::lemma_dealloc_then_allocate(before->0@, released->0@, after->0@, frame, Ok(number));
}

} // verus!

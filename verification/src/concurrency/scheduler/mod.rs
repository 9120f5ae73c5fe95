//! A scheduler of identifiers: which one runs, which are ready, which are
//! blocked.

pub mod inner;

use vstd::prelude::*;
use crate::Allocator;
use crate::AllocatorView;

verus! {

/// The identifiers of schedulable units and their states.
pub struct Scheduler {
    pub running: Option<usize>,
    pub ready: std::collections::VecDeque<usize>,
    pub blocked: std::collections::VecDeque<usize>,
    pub completed: Vec<usize>,
    pub allocator: Allocator,
}

impl Scheduler {
    /// Identifier 0 stays reserved: the allocator hands out no identifier
    /// below 1.
    pub open spec fn wf(&self) -> bool {
        &&& self.allocator@.wf()
        &&& self.allocator@.head >= 1
        &&& forall|i: int|
            0 <= i < self.allocator@.recycled.len() ==> #[trigger] self.allocator@.recycled[i] >= 1
    }

    /// A scheduler of the identifiers `1..cap`; identifier 0 is reserved.
    /// The capacity must leave at least one identifier.
    pub fn new(cap: usize) -> (r: Self)
        requires
            cap >= 2,
        ensures
            r.wf(),
            r.running is None,
            r.ready@ == Seq::<usize>::empty(),
            r.blocked@ == Seq::<usize>::empty(),
            r.completed@ == Seq::<usize>::empty(),
            r.allocator@ == (AllocatorView { head: 1, tail: cap - 1, recycled: Seq::empty() }),
    {
        let allocator = Allocator::new(1, cap - 1).unwrap();
        Self {
            running: None,
            ready: std::collections::VecDeque::new(),
            blocked: std::collections::VecDeque::new(),
            completed: Vec::new(),
            allocator,
        }
    }

    /// Allocates an identifier and makes it ready; there must be one left.
    pub fn add(&mut self) -> (r: usize)
        requires
            old(self).allocator@.can_alloc(),
            old(self).allocator@.has_free(),
        ensures
            final(self).allocator@.wf(),
            old(self).allocator@.alloc_post(final(self).allocator@, Ok(r)),
            r == old(self).allocator@.next_id(),
            old(self).wf() ==> final(self).wf() && r >= 1,
            final(self).ready@ == old(self).ready@.push(r),
            final(self).running == old(self).running,
            final(self).blocked@ == old(self).blocked@,
            final(self).completed@ == old(self).completed@,
    {
        let ghost before = self.allocator@;
        let id = self.allocator.allocate().unwrap();
        proof {
            if old(self).wf() {
                lemma_reserved_id_never_allocated(before, self.allocator@, id);
            }
        }

        self.ready.push_back(id);

        id
    }

    /// Stops the running identifier and returns it; one must be running.
    pub fn terminate(&mut self) -> (r: usize)
        requires
            old(self).running is Some,
        ensures
            r == old(self).running->0,
            final(self).running is None,
            final(self).ready@ == old(self).ready@,
            final(self).blocked@ == old(self).blocked@,
            final(self).completed@ == old(self).completed@,
            final(self).allocator@ == old(self).allocator@,
    {
        let id = self.running.unwrap();

        self.running = None;

        id
    }

    /// Runs the first ready identifier and returns it; it is also queued as
    /// blocked. Some identifier must be ready.
    pub fn switch_s(&mut self) -> (r: usize)
        requires
            old(self).ready@.len() > 0,
        ensures
            r == old(self).ready@[0],
            final(self).running == Some(r),
            final(self).ready@ == old(self).ready@.drop_first(),
            final(self).blocked@ == old(self).blocked@.push(r),
            final(self).completed@ == old(self).completed@,
            final(self).allocator@ == old(self).allocator@,
    {
        let next = self.ready.pop_front().unwrap();
        self.running = Some(next);

        if let Some(current) = self.running {
            self.blocked.push_back(current);
        }

        next
    }

    /// Runs the first ready identifier and returns it; it is also queued
    /// again at the back of the ready queue. Some identifier must be ready.
    pub fn preempt(&mut self) -> (r: usize)
        requires
            old(self).ready@.len() > 0,
        ensures
            r == old(self).ready@[0],
            final(self).running == Some(r),
            final(self).ready@ == old(self).ready@.drop_first().push(r),
            final(self).blocked@ == old(self).blocked@,
            final(self).completed@ == old(self).completed@,
            final(self).allocator@ == old(self).allocator@,
    {
        let next = self.ready.pop_front().unwrap();
        self.running = Some(next);

        if let Some(current) = self.running {
            self.ready.push_back(current);
        }

        next
    }
}

} // verus!

verus! {

/// Identifier 0 is reserved: an allocator that starts above 0 and is only
/// given back identifiers above 0 never hands out 0, and keeps so.
pub proof fn lemma_reserved_id_never_allocated(a: AllocatorView, b: AllocatorView, id: usize)
    requires
        a.wf(),
        a.head >= 1,
        forall|i: int| 0 <= i < a.recycled.len() ==> #[trigger] a.recycled[i] >= 1,
        a.alloc_post(b, Ok(id)),
    ensures
        id >= 1,
        b.head >= 1,
        forall|i: int| 0 <= i < b.recycled.len() ==> #[trigger] b.recycled[i] >= 1,
{
    if a.recycled.len() > 0 {
        crate::lemma_exists_first_min(a.recycled);
        let m = crate::first_min_index(a.recycled);
        assert forall|i: int| 0 <= i < b.recycled.len() implies #[trigger] b.recycled[i] >= 1 by {
            if i < m {
                assert(b.recycled[i] == a.recycled[i]);
            } else {
                assert(b.recycled[i] == a.recycled[i + 1]);
            }
        }
    }
}

} // verus!

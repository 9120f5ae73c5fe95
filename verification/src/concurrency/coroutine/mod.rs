//! Coroutines and the coroutine scheduler.

pub mod context;

use vstd::prelude::*;
use context::Context;
use crate::concurrency::scheduler::Scheduler as S;

verus! {

/// A coroutine: its id and its saved context.
#[derive(Clone)]
pub struct Coroutine {
    pub id: usize,
    pub cx: Context,
}

/// Context switching that a platform provides.
pub trait Dep {
    /// Saves the current context at `current` and loads the one at `next`,
    /// both given as addresses.
    fn switch(current: usize, next: usize);
}

/// The coroutines, by id, and the scheduler of coroutine ids.
pub struct Scheduler {
    pub coroutine: Vec<Option<Coroutine>>,
    pub id: S,
}

/// The coroutine id that the next call of `Coroutine::new` allocates.
pub open spec fn next_cid(scheduler: Scheduler) -> usize {
    scheduler.id.allocator@.next_id() as usize
}

impl Coroutine {
    /// Creates a coroutine with context `cx` and schedules it: allocates its
    /// id, records it in the coroutine's slot and returns the id.
    pub fn new(scheduler: &mut Scheduler, cx: Context) -> (r: usize)
        requires
            old(scheduler).id.allocator@.can_alloc(),
            old(scheduler).id.allocator@.has_free(),
            next_cid(*old(scheduler)) < old(scheduler).coroutine@.len(),
        ensures
            r == next_cid(*old(scheduler)),
            final(scheduler).coroutine@ == old(scheduler).coroutine@.update(
                r as int,
                Some(Coroutine { id: r, cx }),
            ),
            final(scheduler).id.allocator@.wf(),
            old(scheduler).id.allocator@.alloc_post(final(scheduler).id.allocator@, Ok(r)),
            final(scheduler).id.ready@ == old(scheduler).id.ready@.push(r),
            final(scheduler).id.running == old(scheduler).id.running,
            final(scheduler).id.blocked@ == old(scheduler).id.blocked@,
    {
        let id = scheduler.id.add();

        let coroutine = Self { id, cx };
        scheduler.coroutine.set(id, Some(coroutine));

        id
    }

    /// The coroutine with id 0 and an empty context: the idle control flow.
    pub fn empty() -> (r: Self)
        ensures
            r.id == 0,
            r.cx.ra == 0,
            r.cx.sp == 0,
            r.cx.s@ == Seq::new(12, |i: int| 0usize),
    {
        Self { id: 0, cx: Context::empty() }
    }
}

} // verus!

//! Threads and the thread scheduler.
//!
//! Every thread runs one call of a function of the program, from the
//! function's entry until it returns.

pub mod context;

use vstd::prelude::*;
use crate::concurrency::process::Manager;
use crate::concurrency::scheduler::Scheduler as S;
use crate::runtime::Segment;
use crate::runtime::address_space::AddressSpace;
use crate::runtime::address_space::INTERVENE_TEXT;
use crate::runtime::address_space::stack_segment;
use crate::runtime::address_space::stack_start;
use crate::runtime::address_space::bits_rw;
use crate::runtime::address_space::intervene_page;

verus! {

/// Thread creation that a platform provides.
pub trait Lib {
    /// Creates a thread of process `pid`; returns its thread id.
    fn new(pid: usize) -> usize;
}

/// A thread. Its coroutines keep no state here.
#[derive(Clone)]
pub struct Thread {
    pub pid: usize,
    pub tid: usize,
    pub idata: usize,
}

/// The threads, by thread id, and the scheduler of thread ids.
pub struct Scheduler {
    pub thread: Vec<Option<Thread>>,
    pub id: S,
}

/// The thread id that the next call of `Thread::new` allocates.
pub open spec fn next_tid(scheduler: Scheduler) -> usize {
    scheduler.id.allocator@.next_id() as usize
}

impl Thread {
    /// Creates a thread of process `pid` and schedules it: allocates its
    /// thread id, records it in the thread's slot, and returns the id with
    /// the thread's dynamic segments: its user stack in the process, of
    /// `ustack_size` pages beyond its first, its intervene stack, and its
    /// kernel stack in the kernel process 0, of `kstack_size` pages beyond
    /// its first.
    pub fn new(
        scheduler: &mut Scheduler,
        manager: &Manager,
        pid: usize,
        ustack_size: usize,
        kstack_size: usize,
    ) -> (r: (usize, Vec<Segment>))
        requires
            old(scheduler).id.allocator@.can_alloc(),
            old(scheduler).id.allocator@.has_free(),
            next_tid(*old(scheduler)) < old(scheduler).thread@.len(),
            pid < manager.process@.len(),
            stack_start(
                manager.process@[pid as int].address_space.stack_base,
                next_tid(*old(scheduler)),
                ustack_size,
            ) + ustack_size <= usize::MAX,
            stack_start(
                manager.process@[0].address_space.stack_base,
                next_tid(*old(scheduler)),
                kstack_size,
            ) + kstack_size <= usize::MAX,
            2 * next_tid(*old(scheduler)) + 1 <= INTERVENE_TEXT,
        ensures
            r.0 == next_tid(*old(scheduler)),
            r.1@.len() == 3,
            r.1@[0]@ == stack_segment(
                manager.process@[pid as int].address_space.stack_base,
                r.0,
                ustack_size,
            ),
            r.1@[1]@ == ((intervene_page(r.0), intervene_page(r.0)), bits_rw()),
            r.1@[2]@ == stack_segment(
                manager.process@[0].address_space.stack_base,
                r.0,
                kstack_size,
            ),
            final(scheduler).thread@ == old(scheduler).thread@.update(
                r.0 as int,
                Some(Thread { pid, tid: r.0, idata: 0 }),
            ),
            old(scheduler).id.wf() ==> r.0 >= 1 && final(scheduler).id.wf(),
            final(scheduler).id.allocator@.wf(),
            old(scheduler).id.allocator@.alloc_post(final(scheduler).id.allocator@, Ok(r.0)),
            final(scheduler).id.ready@ == old(scheduler).id.ready@.push(r.0),
            final(scheduler).id.running == old(scheduler).id.running,
            final(scheduler).id.blocked@ == old(scheduler).id.blocked@,
    {
        let mut segement: Vec<Segment> = Vec::new();

        let tid = scheduler.id.add();

        let process = &manager.process[pid];
        segement.push(process.address_space.stack_of_size(tid, ustack_size));
        segement.push(AddressSpace::idata(tid));

        let kernel = &manager.process[0];
        segement.push(kernel.address_space.stack_of_size(tid, kstack_size));

        let thread = Thread { pid, tid, idata: 0 };

        scheduler.thread.set(tid, Some(thread));

        (tid, segement)
    }
}

} // verus!

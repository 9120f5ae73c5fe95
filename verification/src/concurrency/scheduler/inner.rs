//! A scheduler of the threads of processes that implement
//! [`Process`](crate::concurrency::process::model::Process).

use vstd::prelude::*;
use crate::Allocator;
use crate::AllocatorView;
use crate::concurrency::process::model::Process;
use crate::runtime::address_space::INTERVENE_TEXT;

verus! {

/// The number of pages of a kernel stack.
pub const STACK_SIZE: usize = 1;

/// What a kernel scheduler provides.
pub trait Scheduler: Sized {
    fn new() -> Self;

    fn new_process(&mut self, elf: &[u8]);
}

/// Processes, the ready queue of (process id, thread id) pairs, the running
/// pair, and the allocator of kernel stacks.
pub struct ModelScheduler<P: Process> {
    pub process: Vec<P>,
    pub ready: std::collections::VecDeque<(usize, usize)>,
    pub running: (usize, usize),
    /// Kernel stack number allocator.
    pub allocator: Allocator,
}

impl<P: Process> ModelScheduler<P> {
    /// The allocator of kernel stack numbers.
    pub open spec fn stacks(&self) -> AllocatorView {
        self.allocator@
    }

    /// The scheduler with only the kernel process, running thread 0 of
    /// process 0, and kernel stacks 0 to 255 free.
    pub fn new() -> (r: Self)
        ensures
            r.process@.len() == 1,
            call_ensures(P::new_kernel, (), r.process@[0]),
            r.ready@.len() == 0,
            r.running == (0usize, 0usize),
            r.stacks() == (AllocatorView { head: 0, tail: 255, recycled: Seq::empty() }),
    {
        let mut process: Vec<P> = Vec::new();
        process.push(P::new_kernel());

        ModelScheduler {
            process,
            ready: std::collections::VecDeque::new(),
            running: (0, 0),
            allocator: Allocator::new(0, 255).unwrap(),
        }
    }

    /// Forks the running process: its child is placed at the index of the
    /// child's identifier, and thread 0 of the running process is queued as
    /// ready. `Err`, with nothing placed or queued, when the child's
    /// identifier lies beyond the end of the process list.
    pub fn fork(&mut self) -> (r: Result<(), ()>)
        requires
            old(self).running.0 < old(self).process@.len(),
        ensures
            final(self).running == old(self).running,
            final(self).stacks() == old(self).stacks(),
            exists|parent: P, child: P|
                {
                    &&& P::spec_fork(old(self).process@[old(self).running.0 as int], parent, child)
                    &&& (r is Ok <==> child.spec_id() <= old(self).process@.len())
                    &&& r is Ok ==> final(self).process@ == old(self).process@.update(
                        old(self).running.0 as int,
                        parent,
                    ).insert(child.spec_id() as int, child)
                    &&& r is Err ==> final(self).process@ == old(self).process@.update(
                        old(self).running.0 as int,
                        parent,
                    )
                },
            r is Ok ==> final(self).ready@ == old(self).ready@.push((old(self).running.0, 0usize)),
            r is Err ==> final(self).ready@ == old(self).ready@,
    {
        let (pid, _) = self.running;
        let child = self.process[pid].fork();
        let ghost forked = self.process@;
        assert(forked == old(self).process@.update(pid as int, forked[pid as int]));
        assert(P::spec_fork(old(self).process@[pid as int], forked[pid as int], child));
        let id = child.id();
        if id <= self.process.len() {
            let ghost c = child;
            self.process.insert(id, child);
            self.ready.push_back((pid, 0));
            assert(self.process@ == old(self).process@.update(pid as int, forked[pid as int]).insert(
                id as int,
                c,
            ));
            Ok(())
        } else {
            Err(())
        }
    }

    /// Takes the last ready pair off the ready queue and makes it the
    /// running pair; returns it. Some pair must be ready.
    pub fn switch_to_ready(&mut self) -> (r: (usize, usize))
        requires
            old(self).ready@.len() > 0,
        ensures
            r == old(self).ready@.last(),
            final(self).ready@ == old(self).ready@.drop_last(),
            final(self).running == r,
            final(self).process@ == old(self).process@,
            final(self).stacks() == old(self).stacks(),
    {
        let (pid, tid) = self.ready.pop_back().unwrap();
        self.running = (pid, tid);
        (pid, tid)
    }

    /// The running pair, whose context is saved when switching to the idle
    /// control flow.
    pub fn switch_to_idle(&mut self) -> (r: (usize, usize))
        ensures
            r == old(self).running,
            *final(self) == *old(self),
    {
        let (pid, tid) = self.running;
        (pid, tid)
    }

    /// Allocates a kernel stack and returns its first and last page: the
    /// stacks lie just below the intervene text, one page each, the stack of
    /// number `n` at page `INTERVENE_TEXT - n - 1`.
    pub fn alloc_kernel_stack(&mut self) -> (r: (usize, usize))
        requires
            old(self).stacks().has_free(),
            old(self).stacks().can_alloc(),
            old(self).stacks().next_id() + 1 <= INTERVENE_TEXT,
        ensures
            final(self).stacks().wf(),
            old(self).stacks().alloc_post(final(self).stacks(), Ok(old(self).stacks().next_id() as usize)),
            r.0 == INTERVENE_TEXT - old(self).stacks().next_id() - 1,
            r.1 == r.0,
            final(self).process@ == old(self).process@,
            final(self).ready@ == old(self).ready@,
            final(self).running == old(self).running,
    {
        let id = self.allocator.allocate().unwrap();
        let start = INTERVENE_TEXT - id * STACK_SIZE - 1;
        let end = start + STACK_SIZE - 1;

        (start, end)
    }
}

} // verus!

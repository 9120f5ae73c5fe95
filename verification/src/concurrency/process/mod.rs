//! Processes and the process manager.

pub mod model;
pub mod thread;

use vstd::prelude::*;
use crate::Allocator;
use crate::AllocatorView;
use crate::memory::page::Table;
use crate::memory::page::frame::frame_allocator_ready;
use crate::runtime::address_space::AddressSpace;

verus! {

/// The number of process slots of the manager.
pub const PROCESS_SLOTS: usize = 16;

/// Process creation that a platform may provide. Without an
/// implementation of its own, neither method creates a process and both
/// return 0.
pub trait Lib {
    /// Forks `process`; returns the child's identifier. Without an
    /// implementation of its own: returns 0 and leaves `process` as it is.
    fn fork(_process: &mut Process) -> (r: usize)
        default_ensures
            r == 0,
            *final(_process) == *old(_process),
    {
        0
    }

    /// Creates a child of `process` with the program of `address_space`
    /// loaded into it; returns the child's identifier. Without an
    /// implementation of its own: returns 0 and leaves `process` as it is.
    fn spawn(_process: &mut Process, _address_space: AddressSpace) -> (r: usize)
        default_ensures
            r == 0,
            *final(_process) == *old(_process),
    {
        0
    }
}

/// A process: its address space, page table, threads and relatives.
pub struct Process {
    pub id: usize,
    pub address_space: AddressSpace,
    pub page_table: Table,
    /// Thread identifiers.
    pub thread: Vec<usize>,
    pub parent: Option<usize>,
    pub children: Vec<usize>,
}

/// The process manager: process identifiers and one slot per identifier.
pub struct Manager {
    pub allocator: Allocator,
    pub process: Vec<Process>,
}

/// The frame allocator can hand out `n` more frames, each without
/// overflowing its counter.
pub open spec fn frames_available(slot: Option<Allocator>, n: int) -> bool {
    &&& frame_allocator_ready(slot)
    &&& slot->0@.tail < usize::MAX
    &&& slot->0@.recycled.len() + (slot->0@.tail - slot->0@.head + 1) >= n
}

impl Manager {
    /// Every identifier the allocator can hand out names a slot.
    pub open spec fn wf(&self) -> bool {
        &&& self.allocator@.tail < self.process@.len()
        &&& self.allocator@.tail < usize::MAX
        &&& forall|i: int|
            0 <= i < self.allocator@.recycled.len() ==> #[trigger] self.allocator@.recycled[i]
                < self.process@.len()
    }

    /// A manager of the identifiers `0..PROCESS_SLOTS`, each slot holding an
    /// empty process with a page table of its own.
    pub fn new(frames: &mut Option<Allocator>) -> (r: Self)
        requires
            frames_available(*old(frames), PROCESS_SLOTS as int),
        ensures
            r.wf(),
            r.allocator@ == (AllocatorView {
                head: 0,
                tail: PROCESS_SLOTS - 1,
                recycled: Seq::empty(),
            }),
            r.process@.len() == PROCESS_SLOTS,
            forall|i: int|
                0 <= i < PROCESS_SLOTS ==> {
                    &&& (#[trigger] r.process@[i]).id == 0
                    &&& r.process@[i].thread@.len() == 0
                    &&& r.process@[i].parent is None
                    &&& r.process@[i].children@.len() == 0
                    &&& r.process@[i].address_space.segement@.len() == 0
                    &&& r.process@[i].page_table.frame@.len() == 0
                },
            frame_allocator_ready(*final(frames)),
    {
        let allocator = Allocator::new(0, PROCESS_SLOTS - 1).unwrap();
        let mut process: Vec<Process> = Vec::new();
        let mut i: usize = 0;
        while i < PROCESS_SLOTS
            invariant
                0 <= i <= PROCESS_SLOTS,
                process@.len() == i,
                forall|j: int|
                    0 <= j < i ==> {
                        &&& (#[trigger] process@[j]).id == 0
                        &&& process@[j].thread@.len() == 0
                        &&& process@[j].parent is None
                        &&& process@[j].children@.len() == 0
                        &&& process@[j].address_space.segement@.len() == 0
                        &&& process@[j].page_table.frame@.len() == 0
                    },
                frames_available(*frames, PROCESS_SLOTS - i),
            decreases PROCESS_SLOTS - i,
        {
            process.push(Process::empty(frames));
            i += 1;
        }
        Manager { allocator, process }
    }
}

impl Process {
    /// A process with identifier 0, nothing in it, and a fresh page table.
    fn empty(frames: &mut Option<Allocator>) -> (r: Self)
        requires
            frames_available(*old(frames), 1),
        ensures
            r.id == 0,
            r.thread@.len() == 0,
            r.parent is None,
            r.children@.len() == 0,
            r.address_space.segement@.len() == 0,
            r.page_table.frame@.len() == 0,
            old(frames)->0@.alloc_post(final(frames)->0@, Ok(r.page_table.root.number)),
            forall|n: int|
                #![trigger frames_available(*final(frames), n)]
                frames_available(*old(frames), n + 1) ==> frames_available(*final(frames), n),
    {
        proof {
            if frames->0@.recycled.len() > 0 {
                crate::lemma_exists_first_min(frames->0@.recycled);
            }
        }
        let page_table = Table::new(frames);
        Self {
            id: 0,
            address_space: AddressSpace::empty(),
            thread: Vec::new(),
            parent: None,
            children: Vec::new(),
            page_table,
        }
    }

    /// Allocates a process identifier and places a new process with the
    /// given address space and a fresh page table in its slot; returns the
    /// identifier. An identifier and a frame must be left.
    pub fn new(manager: &mut Manager, frames: &mut Option<Allocator>, address_space: AddressSpace) -> (r: usize)
        requires
            old(manager).wf(),
            old(manager).allocator@.has_free(),
            frames_available(*old(frames), 1),
        ensures
            final(manager).wf(),
            r == old(manager).allocator@.next_id(),
            old(manager).allocator@.alloc_post(final(manager).allocator@, Ok(r)),
            r < old(manager).process@.len(),
            final(manager).process@.len() == old(manager).process@.len(),
            forall|i: int|
                0 <= i < old(manager).process@.len() && i != r ==> #[trigger] final(manager).process@[i]
                    == old(manager).process@[i],
            final(manager).process@[r as int].id == r,
            final(manager).process@[r as int].address_space == address_space,
            final(manager).process@[r as int].thread@.len() == 0,
            final(manager).process@[r as int].parent is None,
            final(manager).process@[r as int].children@.len() == 0,
            final(manager).process@[r as int].page_table.frame@.len() == 0,
            old(frames)->0@.alloc_post(
                final(frames)->0@,
                Ok(final(manager).process@[r as int].page_table.root.number),
            ),
            frame_allocator_ready(*final(frames)),
    {
        let ghost ids = manager.allocator@;
        proof {
            if ids.recycled.len() > 0 {
                crate::lemma_exists_first_min(ids.recycled);
            }
        }
        let id = manager.allocator.allocate().unwrap();
        proof {
            if ids.recycled.len() > 0 {
                let m = crate::first_min_index(ids.recycled);
                assert forall|i: int| 0 <= i < manager.allocator@.recycled.len() implies #[trigger] manager.allocator@.recycled[i]
                    < manager.process@.len() by {
                    if i < m {
                        assert(manager.allocator@.recycled[i] == ids.recycled[i]);
                    } else {
                        assert(manager.allocator@.recycled[i] == ids.recycled[i + 1]);
                    }
                }
            }
        }
        let page_table = Table::new(frames);

        let process = Process {
            id,
            address_space,
            thread: Vec::new(),
            parent: None,
            children: Vec::new(),
            page_table,
        };

        manager.process.set(id, process);

        id
    }

    /// Gives the process's identifier back to the manager.
    pub fn release(&self, manager: &mut Manager)
        requires
            old(manager).wf(),
            old(manager).allocator@.can_dealloc(self.id),
        ensures
            final(manager).wf(),
            old(manager).allocator@.dealloc_post(self.id, final(manager).allocator@),
            final(manager).process@ == old(manager).process@,
    {
        manager.allocator.dealloc(self.id);
    }
}

} // verus!

//! The process interface that schedulers work with, and a process model
//! built from an ELF image.

use vstd::prelude::*;
use crate::Allocator;
use crate::AllocatorView;
use crate::concurrency::process::thread::Thread;
use crate::concurrency::process::thread::context::Context;
use crate::runtime::address_space::AddressSpace;
use crate::runtime::address_space::elf_address_space;
use crate::runtime::address_space::empty_address_space;
use crate::runtime::address_space::elf_stack_base;
use crate::runtime::address_space::load_headers;
use crate::runtime::address_space::segment_views;
use crate::runtime::address_space::elf_loadable;
use crate::runtime::address_space::elf_program_headers;
use crate::runtime::elf::elf_header;
use crate::runtime::elf::ElfImage;
use crate::runtime::elf::elf_image;
use crate::runtime::elf::header_aligned;

verus! {

/// What a process provides to a scheduler.
pub trait Process: Sized {
    /// A process running the program of an ELF image.
    fn new(elf_data: &[u8]) -> Self;

    /// The process identifier.
    spec fn spec_id(&self) -> usize;

    /// `parent` is the process `before` after it forked `child`.
    spec fn spec_fork(before: Self, parent: Self, child: Self) -> bool;

    fn id(&self) -> (r: usize)
        ensures
            r == self.spec_id(),
    ;

    /// Starts a thread at `entry` with argument `arg`; returns its thread
    /// identifier. Without an implementation of its own, no thread is
    /// started: the process stays as it is and 0 is returned.
    fn spawn(&mut self, entry: usize, arg: usize) -> (r: usize)
        default_ensures
            r == 0,
            *final(self) == *old(self),
    {
        0
    }

    /// The kernel process.
    fn new_kernel() -> Self;

    /// A copy of the process as a child of it.
    fn fork(&mut self) -> (child: Self)
        ensures
            Self::spec_fork(*old(self), *final(self), child),
    ;

    fn get_context_mut(&mut self, tid: usize) -> &mut Context;

    fn get_context_ref(&self, tid: usize) -> &Context;
}

/// A process: its address space, threads, relatives, and the allocator of
/// its thread identifiers.
pub struct ModelProcess<T: Thread> {
    pub id: usize,
    pub address_space: AddressSpace,
    pub thread: Vec<T>,
    pub parent: Option<usize>,
    pub children: Vec<usize>,
    /// Thread id allocator.
    pub allocator: Allocator,
}

impl<T: Thread> ModelProcess<T> {
    /// Process `pid` running the program of the ELF image `elf_data`, with
    /// its main thread 0; thread identifiers 1 to 15 are left to allocate.
    /// When `elf_data` does not start at an address aligned for the ELF
    /// parser's header records, the address space is the empty one.
    pub fn new(pid: usize, elf_data: &[u8]) -> (r: Self)
        requires
            elf_loadable(elf_data@),
        ensures
            r.id == pid,
            elf_address_space(
                r.address_space,
                elf_header(elf_data@)->0,
                elf_program_headers(elf_data@, elf_header(elf_data@)->0.ph_count),
            ) || empty_address_space(r.address_space),
            r.thread@.len() == 1,
            call_ensures(T::new, (pid, 0usize), r.thread@[0]),
            r.parent is None,
            r.children@.len() == 0,
            r.allocator@ == (AllocatorView { head: 1, tail: 15, recycled: Seq::empty() }),
    {
        let image = elf_image(elf_data);
        Self::from_image(pid, &image)
    }

    /// Process `pid` running the program of the ELF image `image` (see
    /// [`ModelProcess::new`]): its address space is the image's layout when
    /// the image's address is aligned for the parser's header records, else
    /// the empty one.
    pub fn from_image(pid: usize, image: &ElfImage) -> (r: Self)
        requires
            elf_loadable(image.bytes()),
        ensures
            r.id == pid,
            header_aligned(image.bytes(), image.spec_address()) ==> elf_address_space(
                r.address_space,
                elf_header(image.bytes())->0,
                elf_program_headers(image.bytes(), elf_header(image.bytes())->0.ph_count),
            ),
            !header_aligned(image.bytes(), image.spec_address()) ==> empty_address_space(
                r.address_space,
            ),
            r.thread@.len() == 1,
            call_ensures(T::new, (pid, 0usize), r.thread@[0]),
            r.parent is None,
            r.children@.len() == 0,
            r.allocator@ == (AllocatorView { head: 1, tail: 15, recycled: Seq::empty() }),
    {
        let (address_space, data) = AddressSpace::layout_of(image);
        Self::with_address_space(pid, address_space)
    }

    /// Process `pid` in `address_space`, with its main thread 0.
    fn with_address_space(pid: usize, address_space: AddressSpace) -> (r: Self)
        ensures
            r.id == pid,
            r.address_space == address_space,
            r.thread@.len() == 1,
            call_ensures(T::new, (pid, 0usize), r.thread@[0]),
            r.parent is None,
            r.children@.len() == 0,
            r.allocator@ == (AllocatorView { head: 1, tail: 15, recycled: Seq::empty() }),
    {
        let allocator = Allocator::new(1, 15).unwrap();

        let mut thread: Vec<T> = Vec::new();
        thread.push(T::new(pid, 0));

        ModelProcess { id: pid, address_space, thread, parent: None, children: Vec::new(), allocator }
    }

    /// Process `pid` running the program of `elf_data` (see
    /// [`ModelProcess::new`]), or `None` when the image cannot be read whole
    /// or laid out, or does not start at an address aligned for the ELF
    /// parser's header records.
    pub fn try_new(pid: usize, elf_data: &[u8]) -> (r: Option<Self>)
        ensures
            !elf_loadable(elf_data@) ==> r is None,
            r matches Some(p) ==> {
                &&& elf_loadable(elf_data@)
                &&& p.id == pid
                &&& elf_address_space(
                    p.address_space,
                    elf_header(elf_data@)->0,
                    elf_program_headers(elf_data@, elf_header(elf_data@)->0.ph_count),
                )
                &&& p.thread@.len() == 1
                &&& call_ensures(T::new, (pid, 0usize), p.thread@[0])
                &&& p.parent is None
                &&& p.children@.len() == 0
                &&& p.allocator@ == (AllocatorView { head: 1, tail: 15, recycled: Seq::empty() })
            },
    {
        match AddressSpace::try_from_elf(elf_data) {
            Some((address_space, _)) => Some(Self::with_address_space(pid, address_space)),
            None => None,
        }
    }

    /// Gives the process identifier back to the allocator of process
    /// identifiers.
    pub fn release(&self, pids: &mut Allocator)
        requires
            old(pids)@.can_dealloc(self.id),
        ensures
            final(pids)@.wf(),
            old(pids)@.dealloc_post(self.id, final(pids)@),
    {
        pids.dealloc(self.id);
    }
}

/// A process made by `from_image` from a loadable image that the parser can
/// read in place runs that image's program: its address space has the
/// header's entry point, one segment for each `LOAD` program header, and
/// the stack base after the last loaded page; and it has one thread, with
/// thread identifiers from 1 left to hand out.
pub proof fn lemma_process_runs_image<T: Thread>(elf: Seq<u8>, address: usize, pid: usize, made: ModelProcess<T>)
    requires
        elf_loadable(elf),
        header_aligned(elf, address),
        made.id == pid,
        header_aligned(elf, address) ==> elf_address_space(
            made.address_space,
            elf_header(elf)->0,
            elf_program_headers(elf, elf_header(elf)->0.ph_count),
        ),
        made.thread@.len() == 1,
        made.allocator@ == (AllocatorView { head: 1, tail: 15, recycled: Seq::empty() }),
    ensures
        made.address_space.entry == elf_header(elf)->0.entry_point as usize,
        made.address_space.segement@.len() == load_headers(
            elf_program_headers(elf, elf_header(elf)->0.ph_count),
        ).len(),
        made.address_space.stack_base == elf_stack_base(
            elf_program_headers(elf, elf_header(elf)->0.ph_count),
        ),
        made.allocator@.next_id() == 1,
{
    assert(segment_views(made.address_space.segement@).len() == made.address_space.segement@.len());
}

} // verus!

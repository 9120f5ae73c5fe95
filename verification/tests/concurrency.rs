use ones::concurrency::coroutine::context::Context as CoContext;
use ones::concurrency::coroutine::{Coroutine, Scheduler as CoroutineScheduler};
use ones::concurrency::process::model::{ModelProcess, Process as ProcessTrait};
use ones::concurrency::process::thread::context::Context as ProcessContext;
use ones::concurrency::process::thread::{ModelThread, Thread as ThreadTrait};
use ones::concurrency::process::{Manager, Process};
use ones::concurrency::scheduler::inner::ModelScheduler;
use ones::concurrency::scheduler::Scheduler;
use ones::concurrency::thread::context::Context as ThreadContext;
use ones::concurrency::thread::{Scheduler as ThreadScheduler, Thread};
use ones::memory::page::frame::Frame;
use ones::runtime::address_space::{AddressSpace, INTERVENE_TEXT};
use ones::Allocator;

#[test]
fn scheduler_add_and_switch() {
    let mut s = Scheduler::new(4);
    assert_eq!(s.running, None);
    assert_eq!(s.add(), 1);
    assert_eq!(s.add(), 2);
    assert_eq!(s.ready.iter().copied().collect::<Vec<_>>(), vec![1, 2]);
    assert_eq!(s.switch_s(), 1);
    assert_eq!(s.running, Some(1));
    assert_eq!(s.blocked.iter().copied().collect::<Vec<_>>(), vec![1]);
    assert_eq!(s.ready.iter().copied().collect::<Vec<_>>(), vec![2]);
    assert_eq!(s.terminate(), 1);
    assert_eq!(s.running, None);
}

#[test]
fn scheduler_preempt_rotates() {
    let mut s = Scheduler::new(8);
    s.add();
    s.add();
    s.add();
    assert_eq!(s.preempt(), 1);
    assert_eq!(s.ready.iter().copied().collect::<Vec<_>>(), vec![2, 3, 1]);
    assert_eq!(s.preempt(), 2);
    assert_eq!(s.running, Some(2));
    assert_eq!(s.ready.iter().copied().collect::<Vec<_>>(), vec![3, 1, 2]);
}

#[test]
fn scheduler_never_hands_out_zero() {
    let mut s = Scheduler::new(2);
    assert_eq!(s.add(), 1);
}

#[test]
fn contexts_start_empty() {
    let c = ProcessContext::new(0x100, 0x200);
    assert_eq!((c.pc, c.sp, c.s), (0x200, 0x100, [0; 12]));
    let e = ProcessContext::empty();
    assert_eq!((e.pc, e.sp), (0, 0));
    let t = ThreadContext::new(5, 0x8000);
    assert_eq!((t.status, t.pc, t.data_reg), (5, 0x8000, [0; 32]));
    let te = ThreadContext::empty();
    assert_eq!((te.status, te.pc), (0, 0));
    let co = CoContext::new(0x10, 0x20);
    assert_eq!((co.ra, co.sp, co.s), (0x10, 0x20, [0; 12]));
    let ce = CoContext::empty();
    assert_eq!((ce.ra, ce.sp), (0, 0));
}

#[test]
fn model_thread() {
    let t = ModelThread::new(3, 4);
    assert_eq!((t.pid, t.tid, t.context.pc), (3, 4, 0));
}

struct TestThread(usize, usize);

impl ThreadTrait for TestThread {
    fn new(pid: usize, tid: usize) -> Self {
        TestThread(pid, tid)
    }
    fn empty() -> Self {
        TestThread(0, 0)
    }
    fn clone(&self) -> Self {
        TestThread(self.0, self.1)
    }
}

fn small_elf() -> Vec<u8> {
    let mut v = vec![0x7f, b'E', b'L', b'F', 2, 1, 1, 0, 0, 0, 0, 0, 0, 0, 0, 0];
    v.extend_from_slice(&2u16.to_le_bytes());
    v.extend_from_slice(&0xf3u16.to_le_bytes());
    v.extend_from_slice(&1u32.to_le_bytes());
    v.extend_from_slice(&0x2000u64.to_le_bytes());
    v.extend_from_slice(&64u64.to_le_bytes());
    v.extend_from_slice(&0u64.to_le_bytes());
    v.extend_from_slice(&0u32.to_le_bytes());
    for x in [64u16, 56, 1, 64, 0, 0] {
        v.extend_from_slice(&x.to_le_bytes());
    }
    for x in [1u32, 6] {
        v.extend_from_slice(&x.to_le_bytes());
    }
    for x in [0x100u64, 0x2000, 0x2000, 0x10, 0x1000, 0x1000] {
        v.extend_from_slice(&x.to_le_bytes());
    }
    v
}

#[test]
fn model_process_from_elf() {
    let p: ModelProcess<TestThread> = ModelProcess::new(7, &small_elf());
    assert_eq!(p.id, 7);
    assert_eq!(p.address_space.entry, 0x2000);
    assert_eq!(p.address_space.stack_base, 2);
    assert_eq!(p.thread.len(), 1);
    assert_eq!((p.thread[0].0, p.thread[0].1), (7, 0));
    assert!(p.parent.is_none());
    let mut tids = p.allocator.clone();
    assert_eq!(tids.allocate(), Ok(1));
    let mut pids = Allocator::new(0, 15).unwrap();
    for id in 0..=8 {
        assert_eq!(pids.allocate(), Ok(id));
    }
    assert!(pids.can_dealloc(7));
    p.release(&mut pids);
    assert_eq!(pids.allocate(), Ok(7));
}

struct TestProcess {
    id: usize,
    cx: ProcessContext,
}

impl ProcessTrait for TestProcess {
    fn new(_elf_data: &[u8]) -> Self {
        TestProcess { id: 1, cx: ProcessContext::empty() }
    }
    fn spec_id(&self) -> usize {
        self.id
    }
    fn spec_fork(before: Self, parent: Self, child: Self) -> bool {
        parent.id == before.id && child.id == before.id + 1
    }
    fn id(&self) -> usize {
        self.id
    }
    fn new_kernel() -> Self {
        TestProcess { id: 0, cx: ProcessContext::empty() }
    }
    fn fork(&mut self) -> Self {
        TestProcess { id: self.id + 1, cx: self.cx.clone() }
    }
    fn get_context_mut(&mut self, _tid: usize) -> &mut ProcessContext {
        &mut self.cx
    }
    fn get_context_ref(&self, _tid: usize) -> &ProcessContext {
        &self.cx
    }
}

#[test]
fn model_scheduler() {
    let mut s: ModelScheduler<TestProcess> = ModelScheduler::new();
    assert_eq!(s.process.len(), 1);
    assert_eq!(s.running, (0, 0));
    assert_eq!(s.fork(), Ok(()));
    assert_eq!(s.process.len(), 2);
    assert_eq!(s.process[1].id(), 1);
    assert_eq!(s.ready.iter().copied().collect::<Vec<_>>(), vec![(0, 0)]);
    assert_eq!(s.switch_to_ready(), (0, 0));
    assert!(s.ready.is_empty());
    assert_eq!(s.switch_to_idle(), (0, 0));
    assert_eq!(s.alloc_kernel_stack(), (INTERVENE_TEXT - 1, INTERVENE_TEXT - 1));
    assert_eq!(s.alloc_kernel_stack(), (INTERVENE_TEXT - 2, INTERVENE_TEXT - 2));
}

#[test]
fn model_scheduler_fork_out_of_range() {
    let mut s: ModelScheduler<TestProcess> = ModelScheduler::new();
    s.process[0].id = 5;
    assert_eq!(s.fork(), Err(()));
    assert_eq!(s.process.len(), 1);
    assert!(s.ready.is_empty());
}

#[test]
fn process_manager() {
    let mut frames: Option<Allocator> = None;
    Frame::init(&mut frames, 1000, 1100);
    let mut manager = Manager::new(&mut frames);
    assert_eq!(manager.process.len(), 16);
    let mut space = AddressSpace::empty();
    space.entry = 0x42;
    let pid = Process::new(&mut manager, &mut frames, space);
    assert_eq!(pid, 0);
    assert_eq!(manager.process[0].id, 0);
    assert_eq!(manager.process[0].address_space.entry, 0x42);
    assert_eq!(manager.process[0].page_table.root.number, 1016);
    let pid2 = Process::new(&mut manager, &mut frames, AddressSpace::empty());
    assert_eq!(pid2, 1);
    let last = manager.process.pop().unwrap();
    assert_eq!(last.id, 0);
    last.release(&mut manager);
    let pid3 = Process::new(&mut manager, &mut frames, AddressSpace::empty());
    assert_eq!(pid3, 0);
}

#[test]
fn thread_creation() {
    let mut frames: Option<Allocator> = None;
    Frame::init(&mut frames, 0, 100);
    let mut manager = Manager::new(&mut frames);
    manager.process[0].address_space.stack_base = 1000;
    manager.process[2].address_space.stack_base = 50;
    let mut scheduler = ThreadScheduler { thread: vec![None; 16], id: Scheduler::new(64) };
    let (tid, segments) = Thread::new(&mut scheduler, &manager, 2, 2, 1);
    assert_eq!(tid, 1);
    let ranges: Vec<(usize, usize)> = segments.iter().map(|s| s.range).collect();
    assert_eq!(ranges, vec![(56, 58), (INTERVENE_TEXT - 3, INTERVENE_TEXT - 3), (1005, 1006)]);
    let t = scheduler.thread[1].as_ref().unwrap();
    assert_eq!((t.pid, t.tid, t.idata), (2, 1, 0));
    assert_eq!(scheduler.id.ready.iter().copied().collect::<Vec<_>>(), vec![1]);
}

#[test]
fn coroutine_creation() {
    let mut scheduler = CoroutineScheduler { coroutine: vec![None; 16], id: Scheduler::new(15) };
    scheduler.coroutine[0] = Some(Coroutine::empty());
    let id = Coroutine::new(&mut scheduler, CoContext::new(0x99, 0x77));
    assert_eq!(id, 1);
    let c = scheduler.coroutine[1].as_ref().unwrap();
    assert_eq!((c.id, c.cx.ra, c.cx.sp), (1, 0x99, 0x77));
    assert_eq!(scheduler.coroutine[0].as_ref().unwrap().id, 0);
    assert_eq!(scheduler.id.switch_s(), 1);
}

#[test]
fn model_process_refuses_bad_image() {
    let p: Option<ModelProcess<TestThread>> = ModelProcess::try_new(1, b"garbage");
    assert!(p.is_none());
    let q: Option<ModelProcess<TestThread>> = ModelProcess::try_new(2, &small_elf());
    assert_eq!(q.unwrap().id, 2);
}

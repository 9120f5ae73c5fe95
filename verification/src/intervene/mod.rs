//! Intervenes: traps into the kernel and how they are serviced.
//!
//! An intervene switches data (the stack pointer), the address space and
//! the code (the program counter). Servicing one is split between the
//! decisions here, which update the saved context and say what to do next,
//! and the platform, which does it.

pub mod data;
pub mod system_call;

use vstd::prelude::*;
use crate::concurrency::thread::context::Context;
use crate::concurrency::thread::context::Lib as ContextLib;
use crate::memory::Address;
use crate::memory::PAGE_NUMBER_MASK;
use crate::memory::masked_field;
use crate::runtime::address_space::INTERVENE_TEXT;
use data::Data;

verus! {

/// Why an intervene happened.
#[derive(Debug, Clone, Copy, PartialEq, Eq, Structural)]
pub enum Cause {
    EnvCall,
    Breakpoint,
    External,
    PageLoadFault,
    Unknown,
}

/// What servicing an intervene asks the platform to do next.
#[derive(Debug, Clone, Copy)]
pub enum Service {
    /// Nothing more: return to the interrupted flow.
    Resume,
    /// Perform system call `id` with `args`, and hand its result to
    /// [`syscall_return`].
    Syscall { id: usize, args: [usize; 3] },
    /// Handle the external interrupt.
    External,
    /// Load the page with this number.
    LoadPage(usize),
    /// The intervene is not supported; the value says what was trapped on.
    Unsupported(usize),
}

/// The context with its program counter moved on by `n` bytes (wrapping
/// like the register).
pub open spec fn advanced(cx: Context, n: usize) -> Context {
    Context { pc: cx.pc.wrapping_add(n), ..cx }
}

fn pc_add(cx: &mut Context, n: usize)
    ensures
        *final(cx) == advanced(*old(cx), n),
{
    cx.pc = cx.pc.wrapping_add(n);
}

/// Services an intervene from user mode. An environment call moves the
/// program counter past the 4-byte call instruction and asks for the system
/// call the registers name; any other cause is not supported.
pub fn dist_user<L: ContextLib>(intervene_data: &mut Data, cause: Cause, value: usize) -> (r: Service)
    ensures
        cause == Cause::EnvCall ==> {
            &&& final(intervene_data).cx == advanced(old(intervene_data).cx, 4)
            &&& r == Service::Syscall {
                id: L::spec_iid(final(intervene_data).cx),
                args: L::spec_iarg(final(intervene_data).cx),
            }
        },
        cause != Cause::EnvCall ==> {
            &&& *final(intervene_data) == *old(intervene_data)
            &&& r == Service::Unsupported(value)
        },
        final(intervene_data).ki == old(intervene_data).ki,
{
    match cause {
        Cause::EnvCall => {
            pc_add(&mut intervene_data.cx, 4);
            let id = L::iid(&intervene_data.cx);
            let args = L::iarg(&intervene_data.cx);
            Service::Syscall { id, args }
        },
        _ => Service::Unsupported(value),
    }
}

/// Services an intervene from kernel mode. A breakpoint moves the program
/// counter past the 2-byte instruction; an environment call past the
/// 4-byte instruction and asks for the system call the registers name; an
/// external interrupt is handed on; a page-load fault asks for the page of
/// the faulting address `value`; an unknown cause is not supported.
pub fn service_kernel<L: ContextLib>(intervene_data: &mut Data, cause: Cause, value: usize) -> (r: Service)
    ensures
        final(intervene_data).ki == old(intervene_data).ki,
        match cause {
            Cause::Breakpoint => final(intervene_data).cx == advanced(old(intervene_data).cx, 2)
                && r == Service::Resume,
            Cause::EnvCall => final(intervene_data).cx == advanced(old(intervene_data).cx, 4)
                && r == (Service::Syscall {
                id: L::spec_iid(final(intervene_data).cx),
                args: L::spec_iarg(final(intervene_data).cx),
            }),
            Cause::External => *final(intervene_data) == *old(intervene_data) && r
                == Service::External,
            Cause::PageLoadFault => *final(intervene_data) == *old(intervene_data) && r
                == Service::LoadPage(masked_field(value, PAGE_NUMBER_MASK)),
            Cause::Unknown => *final(intervene_data) == *old(intervene_data) && r
                == Service::Unsupported(value),
        },
{
    match cause {
        Cause::Breakpoint => {
            pc_add(&mut intervene_data.cx, 2);
            Service::Resume
        },
        Cause::EnvCall => {
            pc_add(&mut intervene_data.cx, 4);
            let id = L::iid(&intervene_data.cx);
            let args = L::iarg(&intervene_data.cx);
            Service::Syscall { id, args }
        },
        Cause::External => Service::External,
        Cause::PageLoadFault => {
            let page_number = Address::number(value);
            Service::LoadPage(page_number)
        },
        Cause::Unknown => Service::Unsupported(value),
    }
}

/// Hands a system call's result back as the intervene return value (its
/// bits as a `usize`); only the saved context is touched.
pub fn syscall_return<L: ContextLib>(intervene_data: &mut Data, result: isize)
    ensures
        L::spec_iret(final(intervene_data).cx) == result as usize,
        final(intervene_data).ki == old(intervene_data).ki,
{
    L::iret_set(&mut intervene_data.cx, result as usize);
}

/// The absolute addresses of the intervene routines, given their offsets
/// within the intervene text page: (user handler, user context load,
/// kernel handler, load).
pub fn layout(relative: (usize, usize, usize, usize)) -> (r: (usize, usize, usize, usize))
    requires
        (INTERVENE_TEXT << 12usize) + relative.0 <= usize::MAX,
        (INTERVENE_TEXT << 12usize) + relative.1 <= usize::MAX,
        (INTERVENE_TEXT << 12usize) + relative.2 <= usize::MAX,
        (INTERVENE_TEXT << 12usize) + relative.3 <= usize::MAX,
    ensures
        r == (
            ((INTERVENE_TEXT << 12usize) + relative.0) as usize,
            ((INTERVENE_TEXT << 12usize) + relative.1) as usize,
            ((INTERVENE_TEXT << 12usize) + relative.2) as usize,
            ((INTERVENE_TEXT << 12usize) + relative.3) as usize,
        ),
{
    proof {
        crate::memory::lemma_page_mask_shifts();
    }
    let base = Address::address(INTERVENE_TEXT);

    (base + relative.0, base + relative.1, base + relative.2, base + relative.3)
}

} // verus!

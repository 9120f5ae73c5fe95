use ones::concurrency::thread::context::{Context, Lib};
use ones::cpu::ModelDataReg;
use ones::intervene::data::{Data, KernelInfo};
use ones::intervene::{dist_user, layout, service_kernel, syscall_return, Cause, Service};
use ones::runtime::address_space::INTERVENE_TEXT;

/// RISC-V calling convention: a7 (x17) holds the call id, a0..a2 (x10..x12)
/// the arguments and a0 the return value.
struct Riscv;

impl Lib for Riscv {
    fn spec_iret(context: Context) -> usize {
        context.data_reg[10]
    }
    fn spec_iid(context: Context) -> usize {
        context.data_reg[17]
    }
    fn spec_iarg(context: Context) -> [usize; 3] {
        [context.data_reg[10], context.data_reg[11], context.data_reg[12]]
    }
    fn iid(context: &Context) -> usize {
        context.data_reg[17]
    }
    fn iret(context: &Context) -> usize {
        context.data_reg[10]
    }
    fn iret_set(context: &mut Context, value: usize) {
        context.data_reg[10] = value;
    }
    fn iarg(context: &Context) -> [usize; 3] {
        [context.data_reg[10], context.data_reg[11], context.data_reg[12]]
    }
    fn sp_set(context: &mut Context, value: usize) {
        context.data_reg[2] = value;
    }
}

fn data() -> Data {
    let mut cx = Context::new(0, 0x1000);
    cx.data_reg[17] = 64;
    cx.data_reg[10] = 1;
    cx.data_reg[11] = 2;
    cx.data_reg[12] = 3;
    Data { cx, ki: KernelInfo { addr_trans: 0, sp: 0, service: 0 } }
}

#[test]
fn kernel_breakpoint_skips_instruction() {
    let mut d = data();
    assert!(matches!(service_kernel::<Riscv>(&mut d, Cause::Breakpoint, 0), Service::Resume));
    assert_eq!(d.cx.pc, 0x1002);
}

#[test]
fn kernel_env_call_asks_for_syscall() {
    let mut d = data();
    match service_kernel::<Riscv>(&mut d, Cause::EnvCall, 0) {
        Service::Syscall { id, args } => {
            assert_eq!(id, 64);
            assert_eq!(args, [1, 2, 3]);
        }
        _ => panic!(),
    }
    assert_eq!(d.cx.pc, 0x1004);
    syscall_return::<Riscv>(&mut d, -1);
    assert_eq!(d.cx.data_reg[10], usize::MAX);
}

#[test]
fn kernel_page_fault_and_others() {
    let mut d = data();
    assert!(matches!(service_kernel::<Riscv>(&mut d, Cause::PageLoadFault, 0x5432), Service::LoadPage(5)));
    assert!(matches!(service_kernel::<Riscv>(&mut d, Cause::External, 0), Service::External));
    assert!(matches!(service_kernel::<Riscv>(&mut d, Cause::Unknown, 9), Service::Unsupported(9)));
    assert_eq!(d.cx.pc, 0x1000);
}

#[test]
fn user_intervenes() {
    let mut d = data();
    assert!(matches!(dist_user::<Riscv>(&mut d, Cause::EnvCall, 0), Service::Syscall { id: 64, .. }));
    assert_eq!(d.cx.pc, 0x1004);
    assert!(matches!(dist_user::<Riscv>(&mut d, Cause::Breakpoint, 3), Service::Unsupported(3)));
    assert_eq!(d.cx.pc, 0x1004);
}

#[test]
fn intervene_layout() {
    let base = INTERVENE_TEXT << 12;
    assert_eq!(base, 0xffff_ffff_ffff_f000);
    assert_eq!(layout((0, 0x10, 0x20, 0x30)), (base, base + 0x10, base + 0x20, base + 0x30));
    let regs = ModelDataReg([0; 32]);
    assert_eq!(regs.0.len(), 32);
}

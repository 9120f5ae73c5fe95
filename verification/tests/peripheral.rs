use ones::peripheral::instance::ns16500a::Handler as Uart;
use ones::peripheral::plic::Handler;
use ones::peripheral::virtio::{align_up, pages, Error, PAGE_SIZE};

fn leaked<T>(v: Vec<T>) -> &'static mut [T] {
    Box::leak(v.into_boxed_slice())
}

fn plic() -> Option<Handler> {
    Some(Handler {
        priority: leaked(vec![0; 1024]),
        enable: leaked(vec![[0; 32]; 2]),
        threshold: leaked(vec![0; 2]),
        claim_complete: leaked(vec![0; 2]),
    })
}

#[test]
fn plic_priority_and_threshold() {
    let mut h = plic();
    Handler::priority(&mut h, 10, 5);
    Handler::threshold(&mut h, 1, 7);
    let h = h.unwrap();
    assert_eq!(h.priority[10], 5);
    assert_eq!(h.priority[11], 0);
    assert_eq!(h.threshold.to_vec(), vec![0, 7]);
}

#[test]
fn plic_enable_disable() {
    let mut h = plic();
    Handler::enable(&mut h, 1, 33);
    Handler::enable(&mut h, 1, 34);
    assert_eq!(h.as_ref().unwrap().enable[1][1], 0b110);
    assert_eq!(h.as_ref().unwrap().enable[0][1], 0);
    Handler::disable(&mut h, 1, 33);
    assert_eq!(h.as_ref().unwrap().enable[1][1], 0b100);
    let before = h.as_ref().unwrap().enable.to_vec();
    Handler::enable(&mut h, 0, 70);
    Handler::disable(&mut h, 0, 70);
    assert_eq!(h.as_ref().unwrap().enable.to_vec(), before);
    Handler::enable(&mut h, 0, 1023);
    assert_eq!(h.as_ref().unwrap().enable[0][31], 1 << 31);
}

#[test]
fn uart_read_handler() {
    let mut regs = vec![0u8; 8];
    regs[0] = b'x';
    let idle = Uart::new(leaked(regs.clone()));
    assert_eq!(idle.read_handler(), None);
    regs[5] = 1;
    let mut ready = Uart::new(leaked(regs));
    assert_eq!(ready.read_handler(), Some(b'x'));
    assert_eq!(ready.take_received(), None);
}

#[test]
fn uart_write_when_holding_register_empty() {
    let mut busy = Uart::new(leaked(vec![0u8; 8]));
    assert!(!busy.try_write(b'a'));
    let mut regs = vec![0u8; 8];
    regs[5] = 1 << 5;
    let mut ready = Uart::new(leaked(regs));
    assert!(ready.try_write(b'a'));
    assert_eq!(ready.read_handler(), None);
}

#[test]
fn virtio_page_arithmetic() {
    assert_eq!(PAGE_SIZE, 4096);
    assert_eq!(align_up(0), 0);
    assert_eq!(align_up(1), 4096);
    assert_eq!(align_up(4096), 4096);
    assert_eq!(align_up(4097), 8192);
    assert_eq!(pages(0), 0);
    assert_eq!(pages(1), 1);
    assert_eq!(pages(4096), 1);
    assert_eq!(pages(4097), 2);
    assert_eq!(Error::IoError, Error::IoError);
    assert_ne!(Error::NotReady, Error::DmaError);
}

//! The NS16550A UART.
//!
//! | I/O port | read (DLAB=0)            | write (DLAB=0)            |
//! |----------|--------------------------|---------------------------|
//! | base     | RBR (receiver buffer)    | THR (transmitter holding) |
//! | base+1   | IER (interrupt enable)   | IER (interrupt enable)    |
//! | base+2   | IIR (interrupt identify) | FCR (FIFO control)        |
//! | base+3   | LCR (line control)       | LCR (line control)        |
//! | base+4   | MCR (modem control)      | MCR (modem control)       |
//! | base+5   | LSR (line status)        | factory test              |
//! | base+6   | MSR (modem status)       | not used                  |
//! | base+7   | SCR (scratch)            | SCR (scratch)             |

use vstd::prelude::*;

verus! {

/// The line status register.
#[derive(Clone, Copy)]
pub struct LSR {
    pub bits: u8,
}

impl LSR {
    /// Whether every bit of `mask` is set.
    pub fn contains(&self, mask: u8) -> (r: bool)
        ensures
            r == (self.bits & mask == mask),
    {
        self.bits & mask == mask
    }
}

/// The line-status bit: a received byte is waiting.
pub const DATA_AVAILABLE: u8 = 1;

/// The line-status bit: the transmitter holding register is empty.
pub const THR_EMPTY: u8 = 1 << 5;

/// The eight registers of the UART.
pub struct Register(pub &'static mut [u8]);

impl Register {
    /// The register bytes.
    pub closed spec fn bytes(&self) -> Seq<u8> {
        self.0@
    }

    fn rbr(&self) -> (r: u8)
        requires
            self.bytes().len() == 8,
        ensures
            r == self.bytes()[0],
    {
        self.0[0]
    }

    fn lsr(&self) -> (r: LSR)
        requires
            self.bytes().len() == 8,
        ensures
            r.bits == self.bytes()[5],
    {
        LSR { bits: self.0[5] }
    }

    /// The transmitter holding register, to write to.
    fn thr(&mut self) -> (r: &mut u8)
        requires
            old(self).bytes().len() == 8,
        ensures
            *r == old(self).bytes()[0],
            final(self).bytes() == old(self).bytes().update(0, *final(r)),
    {
        &mut self.0[0]
    }
}

/// The UART: its registers and the bytes received but not yet read.
pub struct Handler {
    register: Register,
    read_buffer: std::collections::VecDeque<u8>,
}

impl Handler {
    /// The registers.
    pub closed spec fn registers(&self) -> Seq<u8> {
        self.register.bytes()
    }

    /// The bytes received and not yet read, the oldest first.
    pub closed spec fn received(&self) -> Seq<u8> {
        self.read_buffer@
    }

    /// A UART over the given eight registers, with nothing received.
    pub fn new(register: &'static mut [u8]) -> (r: Self)
        requires
            old(register)@.len() == 8,
        ensures
            r.registers() == old(register)@,
            r.received() == Seq::<u8>::empty(),
    {
        Self { register: Register(register), read_buffer: std::collections::VecDeque::new() }
    }

    /// The received byte, when the line status says one is waiting.
    pub fn read_handler(&self) -> (r: Option<u8>)
        requires
            self.registers().len() == 8,
        ensures
            r == if self.registers()[5] & 1 == 1 {
                Some(self.registers()[0])
            } else {
                None::<u8>
            },
    {
        if self.register.lsr().contains(DATA_AVAILABLE) {
            Some(self.register.rbr())
        } else {
            None
        }
    }

    /// Takes the oldest byte received and not yet read, if any.
    pub fn take_received(&mut self) -> (r: Option<u8>)
        ensures
            final(self).registers() == old(self).registers(),
            old(self).received().len() == 0 ==> r is None && final(self).received() == old(
                self,
            ).received(),
            old(self).received().len() > 0 ==> r == Some(old(self).received()[0])
                && final(self).received() == old(self).received().drop_first(),
    {
        self.read_buffer.pop_front()
    }

    /// Puts `char` in the transmitter holding register when the line status
    /// says it is empty; returns whether it did.
    pub fn try_write(&mut self, char: u8) -> (r: bool)
        requires
            old(self).registers().len() == 8,
        ensures
            r == (old(self).registers()[5] & THR_EMPTY == THR_EMPTY),
            r ==> final(self).registers() == old(self).registers().update(0, char),
            !r ==> final(self).registers() == old(self).registers(),
            final(self).received() == old(self).received(),
    {
        if self.register.lsr().contains(THR_EMPTY) {
            *(self.register.thr()) = char;
            true
        } else {
            false
        }
    }
}

} // verus!

//! Model of a 16550-compatible UART register bank.
//!
//! The driver cannot be verified against raw port input/output, so the
//! device is modelled as explicit state: eight byte-wide registers at
//! offsets 0 to 7 from the port base, a receive FIFO, and a record of the
//! bytes put on the wire.  Offsets 0 and 1 are dual-purpose: while bit 7 of
//! the line-control register (the divisor latch) is set they address the
//! two bytes of the baud divisor instead of the data and interrupt-enable
//! registers.  Bit 4 of the modem-control register selects loopback mode,
//! in which a transmitted byte is echoed into the receive FIFO instead of
//! leaving on the wire.
//!
//! The model transmits instantly, so the "transmit holding register empty"
//! status bit always reads as set, and a byte pending in the receive FIFO
//! is reported by the "data ready" status bit.  Two monitor fields,
//! `tx_clear_seen` and `rx_ready_seen`, record whether the corresponding
//! status bit was observed set since the last access to the data register;
//! accessing the data register demands the matching observation, so any
//! caller that verifies keeps the poll-then-access lock-step discipline.

use vstd::prelude::*;

verus! {

/// Explicit state of one 16550-compatible channel.
pub struct RegisterBank {
    /// Interrupt-enable register (offset 1 while the divisor latch is clear).
    pub ier: u8,
    /// FIFO-control register (offset 2, write side).
    pub fcr: u8,
    /// Interrupt-status register (offset 2, read side).
    pub isr: u8,
    /// Line-control register (offset 3); bit 7 is the divisor latch.
    pub lcr: u8,
    /// Modem-control register (offset 4); bit 4 selects loopback mode.
    pub mcr: u8,
    /// Modem-status register (offset 6).
    pub msr: u8,
    /// Scratch register (offset 7).
    pub spr: u8,
    /// Low byte of the baud divisor (offset 0 while the divisor latch is set).
    pub divisor_lo: u8,
    /// High byte of the baud divisor (offset 1 while the divisor latch is set).
    pub divisor_hi: u8,
    /// Bytes waiting in the receive FIFO, oldest first.
    pub rx: Vec<u8>,
    /// Bytes the device has put on the wire, oldest first.
    pub tx: Vec<u8>,
    /// Whether "transmit holding register empty" was observed set since the
    /// last write to the data register.
    pub tx_clear_seen: bool,
    /// Whether "data ready" was observed set since the last read of the
    /// data register.
    pub rx_ready_seen: bool,
}

impl RegisterBank {
    /// The divisor latch: bit 7 of the line-control register.
    pub open spec fn dlab(&self) -> bool {
        self.lcr >= 0x80
    }

    /// Loopback mode: bit 4 of the modem-control register.
    pub open spec fn loopback(&self) -> bool {
        (self.mcr / 16) % 2 == 1
    }

    /// The 16-bit divisor currently latched in the two divisor registers.
    pub open spec fn divisor(&self) -> int {
        self.divisor_lo + 256 * self.divisor_hi
    }

    /// Value of the line-status register: bit 0 is "data ready", bits 5 and
    /// 6 ("transmit holding register empty", "transmitter idle") are always
    /// set because the model transmits instantly.
    pub open spec fn lsr_value(&self) -> u8 {
        if self.rx@.len() > 0 {
            0x61
        } else {
            0x60
        }
    }

    /// The "data ready" observation is only ever recorded while a byte is
    /// actually pending, so a recorded observation guarantees one.
    pub open spec fn wf(&self) -> bool {
        self.rx_ready_seen ==> self.rx@.len() > 0
    }

    /// The value a read of the given offset returns, before any side effect.
    pub open spec fn read_value(&self, offset: u8) -> u8 {
        if offset == 0 {
            if self.dlab() {
                self.divisor_lo
            } else {
                self.rx@[0]
            }
        } else if offset == 1 {
            if self.dlab() {
                self.divisor_hi
            } else {
                self.ier
            }
        } else if offset == 2 {
            self.isr
        } else if offset == 3 {
            self.lcr
        } else if offset == 4 {
            self.mcr
        } else if offset == 5 {
            self.lsr_value()
        } else if offset == 6 {
            self.msr
        } else {
            self.spr
        }
    }

    /// A fresh channel in its power-on state: all registers zero, both
    /// FIFOs empty, no status observation recorded.
    pub fn new() -> (bank: RegisterBank)
        ensures
            bank.wf(),
            bank.ier == 0,
            bank.fcr == 0,
            bank.isr == 0,
            bank.lcr == 0,
            bank.mcr == 0,
            bank.msr == 0,
            bank.spr == 0,
            bank.divisor_lo == 0,
            bank.divisor_hi == 0,
            bank.rx@ == Seq::<u8>::empty(),
            bank.tx@ == Seq::<u8>::empty(),
            !bank.tx_clear_seen,
            !bank.rx_ready_seen,
    {
        RegisterBank {
            ier: 0,
            fcr: 0,
            isr: 0,
            lcr: 0,
            mcr: 0,
            msr: 0,
            spr: 0,
            divisor_lo: 0,
            divisor_hi: 0,
            rx: Vec::new(),
            tx: Vec::new(),
            tx_clear_seen: false,
            rx_ready_seen: false,
        }
    }

    /// A byte arriving from the far end of the wire: it joins the back of
    /// the receive FIFO.
    pub fn push_incoming(&mut self, value: u8)
        requires
            old(self).wf(),
        ensures
            final(self).wf(),
            regs_same(*old(self), *final(self)),
            final(self).rx@ == old(self).rx@.push(value),
            final(self).tx@ == old(self).tx@,
            final(self).tx_clear_seen == old(self).tx_clear_seen,
            final(self).rx_ready_seen == old(self).rx_ready_seen,
    {
        self.rx.push(value);
    }

    /// A read of the register at the given offset, as a port input
    /// instruction would perform it.  Reading the data register consumes
    /// the oldest pending byte and demands a prior "data ready"
    /// observation; reading the line-status register records the current
    /// status observations.  No read changes a register.
    pub fn read(&mut self, offset: u8) -> (value: u8)
        requires
            offset < 8,
            old(self).wf(),
            offset == 0 && !old(self).dlab() ==> old(self).rx_ready_seen,
        ensures
            final(self).wf(),
            regs_same(*old(self), *final(self)),
            value == old(self).read_value(offset),
            final(self).tx@ == old(self).tx@,
            final(self).rx@ == (if offset == 0 && !old(self).dlab() {
                old(self).rx@.skip(1)
            } else {
                old(self).rx@
            }),
            final(self).rx_ready_seen == (if offset == 0 && !old(self).dlab() {
                false
            } else if offset == 5 {
                old(self).rx@.len() > 0
            } else {
                old(self).rx_ready_seen
            }),
            final(self).tx_clear_seen == (if offset == 5 {
                true
            } else {
                old(self).tx_clear_seen
            }),
    {
        if offset == 0 {
            if self.lcr >= 0x80 {
                self.divisor_lo
            } else {
                let value = self.rx.remove(0);
                self.rx_ready_seen = false;
                value
            }
        } else if offset == 1 {
            if self.lcr >= 0x80 {
                self.divisor_hi
            } else {
                self.ier
            }
        } else if offset == 2 {
            self.isr
        } else if offset == 3 {
            self.lcr
        } else if offset == 4 {
            self.mcr
        } else if offset == 5 {
            self.rx_ready_seen = self.rx.len() > 0;
            self.tx_clear_seen = true;
            if self.rx.len() > 0 {
                0x61
            } else {
                0x60
            }
        } else if offset == 6 {
            self.msr
        } else {
            self.spr
        }
    }

    /// A write of the register at the given offset, as a port output
    /// instruction would perform it.  Writing the data register demands a
    /// prior "transmit holding register empty" observation, and the byte
    /// goes onto the wire — or, in loopback mode, back into the receive
    /// FIFO.  The line-status and modem-status registers are read-only, so
    /// a write to offset 5 or 6 changes nothing.
    pub fn write(&mut self, offset: u8, value: u8)
        requires
            offset < 8,
            old(self).wf(),
            offset == 0 && !old(self).dlab() ==> old(self).tx_clear_seen,
        ensures
            final(self).wf(),
            final(self).ier == (if offset == 1 && !old(self).dlab() {
                value
            } else {
                old(self).ier
            }),
            final(self).fcr == (if offset == 2 {
                value
            } else {
                old(self).fcr
            }),
            final(self).isr == old(self).isr,
            final(self).lcr == (if offset == 3 {
                value
            } else {
                old(self).lcr
            }),
            final(self).mcr == (if offset == 4 {
                value
            } else {
                old(self).mcr
            }),
            final(self).msr == old(self).msr,
            final(self).spr == (if offset == 7 {
                value
            } else {
                old(self).spr
            }),
            final(self).divisor_lo == (if offset == 0 && old(self).dlab() {
                value
            } else {
                old(self).divisor_lo
            }),
            final(self).divisor_hi == (if offset == 1 && old(self).dlab() {
                value
            } else {
                old(self).divisor_hi
            }),
            final(self).tx@ == (if offset == 0 && !old(self).dlab() && !old(self).loopback() {
                old(self).tx@.push(value)
            } else {
                old(self).tx@
            }),
            final(self).rx@ == (if offset == 0 && !old(self).dlab() && old(self).loopback() {
                old(self).rx@.push(value)
            } else {
                old(self).rx@
            }),
            final(self).tx_clear_seen == (if offset == 0 && !old(self).dlab() {
                false
            } else {
                old(self).tx_clear_seen
            }),
            final(self).rx_ready_seen == old(self).rx_ready_seen,
    {
        if offset == 0 {
            if self.lcr >= 0x80 {
                self.divisor_lo = value;
            } else {
                self.tx_clear_seen = false;
                if (self.mcr / 16) % 2 == 1 {
                    self.rx.push(value);
                } else {
                    self.tx.push(value);
                }
            }
        } else if offset == 1 {
            if self.lcr >= 0x80 {
                self.divisor_hi = value;
            } else {
                self.ier = value;
            }
        } else if offset == 2 {
            self.fcr = value;
        } else if offset == 3 {
            self.lcr = value;
        } else if offset == 4 {
            self.mcr = value;
        } else if offset == 7 {
            self.spr = value;
        }
    }
}

/// True when the two states hold the same register values (the FIFOs and
/// the monitor fields are not compared).
pub open spec fn regs_same(a: RegisterBank, b: RegisterBank) -> bool {
    &&& a.ier == b.ier
    &&& a.fcr == b.fcr
    &&& a.isr == b.isr
    &&& a.lcr == b.lcr
    &&& a.mcr == b.mcr
    &&& a.msr == b.msr
    &&& a.spr == b.spr
    &&& a.divisor_lo == b.divisor_lo
    &&& a.divisor_hi == b.divisor_hi
}

/// True when the two states hold the same FIFO contents.
pub open spec fn fifos_same(a: RegisterBank, b: RegisterBank) -> bool {
    a.rx@ == b.rx@ && a.tx@ == b.tx@
}

/// True when the two states record the same status observations.
pub open spec fn flags_same(a: RegisterBank, b: RegisterBank) -> bool {
    a.tx_clear_seen == b.tx_clear_seen && a.rx_ready_seen == b.rx_ready_seen
}

/// True when nothing about the channel differs between the two states.
pub open spec fn state_same(a: RegisterBank, b: RegisterBank) -> bool {
    regs_same(a, b) && fifos_same(a, b) && flags_same(a, b)
}

/// True when going from state `pre` to state `post` the driver handed
/// exactly `bytes` to the data register, in order: no register changed, and
/// the bytes were appended to the wire record — or, in loopback mode, to
/// the receive FIFO.
pub open spec fn emits(pre: RegisterBank, post: RegisterBank, bytes: Seq<u8>) -> bool {
    &&& regs_same(pre, post)
    &&& if pre.loopback() {
        post.rx@ == pre.rx@ + bytes && post.tx@ == pre.tx@
    } else {
        post.tx@ == pre.tx@ + bytes && post.rx@ == pre.rx@
    }
}

/// Emission composes: handing over `b1` and then `b2` hands over `b1 + b2`.
pub proof fn lemma_emits_join(a: RegisterBank, b: RegisterBank, c: RegisterBank, b1: Seq<u8>, b2: Seq<u8>)
    requires
        emits(a, b, b1),
        emits(b, c, b2),
    ensures
        emits(a, c, b1 + b2),
{
    if a.loopback() {
        assert(c.rx@ =~= a.rx@ + (b1 + b2));
    } else {
        assert(c.tx@ =~= a.tx@ + (b1 + b2));
    }
}

} // verus!

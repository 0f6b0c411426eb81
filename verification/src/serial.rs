//! The serial channel: register accessors, initialization and self-test,
//! baud configuration, blocking byte transport, and the text layer.

use vstd::prelude::*;

use crate::bank::RegisterBank;
use crate::bank::emits;
use crate::bank::fifos_same;
use crate::bank::flags_same;
use crate::bank::lemma_emits_join;
use crate::bank::regs_same;
use crate::codec::ascii_digit;
use crate::codec::ascii_digit_of;
use crate::codec::char_payload;
use crate::codec::chars_consumed;
use crate::codec::decode_char;
use crate::codec::digits_in_radix;
use crate::codec::encode_char;
use crate::codec::lemma_nonzero_prefix_len_is;
use crate::codec::payload_decodes;
use crate::codec::scalar_of_payload;
use vstd::arithmetic::div_mod::lemma_div_is_strictly_smaller;
use vstd::pervasive::unreached;
use vstd::utf8::encode_scalar;
use vstd::utf8::encode_utf8;

verus! {

/// The known hardware channels, each a fixed port base address.  Exactly
/// one is defined: the first legacy serial port, based at 0x3f8.
#[derive(Clone, Copy, Debug, PartialEq, Eq, Structural)]
pub enum Port {
    COM1,
}

/// The port base address of a channel.
pub open spec fn port_base(port: Port) -> u16 {
    match port {
        Port::COM1 => 0x3f8,
    }
}

impl Port {
    /// The port base address of this channel.
    pub fn base(&self) -> (base: u16)
        ensures
            base == port_base(*self),
    {
        match self {
            Port::COM1 => 0x3f8,
        }
    }
}

/// The conditions `begin`, `set_baud` and `calculate_divisor` report as
/// values; every other failure of the driver is unrecoverable.
#[derive(Clone, Copy, Debug, PartialEq, Eq, Structural)]
pub enum SerialError {
    /// The requested baud rate is above the hardware's fastest supported
    /// rate: the divisor would be zero.
    BaudValueTooLarge(u32),
    /// The requested baud rate is below the hardware's slowest supported
    /// rate: the divisor would not fit in 16 bits.
    BaudValueTooSmall(u32),
    /// The loopback self-test received a byte other than the probe byte.
    LoopbackTestFailed,
}

/// A serial channel.  The value itself is only the channel's identity; all
/// mutable state lives in the register bank it is used with.
#[derive(Clone, Copy, Debug)]
pub struct Serial {
    pub port: Port,
}

/// The UART's input clock rate in ticks per second; the divisor for a baud
/// rate is this value divided by the rate.
pub const UART_CLOCK: u32 = 115200;

/// The byte transmitted as a probe during the loopback self-test.
pub const PROBE_BYTE: u8 = 0xe9;

/// What `calculate_divisor` returns for a (positive) baud rate: the
/// quotient of the clock rate by the rate, if it is positive and fits in
/// 16 bits, and the matching error otherwise.
pub open spec fn divisor_for(baud: u32) -> Result<u16, SerialError> {
    let quotient = UART_CLOCK as int / baud as int;
    if quotient > 0xffff {
        Err(SerialError::BaudValueTooSmall(baud))
    } else if quotient == 0 {
        Err(SerialError::BaudValueTooLarge(baud))
    } else {
        Ok(quotient as u16)
    }
}

impl Serial {
    /// A handle on the channel with the given port base.
    pub fn new(port: Port) -> (serial: Serial)
        ensures
            serial.port == port,
    {
        Serial { port }
    }

    /// Convert a baud rate into the 16-bit divisor the hardware is
    /// programmed with: the clock rate divided by the baud rate, rejecting
    /// a quotient of zero (rate too large) and one above 16 bits (rate too
    /// small).
    pub fn calculate_divisor(&self, baud: u32) -> (result: Result<u16, SerialError>)
        requires
            baud > 0,
        ensures
            result == divisor_for(baud),
            result matches Ok(divisor) ==> 1 <= divisor <= 0xffff,
    {
        let quotient: u32 = UART_CLOCK / baud;
        if quotient > 0xffff {
            Err(SerialError::BaudValueTooSmall(baud))
        } else if quotient == 0 {
            Err(SerialError::BaudValueTooLarge(baud))
        } else {
            Ok(quotient as u16)
        }
    }

    /// Read the interrupt-enable register.
    pub fn ier_read(&self, bank: &mut RegisterBank) -> (value: u8)
        requires
            old(bank).wf(),
            !old(bank).dlab(),
        ensures
            final(bank).wf(),
            crate::bank::state_same(*old(bank), *final(bank)),
            value == old(bank).ier,
    {
        bank.read(1)
    }

    /// Write the interrupt-enable register.
    pub fn ier_write(&self, bank: &mut RegisterBank, value: u8)
        requires
            old(bank).wf(),
            !old(bank).dlab(),
        ensures
            final(bank).wf(),
            final(bank).ier == value,
            final(bank).fcr == old(bank).fcr,
            final(bank).isr == old(bank).isr,
            final(bank).lcr == old(bank).lcr,
            final(bank).mcr == old(bank).mcr,
            final(bank).msr == old(bank).msr,
            final(bank).spr == old(bank).spr,
            final(bank).divisor_lo == old(bank).divisor_lo,
            final(bank).divisor_hi == old(bank).divisor_hi,
            fifos_same(*old(bank), *final(bank)),
            flags_same(*old(bank), *final(bank)),
    {
        bank.write(1, value);
    }

    /// Read the interrupt-status register.
    pub fn isr_read(&self, bank: &mut RegisterBank) -> (value: u8)
        requires
            old(bank).wf(),
        ensures
            final(bank).wf(),
            crate::bank::state_same(*old(bank), *final(bank)),
            value == old(bank).isr,
    {
        bank.read(2)
    }

    /// Write the FIFO-control register.
    pub fn fifo_write(&self, bank: &mut RegisterBank, value: u8)
        requires
            old(bank).wf(),
        ensures
            final(bank).wf(),
            final(bank).fcr == value,
            final(bank).ier == old(bank).ier,
            final(bank).isr == old(bank).isr,
            final(bank).lcr == old(bank).lcr,
            final(bank).mcr == old(bank).mcr,
            final(bank).msr == old(bank).msr,
            final(bank).spr == old(bank).spr,
            final(bank).divisor_lo == old(bank).divisor_lo,
            final(bank).divisor_hi == old(bank).divisor_hi,
            fifos_same(*old(bank), *final(bank)),
            flags_same(*old(bank), *final(bank)),
    {
        bank.write(2, value);
    }

    /// Read the line-control register.
    pub fn lcr_read(&self, bank: &mut RegisterBank) -> (value: u8)
        requires
            old(bank).wf(),
        ensures
            final(bank).wf(),
            crate::bank::state_same(*old(bank), *final(bank)),
            value == old(bank).lcr,
    {
        bank.read(3)
    }

    /// Write the line-control register.
    pub fn lcr_write(&self, bank: &mut RegisterBank, value: u8)
        requires
            old(bank).wf(),
        ensures
            final(bank).wf(),
            final(bank).lcr == value,
            final(bank).ier == old(bank).ier,
            final(bank).fcr == old(bank).fcr,
            final(bank).isr == old(bank).isr,
            final(bank).mcr == old(bank).mcr,
            final(bank).msr == old(bank).msr,
            final(bank).spr == old(bank).spr,
            final(bank).divisor_lo == old(bank).divisor_lo,
            final(bank).divisor_hi == old(bank).divisor_hi,
            fifos_same(*old(bank), *final(bank)),
            flags_same(*old(bank), *final(bank)),
    {
        bank.write(3, value);
    }

    /// Set or clear the divisor latch (bit 7 of the line-control register),
    /// leaving the other line parameters as they were.
    pub fn dlab_enable(&self, bank: &mut RegisterBank, enable: bool)
        requires
            old(bank).wf(),
        ensures
            final(bank).wf(),
            final(bank).lcr == (if enable {
                old(bank).lcr % 128 + 128
            } else {
                (old(bank).lcr % 128) as int
            }),
            final(bank).dlab() == enable,
            final(bank).ier == old(bank).ier,
            final(bank).fcr == old(bank).fcr,
            final(bank).isr == old(bank).isr,
            final(bank).mcr == old(bank).mcr,
            final(bank).msr == old(bank).msr,
            final(bank).spr == old(bank).spr,
            final(bank).divisor_lo == old(bank).divisor_lo,
            final(bank).divisor_hi == old(bank).divisor_hi,
            fifos_same(*old(bank), *final(bank)),
            flags_same(*old(bank), *final(bank)),
    {
        let lcr = self.lcr_read(bank);
        let updated = if enable {
            lcr | 0x80
        } else {
            lcr & 0x7f
        };
        proof {
            assert(lcr | 0x80 == lcr % 128 + 128) by (bit_vector);
            assert(lcr & 0x7f == lcr % 128) by (bit_vector);
        }
        self.lcr_write(bank, updated);
    }

    /// Read the modem-control register.
    pub fn mcr_read(&self, bank: &mut RegisterBank) -> (value: u8)
        requires
            old(bank).wf(),
        ensures
            final(bank).wf(),
            crate::bank::state_same(*old(bank), *final(bank)),
            value == old(bank).mcr,
    {
        bank.read(4)
    }

    /// Write the modem-control register.
    pub fn mcr_write(&self, bank: &mut RegisterBank, value: u8)
        requires
            old(bank).wf(),
        ensures
            final(bank).wf(),
            final(bank).mcr == value,
            final(bank).ier == old(bank).ier,
            final(bank).fcr == old(bank).fcr,
            final(bank).isr == old(bank).isr,
            final(bank).lcr == old(bank).lcr,
            final(bank).msr == old(bank).msr,
            final(bank).spr == old(bank).spr,
            final(bank).divisor_lo == old(bank).divisor_lo,
            final(bank).divisor_hi == old(bank).divisor_hi,
            fifos_same(*old(bank), *final(bank)),
            flags_same(*old(bank), *final(bank)),
    {
        bank.write(4, value);
    }

    /// Read the line-status register.  This is the poll that records the
    /// status observations the data-register accesses depend on.
    pub fn lsr_read(&self, bank: &mut RegisterBank) -> (value: u8)
        requires
            old(bank).wf(),
        ensures
            final(bank).wf(),
            regs_same(*old(bank), *final(bank)),
            fifos_same(*old(bank), *final(bank)),
            value == old(bank).lsr_value(),
            final(bank).tx_clear_seen,
            final(bank).rx_ready_seen == (old(bank).rx@.len() > 0),
    {
        bank.read(5)
    }

    /// Read the modem-status register.
    pub fn msr_read(&self, bank: &mut RegisterBank) -> (value: u8)
        requires
            old(bank).wf(),
        ensures
            final(bank).wf(),
            crate::bank::state_same(*old(bank), *final(bank)),
            value == old(bank).msr,
    {
        bank.read(6)
    }

    /// Read the scratch register.
    pub fn spr_read(&self, bank: &mut RegisterBank) -> (value: u8)
        requires
            old(bank).wf(),
        ensures
            final(bank).wf(),
            crate::bank::state_same(*old(bank), *final(bank)),
            value == old(bank).spr,
    {
        bank.read(7)
    }

    /// Write the scratch register.
    pub fn spr_write(&self, bank: &mut RegisterBank, value: u8)
        requires
            old(bank).wf(),
        ensures
            final(bank).wf(),
            final(bank).spr == value,
            final(bank).ier == old(bank).ier,
            final(bank).fcr == old(bank).fcr,
            final(bank).isr == old(bank).isr,
            final(bank).lcr == old(bank).lcr,
            final(bank).mcr == old(bank).mcr,
            final(bank).msr == old(bank).msr,
            final(bank).divisor_lo == old(bank).divisor_lo,
            final(bank).divisor_hi == old(bank).divisor_hi,
            fifos_same(*old(bank), *final(bank)),
            flags_same(*old(bank), *final(bank)),
    {
        bank.write(7, value);
    }

    /// Whether a received byte is waiting in the data register ("data
    /// ready" bit of the line-status register), without consuming it.
    pub fn serial_recieved(&self, bank: &mut RegisterBank) -> (ready: bool)
        requires
            old(bank).wf(),
        ensures
            final(bank).wf(),
            regs_same(*old(bank), *final(bank)),
            fifos_same(*old(bank), *final(bank)),
            ready == (old(bank).rx@.len() > 0),
            final(bank).rx_ready_seen == ready,
            final(bank).tx_clear_seen,
    {
        let status = self.lsr_read(bank);
        proof {
            assert(0x61u8 & 0x01 == 1) by (bit_vector);
            assert(0x60u8 & 0x01 == 0) by (bit_vector);
        }
        (status & 0x01) != 0
    }

    /// Whether the transmit holding register is empty (bit 5 of the
    /// line-status register).  The model transmits instantly, so this
    /// always holds; polling it still records the observation that the
    /// data-register write depends on.
    pub fn is_transmit_empty(&self, bank: &mut RegisterBank) -> (empty: bool)
        requires
            old(bank).wf(),
        ensures
            final(bank).wf(),
            regs_same(*old(bank), *final(bank)),
            fifos_same(*old(bank), *final(bank)),
            empty,
            final(bank).tx_clear_seen,
            final(bank).rx_ready_seen == (old(bank).rx@.len() > 0),
    {
        let status = self.lsr_read(bank);
        proof {
            assert(0x61u8 & 0x20 != 0) by (bit_vector);
            assert(0x60u8 & 0x20 != 0) by (bit_vector);
        }
        (status & 0x20) != 0
    }

    /// Busy-wait until the transmit holding register is empty, then hand
    /// the byte to the data register.
    pub fn transmit_byte(&self, bank: &mut RegisterBank, value: u8)
        requires
            old(bank).wf(),
            !old(bank).dlab(),
        ensures
            final(bank).wf(),
            emits(*old(bank), *final(bank), seq![value]),
            !final(bank).tx_clear_seen,
            final(bank).rx_ready_seen == (old(bank).rx@.len() > 0),
    {
        loop
            invariant
                bank.wf(),
                regs_same(*old(bank), *bank),
                fifos_same(*old(bank), *bank),
            ensures
                bank.wf(),
                regs_same(*old(bank), *bank),
                fifos_same(*old(bank), *bank),
                bank.tx_clear_seen,
                bank.rx_ready_seen == (old(bank).rx@.len() > 0),
            decreases 0int,
        {
            if self.is_transmit_empty(bank) {
                break;
            }
        }
        bank.write(0, value);
        proof {
            assert(old(bank).tx@.push(value) =~= old(bank).tx@ + seq![value]);
            assert(old(bank).rx@.push(value) =~= old(bank).rx@ + seq![value]);
        }
    }

    /// Busy-wait until a byte is ready, then take it from the data
    /// register.  The model cannot grow its own input, so a byte must
    /// already be pending; on hardware an empty channel would simply keep
    /// the caller spinning here.
    pub fn receive_byte(&self, bank: &mut RegisterBank) -> (value: u8)
        requires
            old(bank).wf(),
            !old(bank).dlab(),
            old(bank).rx@.len() > 0,
        ensures
            final(bank).wf(),
            regs_same(*old(bank), *final(bank)),
            final(bank).tx@ == old(bank).tx@,
            value == old(bank).rx@[0],
            final(bank).rx@ == old(bank).rx@.skip(1),
            !final(bank).rx_ready_seen,
            final(bank).tx_clear_seen,
    {
        loop
            invariant
                bank.wf(),
                regs_same(*old(bank), *bank),
                fifos_same(*old(bank), *bank),
                old(bank).rx@.len() > 0,
            ensures
                bank.wf(),
                regs_same(*old(bank), *bank),
                fifos_same(*old(bank), *bank),
                bank.rx_ready_seen,
                bank.tx_clear_seen,
            decreases 0int,
        {
            if self.serial_recieved(bank) {
                break;
            }
        }
        bank.read(0)
    }

    /// Transmit one byte: the transport primitive under all output.
    pub fn write_byte(&self, bank: &mut RegisterBank, value: u8)
        requires
            old(bank).wf(),
            !old(bank).dlab(),
        ensures
            final(bank).wf(),
            emits(*old(bank), *final(bank), seq![value]),
            !final(bank).tx_clear_seen,
            final(bank).rx_ready_seen == (old(bank).rx@.len() > 0),
    {
        self.transmit_byte(bank, value);
    }

    /// Receive one byte without any decoding: the blocking input primitive.
    pub fn read_byte(&self, bank: &mut RegisterBank) -> (value: u8)
        requires
            old(bank).wf(),
            !old(bank).dlab(),
            old(bank).rx@.len() > 0,
        ensures
            final(bank).wf(),
            regs_same(*old(bank), *final(bank)),
            final(bank).tx@ == old(bank).tx@,
            value == old(bank).rx@[0],
            final(bank).rx@ == old(bank).rx@.skip(1),
            !final(bank).rx_ready_seen,
            final(bank).tx_clear_seen,
    {
        self.receive_byte(bank)
    }

    /// Write the low byte of the baud divisor, bracketing the access with
    /// the divisor latch: set the latch, write, clear the latch again.
    pub fn set_divisor_lsb(&self, bank: &mut RegisterBank, value: u8)
        requires
            old(bank).wf(),
        ensures
            final(bank).wf(),
            final(bank).divisor_lo == value,
            final(bank).lcr == old(bank).lcr % 128,
            !final(bank).dlab(),
            final(bank).ier == old(bank).ier,
            final(bank).fcr == old(bank).fcr,
            final(bank).isr == old(bank).isr,
            final(bank).mcr == old(bank).mcr,
            final(bank).msr == old(bank).msr,
            final(bank).spr == old(bank).spr,
            final(bank).divisor_hi == old(bank).divisor_hi,
            fifos_same(*old(bank), *final(bank)),
            flags_same(*old(bank), *final(bank)),
    {
        self.dlab_enable(bank, true);
        bank.write(0, value);
        self.dlab_enable(bank, false);
    }

    /// Write the high byte of the baud divisor, with the same latch
    /// bracket as the low byte.
    pub fn set_divisor_msb(&self, bank: &mut RegisterBank, value: u8)
        requires
            old(bank).wf(),
        ensures
            final(bank).wf(),
            final(bank).divisor_hi == value,
            final(bank).lcr == old(bank).lcr % 128,
            !final(bank).dlab(),
            final(bank).ier == old(bank).ier,
            final(bank).fcr == old(bank).fcr,
            final(bank).isr == old(bank).isr,
            final(bank).mcr == old(bank).mcr,
            final(bank).msr == old(bank).msr,
            final(bank).spr == old(bank).spr,
            final(bank).divisor_lo == old(bank).divisor_lo,
            fifos_same(*old(bank), *final(bank)),
            flags_same(*old(bank), *final(bank)),
    {
        self.dlab_enable(bank, true);
        bank.write(1, value);
        self.dlab_enable(bank, false);
    }

    /// Read the low byte of the baud divisor, with the latch bracket.
    pub fn get_divisor_lsb(&self, bank: &mut RegisterBank) -> (value: u8)
        requires
            old(bank).wf(),
        ensures
            final(bank).wf(),
            value == old(bank).divisor_lo,
            final(bank).lcr == old(bank).lcr % 128,
            !final(bank).dlab(),
            final(bank).ier == old(bank).ier,
            final(bank).fcr == old(bank).fcr,
            final(bank).isr == old(bank).isr,
            final(bank).mcr == old(bank).mcr,
            final(bank).msr == old(bank).msr,
            final(bank).spr == old(bank).spr,
            final(bank).divisor_lo == old(bank).divisor_lo,
            final(bank).divisor_hi == old(bank).divisor_hi,
            fifos_same(*old(bank), *final(bank)),
            flags_same(*old(bank), *final(bank)),
    {
        self.dlab_enable(bank, true);
        let value = bank.read(0);
        self.dlab_enable(bank, false);
        value
    }

    /// Read the high byte of the baud divisor, with the latch bracket.
    pub fn get_divisor_msb(&self, bank: &mut RegisterBank) -> (value: u8)
        requires
            old(bank).wf(),
        ensures
            final(bank).wf(),
            value == old(bank).divisor_hi,
            final(bank).lcr == old(bank).lcr % 128,
            !final(bank).dlab(),
            final(bank).ier == old(bank).ier,
            final(bank).fcr == old(bank).fcr,
            final(bank).isr == old(bank).isr,
            final(bank).mcr == old(bank).mcr,
            final(bank).msr == old(bank).msr,
            final(bank).spr == old(bank).spr,
            final(bank).divisor_lo == old(bank).divisor_lo,
            final(bank).divisor_hi == old(bank).divisor_hi,
            fifos_same(*old(bank), *final(bank)),
            flags_same(*old(bank), *final(bank)),
    {
        self.dlab_enable(bank, true);
        let value = bank.read(1);
        self.dlab_enable(bank, false);
        value
    }

    /// Program the 16-bit divisor into the divisor registers, low byte
    /// then high byte, each under the latch bracket; the latch reads as
    /// cleared once the write completes.
    pub fn set_divisor(&self, bank: &mut RegisterBank, divisor: u16)
        requires
            old(bank).wf(),
            divisor >= 1,
        ensures
            final(bank).wf(),
            final(bank).divisor() == divisor,
            final(bank).divisor_lo == divisor % 256,
            final(bank).divisor_hi == divisor / 256,
            final(bank).lcr == old(bank).lcr % 128,
            !final(bank).dlab(),
            final(bank).ier == old(bank).ier,
            final(bank).fcr == old(bank).fcr,
            final(bank).isr == old(bank).isr,
            final(bank).mcr == old(bank).mcr,
            final(bank).msr == old(bank).msr,
            final(bank).spr == old(bank).spr,
            fifos_same(*old(bank), *final(bank)),
            flags_same(*old(bank), *final(bank)),
    {
        self.set_divisor_lsb(bank, (divisor % 256) as u8);
        self.set_divisor_msb(bank, (divisor / 256) as u8);
    }

    /// Read the 16-bit divisor back out of the divisor registers, low byte
    /// then high byte, each under the latch bracket.
    pub fn get_divisor(&self, bank: &mut RegisterBank) -> (divisor: u16)
        requires
            old(bank).wf(),
        ensures
            final(bank).wf(),
            divisor == old(bank).divisor(),
            final(bank).lcr == old(bank).lcr % 128,
            !final(bank).dlab(),
            final(bank).ier == old(bank).ier,
            final(bank).fcr == old(bank).fcr,
            final(bank).isr == old(bank).isr,
            final(bank).mcr == old(bank).mcr,
            final(bank).msr == old(bank).msr,
            final(bank).spr == old(bank).spr,
            final(bank).divisor_lo == old(bank).divisor_lo,
            final(bank).divisor_hi == old(bank).divisor_hi,
            fifos_same(*old(bank), *final(bank)),
            flags_same(*old(bank), *final(bank)),
    {
        let lsb = self.get_divisor_lsb(bank);
        let msb = self.get_divisor_msb(bank);
        lsb as u16 + 256 * (msb as u16)
    }

    /// Convert the baud rate to a divisor and program it, returning the
    /// divisor actually written; on a rejected rate nothing is written.
    pub fn set_baud(&self, bank: &mut RegisterBank, baud: u32) -> (result: Result<
        u16,
        SerialError,
    >)
        requires
            old(bank).wf(),
            baud > 0,
        ensures
            final(bank).wf(),
            result == divisor_for(baud),
            result matches Ok(divisor) ==> {
                &&& final(bank).divisor() == divisor
                &&& final(bank).lcr == old(bank).lcr % 128
                &&& !final(bank).dlab()
                &&& final(bank).ier == old(bank).ier
                &&& final(bank).fcr == old(bank).fcr
                &&& final(bank).isr == old(bank).isr
                &&& final(bank).mcr == old(bank).mcr
                &&& final(bank).msr == old(bank).msr
                &&& final(bank).spr == old(bank).spr
                &&& fifos_same(*old(bank), *final(bank))
                &&& flags_same(*old(bank), *final(bank))
            },
            result is Err ==> crate::bank::state_same(*old(bank), *final(bank)),
    {
        let divisor = match self.calculate_divisor(baud) {
            Ok(divisor) => divisor,
            Err(error) => {
                return Err(error);
            },
        };
        self.set_divisor(bank, divisor);
        Ok(divisor)
    }

    /// Bring the channel from its power-on state to a working
    /// configuration: interrupts off, the requested baud rate programmed,
    /// 8 data bits with no parity and one stop bit, FIFOs enabled and
    /// cleared, and the data path proven by a loopback self-test before
    /// normal modem-control lines are asserted.  A rejected baud rate is
    /// propagated unchanged; a failed self-test leaves the channel in
    /// loopback mode and reports `LoopbackTestFailed`.
    pub fn begin(&self, bank: &mut RegisterBank, baud: u32) -> (result: Result<(), SerialError>)
        requires
            old(bank).wf(),
            !old(bank).dlab(),
            baud > 0,
        ensures
            final(bank).wf(),
            divisor_for(baud) matches Err(error) ==> {
                &&& result == Err::<(), SerialError>(error)
                &&& final(bank).ier == 0
                &&& final(bank).fcr == old(bank).fcr
                &&& final(bank).isr == old(bank).isr
                &&& final(bank).lcr == old(bank).lcr
                &&& final(bank).mcr == old(bank).mcr
                &&& final(bank).msr == old(bank).msr
                &&& final(bank).spr == old(bank).spr
                &&& final(bank).divisor_lo == old(bank).divisor_lo
                &&& final(bank).divisor_hi == old(bank).divisor_hi
                &&& fifos_same(*old(bank), *final(bank))
                &&& flags_same(*old(bank), *final(bank))
            },
            divisor_for(baud) matches Ok(divisor) ==> {
                let echoed = old(bank).rx@.push(PROBE_BYTE)[0];
                &&& final(bank).ier == 0
                &&& final(bank).lcr == 0x03
                &&& !final(bank).dlab()
                &&& final(bank).fcr == 0xc7
                &&& final(bank).divisor() == divisor
                &&& final(bank).rx@ == old(bank).rx@.push(PROBE_BYTE).skip(1)
                &&& final(bank).tx@ == old(bank).tx@
                &&& !final(bank).rx_ready_seen
                &&& final(bank).tx_clear_seen
                &&& (echoed == PROBE_BYTE ==> result == Ok::<(), SerialError>(())
                    && final(bank).mcr == 0x0f)
                &&& (echoed != PROBE_BYTE ==> result == Err::<(), SerialError>(
                    SerialError::LoopbackTestFailed,
                ) && final(bank).mcr == 0x1e)
            },
    {
        self.ier_write(bank, 0x00);
        match self.set_baud(bank, baud) {
            Ok(_) => (),
            Err(error) => {
                return Err(error);
            },
        }
        self.lcr_write(bank, 0x03);
        self.fifo_write(bank, 0xc7);
        self.mcr_write(bank, 0x0b);
        self.mcr_write(bank, 0x1e);

        self.transmit_byte(bank, PROBE_BYTE);

        let echoed = self.receive_byte(bank);
        if echoed != PROBE_BYTE {
            return Err(SerialError::LoopbackTestFailed);
        }

        self.mcr_write(bank, 0x0f);

        Ok(())
    }

    /// Transmit the given bytes in order.
    pub fn write_bytes(&self, bank: &mut RegisterBank, bytes: &[u8])
        requires
            old(bank).wf(),
            !old(bank).dlab(),
        ensures
            final(bank).wf(),
            emits(*old(bank), *final(bank), bytes@),
    {
        proof {
            assert(old(bank).tx@ + bytes@.take(0) =~= old(bank).tx@);
            assert(old(bank).rx@ + bytes@.take(0) =~= old(bank).rx@);
        }
        let mut i: usize = 0;
        while i < bytes.len()
            invariant
                bank.wf(),
                !bank.dlab(),
                i <= bytes@.len(),
                emits(*old(bank), *bank, bytes@.take(i as int)),
            decreases bytes@.len() - i,
        {
            let ghost mid = *bank;
            self.write_byte(bank, bytes[i]);
            proof {
                lemma_emits_join(*old(bank), mid, *bank, bytes@.take(i as int), seq![bytes@[i as int]]);
                assert(bytes@.take(i as int) + seq![bytes@[i as int]] =~= bytes@.take(i as int + 1));
            }
            i += 1;
        }
        proof {
            assert(bytes@.take(bytes@.len() as int) =~= bytes@);
        }
    }

    /// Transmit the UTF-8 byte sequence of a text string.
    pub fn write(&self, bank: &mut RegisterBank, value: &str)
        requires
            old(bank).wf(),
            !old(bank).dlab(),
        ensures
            final(bank).wf(),
            emits(*old(bank), *final(bank), encode_utf8(value@)),
    {
        self.write_bytes(bank, value.as_bytes());
    }

    /// Transmit the UTF-8 byte sequence of a text string, followed by a
    /// line feed.
    pub fn writeln(&self, bank: &mut RegisterBank, value: &str)
        requires
            old(bank).wf(),
            !old(bank).dlab(),
        ensures
            final(bank).wf(),
            emits(*old(bank), *final(bank), encode_utf8(value@).push(0x0a)),
    {
        self.write(bank, value);
        let ghost mid = *bank;
        self.write_byte(bank, 0x0a);
        proof {
            lemma_emits_join(*old(bank), mid, *bank, encode_utf8(value@), seq![0x0au8]);
            assert(encode_utf8(value@) + seq![0x0au8] =~= encode_utf8(value@).push(0x0a));
        }
    }

    /// Encode one character as UTF-8 (one to four bytes) and transmit
    /// those bytes in order.
    pub fn write_char(&self, bank: &mut RegisterBank, value: char)
        requires
            old(bank).wf(),
            !old(bank).dlab(),
        ensures
            final(bank).wf(),
            emits(*old(bank), *final(bank), encode_scalar(value as u32)),
    {
        let bytes = encode_char(value);
        self.write_bytes(bank, bytes.as_slice());
    }

    /// Render an unsigned integer in the given radix (2 through 34,
    /// digits `0`-`9` then `A`-`Z`), most significant digit first, with
    /// no leading zeroes, and transmit the digits.
    pub fn write_uint(&self, bank: &mut RegisterBank, value: usize, radix: usize)
        requires
            old(bank).wf(),
            !old(bank).dlab(),
            2 <= radix <= 34,
        ensures
            final(bank).wf(),
            emits(*old(bank), *final(bank), digits_in_radix(value as nat, radix as nat)),
        decreases value,
    {
        if value < radix {
            self.write_byte(bank, ascii_digit(value as u8));
            proof {
                assert(digits_in_radix(value as nat, radix as nat) =~= seq![
                    ascii_digit_of(value as int),
                ]);
            }
        } else {
            proof {
                lemma_div_is_strictly_smaller(value as int, radix as int);
            }
            self.write_uint(bank, value / radix, radix);
            let ghost mid = *bank;
            self.write_byte(bank, ascii_digit((value % radix) as u8));
            proof {
                let high = digits_in_radix((value / radix) as nat, radix as nat);
                let last = seq![ascii_digit_of((value % radix) as int)];
                lemma_emits_join(*old(bank), mid, *bank, high, last);
                assert(high + last =~= digits_in_radix(value as nat, radix as nat));
            }
        }
    }

    /// Block until at least one byte is pending, then read up to four
    /// bytes — stopping early at a zero byte or when no more input is
    /// pending — and decode the frame as one UTF-8 character.  The
    /// pending input must form a well-formed frame: a malformed frame is
    /// an unrecoverable fault, not a reportable value.
    pub fn read_char(&self, bank: &mut RegisterBank) -> (value: char)
        requires
            old(bank).wf(),
            !old(bank).dlab(),
            old(bank).rx@.len() > 0,
            payload_decodes(char_payload(old(bank).rx@)),
        ensures
            final(bank).wf(),
            regs_same(*old(bank), *final(bank)),
            final(bank).tx@ == old(bank).tx@,
            value as u32 == scalar_of_payload(char_payload(old(bank).rx@)),
            final(bank).rx@ == old(bank).rx@.skip(chars_consumed(old(bank).rx@)),
    {
        let ghost pending = old(bank).rx@;
        let mut buffer: Vec<u8> = Vec::new();
        let mut terminated = false;

        loop
            invariant_except_break
                !terminated,
                bank.rx@ == pending.skip(buffer@.len() as int),
            invariant
                bank.wf(),
                !bank.dlab(),
                regs_same(*old(bank), *bank),
                bank.tx@ == old(bank).tx@,
                pending == old(bank).rx@,
                pending.len() > 0,
                buffer@.len() <= 4,
                buffer@.len() <= pending.len(),
                buffer@ == pending.take(buffer@.len() as int),
                forall|i: int| 0 <= i < buffer@.len() ==> pending[i] != 0,
            ensures
                bank.wf(),
                !bank.dlab(),
                regs_same(*old(bank), *bank),
                bank.tx@ == old(bank).tx@,
                buffer@.len() <= 4,
                buffer@ == pending.take(buffer@.len() as int),
                forall|i: int| 0 <= i < buffer@.len() ==> pending[i] != 0,
                bank.rx@ == pending.skip(
                    buffer@.len() + (if terminated {
                        1int
                    } else {
                        0int
                    }),
                ),
                terminated ==> buffer@.len() < 4 && buffer@.len() < pending.len()
                    && pending[buffer@.len() as int] == 0,
                !terminated ==> buffer@.len() == 4 || buffer@.len() == pending.len(),
            decreases 4 - buffer@.len(),
        {
            if buffer.len() >= 4 {
                break;
            }
            if buffer.len() > 0 && !self.serial_recieved(bank) {
                break;
            }
            let ghost m = buffer@.len() as int;
            let byte = self.receive_byte(bank);
            proof {
                assert(pending.skip(m).skip(1) =~= pending.skip(m + 1));
            }
            if byte == 0 {
                terminated = true;
                break;
            }
            buffer.push(byte);
            proof {
                assert(buffer@ =~= pending.take(buffer@.len() as int));
            }
        }

        proof {
            let m = buffer@.len() as int;
            lemma_nonzero_prefix_len_is(pending, 4, m);
            assert(char_payload(pending) == buffer@);
        }

        let decoded = decode_char(buffer.as_slice());
        match decoded {
            Some(value) => value,
            None => unreached(),
        }
    }
}

} // verus!

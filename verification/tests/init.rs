//! Initialization, the loopback self-test, and the register accessors.

use uart16550::bank::RegisterBank;
use uart16550::serial::Port;
use uart16550::serial::Serial;
use uart16550::serial::SerialError;

#[test]
fn port_base_address() {
    assert_eq!(Port::COM1.base(), 0x3f8);
}

#[test]
fn begin_succeeds_on_echoing_bank() {
    let ser = Serial::new(Port::COM1);
    let mut bank = RegisterBank::new();
    assert_eq!(ser.begin(&mut bank, 38400), Ok(()));
    // the channel is left in the normal operating configuration
    assert_eq!(bank.ier, 0x00);
    assert_eq!(bank.lcr, 0x03);
    assert_eq!(bank.fcr, 0xc7);
    assert_eq!(bank.mcr, 0x0f);
    assert_eq!(bank.divisor_lo, 3);
    assert_eq!(bank.divisor_hi, 0);
    // the probe byte was consumed again; nothing left the device
    assert!(bank.rx.is_empty());
    assert!(bank.tx.is_empty());
}

#[test]
fn begin_fails_when_echo_differs() {
    let ser = Serial::new(Port::COM1);
    let mut bank = RegisterBank::new();
    // a stray byte ahead of the probe makes the self-test read back 0x55
    bank.push_incoming(0x55);
    assert_eq!(ser.begin(&mut bank, 38400), Err(SerialError::LoopbackTestFailed));
    // the channel is left in loopback mode, not the operating configuration
    assert_eq!(bank.mcr, 0x1e);
}

#[test]
fn begin_propagates_divisor_errors() {
    let ser = Serial::new(Port::COM1);
    let mut bank = RegisterBank::new();
    assert_eq!(ser.begin(&mut bank, 1), Err(SerialError::BaudValueTooSmall(1)));
    assert_eq!(
        ser.begin(&mut bank, 230400),
        Err(SerialError::BaudValueTooLarge(230400))
    );
    // neither attempt got past programming the divisor
    assert_eq!(bank.mcr, 0x00);
    assert_eq!(bank.divisor_lo, 0);
    assert_eq!(bank.divisor_hi, 0);
}

#[test]
fn dlab_enable_toggles_only_bit_seven() {
    let ser = Serial::new(Port::COM1);
    let mut bank = RegisterBank::new();
    ser.lcr_write(&mut bank, 0x03);
    ser.dlab_enable(&mut bank, true);
    assert_eq!(bank.lcr, 0x83);
    ser.dlab_enable(&mut bank, false);
    assert_eq!(bank.lcr, 0x03);
}

#[test]
fn scratch_and_interrupt_registers() {
    let ser = Serial::new(Port::COM1);
    let mut bank = RegisterBank::new();
    ser.spr_write(&mut bank, 0x5a);
    assert_eq!(ser.spr_read(&mut bank), 0x5a);
    ser.ier_write(&mut bank, 0x0d);
    assert_eq!(ser.ier_read(&mut bank), 0x0d);
    ser.mcr_write(&mut bank, 0x0b);
    assert_eq!(ser.mcr_read(&mut bank), 0x0b);
    assert_eq!(ser.isr_read(&mut bank), 0x00);
    assert_eq!(ser.msr_read(&mut bank), 0x00);
}

#[test]
fn status_bits_follow_pending_input() {
    let ser = Serial::new(Port::COM1);
    let mut bank = RegisterBank::new();
    assert!(ser.is_transmit_empty(&mut bank));
    assert!(!ser.serial_recieved(&mut bank));
    bank.push_incoming(0x31);
    assert!(ser.serial_recieved(&mut bank));
    assert_eq!(ser.lsr_read(&mut bank), 0x61);
    assert_eq!(ser.read_byte(&mut bank), 0x31);
    assert!(!ser.serial_recieved(&mut bank));
    assert_eq!(ser.lsr_read(&mut bank), 0x60);
}

#[test]
fn data_register_accesses_follow_status_polls() {
    let ser = Serial::new(Port::COM1);
    let mut bank = RegisterBank::new();
    // a transmit ends with its status observation spent
    ser.write_byte(&mut bank, 0x41);
    assert!(!bank.tx_clear_seen);
    // polling the line status records fresh observations
    ser.is_transmit_empty(&mut bank);
    assert!(bank.tx_clear_seen);
    bank.push_incoming(0x42);
    ser.serial_recieved(&mut bank);
    assert!(bank.rx_ready_seen);
    // a receive ends with its status observation spent
    ser.read_byte(&mut bank);
    assert!(!bank.rx_ready_seen);
}

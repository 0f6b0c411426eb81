//! Baud divisor calculation and the divisor-register protocol.

use uart16550::bank::RegisterBank;
use uart16550::serial::Port;
use uart16550::serial::Serial;
use uart16550::serial::SerialError;

#[test]
fn divisor_for_common_rates() {
    let ser = Serial::new(Port::COM1);
    assert_eq!(ser.calculate_divisor(115200), Ok(1));
    assert_eq!(ser.calculate_divisor(57600), Ok(2));
    assert_eq!(ser.calculate_divisor(38400), Ok(3));
    assert_eq!(ser.calculate_divisor(9600), Ok(12));
    assert_eq!(ser.calculate_divisor(2), Ok(57600));
}

#[test]
fn divisor_rejects_too_fast_rates() {
    let ser = Serial::new(Port::COM1);
    assert_eq!(
        ser.calculate_divisor(115201),
        Err(SerialError::BaudValueTooLarge(115201))
    );
    assert_eq!(
        ser.calculate_divisor(u32::MAX),
        Err(SerialError::BaudValueTooLarge(u32::MAX))
    );
}

#[test]
fn divisor_rejects_too_slow_rates() {
    let ser = Serial::new(Port::COM1);
    assert_eq!(ser.calculate_divisor(1), Err(SerialError::BaudValueTooSmall(1)));
}

#[test]
fn divisor_floor_division() {
    let ser = Serial::new(Port::COM1);
    // 115200 / 38401 rounds down to 2
    assert_eq!(ser.calculate_divisor(38401), Ok(2));
}

#[test]
fn divisor_register_round_trip() {
    let ser = Serial::new(Port::COM1);
    let mut bank = RegisterBank::new();
    ser.set_divisor(&mut bank, 3);
    assert_eq!(bank.divisor_lo, 3);
    assert_eq!(bank.divisor_hi, 0);
    // the divisor latch reads as cleared immediately after the write
    assert_eq!(bank.lcr & 0x80, 0);
    assert_eq!(ser.get_divisor(&mut bank), 3);
    assert_eq!(bank.lcr & 0x80, 0);
}

#[test]
fn divisor_register_round_trip_both_bytes() {
    let ser = Serial::new(Port::COM1);
    let mut bank = RegisterBank::new();
    ser.set_divisor(&mut bank, 0xabcd);
    assert_eq!(bank.divisor_lo, 0xcd);
    assert_eq!(bank.divisor_hi, 0xab);
    assert_eq!(ser.get_divisor(&mut bank), 0xabcd);
    assert_eq!(bank.lcr & 0x80, 0);
}

#[test]
fn divisor_bracket_keeps_line_parameters() {
    let ser = Serial::new(Port::COM1);
    let mut bank = RegisterBank::new();
    ser.lcr_write(&mut bank, 0x03);
    ser.set_divisor(&mut bank, 12);
    // the bracket toggles only bit 7; the line parameters survive
    assert_eq!(bank.lcr, 0x03);
}

#[test]
fn set_baud_programs_the_divisor() {
    let ser = Serial::new(Port::COM1);
    let mut bank = RegisterBank::new();
    assert_eq!(ser.set_baud(&mut bank, 9600), Ok(12));
    assert_eq!(bank.divisor_lo, 12);
    assert_eq!(bank.divisor_hi, 0);
}

#[test]
fn set_baud_writes_nothing_on_error() {
    let ser = Serial::new(Port::COM1);
    let mut bank = RegisterBank::new();
    ser.set_divisor(&mut bank, 7);
    assert_eq!(
        ser.set_baud(&mut bank, 1),
        Err(SerialError::BaudValueTooSmall(1))
    );
    assert_eq!(bank.divisor_lo, 7);
    assert_eq!(bank.divisor_hi, 0);
}

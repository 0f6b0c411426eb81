//! The text codec: integer rendering, UTF-8 encoding and decoding, and
//! character transport through the channel.

use uart16550::bank::RegisterBank;
use uart16550::codec::decode_char;
use uart16550::codec::encode_char;
use uart16550::serial::Port;
use uart16550::serial::Serial;

#[test]
fn write_uint_renders_hex() {
    let ser = Serial::new(Port::COM1);
    let mut bank = RegisterBank::new();
    ser.write_uint(&mut bank, 255, 16);
    assert_eq!(bank.tx, b"FF".to_vec());
}

#[test]
fn write_uint_renders_zero() {
    let ser = Serial::new(Port::COM1);
    let mut bank = RegisterBank::new();
    ser.write_uint(&mut bank, 0, 10);
    assert_eq!(bank.tx, b"0".to_vec());
}

#[test]
fn write_uint_renders_binary() {
    let ser = Serial::new(Port::COM1);
    let mut bank = RegisterBank::new();
    ser.write_uint(&mut bank, 7, 2);
    assert_eq!(bank.tx, b"111".to_vec());
}

#[test]
fn write_uint_renders_decimal_and_radix_34() {
    let ser = Serial::new(Port::COM1);
    let mut bank = RegisterBank::new();
    ser.write_uint(&mut bank, 409, 10);
    assert_eq!(bank.tx, b"409".to_vec());
    bank.tx.clear();
    // 33 is the largest digit in radix 34: the letter X
    ser.write_uint(&mut bank, 33, 34);
    assert_eq!(bank.tx, b"X".to_vec());
}

#[test]
fn write_and_writeln_emit_utf8_bytes() {
    let ser = Serial::new(Port::COM1);
    let mut bank = RegisterBank::new();
    ser.write(&mut bank, "hi");
    assert_eq!(bank.tx, b"hi".to_vec());
    bank.tx.clear();
    ser.writeln(&mut bank, "ok");
    assert_eq!(bank.tx, b"ok\n".to_vec());
    bank.tx.clear();
    ser.writeln(&mut bank, "\u{3B5}");
    assert_eq!(bank.tx, vec![0xce, 0xb5, 0x0a]);
}

#[test]
fn write_bytes_emits_in_order() {
    let ser = Serial::new(Port::COM1);
    let mut bank = RegisterBank::new();
    ser.write_bytes(&mut bank, &[1, 2, 3]);
    ser.write_bytes(&mut bank, &[4]);
    assert_eq!(bank.tx, vec![1, 2, 3, 4]);
}

#[test]
fn write_char_emits_each_width() {
    let ser = Serial::new(Port::COM1);
    let mut bank = RegisterBank::new();
    ser.write_char(&mut bank, 'A');
    assert_eq!(bank.tx, vec![0x41]);
    bank.tx.clear();
    ser.write_char(&mut bank, '\u{3B5}');
    assert_eq!(bank.tx, vec![0xce, 0xb5]);
    bank.tx.clear();
    ser.write_char(&mut bank, '\u{20AC}');
    assert_eq!(bank.tx, vec![0xe2, 0x82, 0xac]);
    bank.tx.clear();
    ser.write_char(&mut bank, '\u{1D11E}');
    assert_eq!(bank.tx, vec![0xf0, 0x9d, 0x84, 0x9e]);
}

#[test]
fn encode_then_decode_round_trips() {
    for value in ['\0', 'A', '\u{7F}', '\u{80}', '\u{3B5}', '\u{7FF}', '\u{800}', '\u{FFFF}', '\u{10000}', '\u{10FFFF}'] {
        let bytes = encode_char(value);
        assert_eq!(decode_char(&bytes), Some(value));
    }
}

#[test]
fn decode_rejects_malformed_continuation() {
    // the first byte announces two bytes, but the second is no
    // continuation byte (leading ones != 1)
    assert_eq!(decode_char(&[0xc3, 0x28]), None);
    assert_eq!(decode_char(&[0xc3, 0xc3]), None);
    assert_eq!(decode_char(&[0xe2, 0x82, 0x41]), None);
}

#[test]
fn decode_rejects_inconsistent_length_prefix() {
    // truncated two-byte sequence
    assert_eq!(decode_char(&[0xc3]), None);
    // lone continuation byte
    assert_eq!(decode_char(&[0x80]), None);
    // four bytes after a three-byte prefix
    assert_eq!(decode_char(&[0xe2, 0x82, 0xac, 0xac]), None);
}

#[test]
fn decode_rejects_surrogates() {
    // 0xed 0xa0 0x80 assembles to 0xd800, which is no scalar value
    assert_eq!(decode_char(&[0xed, 0xa0, 0x80]), None);
}

#[test]
fn decode_ascii_and_empty_frames() {
    assert_eq!(decode_char(&[0x41]), Some('A'));
    assert_eq!(decode_char(&[]), Some('\0'));
    assert_eq!(decode_char(&[0xce, 0xb5]), Some('\u{3B5}'));
}

#[test]
fn read_char_decodes_pending_input() {
    let ser = Serial::new(Port::COM1);
    let mut bank = RegisterBank::new();
    bank.push_incoming(0xce);
    bank.push_incoming(0xb5);
    assert_eq!(ser.read_char(&mut bank), '\u{3B5}');
    assert!(bank.rx.is_empty());
}

#[test]
fn read_char_round_trips_through_loopback() {
    let ser = Serial::new(Port::COM1);
    let mut bank = RegisterBank::new();
    // loopback mode: transmitted bytes come back as received bytes
    ser.mcr_write(&mut bank, 0x10);
    ser.write_char(&mut bank, '\u{3B5}');
    assert!(bank.tx.is_empty());
    assert_eq!(ser.read_char(&mut bank), '\u{3B5}');
}

#[test]
fn read_char_ascii_consumes_single_pending_byte() {
    let ser = Serial::new(Port::COM1);
    let mut bank = RegisterBank::new();
    bank.push_incoming(0x41);
    assert_eq!(ser.read_char(&mut bank), 'A');
    assert!(bank.rx.is_empty());
}

#[test]
fn read_char_stops_at_zero_terminator() {
    let ser = Serial::new(Port::COM1);
    let mut bank = RegisterBank::new();
    bank.push_incoming(0x41);
    bank.push_incoming(0x00);
    bank.push_incoming(0x42);
    // the zero byte ends the frame and is consumed with it
    assert_eq!(ser.read_char(&mut bank), 'A');
    assert_eq!(ser.read_byte(&mut bank), 0x42);
    assert!(bank.rx.is_empty());
}

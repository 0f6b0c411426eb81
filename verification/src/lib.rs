//! Verified driver logic for a 16550-compatible UART.
//!
//! The crate models the device's register bank as explicit state
//! ([`bank::RegisterBank`]), and verifies the whole driver against that
//! model: the register protocol with its divisor-latch bracket discipline,
//! the initialization and loopback self-test sequence, the blocking byte
//! transport, and the text codec (UTF-8 in both directions plus
//! arbitrary-radix integer formatting) layered on top of it.

pub mod bank;
pub mod codec;
pub mod serial;

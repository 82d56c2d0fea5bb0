//! The ARM PL011 UART, polled.
//!
//! The flag register says what is *not* possible: TXFF that the transmit FIFO is
//! full, RXFE that the receive FIFO is empty.

use crate::hal::mmio::MmioOp;
use crate::text::crlf_bytes;
use vstd::prelude::*;

verus! {

/// The data register's offset.
pub const DR: u64 = 0x00;

/// The flag register's offset.
pub const FR: u64 = 0x18;

/// Transmit FIFO full.
pub const FR_TXFF: u32 = 0x20;

/// Receive FIFO empty.
pub const FR_RXFE: u32 = 0x10;

/// A UART at register base `BASE`.
#[derive(Clone, Copy)]
pub struct Pl011<const BASE: u64>;

/// The transmit FIFO is full.
pub open spec fn tx_full(flags: u32) -> bool {
    (flags / 32) % 2 == 1
}

/// The receive FIFO is empty.
pub open spec fn rx_empty(flags: u32) -> bool {
    (flags / 16) % 2 == 1
}

/// Given what the flag register reads as: does the transmit FIFO have room?
pub fn can_transmit(flags: u32) -> (b: bool)
    ensures
        b == !tx_full(flags),
{
    assert((flags & FR_TXFF != 0) == ((flags / 32) % 2 == 1)) by (bit_vector);
    flags & FR_TXFF == 0
}

impl<const BASE: u64> Pl011<BASE> {
    pub fn new() -> (u: Self) {
        Pl011
    }

    /// The flag register.
    pub fn flags(self) -> (addr: u64)
        requires
            BASE <= 0xFFFF_FFFF_FFFF_0000,
        ensures
            addr == BASE + FR,
    {
        BASE + FR
    }

    /// Transmit one byte, given what the flag register reads as; None = the FIFO
    /// is full, look at the flags again.
    pub fn write_byte(self, flags: u32, b: u8) -> (op: Option<MmioOp>)
        ensures
            op == (if tx_full(flags) {
                None
            } else {
                Some(MmioOp::Write32 { addr: BASE, val: b as u32 })
            }),
    {
        if can_transmit(flags) {
            Some(MmioOp::Write32 { addr: BASE, val: b as u32 })
        } else {
            None
        }
    }

    /// The register to read a waiting byte from, given what the flag register
    /// reads as; None = nothing is waiting. Reading it takes the byte.
    pub fn try_read_byte(self, flags: u32) -> (addr: Option<u64>)
        ensures
            addr == (if rx_empty(flags) {
                None
            } else {
                Some(BASE)
            }),
    {
        assert((flags & FR_RXFE != 0) == ((flags / 16) % 2 == 1)) by (bit_vector);
        if flags & FR_RXFE != 0 {
            None
        } else {
            Some(BASE)
        }
    }

    /// The byte in a word read from the data register; the bits above are error
    /// flags.
    pub fn read_byte(self, data: u32) -> (b: u8)
        ensures
            b == data as int % 0x100,
    {
        assert(data as u8 == data % 0x100) by (bit_vector);
        data as u8
    }

    /// The bytes to transmit for `s`: a newline becomes a carriage return and a
    /// newline.
    pub fn write_str(self, s: &str) -> (bytes: Vec<u8>)
        ensures
            bytes@ == crate::text::crlf(vstd::utf8::encode_utf8(s@)),
    {
        crlf_bytes(s.as_bytes())
    }
}

/// The flags are bits 5 and 4 of the flag register, whatever the others say.
pub proof fn law_flags(flags: u32)
    ensures
        tx_full(flags) <==> flags & 0x20 != 0,
        rx_empty(flags) <==> flags & 0x10 != 0,
{
    assert(((flags / 32) % 2 == 1) == (flags & 0x20 != 0) && ((flags / 16) % 2 == 1) == (flags & 0x10
        != 0)) by (bit_vector);
}

} // verus!

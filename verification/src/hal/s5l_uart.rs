//! The Samsung-style UART of Apple Silicon, polled.
//!
//! The status register says what *is* possible: bit 1 that the transmit buffer
//! is empty, bit 0 that a byte has arrived.

use crate::hal::mmio::MmioOp;
use crate::text::crlf_bytes;
use vstd::prelude::*;

verus! {

/// The status register's offset.
pub const UTRSTAT_OFF: u64 = 0x10;

/// The transmit register's offset.
pub const UTXH_OFF: u64 = 0x20;

/// The receive register's offset.
pub const URXH_OFF: u64 = 0x24;

/// The transmit buffer is empty.
pub const UTRSTAT_TX_EMPTY: u32 = 0x2;

/// A byte has arrived.
pub const UTRSTAT_RX_READY: u32 = 0x1;

/// The transmit buffer can take a byte.
pub open spec fn tx_ready(status: u32) -> bool {
    (status / 2) % 2 == 1
}

/// A byte has arrived.
pub open spec fn rx_ready(status: u32) -> bool {
    status % 2 == 1
}

fn can_transmit(status: u32) -> (b: bool)
    ensures
        b == tx_ready(status),
{
    assert((status & UTRSTAT_TX_EMPTY != 0) == ((status / 2) % 2 == 1)) by (bit_vector);
    status & UTRSTAT_TX_EMPTY != 0
}

fn can_receive(status: u32) -> (b: bool)
    ensures
        b == rx_ready(status),
{
    assert((status & UTRSTAT_RX_READY != 0) == (status % 2 == 1)) by (bit_vector);
    status & UTRSTAT_RX_READY != 0
}

/// A UART at register base `BASE`.
#[derive(Clone, Copy)]
pub struct S5lUart<const BASE: u64>;

impl<const BASE: u64> S5lUart<BASE> {
    pub fn new() -> (u: Self) {
        S5lUart
    }

    /// The status register.
    pub fn status(self) -> (addr: u64)
        requires
            BASE <= 0xFFFF_FFFF_FFFF_0000,
        ensures
            addr == BASE + UTRSTAT_OFF,
    {
        BASE + UTRSTAT_OFF
    }

    /// Transmit one byte, given what the status register reads as; None = the
    /// buffer is not empty, look at the status again.
    pub fn write_byte(self, status: u32, b: u8) -> (op: Option<MmioOp>)
        requires
            BASE <= 0xFFFF_FFFF_FFFF_0000,
        ensures
            op == (if tx_ready(status) {
                Some(MmioOp::Write8 { addr: (BASE + UTXH_OFF) as u64, byte: b })
            } else {
                None
            }),
    {
        if can_transmit(status) {
            Some(MmioOp::Write8 { addr: BASE + UTXH_OFF, byte: b })
        } else {
            None
        }
    }

    /// The byte-wide register to read a waiting byte from, given what the status
    /// register reads as; None = nothing is waiting.
    pub fn try_read_byte(self, status: u32) -> (addr: Option<u64>)
        requires
            BASE <= 0xFFFF_FFFF_FFFF_0000,
        ensures
            addr == (if rx_ready(status) {
                Some((BASE + URXH_OFF) as u64)
            } else {
                None
            }),
    {
        if can_receive(status) {
            Some(BASE + URXH_OFF)
        } else {
            None
        }
    }

    /// The bytes to transmit for `s`.
    pub fn write_str(self, s: &str) -> (bytes: Vec<u8>)
        ensures
            bytes@ == crate::text::crlf(vstd::utf8::encode_utf8(s@)),
    {
        crlf_bytes(s.as_bytes())
    }
}

/// The same UART where the base is only known at run time.
#[derive(Clone, Copy, PartialEq, Eq, Structural, Debug)]
pub struct RuntimeS5lUart {
    base: u64,
}

impl RuntimeS5lUart {
    pub closed spec fn base_addr(&self) -> u64 {
        self.base
    }

    /// The registers lie inside the address space.
    pub open spec fn wf(&self) -> bool {
        self.base_addr() <= 0xFFFF_FFFF_FFFF_0000
    }

    pub fn new(base: u64) -> (u: RuntimeS5lUart)
        ensures
            u.base_addr() == base,
    {
        RuntimeS5lUart { base }
    }

    /// A UART that has not been found yet: base 0.
    pub fn unconfigured() -> (u: RuntimeS5lUart)
        ensures
            u.base_addr() == 0,
    {
        RuntimeS5lUart { base: 0 }
    }

    pub fn set_base(&mut self, base: u64)
        ensures
            final(self).base_addr() == base,
    {
        self.base = base;
    }

    /// The base address; 0 if not configured.
    pub fn base(&self) -> (b: u64)
        ensures
            b == self.base_addr(),
    {
        self.base
    }

    /// The status register.
    pub fn status(&self) -> (addr: u64)
        requires
            self.wf(),
        ensures
            addr == self.base_addr() + UTRSTAT_OFF,
    {
        self.base + UTRSTAT_OFF
    }

    /// Transmit one byte, given what the status register reads as; None = the
    /// buffer is not empty, look at the status again.
    pub fn write_byte(self, status: u32, b: u8) -> (op: Option<MmioOp>)
        requires
            self.wf(),
        ensures
            op == (if tx_ready(status) {
                Some(MmioOp::Write8 { addr: (self.base_addr() + UTXH_OFF) as u64, byte: b })
            } else {
                None
            }),
    {
        if can_transmit(status) {
            Some(MmioOp::Write8 { addr: self.base + UTXH_OFF, byte: b })
        } else {
            None
        }
    }

    /// The byte-wide register to read a waiting byte from, given what the status
    /// register reads as; None = nothing is waiting.
    pub fn try_read_byte(self, status: u32) -> (addr: Option<u64>)
        requires
            self.wf(),
        ensures
            addr == (if rx_ready(status) {
                Some((self.base_addr() + URXH_OFF) as u64)
            } else {
                None
            }),
    {
        if can_receive(status) {
            Some(self.base + URXH_OFF)
        } else {
            None
        }
    }

    /// The bytes to transmit for `s`.
    pub fn write_str(self, s: &str) -> (bytes: Vec<u8>)
        ensures
            bytes@ == crate::text::crlf(vstd::utf8::encode_utf8(s@)),
    {
        crlf_bytes(s.as_bytes())
    }
}

/// The status bits are bits 1 and 0 of the status register, whatever the others
/// say.
pub proof fn law_status_bits(status: u32)
    ensures
        tx_ready(status) <==> status & 2 != 0,
        rx_ready(status) <==> status & 1 != 0,
{
    assert(((status / 2) % 2 == 1) == (status & 2 != 0) && (status % 2 == 1) == (status & 1 != 0))
        by (bit_vector);
}

} // verus!

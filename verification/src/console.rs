//! The console: which UART, and whether a print takes the lock.

use crate::board::apple::AppleBoard;
use crate::board::{apple, virt, BoardKind};
use crate::hal::mmio::MmioOp;
use crate::text::crlf_bytes;
use vstd::prelude::*;

verus! {

/// Is an exception or a panic being reported? While it is, a print skips the
/// console lock: the interrupted code may hold it.
#[derive(Clone, Copy, PartialEq, Eq, Structural, Debug)]
pub struct Oops {
    pub active: bool,
}

impl Oops {
    pub fn new() -> (o: Oops)
        ensures
            !o.active,
    {
        Oops { active: false }
    }
}

/// Enter emergency-print mode. True if it was already on: a fault inside a
/// fault report.
pub fn oops_enter(oops: &mut Oops) -> (was: bool)
    ensures
        was == old(oops).active,
        final(oops).active,
{
    let was: bool = oops.active;
    oops.active = true;
    was
}

/// Leave emergency-print mode.
pub fn oops_exit(oops: &mut Oops)
    ensures
        !final(oops).active,
{
    oops.active = false;
}

/// Does a print take the console lock?
pub fn print_takes_lock(oops: &Oops) -> (b: bool)
    ensures
        b == !oops.active,
{
    !oops.active
}

/// The console of either board.
#[derive(Clone, Copy)]
pub enum Console {
    Virt(virt::Console),
    Apple(apple::Console),
}

/// The console of the board the machine turned out to be.
pub fn console(kind: BoardKind, apple_board: &AppleBoard) -> (c: Console)
    ensures
        kind == BoardKind::Virt ==> c is Virt,
        kind == BoardKind::Apple ==> (c matches Console::Apple(u) && u.base_addr()
            == apple_board.uart_base),
{
    match kind {
        BoardKind::Virt => Console::Virt(virt::console()),
        BoardKind::Apple => Console::Apple(apple::console(apple_board)),
    }
}

impl Console {
    /// The registers lie inside the address space.
    pub open spec fn wf(self) -> bool {
        self matches Console::Apple(u) ==> u.wf()
    }

    /// The register whose value `write_byte` and `try_read_byte` want to see.
    pub fn status(self) -> (addr: u64)
        requires
            self.wf(),
        ensures
            addr == (match self {
                Console::Virt(_) => (virt::UART0_VA + crate::hal::pl011::FR) as u64,
                Console::Apple(u) => (u.base_addr() + crate::hal::s5l_uart::UTRSTAT_OFF) as u64,
            }),
    {
        match self {
            Console::Virt(c) => c.flags(),
            Console::Apple(c) => c.status(),
        }
    }

    /// Transmit one byte, given what the status register reads as; None = look
    /// again.
    pub fn write_byte(self, status: u32, b: u8) -> (op: Option<MmioOp>)
        requires
            self.wf(),
        ensures
            op == (match self {
                Console::Virt(_) => if crate::hal::pl011::tx_full(status) {
                    None
                } else {
                    Some(MmioOp::Write32 { addr: virt::UART0_VA, val: b as u32 })
                },
                Console::Apple(u) => if crate::hal::s5l_uart::tx_ready(status) {
                    Some(
                        MmioOp::Write8 {
                            addr: (u.base_addr() + crate::hal::s5l_uart::UTXH_OFF) as u64,
                            byte: b,
                        },
                    )
                } else {
                    None
                },
            }),
    {
        match self {
            Console::Virt(c) => c.write_byte(status, b),
            Console::Apple(c) => c.write_byte(status, b),
        }
    }

    /// The register to take a received byte from, given what the status register
    /// reads as; None = nothing has arrived.
    pub fn try_read_byte(self, status: u32) -> (addr: Option<u64>)
        requires
            self.wf(),
        ensures
            addr == (match self {
                Console::Virt(_) => if crate::hal::pl011::rx_empty(status) {
                    None
                } else {
                    Some(virt::UART0_VA)
                },
                Console::Apple(u) => if crate::hal::s5l_uart::rx_ready(status) {
                    Some((u.base_addr() + crate::hal::s5l_uart::URXH_OFF) as u64)
                } else {
                    None
                },
            }),
    {
        match self {
            Console::Virt(c) => c.try_read_byte(status),
            Console::Apple(c) => c.try_read_byte(status),
        }
    }

    /// The bytes to transmit for `s`.
    pub fn write_str(self, s: &str) -> (bytes: Vec<u8>)
        ensures
            bytes@ == crate::text::crlf(vstd::utf8::encode_utf8(s@)),
    {
        crlf_bytes(s.as_bytes())
    }
}

} // verus!

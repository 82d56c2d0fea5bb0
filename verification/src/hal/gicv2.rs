//! The ARM Generic Interrupt Controller, version 2.

use crate::hal::mmio::MmioOp;
use vstd::prelude::*;

verus! {

/// The distributor's registers, physical.
pub const GICD_BASE: u64 = 0x0800_0000;

/// The CPU interface's registers, physical.
pub const GICC_BASE: u64 = 0x0801_0000;

/// The virtual timer's interrupt.
pub const TIMER_IRQ: u32 = 27;

pub const GICD_CTLR: u64 = 0x0000;

pub const GICD_TYPER: u64 = 0x0004;

pub const GICD_IGROUPR: u64 = 0x0080;

pub const GICD_ISENABLER: u64 = 0x0100;

pub const GICD_ICENABLER: u64 = 0x0180;

pub const GICD_IPRIORITYR: u64 = 0x0400;

pub const GICD_ITARGETSR: u64 = 0x0800;

pub const GICD_ICFGR: u64 = 0x0C00;

pub const GICC_CTLR: u64 = 0x0000;

pub const GICC_PMR: u64 = 0x0004;

pub const GICC_BPR: u64 = 0x0008;

pub const GICC_IAR: u64 = 0x000C;

pub const GICC_EOIR: u64 = 0x0010;

/// A controller at given register bases.
#[derive(Clone, Copy, PartialEq, Eq, Structural, Debug)]
pub struct GicV2 {
    gicd: u64,
    gicc: u64,
}

impl GicV2 {
    pub closed spec fn distributor(&self) -> u64 {
        self.gicd
    }

    pub closed spec fn cpu_interface(&self) -> u64 {
        self.gicc
    }

    /// The registers lie inside the address space.
    pub open spec fn wf(&self) -> bool {
        self.distributor() <= 0xFFFF_FFFF_0000_0000 && self.cpu_interface()
            <= 0xFFFF_FFFF_0000_0000
    }

    pub fn new(gicd: u64, gicc: u64) -> (g: GicV2)
        ensures
            g.distributor() == gicd,
            g.cpu_interface() == gicc,
    {
        GicV2 { gicd, gicc }
    }

    /// What bringing the controller online does: the distributor on; the timer's
    /// interrupt in group 0, at medium priority, aimed at CPU 0, edge-triggered
    /// and enabled; then the CPU interface open to every priority and on.
    pub open spec fn init_ops(gicd: u64, gicc: u64) -> Seq<MmioOp> {
        seq![
            MmioOp::Write32 { addr: (gicd + GICD_CTLR) as u64, val: 1 },
            MmioOp::Update32 { addr: (gicd + GICD_IGROUPR) as u64, keep: 0xF7FF_FFFF, set: 0 },
            MmioOp::Write8 { addr: (gicd + GICD_IPRIORITYR + 27) as u64, byte: 0x80 },
            MmioOp::Write8 { addr: (gicd + GICD_ITARGETSR + 27) as u64, byte: 0x01 },
            MmioOp::Update32 {
                addr: (gicd + GICD_ICFGR + 4) as u64,
                keep: 0xFFFF_FFFF,
                set: 0x80_0000,
            },
            MmioOp::Write32 { addr: (gicd + GICD_ISENABLER) as u64, val: 0x800_0000 },
            MmioOp::Write32 { addr: (gicc + GICC_PMR) as u64, val: 0xFF },
            MmioOp::Write32 { addr: (gicc + GICC_BPR) as u64, val: 0 },
            MmioOp::Write32 { addr: (gicc + GICC_CTLR) as u64, val: 1 },
        ]
    }

    /// Bring the controller online.
    pub fn init(&self) -> (ops: Vec<MmioOp>)
        requires
            self.wf(),
        ensures
            ops@ == GicV2::init_ops(self.distributor(), self.cpu_interface()),
    {
        let gicd: u64 = self.gicd;
        let gicc: u64 = self.gicc;
        let timer_bit: u32 = 1u32 << TIMER_IRQ;
        let edge: u32 = 0b10u32 << (2 * (TIMER_IRQ % 16));
        assert(1u32 << 27u32 == 0x800_0000 && !(1u32 << 27u32) == 0xF7FF_FFFFu32 && 0b10u32 << 22u32
            == 0x80_0000) by (bit_vector);
        let mut ops: Vec<MmioOp> = Vec::new();
        ops.push(MmioOp::Write32 { addr: gicd + GICD_CTLR, val: 1 });
        ops.push(MmioOp::Update32 { addr: gicd + GICD_IGROUPR, keep: !timer_bit, set: 0 });
        ops.push(
            MmioOp::Write8 { addr: gicd + GICD_IPRIORITYR + TIMER_IRQ as u64, byte: 0x80 },
        );
        ops.push(MmioOp::Write8 { addr: gicd + GICD_ITARGETSR + TIMER_IRQ as u64, byte: 0x01 });
        ops.push(
            MmioOp::Update32 {
                addr: gicd + GICD_ICFGR + (TIMER_IRQ / 16) as u64 * 4,
                keep: 0xFFFF_FFFF,
                set: edge,
            },
        );
        ops.push(MmioOp::Write32 { addr: gicd + GICD_ISENABLER, val: timer_bit });
        ops.push(MmioOp::Write32 { addr: gicc + GICC_PMR, val: 0xFF });
        ops.push(MmioOp::Write32 { addr: gicc + GICC_BPR, val: 0 });
        ops.push(MmioOp::Write32 { addr: gicc + GICC_CTLR, val: 1 });
        assert(ops@ =~= GicV2::init_ops(self.distributor(), self.cpu_interface()));
        ops
    }

    /// Enable interrupt `id`.
    pub fn enable_irq(&self, id: u32) -> (op: MmioOp)
        requires
            self.wf(),
        ensures
            op == (MmioOp::Write32 {
                addr: (self.distributor() + GICD_ISENABLER + id as int / 32 * 4) as u64,
                val: crate::hal::aic::bit32(id as int % 32),
            }),
    {
        MmioOp::Write32 {
            addr: self.gicd + GICD_ISENABLER + (id / 32) as u64 * 4,
            val: 1u32 << (id % 32),
        }
    }

    /// Disable interrupt `id`.
    pub fn disable_irq(&self, id: u32) -> (op: MmioOp)
        requires
            self.wf(),
        ensures
            op == (MmioOp::Write32 {
                addr: (self.distributor() + GICD_ICENABLER + id as int / 32 * 4) as u64,
                val: crate::hal::aic::bit32(id as int % 32),
            }),
    {
        MmioOp::Write32 {
            addr: self.gicd + GICD_ICENABLER + (id / 32) as u64 * 4,
            val: 1u32 << (id % 32),
        }
    }

    /// The register whose value is the interrupt to handle; reading it
    /// acknowledges the interrupt.
    pub fn acknowledge(&self) -> (addr: u64)
        requires
            self.wf(),
        ensures
            addr == self.cpu_interface() + GICC_IAR,
    {
        self.gicc + GICC_IAR
    }

    /// Signal that interrupt `id` has been handled.
    pub fn end_interrupt(&self, id: u32) -> (op: MmioOp)
        requires
            self.wf(),
        ensures
            op == (MmioOp::Write32 { addr: (self.cpu_interface() + GICC_EOIR) as u64, val: id }),
    {
        MmioOp::Write32 { addr: self.gicc + GICC_EOIR, val: id }
    }

    /// The distributor's type register.
    pub fn typer(&self) -> (addr: u64)
        requires
            self.wf(),
        ensures
            addr == self.distributor() + GICD_TYPER,
    {
        self.gicd + GICD_TYPER
    }
}

} // verus!

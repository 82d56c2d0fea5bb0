//! The QEMU `virt` machine.

use crate::hal::gicv2::GicV2;
use crate::hal::mmio::MmioOp;
use crate::hal::pl011::Pl011;
use vstd::prelude::*;

verus! {

/// Start of RAM, physical. The devicetree blob lies here.
pub const RAM_BASE: u64 = 0x4000_0000;

/// Size of RAM.
pub const RAM_SIZE: u64 = 0x2000_0000;

/// The UART's registers, physical.
pub const UART0_BASE: u64 = 0x0900_0000;

/// The UART's registers as the kernel sees them.
pub const UART0_VA: u64 = 0xFFFF_0000_0900_0000;

/// The interrupt distributor's registers as the kernel sees them.
pub const GICD_VA: u64 = 0xFFFF_0000_0800_0000;

/// The interrupt controller's CPU interface as the kernel sees it.
pub const GICC_VA: u64 = 0xFFFF_0000_0801_0000;

/// The board's console.
pub type Console = Pl011<UART0_VA>;

/// The console.
pub fn console() -> (c: Console) {
    Pl011::new()
}

/// The interrupt controller.
pub fn gic() -> (g: GicV2)
    ensures
        g.wf(),
        g.distributor() == GICD_VA,
        g.cpu_interface() == GICC_VA,
{
    GicV2::new(GICD_VA, GICC_VA)
}

/// The accesses that bring the board up: none. The UART transmits without any
/// setup, the MMU and the caches are on long before, and the vectors belong to
/// the architecture. The interrupt controller has its own `init`.
pub fn init() -> (ops: Vec<MmioOp>)
    ensures
        ops@ == Seq::<MmioOp>::empty(),
{
    Vec::new()
}

/// The kernel's aliases are where the linear map puts them.
pub proof fn law_device_aliases()
    ensures
        UART0_VA == crate::arch::aarch64::mmu::KERNEL_BASE + UART0_BASE,
        GICD_VA == crate::arch::aarch64::mmu::KERNEL_BASE + crate::hal::gicv2::GICD_BASE,
        GICC_VA == crate::arch::aarch64::mmu::KERNEL_BASE + crate::hal::gicv2::GICC_BASE,
{
}

} // verus!

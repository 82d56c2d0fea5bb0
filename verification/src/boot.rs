//! What the kernel finds out about the machine on its way up: where the
//! devicetree is, and whether it agrees with the board's constants.

use crate::arch::aarch64::fdt::{read_be_u32, read_be_u64, Fdtr, Node, FDT_MAGIC};
use crate::arch::aarch64::mmu::{phys_to_virt, KERNEL_BASE, PA_LIMIT};
use crate::board::virt::{RAM_BASE, RAM_SIZE, UART0_BASE};
use crate::hal::gicv2::{GICC_BASE, GICD_BASE, TIMER_IRQ};
use crate::hal::mmio::MmioOp;
use crate::hal::pl011::DR;
use crate::text::crlf_bytes;
use vstd::prelude::*;

verus! {

/// Where the kernel is linked to run, physical.
pub const LINK_PA: u64 = 0x4020_0000;

/// How many bits a PARange or IPS encoding stands for; 0 = unknown.
pub open spec fn bits_of(enc: u64) -> u64 {
    if enc == 0 {
        32
    } else if enc == 1 {
        36
    } else if enc == 2 {
        40
    } else if enc == 3 {
        42
    } else if enc == 4 {
        44
    } else if enc == 5 {
        48
    } else if enc == 6 {
        52
    } else {
        0
    }
}

/// Decode a PARange or IPS encoding.
pub fn parange_bits(enc: u64) -> (bits: u64)
    ensures
        bits == bits_of(enc),
{
    match enc {
        0b000 => 32,
        0b001 => 36,
        0b010 => 40,
        0b011 => 42,
        0b100 => 44,
        0b101 => 48,
        0b110 => 52,
        _ => 0,
    }
}

/// The physical address range the CPU offers and the one the MMU was set up for.
#[derive(Clone, Copy, PartialEq, Eq, Structural, Debug)]
pub struct PaRange {
    pub parange: u64,
    pub ips: u64,
}

/// Read the two encodings from ID_AA64MMFR0_EL1 and TCR_EL1.
pub fn pa_range(mmfr0: u64, tcr: u64) -> (r: PaRange)
    ensures
        r.parange == mmfr0 % 0x10,
        r.ips == tcr / 0x1_0000_0000 % 8,
{
    assert(mmfr0 & 0xF == mmfr0 % 0x10) by (bit_vector);
    assert((tcr >> 32) & 0b111 == tcr / 0x1_0000_0000 % 8) by (bit_vector);
    PaRange { parange: mmfr0 & 0xF, ips: (tcr >> 32) & 0b111 }
}

/// How far the loader moved the kernel from where it is linked, modulo 2^64.
pub open spec fn delta_of(load_pa: u64) -> u64 {
    ((load_pa - LINK_PA) % 0x1_0000_0000_0000_0000) as u64
}

/// How far the loader moved the kernel; 0 = it is where it was linked.
pub fn reloc_delta(load_pa: u64) -> (delta: u64)
    ensures
        delta == delta_of(load_pa),
        delta == 0 <==> load_pa == LINK_PA,
{
    load_pa.wrapping_sub(LINK_PA)
}

/// `addr` can hold a devicetree: it lies in RAM and is 4-aligned.
pub open spec fn fdt_candidate(addr: u64) -> bool {
    RAM_BASE <= addr < RAM_BASE + RAM_SIZE && addr % 4 == 0
}

/// Where to read the first four bytes of a devicetree at physical address
/// `addr`; None if there cannot be one.
pub fn fdt_window(addr: u64) -> (va: Option<u64>)
    ensures
        va == (if fdt_candidate(addr) {
            Some((KERNEL_BASE + addr) as u64)
        } else {
            None
        }),
{
    if addr < RAM_BASE || addr >= RAM_BASE + RAM_SIZE || addr % 4 != 0 {
        None
    } else {
        Some(phys_to_virt(addr))
    }
}

/// Is there a devicetree at physical address `addr`? `head` holds the four bytes
/// at `fdt_window(addr)`.
pub fn fdt_at(addr: u64, head: Option<[u8; 4]>) -> (b: bool)
    ensures
        b == (fdt_candidate(addr) && (head matches Some(h) && crate::arch::aarch64::fdt::be32(
            h@,
            0,
        ) == FDT_MAGIC)),
{
    match (fdt_window(addr), head) {
        (Some(_), Some(h)) => {
            let word: u32 = h[0] as u32 * 0x100_0000 + h[1] as u32 * 0x1_0000 + h[2] as u32 * 0x100
                + h[3] as u32;
            word == FDT_MAGIC
        },
        _ => false,
    }
}

/// Which address the devicetree is read from: the one the loader handed over if
/// there is a devicetree, else the start of RAM.
pub fn fdt_pa(x0: u64, at_x0: bool) -> (pa: u64)
    ensures
        pa == (if at_x0 {
            x0
        } else {
            RAM_BASE
        }),
{
    if at_x0 {
        x0
    } else {
        RAM_BASE
    }
}

/// What the devicetree says about one node.
pub struct Device<'a> {
    /// The node's name with its unit address.
    pub name: &'a str,
    /// The first entry of its `compatible`, or "".
    pub compat: &'a str,
    /// The property asked for.
    pub prop: Option<&'a [u8]>,
}

/// Look a node up by path, with one of its properties.
pub fn device<'a>(fdt: &Fdtr<'a>, path: &str, prop: &str) -> (d: Option<Device<'a>>)
    ensures
        match crate::arch::aarch64::fdt::find(fdt@, vstd::utf8::encode_utf8(path@)) {
            None => d is None,
            Some(off) => d matches Some(dev) && {
                &&& vstd::utf8::encode_utf8(dev.name@) == crate::arch::aarch64::fdt::full_name_bytes(
                    fdt@,
                    off,
                )
                &&& dev.compat@ == crate::arch::aarch64::fdt::compatible_text(fdt@, off)
                &&& prop_view(dev.prop) == crate::arch::aarch64::fdt::prop(
                    fdt@,
                    off,
                    vstd::utf8::encode_utf8(prop@),
                )
            },
        },
{
    let node: Node = fdt.find(path)?;
    Some(
        Device {
            name: fdt.full_name(&node),
            compat: fdt.compatible(&node),
            prop: fdt.prop(&node, prop),
        },
    )
}

/// A property as a mathematical value.
pub open spec fn prop_view(p: Option<&[u8]>) -> Option<Seq<u8>> {
    match p {
        Some(d) => Some(d@),
        None => None,
    }
}

/// The 64-bit number at `off` of a property that has at least `min` bytes.
pub open spec fn number_at(p: Option<Seq<u8>>, min: nat, off: int) -> Option<u64> {
    match p {
        Some(d) => if d.len() >= min {
            Some(crate::arch::aarch64::fdt::be64(d, off))
        } else {
            None
        },
        None => None,
    }
}

fn read_number(p: Option<&[u8]>, min: usize, off: usize) -> (n: Option<u64>)
    requires
        off + 8 <= min,
    ensures
        n == number_at(prop_view(p), min as nat, off as int),
{
    match p {
        Some(d) => if d.len() >= min {
            read_be_u64(d, off as u64, d.len() as u64)
        } else {
            None
        },
        None => None,
    }
}

/// RAM as the devicetree declares it.
#[derive(Clone, Copy, PartialEq, Eq, Structural, Debug)]
pub struct MemoryCheck {
    pub base: u64,
    pub size: u64,
    pub mib: u64,
    pub base_matches: bool,
    pub size_matches: bool,
}

/// Hold `/memory`, looked up with its `reg`, against the board's constants; None
/// if `reg` is missing or too short.
pub fn memory_check(d: &Device) -> (c: Option<MemoryCheck>)
    ensures
        c == (match (number_at(prop_view(d.prop), 16, 0), number_at(prop_view(d.prop), 16, 8)) {
            (Some(base), Some(size)) => Some(
                MemoryCheck {
                    base,
                    size,
                    mib: size / 0x10_0000,
                    base_matches: base == RAM_BASE,
                    size_matches: size == RAM_SIZE,
                },
            ),
            _ => None,
        }),
{
    let base: u64 = read_number(d.prop, 16, 0)?;
    let size: u64 = read_number(d.prop, 16, 8)?;
    Some(
        MemoryCheck {
            base,
            size,
            mib: size / 0x10_0000,
            base_matches: base == RAM_BASE,
            size_matches: size == RAM_SIZE,
        },
    )
}

/// The interrupt controller's registers as the devicetree declares them.
#[derive(Clone, Copy, PartialEq, Eq, Structural, Debug)]
pub struct GicCheck {
    pub gicd: u64,
    pub gicc: u64,
    pub gicd_matches: bool,
    pub gicc_matches: bool,
}

/// Hold `/intc`, looked up with its `reg`, against the driver's constants; None
/// if `reg` is missing or too short.
pub fn intc_check(d: &Device) -> (c: Option<GicCheck>)
    ensures
        c == (match (number_at(prop_view(d.prop), 32, 0), number_at(prop_view(d.prop), 32, 16)) {
            (Some(gicd), Some(gicc)) => Some(
                GicCheck {
                    gicd,
                    gicc,
                    gicd_matches: gicd == GICD_BASE,
                    gicc_matches: gicc == GICC_BASE,
                },
            ),
            _ => None,
        }),
{
    let gicd: u64 = read_number(d.prop, 32, 0)?;
    let gicc: u64 = read_number(d.prop, 32, 16)?;
    Some(
        GicCheck {
            gicd,
            gicc,
            gicd_matches: gicd == GICD_BASE,
            gicc_matches: gicc == GICC_BASE,
        },
    )
}

/// The UART's registers as the devicetree declares them.
#[derive(Clone, Copy, PartialEq, Eq, Structural, Debug)]
pub struct UartCheck {
    pub base: u64,
    pub matches: bool,
}

/// Hold `/pl011`, looked up with its `reg`, against the board's constant; None if
/// `reg` is missing or too short.
pub fn uart_check(d: &Device) -> (c: Option<UartCheck>)
    ensures
        c == (match number_at(prop_view(d.prop), 16, 0) {
            Some(base) => Some(UartCheck { base, matches: base == UART0_BASE }),
            None => None,
        }),
{
    let base: u64 = read_number(d.prop, 16, 0)?;
    Some(UartCheck { base, matches: base == UART0_BASE })
}

/// The virtual timer's interrupt as the devicetree declares it.
#[derive(Clone, Copy, PartialEq, Eq, Structural, Debug)]
pub struct TimerCheck {
    pub ppi: u32,
    pub irq: u64,
    pub matches: bool,
}

/// Hold `/timer`, looked up with its `interrupts`, against the driver's constant.
/// The list has three cells an entry and the virtual timer is its third; the
/// entry's second cell is the private interrupt's number, and private interrupts
/// start at 16. None if the list is missing or ends before that cell.
pub fn timer_check(d: &Device) -> (c: Option<TimerCheck>)
    ensures
        c == (match prop_view(d.prop) {
            Some(p) => if p.len() >= 32 {
                let ppi = crate::arch::aarch64::fdt::be32(p, 28);
                Some(
                    TimerCheck {
                        ppi,
                        irq: (16 + ppi) as u64,
                        matches: 16 + ppi == TIMER_IRQ,
                    },
                )
            } else {
                None
            },
            None => None,
        }),
{
    let p: &[u8] = d.prop?;
    let ppi: u32 = read_be_u32(p, 28, p.len() as u64)?;
    let irq: u64 = 16 + ppi as u64;
    Some(TimerCheck { ppi, irq, matches: irq == TIMER_IRQ as u64 })
}

/// The console UART as the devicetree declares it.
pub enum FdtConsole<'a> {
    /// The devicetree has no root.
    NoRoot,
    /// No node is a PL011, or the first one has no address.
    NotFound,
    /// The node's name and the registers' physical address.
    Found { name: &'a str, pa: u64 },
}

/// The first PL011 of the tree below `root`, in pre-order: its node and where its
/// registers are.
pub open spec fn console_of(b: Seq<u8>, root: int) -> Option<(int, u64)> {
    match crate::arch::aarch64::fdt::search(b, root, vstd::utf8::encode_utf8("arm,pl011"@)) {
        None => None,
        Some(off) => match number_at(
            crate::arch::aarch64::fdt::prop(b, off, vstd::utf8::encode_utf8("reg"@)),
            8,
            0,
        ) {
            Some(pa) => Some((off, pa)),
            None => None,
        },
    }
}

/// Find the console UART by what it is, not by where it stands: the first node
/// of the whole tree, however deep, that is a PL011.
pub fn fdt_console<'a>(fdt: &Fdtr<'a>) -> (c: FdtConsole<'a>)
    ensures
        match crate::arch::aarch64::fdt::root(fdt@) {
            None => c is NoRoot,
            Some(r) => match console_of(fdt@, r) {
                None => c is NotFound,
                Some((off, at)) => c matches FdtConsole::Found { name, pa } && pa == at
                    && vstd::utf8::encode_utf8(name@) == crate::arch::aarch64::fdt::full_name_bytes(
                    fdt@,
                    off,
                ),
            },
        },
{
    if fdt.root().is_none() {
        return FdtConsole::NoRoot;
    }
    match fdt.find_by_compatible("arm,pl011") {
        None => FdtConsole::NotFound,
        Some(node) => match read_number(fdt.prop(&node, "reg"), 8, 0) {
            Some(pa) => FdtConsole::Found { name: fdt.full_name(&node), pa },
            None => FdtConsole::NotFound,
        },
    }
}

/// What is said on a console that the devicetree declares.
pub open spec fn greeting() -> Seq<u8> {
    crate::text::crlf(vstd::utf8::encode_utf8("hello from the FDT-discovered console!\n"@))
}

/// The stores that greet on the PL011 whose registers are at `pa`: the greeting's
/// bytes in order, each into the data register, seen through the kernel's alias.
/// Before each the transmit FIFO has to have room.
pub fn greet_console(pa: u64) -> (ops: Vec<MmioOp>)
    requires
        pa < PA_LIMIT,
    ensures
        ops@ == greeting().map_values(
            |b: u8|
                MmioOp::Write32 { addr: (KERNEL_BASE + pa + DR) as u64, val: b as u32 },
        ),
{
    let addr: u64 = phys_to_virt(pa) + DR;
    let bytes: Vec<u8> = crlf_bytes("hello from the FDT-discovered console!\n".as_bytes());
    let ghost store = |b: u8| MmioOp::Write32 { addr, val: b as u32 };
    let mut ops: Vec<MmioOp> = Vec::new();
    let mut i: usize = 0;
    while i < bytes.len()
        invariant
            0 <= i <= bytes@.len(),
            store == (|b: u8| MmioOp::Write32 { addr, val: b as u32 }),
            ops@ == bytes@.take(i as int).map_values(store),
        decreases bytes@.len() - i,
    {
        ops.push(MmioOp::Write32 { addr, val: bytes[i] as u32 });
        assert(bytes@.take(i + 1).map_values(store) =~= bytes@.take(i as int).map_values(
            store,
        ).push(store(bytes@[i as int])));
        i = i + 1;
    }
    assert(ops@ =~= greeting().map_values(
        |b: u8|
            MmioOp::Write32 { addr: (KERNEL_BASE + pa + DR) as u64, val: b as u32 },
    ));
    ops
}

/// However the loader moved the kernel, moving it back gives the link address:
/// the delta is exactly what was added.
pub proof fn law_delta_relocates(load_pa: u64)
    ensures
        (LINK_PA + delta_of(load_pa)) % 0x1_0000_0000_0000_0000 == load_pa,
{
    if load_pa < LINK_PA {
        assert((load_pa - LINK_PA) % 0x1_0000_0000_0000_0000 == load_pa - LINK_PA
            + 0x1_0000_0000_0000_0000);
    }
}

/// A devicetree can lie anywhere in the 512 MiB of RAM, on a word boundary, and
/// nowhere else.
pub proof fn law_devicetrees_lie_in_ram(addr: u64)
    ensures
        fdt_candidate(addr) <==> 0x4000_0000 <= addr < 0x6000_0000 && addr % 4 == 0,
{
}

/// The numbers in a property are read back: an address and a size of 64 bits
/// each, one behind the other. A property that is too short has none.
pub proof fn law_registers_are_read_back(base: u64, size: u64, more: Seq<u8>, min: nat, short: Seq<u8>)
    requires
        min <= 16,
        short.len() < min,
    ensures
        ({
            let reg = crate::arch::aarch64::tree::dword(base)
                + crate::arch::aarch64::tree::dword(size) + more;
            &&& number_at(Some(reg), min, 0) == Some(base)
            &&& number_at(Some(reg), min, 8) == Some(size)
        }),
        number_at(Some(short), min, 0) is None,
        number_at(None, min, 0) is None,
{
    let a = crate::arch::aarch64::tree::dword(base);
    let b = crate::arch::aarch64::tree::dword(size);
    let reg = a + b + more;
    assert(reg.subrange(0, 8) =~= a);
    assert(reg.subrange(8, 16) =~= b);
    crate::arch::aarch64::tree::law_long_numbers_are_read_back(reg, 0, base);
    crate::arch::aarch64::tree::law_long_numbers_are_read_back(reg, 8, size);
}

/// The console is found by what it is, however deep it stands in the tree that
/// was written: it is the first node, in the order of the tree, whose first
/// `compatible` string mentions the PL011, and its registers are where the first
/// eight bytes of its `reg` say.
pub proof fn law_console_is_found(
    b: Seq<u8>,
    root: int,
    name: Seq<u8>,
    items: Seq<crate::arch::aarch64::tree::Item>,
    i: int,
    pa: u64,
    more: Seq<u8>,
)
    requires
        ({
            let tree = crate::arch::aarch64::tree::node(name, items);
            let key = vstd::utf8::encode_utf8("arm,pl011"@);
            let nodes = crate::arch::aarch64::tree::offsets(root, tree);
            &&& crate::arch::aarch64::tree::written(
                b,
                root,
                crate::arch::aarch64::tree::encoded(tree),
            )
            &&& crate::arch::aarch64::tree::fits(b, tree)
            &&& 0 <= i < nodes.len()
            &&& crate::arch::aarch64::fdt::is_compatible(b, nodes[i], key)
            &&& forall|j: int|
                0 <= j < i ==> !crate::arch::aarch64::fdt::is_compatible(
                    b,
                    #[trigger] nodes[j],
                    key,
                )
            &&& crate::arch::aarch64::fdt::prop(b, nodes[i], vstd::utf8::encode_utf8("reg"@))
                == Some(crate::arch::aarch64::tree::dword(pa) + more)
        }),
    ensures
        console_of(b, root) == Some(
            (
                crate::arch::aarch64::tree::offsets(
                    root,
                    crate::arch::aarch64::tree::node(name, items),
                )[i],
                pa,
            ),
        ),
{
    let key = vstd::utf8::encode_utf8("arm,pl011"@);
    crate::arch::aarch64::tree::law_search_finds_the_first(b, root, name, items, key, i);
    let reg = crate::arch::aarch64::tree::dword(pa) + more;
    assert(reg.subrange(0, 8) =~= crate::arch::aarch64::tree::dword(pa));
    crate::arch::aarch64::tree::law_long_numbers_are_read_back(reg, 0, pa);
}

} // verus!

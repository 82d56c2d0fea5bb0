//! Apple Silicon. Every address comes from the devicetree.

use crate::arch::aarch64::fdt::Fdtr;
use crate::arch::aarch64::mmu;
use crate::arch::aarch64::mmu::{KERNEL_BASE, PA_LIMIT};
use crate::hal::aic::Aic;
use crate::hal::mmio::MmioOp;
use crate::hal::s5l_uart::RuntimeS5lUart;
use vstd::prelude::*;

verus! {

/// A typical start of RAM; the devicetree knows better.
pub const RAM_BASE_FALLBACK: u64 = 0x8000_0000;

/// What has been found of the board.
#[derive(Clone, Copy)]
pub struct AppleBoard {
    /// The UART's registers as the kernel sees them; 0 = not found yet.
    pub uart_base: u64,
    /// The interrupt controller, once it is online.
    pub aic: Option<Aic>,
}

/// The board's console.
pub type Console = RuntimeS5lUart;

/// A device's registers: where they are and where the kernel sees them.
#[derive(Clone, Copy, PartialEq, Eq, Structural, Debug)]
pub struct Mapping {
    pub va: u64,
    pub pa: u64,
}

/// What the devicetree says about the board's devices.
#[derive(Clone, Copy, PartialEq, Eq, Structural, Debug)]
pub struct Devices {
    pub uart: Option<Mapping>,
    pub aic: Option<Mapping>,
}

/// Cell `i`, or 0 if there are fewer.
pub open spec fn cell_or_zero(cells: Seq<u32>, i: int) -> u32 {
    if i < cells.len() {
        cells[i]
    } else {
        0
    }
}

/// The physical address in the first two cells of the node's `reg`.
pub open spec fn reg_base(b: Seq<u8>, off: int) -> u64 {
    let cells = match crate::arch::aarch64::fdt::prop(b, off, vstd::utf8::encode_utf8("reg"@)) {
        Some(d) => crate::arch::aarch64::fdt::cells(d),
        None => Seq::empty(),
    };
    (cell_or_zero(cells, 0) * 0x1_0000_0000 + cell_or_zero(cells, 1)) as u64
}

/// Where the first device compatible with `key` has its registers.
pub open spec fn base_of(b: Seq<u8>, key: Seq<char>) -> Option<u64> {
    match crate::arch::aarch64::fdt::root(b) {
        None => None,
        Some(r) => match crate::arch::aarch64::fdt::search(b, r, vstd::utf8::encode_utf8(key)) {
            None => None,
            Some(off) => Some(reg_base(b, off)),
        },
    }
}

/// The mapping of registers at `pa`.
pub open spec fn mapping_of(pa: Option<u64>) -> Option<Mapping> {
    match pa {
        None => None,
        Some(pa) => Some(Mapping { va: (KERNEL_BASE + pa) as u64, pa }),
    }
}

/// The devices that devicetree `b` describes.
pub open spec fn devices_of(b: Seq<u8>) -> Devices {
    Devices {
        uart: mapping_of(base_of(b, "apple,s5l-uart"@)),
        aic: mapping_of(base_of(b, "apple,aic"@)),
    }
}

impl AppleBoard {
    /// A board of which nothing is known.
    pub fn new() -> (b: AppleBoard)
        ensures
            b.uart_base == 0,
            b.aic is None,
    {
        AppleBoard { uart_base: 0, aic: None }
    }

    /// An interrupt controller that is online is in order.
    pub open spec fn wf(&self) -> bool {
        self.aic matches Some(a) ==> a.wf()
    }
}

/// Remember where the UART is.
pub fn set_uart_base(board: &mut AppleBoard, base: u64)
    ensures
        *final(board) == (AppleBoard { uart_base: base, ..*old(board) }),
{
    board.uart_base = base;
}

/// The console; unconfigured until the UART has been found.
pub fn console(board: &AppleBoard) -> (c: Console)
    ensures
        c.base_addr() == board.uart_base,
{
    RuntimeS5lUart::new(board.uart_base)
}

/// Where the interrupt controller is; 0 until it is online.
pub fn aic_base(board: &AppleBoard) -> (base: u64)
    ensures
        base == (match board.aic {
            None => 0u64,
            Some(a) => a.base_addr(),
        }),
{
    match board.aic {
        None => 0,
        Some(a) => a.base(),
    }
}

/// Where the first device compatible with `key` has its registers: the first
/// two cells of its `reg`, a missing cell counting as 0.
pub fn device_base(fdt: &Fdtr, key: &str) -> (pa: Option<u64>)
    ensures
        pa == base_of(fdt@, key@),
{
    let node = fdt.find_by_compatible(key)?;
    let mut cells = fdt.prop_cells(&node, "reg");
    let hi: u32 = match cells.next() {
        Some(v) => v,
        None => 0,
    };
    let lo: u32 = match cells.next() {
        Some(v) => v,
        None => 0,
    };
    Some(hi as u64 * 0x1_0000_0000 + lo as u64)
}

fn device_mapping(fdt: &Fdtr, key: &str) -> (m: Option<Mapping>)
    requires
        base_of(fdt@, key@) matches Some(pa) ==> pa < PA_LIMIT,
    ensures
        m == mapping_of(base_of(fdt@, key@)),
{
    let pa: u64 = device_base(fdt, key)?;
    Some(Mapping { va: phys_to_virt(pa), pa })
}

/// Find the console UART and the interrupt controller. Each mapping found is to
/// be made a device mapping; `uart_mapped` and `aic_mapped` go on from there.
pub fn init(fdt: Option<&Fdtr>) -> (d: Devices)
    requires
        fdt matches Some(f) ==> {
            &&& base_of(f@, "apple,s5l-uart"@) matches Some(pa) ==> pa < PA_LIMIT
            &&& base_of(f@, "apple,aic"@) matches Some(pa) ==> pa < PA_LIMIT
        },
    ensures
        d == (match fdt {
            None => Devices { uart: None, aic: None },
            Some(f) => devices_of(f@),
        }),
{
    match fdt {
        None => Devices { uart: None, aic: None },
        Some(fdt) => {
            let uart: Option<Mapping> = device_mapping(fdt, "apple,s5l-uart");
            let aic: Option<Mapping> = device_mapping(fdt, "apple,aic");
            Devices { uart, aic }
        },
    }
}

/// The UART's registers are mapped: the console can use them.
pub fn uart_mapped(board: &mut AppleBoard, m: Mapping)
    ensures
        *final(board) == (AppleBoard { uart_base: m.va, ..*old(board) }),
{
    set_uart_base(board, m.va);
}

/// The interrupt controller's registers are mapped, and its AIC_INFO reads
/// `info`: bring it online.
pub fn aic_mapped(board: &mut AppleBoard, m: Mapping, info: u32) -> (ops: Vec<MmioOp>)
    requires
        m.va <= 0xFFFF_FFFF_FFF0_0000,
    ensures
        final(board).wf(),
        final(board).uart_base == old(board).uart_base,
        final(board).aic matches Some(a) && a.base_addr() == m.va && a.irqs() == info as int
            % 0x1_0000,
        ops@ == Aic::init_ops(m.va, info as int % 0x1_0000),
{
    let mut aic: Aic = Aic::new(m.va);
    let ops: Vec<MmioOp> = aic.init(info);
    board.aic = Some(aic);
    ops
}

/// The kernel's virtual alias of a physical address.
pub fn phys_to_virt(pa: u64) -> (va: u64)
    requires
        pa < PA_LIMIT,
    ensures
        va == KERNEL_BASE + pa,
{
    mmu::phys_to_virt(pa)
}

/// A device's registers are where the first two cells of its `reg` say, the high
/// half first, and the kernel sees them in the high half of its address space.
pub proof fn law_device_addresses(
    b: Seq<u8>,
    off: int,
    name: Seq<u8>,
    items: Seq<crate::arch::aarch64::tree::Item>,
    hi: u32,
    lo: u32,
    more: Seq<u32>,
)
    requires
        crate::arch::aarch64::tree::written(
            b,
            off,
            crate::arch::aarch64::tree::encoded(crate::arch::aarch64::tree::node(name, items)),
        ),
        crate::arch::aarch64::tree::fits(b, crate::arch::aarch64::tree::node(name, items)),
        crate::arch::aarch64::tree::prop_in(items, vstd::utf8::encode_utf8("reg"@)) == Some(
            crate::arch::aarch64::tree::words(seq![hi, lo] + more),
        ),
    ensures
        reg_base(b, off) == hi * 0x1_0000_0000 + lo,
        reg_base(b, off) < PA_LIMIT ==> mapping_of(Some(reg_base(b, off))) == Some(
            (Mapping {
                va: (0xFFFF_0000_0000_0000 + reg_base(b, off)) as u64,
                pa: reg_base(b, off),
            }),
        ),
{
    let reg = vstd::utf8::encode_utf8("reg"@);
    crate::arch::aarch64::tree::law_props_are_read_back(b, off, name, items, reg);
    let ws = seq![hi, lo] + more;
    crate::arch::aarch64::tree::law_cells_are_read_back(ws);
    assert(ws[0] == hi && ws[1] == lo);
}

/// The console UART and the interrupt controller are each the first node, in the
/// order the tree was written, that is compatible with its name; a device that no
/// node stands for is not found.
pub proof fn law_devices_are_found(
    b: Seq<u8>,
    name: Seq<u8>,
    items: Seq<crate::arch::aarch64::tree::Item>,
    key: Seq<char>,
    i: int,
    pa: u64,
    more: Seq<u32>,
)
    requires
        ({
            let tree = crate::arch::aarch64::tree::node(name, items);
            let root = crate::arch::aarch64::fdt::off_dt_struct(b);
            let nodes = crate::arch::aarch64::tree::offsets(root, tree);
            let k = vstd::utf8::encode_utf8(key);
            &&& crate::arch::aarch64::tree::written(
                b,
                root,
                crate::arch::aarch64::tree::encoded(tree),
            )
            &&& crate::arch::aarch64::tree::fits(b, tree)
            &&& pa < PA_LIMIT
            &&& 0 <= i <= nodes.len()
            &&& forall|j: int|
                0 <= j < i ==> !crate::arch::aarch64::fdt::is_compatible(
                    b,
                    #[trigger] nodes[j],
                    k,
                )
            &&& i < nodes.len() ==> crate::arch::aarch64::fdt::is_compatible(b, nodes[i], k)
                && crate::arch::aarch64::fdt::prop(b, nodes[i], vstd::utf8::encode_utf8("reg"@))
                == Some(
                crate::arch::aarch64::tree::words(
                    seq![(pa / 0x1_0000_0000) as u32, (pa % 0x1_0000_0000) as u32] + more,
                ),
            )
        }),
    ensures
        ({
            let nodes = crate::arch::aarch64::tree::offsets(
                crate::arch::aarch64::fdt::off_dt_struct(b),
                crate::arch::aarch64::tree::node(name, items),
            );
            let m = if i < nodes.len() {
                Some((Mapping { va: (0xFFFF_0000_0000_0000 + pa) as u64, pa }))
            } else {
                None
            };
            &&& key == "apple,s5l-uart"@ ==> devices_of(b).uart == m
            &&& key == "apple,aic"@ ==> devices_of(b).aic == m
        }),
{
    let root = crate::arch::aarch64::fdt::off_dt_struct(b);
    let nodes = crate::arch::aarch64::tree::offsets(
        root,
        crate::arch::aarch64::tree::node(name, items),
    );
    let k = vstd::utf8::encode_utf8(key);
    crate::arch::aarch64::tree::law_root_is_found(b, name, items);
    if i < nodes.len() {
        crate::arch::aarch64::tree::law_search_finds_the_first(b, root, name, items, k, i);
        let ws = seq![(pa / 0x1_0000_0000) as u32, (pa % 0x1_0000_0000) as u32] + more;
        crate::arch::aarch64::tree::law_cells_are_read_back(ws);
        assert(ws[0] == (pa / 0x1_0000_0000) as u32 && ws[1] == (pa % 0x1_0000_0000) as u32);
        assert(reg_base(b, nodes[i]) == pa);
    } else {
        crate::arch::aarch64::tree::law_search_finds_nothing(b, root, name, items, k);
    }
}

} // verus!

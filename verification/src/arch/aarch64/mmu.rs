//! Address translation: descriptors, the kernel's page tables, and a software
//! walk over them.
//!
//! A 16 KiB granule gives a 14-bit page offset and 11 index bits per level:
//!
//! ```text
//! VA bits   [47]   [46:36]   [35:25]   [24:14]   [13:0]
//!           L0     L1        L2        L3        offset
//! ```

use crate::board::virt::{RAM_BASE, RAM_SIZE, UART0_BASE};
use vstd::prelude::*;

verus! {

/// Where the kernel lives, virtually: the bottom of the high half.
pub const KERNEL_BASE: u64 = 0xFFFF_0000_0000_0000;

/// One translation granule: 16 KiB.
pub const GRANULE: u64 = 0x4000;

/// One level-2 block: 32 MiB.
pub const L2_BLOCK: u64 = 0x200_0000;

/// The size of a physical address space: 48 bits.
pub const PA_LIMIT: u64 = 0x1_0000_0000_0000;

/// TCR_EL1 without its one runtime field, IPS.
pub const TCR_EL1_BASE: u64 = 0x7510_B510;

/// MAIR_EL1: slot 0 Normal write-back, slot 1 Device-nGnRnE.
pub const MAIR_EL1_VALUE: u64 = 0xFF;

/// SCTLR_EL1, written whole: MMU and caches on.
pub const SCTLR_EL1_VALUE: u64 = 0x30D5_199D;

/// "OPALM2OK".
pub const MMU_CANARY: u64 = 0x4F50_414C_4D32_4F4B;

/// Physical address to the kernel's virtual alias for it.
pub fn phys_to_virt(pa: u64) -> (va: u64)
    requires
        pa < PA_LIMIT,
    ensures
        va == KERNEL_BASE + pa,
{
    KERNEL_BASE + pa
}

/// The kernel's virtual alias to the physical address.
pub fn virt_to_phys(va: u64) -> (pa: u64)
    requires
        va >= KERNEL_BASE,
    ensures
        pa == va - KERNEL_BASE,
{
    va - KERNEL_BASE
}

/// The index of `a` in its level-0 table.
pub open spec fn l0_index(a: u64) -> int {
    (a as int / 0x8000_0000_0000) % 2
}

/// The index of `a` in its level-1 table.
pub open spec fn l1_index(a: u64) -> int {
    (a as int / 0x10_0000_0000) % 2048
}

/// The index of `a` in its level-2 table.
pub open spec fn l2_index(a: u64) -> int {
    (a as int / 0x200_0000) % 2048
}

/// The index of `a` in its level-3 table.
pub open spec fn l3_index(a: u64) -> int {
    (a as int / 0x4000) % 2048
}

pub fn l0i(pa: u64) -> (i: usize)
    ensures
        i == l0_index(pa),
{
    assert((pa >> 47) & 0x1 == (pa / 0x8000_0000_0000) % 2) by (bit_vector);
    ((pa >> 47) & 0x1) as usize
}

pub fn l1i(pa: u64) -> (i: usize)
    ensures
        i == l1_index(pa),
{
    assert((pa >> 36) & 0x7FF == (pa / 0x10_0000_0000) % 2048) by (bit_vector);
    ((pa >> 36) & 0x7FF) as usize
}

pub fn l2i(pa: u64) -> (i: usize)
    ensures
        i == l2_index(pa),
{
    assert((pa >> 25) & 0x7FF == (pa / 0x200_0000) % 2048) by (bit_vector);
    ((pa >> 25) & 0x7FF) as usize
}

pub fn l3i(pa: u64) -> (i: usize)
    ensures
        i == l3_index(pa),
{
    assert((pa >> 14) & 0x7FF == (pa / 0x4000) % 2048) by (bit_vector);
    ((pa >> 14) & 0x7FF) as usize
}

/// What a mapping permits.
#[derive(Clone, Copy, PartialEq, Eq, Structural, Debug)]
pub enum Attr {
    /// Normal, read-only, executable by the kernel: code.
    TextRx,
    /// Normal, read-only, never executable: constants, the devicetree.
    Ro,
    /// Normal, read-write, never executable: data, stacks, RAM.
    Rw,
    /// Device-nGnRnE, read-write, never executable.
    Device,
    /// Normal, read-only, executable by user tasks only: user code.
    UserRx,
    /// Normal, read-write for user tasks too, never executable: user stacks.
    UserRw,
}

/// Access flag: a leaf without it faults on first touch.
pub const AF: u64 = 0x400;

/// Inner shareable.
pub const SH_INNER: u64 = 0x300;

/// AP[1]: user tasks may access it too.
pub const AP_USER: u64 = 0x40;

/// AP[2]: read-only.
pub const AP_RO: u64 = 0x80;

/// AttrIndx 1: Device memory.
pub const ATTR_DEVICE: u64 = 0x4;

/// The kernel never executes it.
pub const PXN: u64 = 0x20_0000_0000_0000;

/// User tasks never execute it.
pub const UXN: u64 = 0x40_0000_0000_0000;

/// The bits a descriptor's output address occupies, and its type bits.
pub const ADDR_AND_TYPE: u64 = 0x0000_FFFF_FFFF_C003;

impl Attr {
    /// The attribute bits of a leaf.
    pub open spec fn bits(self) -> u64 {
        match self {
            Attr::TextRx => 0x0040_0000_0000_0780,
            Attr::Ro => 0x0060_0000_0000_0780,
            Attr::Rw => 0x0060_0000_0000_0700,
            Attr::Device => 0x0060_0000_0000_0404,
            Attr::UserRx => 0x0020_0000_0000_07C0,
            Attr::UserRw => 0x0060_0000_0000_0740,
        }
    }

    /// The attribute bits this bundle contributes to a leaf. The access flag is
    /// always among them.
    pub fn leaf_bits(self) -> (b: u64)
        ensures
            b == self.bits(),
            b & ADDR_AND_TYPE == 0,
            b & AF == AF,
    {
        assert(AF | SH_INNER | AP_RO | UXN == 0x0040_0000_0000_0780u64 && AF | SH_INNER | AP_RO
            | PXN | UXN == 0x0060_0000_0000_0780u64 && AF | SH_INNER | PXN | UXN
            == 0x0060_0000_0000_0700u64 && AF | ATTR_DEVICE | PXN | UXN
            == 0x0060_0000_0000_0404u64 && AF | SH_INNER | AP_RO | AP_USER | PXN
            == 0x0020_0000_0000_07C0u64 && AF | SH_INNER | AP_USER | PXN | UXN
            == 0x0060_0000_0000_0740u64) by (bit_vector);
        proof {
            lemma_attr_bits(self);
        }
        match self {
            Attr::TextRx => AF | SH_INNER | AP_RO | UXN,
            Attr::Ro => AF | SH_INNER | AP_RO | PXN | UXN,
            Attr::Rw => AF | SH_INNER | PXN | UXN,
            Attr::Device => AF | ATTR_DEVICE | PXN | UXN,
            Attr::UserRx => AF | SH_INNER | AP_RO | AP_USER | PXN,
            Attr::UserRw => AF | SH_INNER | AP_USER | PXN | UXN,
        }
    }
}

/// Attribute bits never touch the address or the type, and always hold the
/// access flag.
proof fn lemma_attr_bits(a: Attr)
    ensures
        a.bits() & ADDR_AND_TYPE == 0,
        a.bits() & AF == AF,
{
    assert(0x0040_0000_0000_0780u64 & ADDR_AND_TYPE == 0 && 0x0040_0000_0000_0780u64 & AF == AF
        && 0x0060_0000_0000_0780u64 & ADDR_AND_TYPE == 0 && 0x0060_0000_0000_0780u64 & AF == AF
        && 0x0060_0000_0000_0700u64 & ADDR_AND_TYPE == 0 && 0x0060_0000_0000_0700u64 & AF == AF
        && 0x0060_0000_0000_0404u64 & ADDR_AND_TYPE == 0 && 0x0060_0000_0000_0404u64 & AF == AF
        && 0x0020_0000_0000_07C0u64 & ADDR_AND_TYPE == 0 && 0x0020_0000_0000_07C0u64 & AF == AF
        && 0x0060_0000_0000_0740u64 & ADDR_AND_TYPE == 0 && 0x0060_0000_0000_0740u64 & AF == AF) by (bit_vector);
}

/// A table descriptor: the next table's address and the two type bits.
pub fn table_desc(pa: u64) -> (d: u64)
    requires
        pa % GRANULE == 0,
        pa < PA_LIMIT,
    ensures
        d == pa + 3,
        d & 3 == 3,
        d & 0x0000_FFFF_FFFF_C000 == pa,
{
    proof {
        lemma_table_desc(pa);
    }
    pa | 0b11
}

proof fn lemma_table_desc(pa: u64)
    requires
        pa % GRANULE == 0,
        pa < PA_LIMIT,
    ensures
        pa | 3 == pa + 3,
        (pa + 3) as u64 & 3 == 3,
        (pa + 3) as u64 & 0x0000_FFFF_FFFF_C000 == pa,
{
    assert(pa % 0x4000 == 0 && pa < 0x1_0000_0000_0000 ==> (pa | 3 == pa + 3 && ((pa | 3) & 3 == 3)
        && ((pa | 3) & 0x0000_FFFF_FFFF_C000 == pa))) by (bit_vector);
}

/// What the bits of a leaf at `pa` say.
proof fn lemma_leaf(pa: u64, bits: u64, kind: u64)
    requires
        pa % GRANULE == 0,
        pa < PA_LIMIT,
        bits & ADDR_AND_TYPE == 0,
        kind == 1 || kind == 3,
    ensures
        (pa | bits | kind) & 3 == kind,
        (pa | bits | kind) & 0x0000_FFFF_FFFF_C000 == pa,
        (pa | bits | kind) & !ADDR_AND_TYPE == bits,
        pa | bits | kind == pa + bits + kind,
        pa % L2_BLOCK == 0 ==> (pa | bits | kind) & 0x0000_FFFF_FE00_0000 == pa,
{
    assert(pa % 0x4000 == 0 && pa < 0x1_0000_0000_0000 && bits & 0x0000_FFFF_FFFF_C003 == 0 && (kind
        == 1 || kind == 3) ==> ((pa | bits | kind) & 3 == kind && (pa | bits | kind)
        & 0x0000_FFFF_FFFF_C000 == pa && (pa | bits | kind) & !0x0000_FFFF_FFFF_C003u64 == bits && (
    pa | bits | kind) == pa + bits + kind && (pa % 0x200_0000 == 0 ==> (pa | bits | kind)
        & 0x0000_FFFF_FE00_0000 == pa))) by (bit_vector);
}

/// A level-2 block: a 32 MiB leaf.
pub fn block_desc(pa: u64, a: Attr) -> (d: u64)
    requires
        pa % L2_BLOCK == 0,
        pa < PA_LIMIT,
    ensures
        d == pa + a.bits() + 1,
        d & 3 == 1,
        d & 0x0000_FFFF_FE00_0000 == pa,
        d & !ADDR_AND_TYPE == a.bits(),
{
    let bits: u64 = a.leaf_bits();
    proof {
        lemma_leaf(pa, bits, 1);
    }
    pa | bits | 0b01
}

/// A level-3 page: a 16 KiB leaf.
pub fn page_desc(pa: u64, a: Attr) -> (d: u64)
    requires
        pa % GRANULE == 0,
        pa < PA_LIMIT,
    ensures
        d == pa + a.bits() + 3,
        d & 3 == 3,
        d & 0x0000_FFFF_FFFF_C000 == pa,
        d & !ADDR_AND_TYPE == a.bits(),
{
    let bits: u64 = a.leaf_bits();
    proof {
        lemma_leaf(pa, bits, 3);
    }
    pa | bits | 0b11
}

/// One translation table.
pub struct PageTable {
    pub entries: [u64; 2048],
}

impl View for PageTable {
    type V = Seq<u64>;

    open spec fn view(&self) -> Seq<u64> {
        self.entries@
    }
}

/// A table in which every descriptor is invalid.
pub open spec fn empty_table() -> Seq<u64> {
    Seq::new(2048, |i: int| 0u64)
}

impl PageTable {
    /// Write entry `i`.
    pub fn set(&mut self, i: usize, d: u64)
        requires
            i < 2048,
        ensures
            final(self)@ == old(self)@.update(i as int, d),
    {
        self.entries[i] = d;
    }

    pub fn new() -> (t: PageTable)
        ensures
            t@ == empty_table(),
    {
        let t = PageTable { entries: [0; 2048] };
        assert(t@ =~= empty_table());
        t
    }
}

/// The kernel's six tables, in the order they lie in memory.
pub struct Tables {
    /// Level 0, the root of the kernel's tree.
    pub l0: PageTable,
    /// Level 1.
    pub l1: PageTable,
    /// Level 2: two tables, the RAM blocks, the bus-error window.
    pub l2: PageTable,
    /// Level 3 for the kernel's 32 MiB.
    pub l3_kernel: PageTable,
    /// Level 3 for the UART's 32 MiB.
    pub l3_mmio: PageTable,
    /// Never written: the root of the condemned low half.
    pub empty_root: PageTable,
}

impl Tables {
    /// Tables that map nothing.
    pub fn new() -> (t: Tables)
        ensures
            forall|k: int| 0 <= k < 6 ==> #[trigger] t.table(k) == empty_table(),
    {
        Tables {
            l0: PageTable::new(),
            l1: PageTable::new(),
            l2: PageTable::new(),
            l3_kernel: PageTable::new(),
            l3_mmio: PageTable::new(),
            empty_root: PageTable::new(),
        }
    }

    /// The `k`-th table.
    pub open spec fn table(&self, k: int) -> Seq<u64> {
        if k == 0 {
            self.l0@
        } else if k == 1 {
            self.l1@
        } else if k == 2 {
            self.l2@
        } else if k == 3 {
            self.l3_kernel@
        } else if k == 4 {
            self.l3_mmio@
        } else {
            self.empty_root@
        }
    }

    /// Word `n` of the six tables, which lie in memory one behind the other.
    pub open spec fn word(&self, n: int) -> u64 {
        self.table(n / 2048)[n % 2048]
    }

    /// Entry `i` of a table at `table_pa`, where the six tables lie at
    /// `tables_pa`.
    fn read(&self, tables_pa: u64, table_pa: u64, i: usize) -> (d: u64)
        requires
            tables_pa % GRANULE == 0,
            tables_pa + TABLES_LEN <= PA_LIMIT,
            i < 2048,
            in_tables(tables_pa, table_pa),
            readable(tables_pa, table_pa, i as int),
        ensures
            d == entry_at(*self, tables_pa, table_pa, i as int),
    {
        let n: usize = ((table_pa - tables_pa) / 8) as usize + i;
        self.entry(n / 2048, n % 2048)
    }

    /// Entry `i` of the `k`-th table.
    fn entry(&self, k: usize, i: usize) -> (d: u64)
        requires
            k < 6,
            i < 2048,
        ensures
            d == self.table(k as int)[i as int],
    {
        if k == 0 {
            self.l0.entries[i]
        } else if k == 1 {
            self.l1.entries[i]
        } else if k == 2 {
            self.l2.entries[i]
        } else if k == 3 {
            self.l3_kernel.entries[i]
        } else if k == 4 {
            self.l3_mmio.entries[i]
        } else {
            self.empty_root.entries[i]
        }
    }
}

/// How many bytes the six tables occupy.
pub const TABLES_LEN: u64 = 0x1_8000;

/// Where the kernel's pieces are, physically.
#[derive(Clone, Copy)]
pub struct Layout {
    pub text_end: u64,
    pub rodata_end: u64,
    pub guard_bottom: u64,
    pub stack_bottom: u64,
    pub stack_top: u64,
}

/// Where the kernel's code starts: behind the room left for the devicetree.
pub const TEXT_START: u64 = 0x4020_0000;

impl Layout {
    /// The guard is one page directly below the stack, and everything fits the
    /// 32 MiB that are mapped page by page.
    pub open spec fn wf(self) -> bool {
        &&& self.stack_bottom == self.guard_bottom + GRANULE
        &&& RAM_BASE <= self.stack_top <= RAM_BASE + L2_BLOCK
    }

    /// What the kernel page at `pa` may be used for; None for the guard page,
    /// which is not mapped.
    pub open spec fn attr_at(self, pa: int) -> Option<Attr> {
        if pa < TEXT_START {
            Some(Attr::Ro)
        } else if pa < self.text_end {
            Some(Attr::TextRx)
        } else if pa < self.rodata_end {
            Some(Attr::Ro)
        } else if pa < self.guard_bottom {
            Some(Attr::Rw)
        } else if pa < self.stack_bottom {
            None
        } else {
            Some(Attr::Rw)
        }
    }

    fn attr_of(&self, pa: u64) -> (a: Option<Attr>)
        ensures
            a == self.attr_at(pa as int),
    {
        if pa < TEXT_START {
            Some(Attr::Ro)
        } else if pa < self.text_end {
            Some(Attr::TextRx)
        } else if pa < self.rodata_end {
            Some(Attr::Ro)
        } else if pa < self.guard_bottom {
            Some(Attr::Rw)
        } else if pa < self.stack_bottom {
            None
        } else {
            Some(Attr::Rw)
        }
    }
}

/// A page descriptor.
pub open spec fn page(pa: int, a: Attr) -> u64 {
    (pa + a.bits() + 3) as u64
}

/// A block descriptor.
pub open spec fn block(pa: int, a: Attr) -> u64 {
    (pa + a.bits() + 1) as u64
}

/// A table descriptor for the `k`-th of the six tables.
pub open spec fn link(tables_pa: u64, k: int) -> u64 {
    (tables_pa + k * GRANULE + 3) as u64
}

/// Entry `i` of the kernel's level-3 table, where `before` stood there.
pub open spec fn kernel_entry(layout: Layout, i: int, before: u64) -> u64 {
    let pa = RAM_BASE + i * GRANULE;
    match layout.attr_at(pa) {
        Some(a) => page(pa, a),
        None => before,
    }
}

/// Entry `i` of the level-2 table, where `before` stood there: the UART's
/// table, the kernel's table, the rest of RAM as blocks, and one Device block
/// just past the end of RAM.
pub open spec fn l2_entry(tables_pa: u64, i: int, before: u64) -> u64 {
    if i == 4 {
        link(tables_pa, 4)
    } else if i == 32 {
        link(tables_pa, 3)
    } else if 33 <= i < 48 {
        block(i * L2_BLOCK, Attr::Rw)
    } else if i == 48 {
        block(RAM_BASE + RAM_SIZE, Attr::Device)
    } else {
        before
    }
}

/// `t` is `before` with the kernel's map filled in.
pub open spec fn built(t: Tables, before: Tables, layout: Layout, tables_pa: u64) -> bool {
    &&& t.l0@ == before.l0@.update(0, link(tables_pa, 1))
    &&& t.l1@ == before.l1@.update(0, link(tables_pa, 2))
    &&& forall|i: int|
        0 <= i < 2048 ==> #[trigger] t.l2@[i] == l2_entry(tables_pa, i, before.l2@[i])
    &&& forall|i: int|
        0 <= i < 2048 ==> #[trigger] t.l3_kernel@[i] == kernel_entry(
            layout,
            i,
            before.l3_kernel@[i],
        )
    &&& t.l3_mmio@ == before.l3_mmio@.update(1024, page(UART0_BASE as int, Attr::Device))
    &&& t.empty_root@ == before.empty_root@
}

/// The CPU can translate with 16 KiB pages: TGran16, bits [23:20] of
/// ID_AA64MMFR0_EL1, is not zero.
pub open spec fn has_granule16(mmfr0: u64) -> bool {
    (mmfr0 as int / 0x10_0000) % 16 != 0
}

/// Fill the kernel's pages, 16 KiB at a time.
fn build_kernel_pages(t: &mut PageTable, layout: &Layout)
    ensures
        forall|i: int|
            0 <= i < 2048 ==> #[trigger] final(t)@[i] == kernel_entry(*layout, i, old(t)@[i]),
{
    let mut i: usize = 0;
    while i < 2048
        invariant
            0 <= i <= 2048,
            forall|j: int| 0 <= j < i ==> #[trigger] t@[j] == kernel_entry(*layout, j, old(t)@[j]),
            forall|j: int| i <= j < 2048 ==> #[trigger] t@[j] == old(t)@[j],
        decreases 2048 - i,
    {
        let pa: u64 = RAM_BASE + i as u64 * GRANULE;
        match layout.attr_of(pa) {
            Some(a) => {
                t.set(i, page_desc(pa, a));
            },
            None => {},
        }
        i = i + 1;
    }
}

/// Build the kernel's page tables, which lie at `tables_pa`, over `t`. The
/// result is the root for both TTBRs, or None if the CPU lacks the 16 KiB
/// granule; nothing is written then. Descriptors that are not part of the map
/// stay as they were.
pub fn opal_build_tables(mmfr0: u64, layout: &Layout, tables_pa: u64, t: &mut Tables) -> (root:
    Option<u64>)
    requires
        layout.wf(),
        tables_pa % GRANULE == 0,
        tables_pa + TABLES_LEN <= PA_LIMIT,
    ensures
        match root {
            Some(r) => {
                &&& has_granule16(mmfr0)
                &&& r == tables_pa
                &&& built(*final(t), *old(t), *layout, tables_pa)
            },
            None => !has_granule16(mmfr0) && *final(t) == *old(t),
        },
{
    assert((mmfr0 >> 20) & 0xF == (mmfr0 / 0x10_0000) % 16) by (bit_vector);
    if (mmfr0 >> 20) & 0xF == 0 {
        return None;
    }
    build_kernel_pages(&mut t.l3_kernel, layout);
    t.l3_mmio.set(l3i(UART0_BASE), page_desc(UART0_BASE, Attr::Device));
    t.l2.set(l2i(UART0_BASE), table_desc(tables_pa + 4 * GRANULE));
    t.l2.set(l2i(RAM_BASE), table_desc(tables_pa + 3 * GRANULE));
    let ghost l2_old = old(t).l2@;
    let end: usize = l2i(RAM_BASE + RAM_SIZE);
    let mut slot: usize = l2i(RAM_BASE) + 1;
    while slot < end
        invariant
            33 <= slot <= end,
            end == 48,
            l2_old == old(t).l2@,
            forall|i: int|
                0 <= i < 2048 ==> #[trigger] t.l2@[i] == (if i == 4 || i == 32 || 33 <= i < slot {
                    l2_entry(tables_pa, i, l2_old[i])
                } else {
                    l2_old[i]
                }),
            *t == (Tables { l2: t.l2, l3_kernel: t.l3_kernel, l3_mmio: t.l3_mmio, ..*old(t) }),
            forall|i: int|
                0 <= i < 2048 ==> #[trigger] t.l3_kernel@[i] == kernel_entry(
                    *layout,
                    i,
                    old(t).l3_kernel@[i],
                ),
            t.l3_mmio@ == old(t).l3_mmio@.update(1024, page(UART0_BASE as int, Attr::Device)),
        decreases end - slot,
    {
        t.l2.set(slot, block_desc(slot as u64 * L2_BLOCK, Attr::Rw));
        slot = slot + 1;
    }
    t.l2.set(end, block_desc(RAM_BASE + RAM_SIZE, Attr::Device));
    t.l1.set(l1i(RAM_BASE), table_desc(tables_pa + 2 * GRANULE));
    t.l0.set(l0i(RAM_BASE), table_desc(tables_pa + GRANULE));
    Some(tables_pa)
}

/// The physical address size the CPU reports, clamped to 48 bits.
pub open spec fn ips_of(mmfr0: u64) -> int {
    if mmfr0 % 16 < 5 {
        mmfr0 as int % 16
    } else {
        5
    }
}

/// The value for TCR_EL1: the physical address size the CPU reports, clamped to
/// 48 bits, in the IPS field.
fn tcr_value(mmfr0: u64) -> (tcr: u64)
    ensures
        tcr == TCR_EL1_BASE + ips_of(mmfr0) * 0x1_0000_0000,
{
    let parange: u64 = mmfr0 & 0xF;
    let ips: u64 = if parange < 0b101 {
        parange
    } else {
        0b101
    };
    assert(mmfr0 & 0xF == mmfr0 % 16) by (bit_vector);
    assert(ips <= 5 ==> TCR_EL1_BASE | (ips << 32) == TCR_EL1_BASE + ips * 0x1_0000_0000)
        by (bit_vector);
    TCR_EL1_BASE | (ips << 32)
}

/// What the translation registers are set to.
#[derive(Clone, Copy, PartialEq, Eq, Structural, Debug)]
pub struct MmuRegs {
    pub mair: u64,
    pub tcr: u64,
    pub ttbr0: u64,
    pub ttbr1: u64,
    pub sctlr: u64,
}

/// The register values that turn translation on over the tree at `root_pa`: one
/// tree behind both halves of the address space.
pub fn opal_mmu_enable(mmfr0: u64, root_pa: u64) -> (r: MmuRegs)
    ensures
        r == (MmuRegs {
            mair: MAIR_EL1_VALUE,
            tcr: (TCR_EL1_BASE + ips_of(mmfr0) * 0x1_0000_0000) as u64,
            ttbr0: root_pa,
            ttbr1: root_pa,
            sctlr: SCTLR_EL1_VALUE,
        }),
{
    let tcr: u64 = tcr_value(mmfr0);
    MmuRegs {
        mair: MAIR_EL1_VALUE,
        tcr,
        ttbr0: root_pa,
        ttbr1: root_pa,
        sctlr: SCTLR_EL1_VALUE,
    }
}

/// The root TTBR0 holds once the low half is condemned: the table that is never
/// written.
pub fn condemn_low_half(tables_pa: u64) -> (root: u64)
    requires
        tables_pa + TABLES_LEN <= PA_LIMIT,
    ensures
        root == tables_pa + 5 * GRANULE,
{
    tables_pa + 5 * GRANULE
}

/// The address a PAR_EL1 without fault gives for `va`: bits [47:12] from PAR, the
/// rest from the address itself.
pub open spec fn par_address(par: u64, va: u64) -> u64 {
    ((par as int / 0x1000) % 0x10_0000_0000 * 0x1000 + va % 0x1000) as u64
}

/// Read the answer to an address-translation instruction: the physical address
/// of `va`, or the raw PAR_EL1 if its fault bit is set.
pub fn translate(va: u64, par: u64) -> (r: Result<u64, u64>)
    ensures
        r == (if par % 2 == 0 {
            Ok::<u64, u64>(par_address(par, va))
        } else {
            Err::<u64, u64>(par)
        }),
{
    assert(par & 1 == par % 2) by (bit_vector);
    assert((par & 0x0000_FFFF_FFFF_F000) | (va & 0xFFF) == ((par / 0x1000) % 0x10_0000_0000) * 0x1000
        + va % 0x1000) by (bit_vector);
    if par & 1 == 0 {
        Ok((par & 0x0000_FFFF_FFFF_F000) | (va & 0xFFF))
    } else {
        Err(par)
    }
}

/// The fault status in a PAR_EL1 whose fault bit is set: bits [6:1].
pub fn par_status(par: u64) -> (fst: u64)
    ensures
        fst == par / 2 % 0x40,
{
    assert((par >> 1) & 0x3F == par / 2 % 0x40) by (bit_vector);
    (par >> 1) & 0x3F
}

/// One level of a walk: the entry that was read.
#[derive(Clone, Copy, PartialEq, Eq, Structural, Debug)]
pub struct WalkStep {
    pub level: u64,
    pub index: u64,
    pub desc: u64,
}

/// How a walk ends.
#[derive(Clone, Copy, PartialEq, Eq, Structural, Debug)]
pub enum WalkEnd {
    /// Bits [63:48] are neither all ones nor all zeros.
    NonCanonical,
    /// The next table does not lie inside the kernel's six.
    Outside { level: u64, table_pa: u64 },
    /// An invalid descriptor: a translation fault at this level.
    Invalid { level: u64 },
    /// A block pattern in a page slot: a translation fault.
    ReservedPage,
    /// A block above level 2: a translation fault.
    ReservedBlock { level: u64 },
    /// A 32 MiB block at `base`; the address translates to `pa`.
    Block { base: u64, pa: u64 },
    /// A 16 KiB page at `base`; the address translates to `pa`.
    Page { base: u64, pa: u64 },
}

/// A walk, narrated.
pub struct Walk {
    /// The half the address is in: true for TTBR1.
    pub high: bool,
    /// The root table.
    pub root: u64,
    pub steps: Vec<WalkStep>,
    pub end: WalkEnd,
}

/// The steps and end of a walk.
#[verifier::ext_equal]
pub struct Path {
    pub steps: Seq<WalkStep>,
    pub end: WalkEnd,
}

/// `table_pa` lies inside the six tables.
pub open spec fn in_tables(tables_pa: u64, table_pa: u64) -> bool {
    tables_pa <= table_pa < tables_pa + TABLES_LEN
}

/// What a table at `table_pa`, inside the six tables, holds as its entry `i`.
pub open spec fn entry_at(t: Tables, tables_pa: u64, table_pa: u64, i: int) -> u64 {
    t.word((table_pa - tables_pa) / 8 + i)
}

/// The index of `va` at a level.
pub open spec fn index_at(va: u64, level: int) -> int {
    if level == 0 {
        l0_index(va)
    } else if level == 1 {
        l1_index(va)
    } else if level == 2 {
        l2_index(va)
    } else {
        l3_index(va)
    }
}

/// The output address field of a table or page descriptor.
pub open spec fn page_base(desc: u64) -> u64 {
    ((desc as int / 0x4000) % 0x4_0000_0000 * 0x4000) as u64
}

/// A descriptor of the table at `pa` leads there.
pub(crate) proof fn lemma_table_base(pa: u64)
    requires
        pa % GRANULE == 0,
        pa < PA_LIMIT,
    ensures
        (pa + 3) % 4 == 3,
        page_base((pa + 3) as u64) == pa,
{
    let q = pa as int / 0x4000;
    assert(pa == q * 0x4000);
    assert(0 <= q < 0x4_0000_0000);
    assert((pa + 3) / 0x4000 == q);
    assert(q % 0x4_0000_0000 == q);
}

/// The output address field of a block descriptor.
pub open spec fn block_base(desc: u64) -> u64 {
    ((desc as int / 0x200_0000) % 0x80_0000 * 0x200_0000) as u64
}

/// What a descriptor at a level ends the walk with; None = descend.
pub open spec fn leaf_end(va: u64, level: int, desc: u64) -> Option<WalkEnd> {
    let kind = desc % 4;
    if kind == 0 || kind == 2 {
        Some(WalkEnd::Invalid { level: level as u64 })
    } else if kind == 1 {
        if level == 3 {
            Some(WalkEnd::ReservedPage)
        } else if level == 2 {
            Some(
                WalkEnd::Block {
                    base: block_base(desc),
                    pa: (block_base(desc) + va % 0x200_0000) as u64,
                },
            )
        } else {
            Some(WalkEnd::ReservedBlock { level: level as u64 })
        }
    } else if level >= 3 {
        Some(
            WalkEnd::Page { base: page_base(desc), pa: (page_base(desc) + va % 0x4000) as u64 },
        )
    } else {
        None
    }
}

/// The walk for `va` from the table at `table_pa`, which is at `level`.
pub open spec fn walk_from(
    t: Tables,
    tables_pa: u64,
    va: u64,
    table_pa: u64,
    level: int,
) -> Path
    decreases 4 - level,
{
    if !in_tables(tables_pa, table_pa) {
        Path { steps: Seq::empty(), end: WalkEnd::Outside { level: level as u64, table_pa } }
    } else {
        let i = index_at(va, level);
        let desc = entry_at(t, tables_pa, table_pa, i);
        let step = WalkStep { level: level as u64, index: i as u64, desc };
        match leaf_end(va, level, desc) {
            Some(end) => Path { steps: seq![step], end },
            None => {
                let rest = walk_from(t, tables_pa, va, page_base(desc), level + 1);
                Path { steps: seq![step] + rest.steps, end: rest.end }
            },
        }
    }
}

/// The root a TTBR holds: its address bits without ASID and CnP.
pub open spec fn ttbr_root(ttbr: u64) -> u64 {
    (ttbr % PA_LIMIT - ttbr % 2) as u64
}

fn root_of(ttbr: u64) -> (r: u64)
    ensures
        r == ttbr_root(ttbr),
{
    assert(ttbr & 0x0000_FFFF_FFFF_FFFE == ttbr % 0x1_0000_0000_0000 - ttbr % 2) by (bit_vector);
    ttbr & 0x0000_FFFF_FFFF_FFFE
}

/// Entry `i` of a table at `table_pa` can be read: either the table lies outside
/// the six, where nothing is read, or the entry is a whole and aligned word of
/// them.
pub open spec fn readable(tables_pa: u64, table_pa: u64, i: int) -> bool {
    in_tables(tables_pa, table_pa) ==> table_pa % 8 == 0 && table_pa + 8 * i + 8 <= tables_pa
        + TABLES_LEN
}

/// Wherever a descriptor points, the entries there can be read.
proof fn lemma_tables_are_readable(tables_pa: u64, table_pa: u64, i: int)
    requires
        tables_pa % GRANULE == 0,
        table_pa % GRANULE == 0,
        0 <= i < 2048,
    ensures
        readable(tables_pa, table_pa, i),
{
}

/// The entry that a walk for `va` reads first can be read.
pub open spec fn walkable(va: u64, ttbr0: u64, ttbr1: u64, tables_pa: u64) -> bool {
    let top = va / PA_LIMIT;
    let root = ttbr_root(
        if top == 0xFFFF {
            ttbr1
        } else {
            ttbr0
        },
    );
    top == 0 || top == 0xFFFF ==> readable(tables_pa, root, l0_index(va))
}

/// May `walk` be asked about `va`?
pub fn can_walk(va: u64, ttbr0: u64, ttbr1: u64, tables_pa: u64) -> (b: bool)
    requires
        tables_pa + TABLES_LEN <= PA_LIMIT,
    ensures
        b == walkable(va, ttbr0, ttbr1, tables_pa),
{
    let top: u64 = va / PA_LIMIT;
    let root: u64 = if top == 0xFFFF {
        root_of(ttbr1)
    } else {
        root_of(ttbr0)
    };
    let reads: bool = (top == 0 || top == 0xFFFF) && tables_pa <= root && root < tables_pa
        + TABLES_LEN;
    !reads || (root % 8 == 0 && root + 8 * l0i(va) as u64 + 8 <= tables_pa + TABLES_LEN)
}

/// Walk the kernel's tables in software for `va`, as the hardware would, and
/// narrate it. `tables_pa` is where the six tables lie, each on a boundary of its
/// own size.
pub fn walk(va: u64, ttbr0: u64, ttbr1: u64, t: &Tables, tables_pa: u64) -> (w: Walk)
    requires
        tables_pa % GRANULE == 0,
        tables_pa + TABLES_LEN <= PA_LIMIT,
        walkable(va, ttbr0, ttbr1, tables_pa),
    ensures
        ({
            let top = va / PA_LIMIT;
            if top != 0 && top != 0xFFFF {
                w.steps@.len() == 0 && w.end == WalkEnd::NonCanonical
            } else {
                let root = ttbr_root(
                    if top == 0xFFFF {
                        ttbr1
                    } else {
                        ttbr0
                    },
                );
                &&& w.high == (top == 0xFFFF)
                &&& w.root == root
                &&& (Path { steps: w.steps@, end: w.end }) == walk_from(
                    *t,
                    tables_pa,
                    va,
                    root,
                    0,
                )
            }
        }),
{
    let top: u64 = va / PA_LIMIT;
    let mut steps: Vec<WalkStep> = Vec::new();
    if top != 0 && top != 0xFFFF {
        return Walk { high: false, root: 0, steps, end: WalkEnd::NonCanonical };
    }
    let high: bool = top == 0xFFFF;
    let root: u64 = if high {
        root_of(ttbr1)
    } else {
        root_of(ttbr0)
    };
    let mut table_pa: u64 = root;
    let mut level: u64 = 0;
    let ghost goal = walk_from(*t, tables_pa, va, root, 0);
    assert(steps@ + goal.steps =~= goal.steps);
    loop
        invariant
            0 <= level <= 3,
            tables_pa % GRANULE == 0,
            tables_pa + TABLES_LEN <= PA_LIMIT,
            readable(tables_pa, table_pa, index_at(va, level as int)),
            goal == walk_from(*t, tables_pa, va, root, 0),
            goal.end == walk_from(*t, tables_pa, va, table_pa, level as int).end,
            goal.steps == steps@ + walk_from(*t, tables_pa, va, table_pa, level as int).steps,
            high == (va / PA_LIMIT == 0xFFFF),
            high || va / PA_LIMIT == 0,
            root == ttbr_root(
                if high {
                    ttbr1
                } else {
                    ttbr0
                },
            ),
        decreases 4 - level,
    {
        let ghost here = walk_from(*t, tables_pa, va, table_pa, level as int);
        if table_pa < tables_pa || table_pa >= tables_pa + TABLES_LEN {
            assert(steps@ + here.steps =~= steps@);
            return Walk { high, root, steps, end: WalkEnd::Outside { level, table_pa } };
        }
        let i: usize = if level == 0 {
            l0i(va)
        } else if level == 1 {
            l1i(va)
        } else if level == 2 {
            l2i(va)
        } else {
            l3i(va)
        };
        let desc: u64 = t.read(tables_pa, table_pa, i);
        let step = WalkStep { level, index: i as u64, desc };
        let ghost before = steps@;
        steps.push(step);
        let kind: u64 = desc % 4;
        assert(leaf_end(va, level as int, desc) is Some ==> before + here.steps =~= steps@);
        if kind == 0 || kind == 2 {
            return Walk { high, root, steps, end: WalkEnd::Invalid { level } };
        }
        if kind == 1 {
            if level == 3 {
                return Walk { high, root, steps, end: WalkEnd::ReservedPage };
            }
            if level == 2 {
                let base: u64 = (desc / 0x200_0000) % 0x80_0000 * 0x200_0000;
                return Walk {
                    high,
                    root,
                    steps,
                    end: WalkEnd::Block { base, pa: base + va % 0x200_0000 },
                };
            }
            return Walk { high, root, steps, end: WalkEnd::ReservedBlock { level } };
        }
        let base: u64 = (desc / 0x4000) % 0x4_0000_0000 * 0x4000;
        if level == 3 {
            return Walk {
                high,
                root,
                steps,
                end: WalkEnd::Page { base, pa: base + va % 0x4000 },
            };
        }
        proof {
            let rest = walk_from(*t, tables_pa, va, base, level + 1);
            assert(before + here.steps =~= steps@ + rest.steps);
            lemma_tables_are_readable(tables_pa, base, index_at(va, level + 1));
        }
        table_pa = base;
        level = level + 1;
    }
}

/// What the hardware says about the software walk's answer.
#[derive(Clone, Copy, PartialEq, Eq, Structural, Debug)]
pub enum Verdict {
    Agrees,
    Disagrees { hw_pa: u64 },
    Faults { par: u64 },
}

/// Hold the software walk's answer for `va` against the hardware's.
pub fn finish_walk(va: u64, soft_pa: u64, par: u64) -> (v: Verdict)
    ensures
        v == (if par % 2 != 0 {
            Verdict::Faults { par }
        } else if par_address(par, va) == soft_pa {
            Verdict::Agrees
        } else {
            Verdict::Disagrees { hw_pa: par_address(par, va) }
        }),
{
    match translate(va, par) {
        Ok(hw_pa) => if hw_pa == soft_pa {
            Verdict::Agrees
        } else {
            Verdict::Disagrees { hw_pa }
        },
        Err(par) => Verdict::Faults { par },
    }
}

/// AttrIndx 1: Device memory.
pub open spec fn is_device(desc: u64) -> bool {
    (desc / 4) % 8 == 1
}

/// AP[2:1] = 0b10: read-only, kernel only.
pub open spec fn is_kernel_ro(desc: u64) -> bool {
    (desc / 64) % 4 == 2
}

/// PXN clear: the kernel may execute it.
pub open spec fn is_kernel_exec(desc: u64) -> bool {
    (desc / 0x20_0000_0000_0000) % 2 == 0
}

/// A leaf's attributes in words.
pub open spec fn leaf_words(desc: u64) -> Seq<char> {
    if is_device(desc) {
        "[Device-nGnRnE RW XN AF]"@
    } else if is_kernel_ro(desc) {
        if is_kernel_exec(desc) {
            "[Normal RO +execute AF]"@
        } else {
            "[Normal RO XN AF]"@
        }
    } else if is_kernel_exec(desc) {
        "[Normal RW +execute AF \u{2014} should not exist in this kernel]"@
    } else {
        "[Normal RW XN AF]"@
    }
}

/// A leaf's attributes in words, for the narration.
pub fn decode_leaf(desc: u64) -> (r: &'static str)
    ensures
        r@ == leaf_words(desc),
{
    let device: bool = (desc / 4) % 8 == 1;
    let ro: bool = (desc / 64) % 4 == 2;
    let px: bool = (desc / 0x20_0000_0000_0000) % 2 == 0;
    if device {
        "[Device-nGnRnE RW XN AF]"
    } else if ro && px {
        "[Normal RO +execute AF]"
    } else if ro {
        "[Normal RO XN AF]"
    } else if px {
        "[Normal RW +execute AF \u{2014} should not exist in this kernel]"
    } else {
        "[Normal RW XN AF]"
    }
}

} // verus!

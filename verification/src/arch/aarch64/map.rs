//! What the kernel's map guarantees: the linear map, the guard page, W^X and
//! the condemned low half.

use crate::arch::aarch64::mmu::{
    Attr, Layout, Path, Tables, WalkEnd, WalkStep, GRANULE, KERNEL_BASE, L2_BLOCK, PA_LIMIT,
    TABLES_LEN,
};
use crate::board::virt::{RAM_BASE, RAM_SIZE, UART0_BASE};
use vstd::prelude::*;

verus! {

/// The six tables map nothing.
pub open spec fn all_empty(t: Tables) -> bool {
    forall|k: int| 0 <= k < 6 ==> #[trigger] t.table(k) == crate::arch::aarch64::mmu::empty_table()
}

/// The walk the hardware makes for a low address through the kernel's root.
pub open spec fn kernel_walk(t: Tables, tables_pa: u64, va: u64) -> Path {
    crate::arch::aarch64::mmu::walk_from(t, tables_pa, va, tables_pa, 0)
}

/// An address and its alias in the high half select the same entries.
pub proof fn law_alias_selects_same_entries(pa: u64, level: int)
    requires
        pa < PA_LIMIT,
    ensures
        crate::arch::aarch64::mmu::index_at((KERNEL_BASE + pa) as u64, level)
            == crate::arch::aarch64::mmu::index_at(pa, level),
        (KERNEL_BASE + pa) % 0x4000 == pa % 0x4000,
        (KERNEL_BASE + pa) % 0x200_0000 == pa % 0x200_0000,
{
    let va = (KERNEL_BASE + pa) as u64;
    assert(va == 0xFFFF_0000_0000_0000 + pa && pa < 0x1_0000_0000_0000 ==> (va / 0x8000_0000_0000)
        % 2 == (pa / 0x8000_0000_0000) % 2 && (va / 0x10_0000_0000) % 2048 == (pa / 0x10_0000_0000)
        % 2048 && (va / 0x200_0000) % 2048 == (pa / 0x200_0000) % 2048 && (va / 0x4000) % 2048 == (
    pa / 0x4000) % 2048 && va % 0x4000 == pa % 0x4000 && va % 0x200_0000 == pa % 0x200_0000)
        by (bit_vector);
}

/// One tree serves both halves: whatever the tables hold, an address and its
/// alias in the high half are translated alike.
pub proof fn law_one_tree_two_halves(
    t: Tables,
    tables_pa: u64,
    pa: u64,
    table_pa: u64,
    level: int,
)
    requires
        pa < PA_LIMIT,
    ensures
        crate::arch::aarch64::mmu::walk_from(
            t,
            tables_pa,
            (KERNEL_BASE + pa) as u64,
            table_pa,
            level,
        ) == crate::arch::aarch64::mmu::walk_from(t, tables_pa, pa, table_pa, level),
    decreases 4 - level,
{
    law_alias_selects_same_entries(pa, level);
    if crate::arch::aarch64::mmu::in_tables(tables_pa, table_pa) && level < 3 {
        let i = crate::arch::aarch64::mmu::index_at(pa, level);
        let desc = crate::arch::aarch64::mmu::entry_at(t, tables_pa, table_pa, i);
        law_one_tree_two_halves(
            t,
            tables_pa,
            pa,
            crate::arch::aarch64::mmu::page_base(desc),
            level + 1,
        );
    }
}

/// What the kernel may do with physical address `pa`; None = it is not mapped.
pub open spec fn kernel_map(layout: Layout, pa: int) -> Option<Attr> {
    if RAM_BASE <= pa < RAM_BASE + L2_BLOCK {
        layout.attr_at(pa / 0x4000 * 0x4000)
    } else if RAM_BASE + L2_BLOCK <= pa < RAM_BASE + RAM_SIZE {
        Some(Attr::Rw)
    } else if RAM_BASE + RAM_SIZE <= pa < RAM_BASE + RAM_SIZE + L2_BLOCK {
        Some(Attr::Device)
    } else if UART0_BASE <= pa < UART0_BASE + GRANULE {
        Some(Attr::Device)
    } else {
        None
    }
}

/// The walk ends in a leaf that translates `pa` to itself with attributes `a`.
pub open spec fn maps_to_itself(p: Path, pa: u64, a: Attr) -> bool {
    let desc = p.steps.last().desc;
    &&& p.steps.len() > 0
    &&& match p.end {
        WalkEnd::Page { base, pa: out } => {
            &&& out == pa
            &&& base == pa - pa % 0x4000
            &&& desc == crate::arch::aarch64::mmu::page(base as int, a)
        },
        WalkEnd::Block { base, pa: out } => {
            &&& out == pa
            &&& base == pa - pa % 0x200_0000
            &&& desc == crate::arch::aarch64::mmu::block(base as int, a)
        },
        _ => false,
    }
}

proof fn lemma_links(tables_pa: u64, k: int)
    requires
        tables_pa % GRANULE == 0,
        tables_pa + TABLES_LEN <= PA_LIMIT,
        0 <= k < 6,
    ensures
        ({
            let d = crate::arch::aarch64::mmu::link(tables_pa, k);
            &&& d % 4 == 3
            &&& crate::arch::aarch64::mmu::page_base(d) == tables_pa + k * GRANULE
            &&& crate::arch::aarch64::mmu::in_tables(tables_pa, (tables_pa + k * GRANULE) as u64)
            &&& forall|t: Tables, i: int|
                0 <= i < 2048 ==> #[trigger] crate::arch::aarch64::mmu::entry_at(
                    t,
                    tables_pa,
                    (tables_pa + k * GRANULE) as u64,
                    i,
                ) == t.table(k)[i]
        }),
{
    let pa = (tables_pa + k * GRANULE) as u64;
    crate::arch::aarch64::mmu::lemma_table_base(pa);
    assert forall|t: Tables, i: int| 0 <= i < 2048 implies #[trigger] crate::arch::aarch64::mmu::entry_at(
        t,
        tables_pa,
        pa,
        i,
    ) == t.table(k)[i] by {
        let n = (pa - tables_pa) / 8 + i;
        assert(n == 2048 * k + i);
        assert(n / 2048 == k && n % 2048 == i);
    }
}

/// The walk down to the level-2 entry.
proof fn lemma_trunk(t: Tables, before: Tables, layout: Layout, tables_pa: u64, pa: u64)
    requires
        crate::arch::aarch64::mmu::built(t, before, layout, tables_pa),
        all_empty(before),
        tables_pa % GRANULE == 0,
        tables_pa + TABLES_LEN <= PA_LIMIT,
        pa < PA_LIMIT,
    ensures
        pa >= 0x10_0000_0000 ==> kernel_walk(t, tables_pa, pa).end is Invalid,
        pa < 0x10_0000_0000 ==> ({
            let rest = crate::arch::aarch64::mmu::walk_from(
                t,
                tables_pa,
                pa,
                (tables_pa + 2 * GRANULE) as u64,
                2,
            );
            &&& kernel_walk(t, tables_pa, pa).end == rest.end
            &&& rest.steps.len() > 0 ==> kernel_walk(t, tables_pa, pa).steps.last()
                == rest.steps.last() && kernel_walk(t, tables_pa, pa).steps.len() > 0
        }),
{
    lemma_links(tables_pa, 0);
    lemma_links(tables_pa, 1);
    lemma_links(tables_pa, 2);
    assert(before.table(0) == crate::arch::aarch64::mmu::empty_table());
    assert(before.table(1) == crate::arch::aarch64::mmu::empty_table());
    let w0 = kernel_walk(t, tables_pa, pa);
    let w1 = crate::arch::aarch64::mmu::walk_from(
        t,
        tables_pa,
        pa,
        (tables_pa + GRANULE) as u64,
        1,
    );
    if pa < 0x8000_0000_0000 {
        assert(t.table(0)[0] == crate::arch::aarch64::mmu::link(tables_pa, 1));
        assert(w0.end == w1.end);
        if pa < 0x10_0000_0000 {
            assert(t.table(1)[0] == crate::arch::aarch64::mmu::link(tables_pa, 2));
        } else {
            assert(crate::arch::aarch64::mmu::l1_index(pa) > 0);
        }
    }
}

/// The kernel's map is linear and complete: through freshly built tables every
/// physical address either translates to itself with the attributes the layout
/// gives it, or is not mapped at all.
pub proof fn law_kernel_map(t: Tables, before: Tables, layout: Layout, tables_pa: u64, pa: u64)
    requires
        crate::arch::aarch64::mmu::built(t, before, layout, tables_pa),
        all_empty(before),
        layout.wf(),
        tables_pa % GRANULE == 0,
        tables_pa + TABLES_LEN <= PA_LIMIT,
        pa < PA_LIMIT,
    ensures
        match kernel_map(layout, pa as int) {
            Some(a) => maps_to_itself(kernel_walk(t, tables_pa, pa), pa, a),
            None => kernel_walk(t, tables_pa, pa).end is Invalid,
        },
{
    lemma_trunk(t, before, layout, tables_pa, pa);
    if pa < 0x10_0000_0000 {
        let i = crate::arch::aarch64::mmu::l2_index(pa);
        let d = t.l2@[i];
        assert(before.table(2) == crate::arch::aarch64::mmu::empty_table());
        assert(d == crate::arch::aarch64::mmu::l2_entry(tables_pa, i, before.l2@[i]));
        lemma_links(tables_pa, 2);
        lemma_links(tables_pa, 3);
        lemma_links(tables_pa, 4);
        assert(t.table(2)[i] == d);
        if i == 32 {
            lemma_kernel_page(t, before, layout, tables_pa, pa);
        } else if i == 4 {
            lemma_uart_page(t, before, layout, tables_pa, pa);
        } else if 33 <= i <= 48 {
            let a = if i < 48 {
                Attr::Rw
            } else {
                Attr::Device
            };
            assert(d == crate::arch::aarch64::mmu::block(i * L2_BLOCK, a));
            assert(crate::arch::aarch64::mmu::block_base(d) == i * L2_BLOCK);
        }
    }
}

proof fn lemma_kernel_page(t: Tables, before: Tables, layout: Layout, tables_pa: u64, pa: u64)
    requires
        crate::arch::aarch64::mmu::built(t, before, layout, tables_pa),
        all_empty(before),
        tables_pa % GRANULE == 0,
        tables_pa + TABLES_LEN <= PA_LIMIT,
        RAM_BASE <= pa < RAM_BASE + L2_BLOCK,
    ensures
        ({
            let w = crate::arch::aarch64::mmu::walk_from(
                t,
                tables_pa,
                pa,
                (tables_pa + 2 * GRANULE) as u64,
                2,
            );
            match kernel_map(layout, pa as int) {
                Some(a) => maps_to_itself(w, pa, a),
                None => w.end is Invalid,
            }
        }),
{
    lemma_links(tables_pa, 2);
    lemma_links(tables_pa, 3);
    let j = crate::arch::aarch64::mmu::l3_index(pa);
    let base = RAM_BASE + j * GRANULE;
    assert(base == pa as int / 0x4000 * 0x4000);
    assert(before.table(3) == crate::arch::aarch64::mmu::empty_table());
    let e = t.l3_kernel@[j];
    assert(e == crate::arch::aarch64::mmu::kernel_entry(layout, j, before.l3_kernel@[j]));
    assert(t.l2@[32] == crate::arch::aarch64::mmu::link(tables_pa, 3)) by {
        assert(t.l2@[32] == crate::arch::aarch64::mmu::l2_entry(
            tables_pa,
            32,
            before.l2@[32],
        ));
    }
    let w3 = crate::arch::aarch64::mmu::walk_from(
        t,
        tables_pa,
        pa,
        (tables_pa + 3 * GRANULE) as u64,
        3,
    );
    assert(w3.steps =~= seq![WalkStep { level: 3, index: j as u64, desc: e }]);
    match layout.attr_at(base) {
        Some(a) => {
            assert(e == crate::arch::aarch64::mmu::page(base, a));
            assert(crate::arch::aarch64::mmu::page_base(e) == base);
        },
        None => {},
    }
}

proof fn lemma_uart_page(t: Tables, before: Tables, layout: Layout, tables_pa: u64, pa: u64)
    requires
        crate::arch::aarch64::mmu::built(t, before, layout, tables_pa),
        all_empty(before),
        tables_pa % GRANULE == 0,
        tables_pa + TABLES_LEN <= PA_LIMIT,
        0x800_0000 <= pa < 0xA00_0000,
    ensures
        ({
            let w = crate::arch::aarch64::mmu::walk_from(
                t,
                tables_pa,
                pa,
                (tables_pa + 2 * GRANULE) as u64,
                2,
            );
            match kernel_map(layout, pa as int) {
                Some(a) => maps_to_itself(w, pa, a),
                None => w.end is Invalid,
            }
        }),
{
    lemma_links(tables_pa, 2);
    lemma_links(tables_pa, 4);
    let j = crate::arch::aarch64::mmu::l3_index(pa);
    assert(before.table(4) == crate::arch::aarch64::mmu::empty_table());
    let e = t.l3_mmio@[j];
    assert(t.l2@[4] == crate::arch::aarch64::mmu::link(tables_pa, 4)) by {
        assert(t.l2@[4] == crate::arch::aarch64::mmu::l2_entry(tables_pa, 4, before.l2@[4]));
    }
    let w3 = crate::arch::aarch64::mmu::walk_from(
        t,
        tables_pa,
        pa,
        (tables_pa + 4 * GRANULE) as u64,
        3,
    );
    assert(w3.steps =~= seq![WalkStep { level: 3, index: j as u64, desc: e }]);
    if j == 1024 {
        assert(e == crate::arch::aarch64::mmu::page(UART0_BASE as int, Attr::Device));
        assert(crate::arch::aarch64::mmu::page_base(e) == UART0_BASE);
    }
}

/// The guard page is an absence, not a permission: every address in it takes a
/// translation fault.
pub proof fn law_guard_page_is_unmapped(
    t: Tables,
    before: Tables,
    layout: Layout,
    tables_pa: u64,
    pa: u64,
)
    requires
        crate::arch::aarch64::mmu::built(t, before, layout, tables_pa),
        all_empty(before),
        layout.wf(),
        layout.guard_bottom % GRANULE == 0,
        crate::arch::aarch64::mmu::TEXT_START <= layout.text_end <= layout.rodata_end
            <= layout.guard_bottom,
        layout.stack_bottom <= layout.stack_top,
        tables_pa % GRANULE == 0,
        tables_pa + TABLES_LEN <= PA_LIMIT,
        layout.guard_bottom <= pa < layout.stack_bottom,
    ensures
        kernel_walk(t, tables_pa, pa).end is Invalid,
        kernel_walk(t, tables_pa, (KERNEL_BASE + pa) as u64).end is Invalid,
{
    law_kernel_map(t, before, layout, tables_pa, pa);
    law_one_tree_two_halves(t, tables_pa, pa, tables_pa, 0);
}

/// The fields of a leaf: the execute-never bits `hi` and the low attribute and
/// type bits `low` are found where they were put.
proof fn lemma_leaf_fields(base: u64, hi: u64, low: u64, d: u64)
    requires
        base % GRANULE == 0,
        base < PA_LIMIT,
        hi < 4,
        low < 0x4000,
        d == base + hi * 0x20_0000_0000_0000 + low,
    ensures
        d / 0x20_0000_0000_0000 == hi,
        d / 0x40_0000_0000_0000 == hi / 2,
        (d / 0x400) % 2 == (low / 0x400) % 2,
        (d / 64) % 4 == (low / 64) % 4,
        (d / 4) % 8 == (low / 4) % 8,
{
    assert(base % 0x4000 == 0 && base < 0x1_0000_0000_0000 && hi < 4 && low < 0x4000 && d == base
        + hi * 0x20_0000_0000_0000 + low ==> d / 0x20_0000_0000_0000 == hi && d
        / 0x40_0000_0000_0000 == hi / 2 && (d / 0x400) % 2 == (low / 0x400) % 2 && (d / 64) % 4 == (
    low / 64) % 4 && (d / 4) % 8 == (low / 4) % 8) by (bit_vector);
}

/// No leaf is both writable and executable by the kernel, none is executable by
/// user tasks unless it is user code, and every leaf has its access flag set.
pub open spec fn leaf_is_sane(d: u64, a: Attr) -> bool {
    &&& crate::arch::aarch64::mmu::is_kernel_exec(d) ==> crate::arch::aarch64::mmu::is_kernel_ro(d)
        && a == Attr::TextRx
    &&& (d / 0x40_0000_0000_0000) % 2 == 0 ==> a == Attr::UserRx
    &&& (d / 0x400) % 2 == 1
}

/// W^X holds of every leaf the constructors can build.
pub proof fn law_w_xor_x(base: u64, a: Attr)
    requires
        base % GRANULE == 0,
        base < PA_LIMIT,
    ensures
        leaf_is_sane(crate::arch::aarch64::mmu::page(base as int, a), a),
        leaf_is_sane(crate::arch::aarch64::mmu::block(base as int, a), a),
{
    let hi: u64 = match a {
        Attr::TextRx => 2,
        Attr::UserRx => 1,
        _ => 3,
    };
    let low = (a.bits() - hi * 0x20_0000_0000_0000) as u64;
    lemma_leaf_fields(base, hi, (low + 3) as u64, crate::arch::aarch64::mmu::page(base as int, a));
    lemma_leaf_fields(base, hi, (low + 1) as u64, crate::arch::aarch64::mmu::block(base as int, a));
}

/// The kernel executes nothing but its own code: a mapped address the kernel
/// may execute lies in its text.
pub proof fn law_only_text_executes(layout: Layout, pa: int)
    requires
        kernel_map(layout, pa) == Some(Attr::TextRx),
    ensures
        crate::arch::aarch64::mmu::TEXT_START <= pa / 0x4000 * 0x4000 < layout.text_end,
{
}

/// The condemned low half translates nothing: through the empty root every
/// address faults at level 0.
pub proof fn law_condemned_half_faults(t: Tables, tables_pa: u64, va: u64)
    requires
        t.empty_root@ == crate::arch::aarch64::mmu::empty_table(),
        tables_pa + TABLES_LEN <= PA_LIMIT,
    ensures
        crate::arch::aarch64::mmu::walk_from(
            t,
            tables_pa,
            va,
            (tables_pa + 5 * GRANULE) as u64,
            0,
        ).end == (WalkEnd::Invalid { level: 0 }),
{
    assert(t.table(5) == crate::arch::aarch64::mmu::empty_table());
}

/// Building the map never touches the empty root.
pub proof fn law_empty_root_stays_empty(
    t: Tables,
    before: Tables,
    layout: Layout,
    tables_pa: u64,
)
    requires
        crate::arch::aarch64::mmu::built(t, before, layout, tables_pa),
        all_empty(before),
    ensures
        t.empty_root@ == crate::arch::aarch64::mmu::empty_table(),
{
    assert(before.table(5) == crate::arch::aarch64::mmu::empty_table());
}

/// The narration names what a descriptor was built for.
pub proof fn law_narration_names_attributes(base: u64)
    requires
        base % GRANULE == 0,
        base < PA_LIMIT,
    ensures
        crate::arch::aarch64::mmu::leaf_words(
            crate::arch::aarch64::mmu::page(base as int, Attr::TextRx),
        ) == "[Normal RO +execute AF]"@,
        crate::arch::aarch64::mmu::leaf_words(
            crate::arch::aarch64::mmu::page(base as int, Attr::Ro),
        ) == "[Normal RO XN AF]"@,
        crate::arch::aarch64::mmu::leaf_words(
            crate::arch::aarch64::mmu::page(base as int, Attr::Rw),
        ) == "[Normal RW XN AF]"@,
        crate::arch::aarch64::mmu::leaf_words(
            crate::arch::aarch64::mmu::page(base as int, Attr::Device),
        ) == "[Device-nGnRnE RW XN AF]"@,
{
    lemma_leaf_fields(
        base,
        2,
        0x783,
        crate::arch::aarch64::mmu::page(base as int, Attr::TextRx),
    );
    lemma_leaf_fields(base, 3, 0x783, crate::arch::aarch64::mmu::page(base as int, Attr::Ro));
    lemma_leaf_fields(base, 3, 0x703, crate::arch::aarch64::mmu::page(base as int, Attr::Rw));
    lemma_leaf_fields(base, 3, 0x407, crate::arch::aarch64::mmu::page(base as int, Attr::Device));
}

/// The two granule fields of TCR_EL1 both say 16 KiB, each in its own encoding,
/// and the clamped physical size never disturbs them.
pub proof fn law_tcr_granules(mmfr0: u64)
    ensures
        ({
            let tcr = (crate::arch::aarch64::mmu::TCR_EL1_BASE
                + crate::arch::aarch64::mmu::ips_of(mmfr0) * 0x1_0000_0000);
            &&& (tcr / 0x4000) % 4 == 2
            &&& (tcr / 0x4000_0000) % 4 == 1
            &&& tcr % 64 == 16
            &&& (tcr / 0x1_0000) % 64 == 16
            &&& tcr / 0x1_0000_0000 == crate::arch::aarch64::mmu::ips_of(mmfr0) <= 5
        }),
{
}

/// AP[1], bit 6 of a leaf: EL0 may access it.
pub open spec fn el0_access(d: u64) -> bool {
    (d as int / 0x40) % 2 == 1
}

/// AP[2], bit 7 of a leaf: nobody may write it.
pub open spec fn read_only(d: u64) -> bool {
    (d as int / 0x80) % 2 == 1
}

/// PXN, bit 53 of a leaf, is clear: EL1 may execute it.
pub open spec fn el1_executes(d: u64) -> bool {
    (d as int / 0x20_0000_0000_0000) % 2 == 0
}

/// UXN, bit 54 of a leaf, is clear: EL0 may execute it.
pub open spec fn el0_executes(d: u64) -> bool {
    (d as int / 0x40_0000_0000_0000) % 2 == 0
}

/// AttrIndx, bits [4:2] of a leaf, selects the slot of MAIR_EL1 that says Device.
pub open spec fn device_memory(d: u64) -> bool {
    (d as int / 4) % 8 == 1
}

/// A leaf the hardware takes as it is: the access flag, bit 10, is set, the
/// address field holds `pa`, and Normal memory is inner shareable and in the
/// slot of MAIR_EL1 that says write-back.
pub open spec fn sound_leaf(d: u64, pa: int) -> bool {
    &&& (d as int / 0x400) % 2 == 1
    &&& d as int / 0x4000 % 0x4_0000_0000 * 0x4000 == pa
    &&& device_memory(d) || ((d as int / 4) % 8 == 0 && (d as int / 0x100) % 4 == 3)
}

/// What a leaf permits is what its attribute is called after: who may reach it,
/// who may write it, and who may execute it.
pub open spec fn permits(d: u64, a: Attr) -> bool {
    &&& el0_access(d) <==> a == Attr::UserRx || a == Attr::UserRw
    &&& read_only(d) <==> a == Attr::TextRx || a == Attr::Ro || a == Attr::UserRx
    &&& el1_executes(d) <==> a == Attr::TextRx
    &&& el0_executes(d) <==> a == Attr::UserRx
    &&& device_memory(d) <==> a == Attr::Device
}

proof fn lemma_low_fields(base: u64, hi: u64, low: u64, d: u64)
    requires
        base % GRANULE == 0,
        base < PA_LIMIT,
        hi < 4,
        low < 0x4000,
        d == base + hi * 0x20_0000_0000_0000 + low,
    ensures
        d as int / 0x4000 % 0x4_0000_0000 * 0x4000 == base,
        (d as int / 0x20_0000_0000_0000) % 2 == hi % 2,
        (d as int / 0x40_0000_0000_0000) % 2 == hi / 2,
        (d as int / 0x400) % 2 == (low as int / 0x400) % 2,
        (d as int / 0x100) % 4 == (low as int / 0x100) % 4,
        (d as int / 0x80) % 2 == (low as int / 0x80) % 2,
        (d as int / 0x40) % 2 == (low as int / 0x40) % 2,
        (d as int / 4) % 8 == (low as int / 4) % 8,
        d % 4 == low % 4,
{
    assert(base % 0x4000 == 0 && base < 0x1_0000_0000_0000 && hi < 4 && low < 0x4000 && d == base
        + hi * 0x20_0000_0000_0000 + low ==> d / 0x4000 % 0x4_0000_0000 * 0x4000 == base && (d
        / 0x20_0000_0000_0000) % 2 == hi % 2 && (d / 0x40_0000_0000_0000) % 2 == hi / 2 && (d
        / 0x400) % 2 == (low / 0x400) % 2 && (d / 0x100) % 4 == (low / 0x100) % 4 && (d / 0x80) % 2
        == (low / 0x80) % 2 && (d / 0x40) % 2 == (low / 0x40) % 2 && (d / 4) % 8 == (low / 4) % 8
        && d % 4 == low % 4) by (bit_vector);
}

/// Every leaf that is built permits what its attribute says and nothing more, and
/// leads where it was meant to lead.
pub proof fn law_leaves_permit_what_they_say(base: u64, a: Attr)
    requires
        base % GRANULE == 0,
        base < PA_LIMIT,
    ensures
        permits(crate::arch::aarch64::mmu::page(base as int, a), a),
        permits(crate::arch::aarch64::mmu::block(base as int, a), a),
        sound_leaf(crate::arch::aarch64::mmu::page(base as int, a), base as int),
        sound_leaf(crate::arch::aarch64::mmu::block(base as int, a), base as int),
        crate::arch::aarch64::mmu::page(base as int, a) % 4 == 3,
        crate::arch::aarch64::mmu::block(base as int, a) % 4 == 1,
{
    let hi: u64 = match a {
        Attr::TextRx => 2,
        Attr::UserRx => 1,
        _ => 3,
    };
    let low = (a.bits() - hi * 0x20_0000_0000_0000) as u64;
    lemma_low_fields(base, hi, (low + 3) as u64, crate::arch::aarch64::mmu::page(base as int, a));
    lemma_low_fields(base, hi, (low + 1) as u64, crate::arch::aarch64::mmu::block(base as int, a));
}

/// The walk ends in a leaf that leads to `pa` itself.
pub open spec fn reaches(p: Path, pa: u64) -> bool {
    &&& p.steps.len() > 0
    &&& p.end matches WalkEnd::Page { pa: out, .. } ==> out == pa
    &&& p.end matches WalkEnd::Block { pa: out, .. } ==> out == pa
    &&& p.end is Page || p.end is Block
}

/// The kernel's memory as its layout divides it up.
pub open spec fn ordered(layout: Layout) -> bool {
    &&& layout.wf()
    &&& layout.text_end % GRANULE == 0
    &&& layout.rodata_end % GRANULE == 0
    &&& layout.guard_bottom % GRANULE == 0
    &&& 0x4020_0000 <= layout.text_end <= layout.rodata_end <= layout.guard_bottom
    &&& layout.stack_bottom <= layout.stack_top
}

/// Rounding down to a page stays on the same side of a page boundary.
proof fn lemma_rounded(pa: int, boundary: int)
    requires
        boundary % 0x4000 == 0,
    ensures
        pa / 0x4000 * 0x4000 < boundary <==> pa < boundary,
{
    let k = boundary / 0x4000;
    assert(boundary == k * 0x4000);
}

/// The attribute of an address, region by region.
proof fn lemma_regions(layout: Layout, pa: int)
    requires
        ordered(layout),
    ensures
        kernel_map(layout, pa) == (if 0x4000_0000 <= pa < 0x4020_0000 {
            Some(Attr::Ro)
        } else if 0x4020_0000 <= pa < layout.text_end {
            Some(Attr::TextRx)
        } else if layout.text_end <= pa < layout.rodata_end {
            Some(Attr::Ro)
        } else if layout.rodata_end <= pa < layout.guard_bottom {
            Some(Attr::Rw)
        } else if layout.stack_bottom <= pa < 0x6000_0000 {
            Some(Attr::Rw)
        } else if 0x6000_0000 <= pa < 0x6200_0000 || 0x0900_0000 <= pa < 0x0900_4000 {
            Some(Attr::Device)
        } else {
            None
        }),
{
    lemma_rounded(pa, 0x4020_0000);
    lemma_rounded(pa, layout.text_end as int);
    lemma_rounded(pa, layout.rodata_end as int);
    lemma_rounded(pa, layout.guard_bottom as int);
    lemma_rounded(pa, layout.stack_bottom as int);
}

proof fn lemma_reached(p: Path, pa: u64, a: Attr)
    requires
        maps_to_itself(p, pa, a),
        pa < PA_LIMIT,
    ensures
        reaches(p, pa),
        permits(p.steps.last().desc, a),
{
    match p.end {
        WalkEnd::Page { base, pa: out } => {
            assert(base % 0x4000 == 0);
            law_leaves_permit_what_they_say(base, a);
        },
        WalkEnd::Block { base, pa: out } => {
            assert(base % 0x200_0000 == 0);
            assert(base % 0x4000 == 0);
            law_leaves_permit_what_they_say(base, a);
        },
        _ => {},
    }
}

/// What the kernel may do where: it reads the devicetree, executes and reads its
/// code, reads its constants, reads and writes its data, its stack and the rest
/// of RAM, reaches the UART and the window past RAM as devices, and finds nothing
/// at the guard page or anywhere else. EL0 reaches none of it.
pub proof fn law_kernel_permissions(
    t: Tables,
    before: Tables,
    layout: Layout,
    tables_pa: u64,
    pa: u64,
)
    requires
        crate::arch::aarch64::mmu::built(t, before, layout, tables_pa),
        all_empty(before),
        ordered(layout),
        tables_pa % GRANULE == 0,
        tables_pa + TABLES_LEN <= PA_LIMIT,
        pa < PA_LIMIT,
    ensures
        ({
            let p = kernel_walk(t, tables_pa, pa);
            let d = p.steps.last().desc;
            let text = 0x4020_0000 <= pa < layout.text_end;
            let constants = 0x4000_0000 <= pa < 0x4020_0000 || layout.text_end <= pa
                < layout.rodata_end;
            let data = layout.rodata_end <= pa < layout.guard_bottom || layout.stack_bottom <= pa
                < 0x6000_0000;
            let device = 0x6000_0000 <= pa < 0x6200_0000 || 0x0900_0000 <= pa < 0x0900_4000;
            &&& text || constants || data || device <==> reaches(p, pa)
            &&& !reaches(p, pa) ==> p.end is Invalid
            &&& reaches(p, pa) ==> {
                &&& !el0_access(d) && !el0_executes(d)
                &&& el1_executes(d) <==> text
                &&& read_only(d) <==> text || constants
                &&& device_memory(d) <==> device
            }
        }),
{
    law_kernel_map(t, before, layout, tables_pa, pa);
    lemma_regions(layout, pa as int);
    match kernel_map(layout, pa as int) {
        Some(a) => {
            lemma_reached(kernel_walk(t, tables_pa, pa), pa, a);
        },
        None => {},
    }
}

/// The four indices and the offset are the address cut up: put together they are
/// the address again, and every index fits its table.
pub proof fn law_indices_cut_up_the_address(a: u64)
    requires
        a < PA_LIMIT,
    ensures
        ({
            let i0 = crate::arch::aarch64::mmu::index_at(a, 0);
            let i1 = crate::arch::aarch64::mmu::index_at(a, 1);
            let i2 = crate::arch::aarch64::mmu::index_at(a, 2);
            let i3 = crate::arch::aarch64::mmu::index_at(a, 3);
            &&& 0 <= i0 < 2 && 0 <= i1 < 2048 && 0 <= i2 < 2048 && 0 <= i3 < 2048
            &&& a == i0 * 0x8000_0000_0000 + i1 * 0x10_0000_0000 + i2 * 0x200_0000 + i3 * 0x4000 + a
                % 0x4000
        }),
{
    let q3 = a as int / 0x4000;
    let q2 = a as int / 0x200_0000;
    let q1 = a as int / 0x10_0000_0000;
    let q0 = a as int / 0x8000_0000_0000;
    assert(a == q3 * 0x4000 + a % 0x4000);
    assert(q3 == q2 * 2048 + q3 % 2048);
    assert(q2 == q1 * 2048 + q2 % 2048);
    assert(q1 == q0 * 2048 + q1 % 2048);
    assert(q0 % 2 == q0);
}

/// The hardware's answer: whatever memory attributes and flags PAR_EL1 holds
/// around it, the frame comes from there and the rest from the address.
pub proof fn law_par_is_decoded(attrs: u64, frame: u64, flags: u64, va: u64, par: u64)
    requires
        attrs < 0x100,
        frame % 0x1000 == 0,
        frame < 0x1_0000_0000_0000,
        flags < 0x1000,
        par == attrs * 0x100_0000_0000_0000 + frame + flags,
    ensures
        crate::arch::aarch64::mmu::par_address(par, va) == frame + va % 0x1000,
        crate::arch::aarch64::mmu::par_address(par, va) < 0x1_0000_0000_0000,
{
    assert(frame % 0x1000 == 0 && frame < 0x1_0000_0000_0000 && flags < 0x1000 && attrs < 0x100
        && par == attrs * 0x100_0000_0000_0000 + frame + flags ==> par / 0x1000 % 0x10_0000_0000
        * 0x1000 == frame) by (bit_vector);
}

/// More generally: the bits of PAR_EL1 above 47 and below 12 are never part of
/// the address, and those of the address above 11 are not either.
pub proof fn law_par_ignores_the_rest(p: u64, q: u64, va: u64, wa: u64)
    requires
        p as int / 0x1000 % 0x10_0000_0000 == q as int / 0x1000 % 0x10_0000_0000,
        va % 0x1000 == wa % 0x1000,
    ensures
        crate::arch::aarch64::mmu::par_address(p, va) == crate::arch::aarch64::mmu::par_address(
            q,
            wa,
        ),
        crate::arch::aarch64::mmu::par_address(p, va) as int / 0x1000 == p as int / 0x1000
            % 0x10_0000_0000,
        crate::arch::aarch64::mmu::par_address(p, va) % 0x1000 == va % 0x1000,
{
    let f = p as int / 0x1000 % 0x10_0000_0000;
    assert(0 <= f < 0x10_0000_0000);
    assert((f * 0x1000 + va % 0x1000) / 0x1000 == f);
}

/// What a CPU is asked for is never more than it has, nor more than 48 bits, and
/// no less than the smaller of the two.
pub proof fn law_output_size_is_clamped(mmfr0: u64)
    ensures
        ({
            let ips = crate::arch::aarch64::mmu::ips_of(mmfr0);
            let tcr = (crate::arch::aarch64::mmu::TCR_EL1_BASE + ips * 0x1_0000_0000);
            &&& ips <= mmfr0 % 16 && ips <= 5
            &&& ips == mmfr0 % 16 || ips == 5
            &&& tcr / 0x1_0000_0000 % 8 == ips
            &&& tcr % 0x1_0000_0000 == 0x7510_B510
        }),
{
}

/// MAIR_EL1 holds what the leaves refer to: Normal write-back memory in slot 0,
/// Device-nGnRnE in slot 1. SCTLR_EL1 turns the MMU and both caches on.
pub proof fn law_translation_registers()
    ensures
        crate::arch::aarch64::mmu::MAIR_EL1_VALUE % 0x100 == 0xFF,
        crate::arch::aarch64::mmu::MAIR_EL1_VALUE / 0x100 % 0x100 == 0,
        crate::arch::aarch64::mmu::SCTLR_EL1_VALUE % 2 == 1,
        crate::arch::aarch64::mmu::SCTLR_EL1_VALUE / 4 % 2 == 1,
        crate::arch::aarch64::mmu::SCTLR_EL1_VALUE / 0x1000 % 2 == 1,
        crate::arch::aarch64::mmu::SCTLR_EL1_VALUE / 0x8_0000 % 2 == 0,
{
}

/// A register that points to a table holds more than its address: an address
/// space number above bit 47 and a flag in bit 0, neither of which counts.
pub proof fn law_roots_are_addresses(asid: u64, pa: u64, cnp: u64, ttbr: u64)
    requires
        asid < 0x1_0000,
        pa < 0x1_0000_0000_0000,
        pa % 2 == 0,
        cnp < 2,
        ttbr == asid * 0x1_0000_0000_0000 + pa + cnp,
    ensures
        crate::arch::aarch64::mmu::ttbr_root(ttbr) == pa,
{
    assert(ttbr % 0x1_0000_0000_0000 == pa + cnp);
    assert(ttbr % 2 == cnp);
}

/// What an entry means is in its two lowest bits and its level: even ones are
/// invalid; 0b01 is a 32 MiB block at level 2 and reserved elsewhere; 0b11 is a
/// 16 KiB page at level 3 and the next table elsewhere.
pub proof fn law_entries_by_kind(va: u64, level: int, desc: u64)
    requires
        0 <= level <= 3,
    ensures
        ({
            let end = crate::arch::aarch64::mmu::leaf_end(va, level, desc);
            &&& desc % 2 == 0 ==> end == Some((WalkEnd::Invalid { level: level as u64 }))
            &&& desc % 4 == 1 && level == 3 ==> end == Some(WalkEnd::ReservedPage)
            &&& desc % 4 == 1 && level < 2 ==> end == Some(
                (WalkEnd::ReservedBlock { level: level as u64 }),
            )
            &&& desc % 4 == 1 && level == 2 ==> (end matches Some(
                WalkEnd::Block { base, pa },
            ) && base % 0x200_0000 == 0 && pa == base + va % 0x200_0000 && base
                == desc % 0x1_0000_0000_0000 - desc % 0x200_0000)
            &&& desc % 4 == 3 && level == 3 ==> (end matches Some(
                WalkEnd::Page { base, pa },
            ) && base % 0x4000 == 0 && pa == base + va % 0x4000 && base == desc
                % 0x1_0000_0000_0000 - desc % 0x4000)
            &&& desc % 4 == 3 && level < 3 ==> end is None
                && crate::arch::aarch64::mmu::page_base(desc) == desc % 0x1_0000_0000_0000 - desc
                % 0x4000
        }),
{
    assert(desc / 0x4000 % 0x4_0000_0000 * 0x4000 == desc % 0x1_0000_0000_0000 - desc % 0x4000
        && desc / 0x200_0000 % 0x80_0000 * 0x200_0000 == desc % 0x1_0000_0000_0000 - desc
        % 0x200_0000) by (bit_vector);
}

/// The six tables lie one behind the other, and the map links them in that order:
/// level 0 to level 1 to level 2, and from there to the kernel's pages and to the
/// UART's.
pub proof fn law_tables_are_linked(
    t: Tables,
    before: Tables,
    layout: Layout,
    tables_pa: u64,
    i: int,
)
    requires
        0 <= i < 2048,
        crate::arch::aarch64::mmu::built(t, before, layout, tables_pa),
        tables_pa % GRANULE == 0,
        tables_pa + TABLES_LEN <= PA_LIMIT,
        before.l0@.len() == 2048,
        before.l1@.len() == 2048,
    ensures
        t.l0@[0] == tables_pa + 0x4000 + 3,
        t.l1@[0] == tables_pa + 0x8000 + 3,
        t.l2@[32] == tables_pa + 0xC000 + 3,
        t.l2@[4] == tables_pa + 0x1_0000 + 3,
        t.word(i) == t.l0@[i],
        t.word(i + 2048) == t.l1@[i],
        t.word(i + 4096) == t.l2@[i],
        t.word(i + 6144) == t.l3_kernel@[i],
        t.word(i + 8192) == t.l3_mmio@[i],
        t.word(i + 10240) == t.empty_root@[i],
        TABLES_LEN == 6 * 0x4000,
{
    assert(t.l2@[32] == crate::arch::aarch64::mmu::l2_entry(tables_pa, 32, before.l2@[32]));
    assert(t.l2@[4] == crate::arch::aarch64::mmu::l2_entry(tables_pa, 4, before.l2@[4]));
}

/// A CPU has the 16 KiB granule exactly if the field for it, four bits from bit
/// 20 on, is not zero.
pub proof fn law_granule_support(upper: u64, field: u64, lower: u64, mmfr0: u64)
    requires
        upper < 0x100_0000_0000,
        field < 16,
        lower < 0x10_0000,
        mmfr0 == upper * 0x100_0000 + field * 0x10_0000 + lower,
    ensures
        crate::arch::aarch64::mmu::has_granule16(mmfr0) <==> field != 0,
{
    assert((mmfr0 as int / 0x10_0000) % 16 == field);
}

/// The narration of a leaf goes by its bits.
pub proof fn law_narration_goes_by_the_bits(d: u64)
    ensures
        ({
            let words = crate::arch::aarch64::mmu::leaf_words(d);
            let ro = read_only(d) && !el0_access(d);
            &&& device_memory(d) ==> words == "[Device-nGnRnE RW XN AF]"@
            &&& !device_memory(d) && ro && el1_executes(d) ==> words == "[Normal RO +execute AF]"@
            &&& !device_memory(d) && ro && !el1_executes(d) ==> words == "[Normal RO XN AF]"@
            &&& !device_memory(d) && !ro && !el1_executes(d) ==> words == "[Normal RW XN AF]"@
            &&& !device_memory(d) && !ro && el1_executes(d) ==> words
                == "[Normal RW +execute AF \u{2014} should not exist in this kernel]"@
        }),
{
    assert((d as int / 64) % 4 == (d as int / 64) % 2 + 2 * ((d as int / 128) % 2));
}

} // verus!

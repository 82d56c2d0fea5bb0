//! Page tables: building, walking, translating.

use opal::arch::aarch64::mmu::{
    block_desc, can_walk, condemn_low_half, decode_leaf, finish_walk, l0i, l1i, l2i, l3i, opal_build_tables,
    opal_mmu_enable, page_desc, par_status, phys_to_virt, table_desc, translate, virt_to_phys, walk,
    Attr, Layout, Tables, Verdict, Walk, WalkEnd, KERNEL_BASE,
};
use opal::arch::aarch64::space::{build_user_space, UserPas, UserSpace};

const TABLES_PA: u64 = 0x4030_0000;
const MMFR0: u64 = 0x10_0006;

fn layout() -> Layout {
    Layout {
        text_end: 0x4020_8000,
        rodata_end: 0x4021_0000,
        guard_bottom: 0x4032_0000,
        stack_bottom: 0x4032_4000,
        stack_top: 0x4033_4000,
    }
}

fn tables() -> Box<Tables> {
    let mut t = Box::new(Tables::new());
    assert_eq!(opal_build_tables(MMFR0, &layout(), TABLES_PA, &mut t), Some(TABLES_PA));
    t
}

fn look(t: &Tables, va: u64) -> Walk {
    walk(va, condemn_low_half(TABLES_PA), TABLES_PA, t, TABLES_PA)
}

#[test]
fn aliases_go_both_ways() {
    assert_eq!(phys_to_virt(0x4000_0000), 0xFFFF_0000_4000_0000);
    assert_eq!(virt_to_phys(0xFFFF_0000_4000_0000), 0x4000_0000);
    assert_eq!(virt_to_phys(phys_to_virt(0xFFFF_FFFF_FFFF)), 0xFFFF_FFFF_FFFF);
}

#[test]
fn addresses_are_cut_into_indices() {
    assert_eq!((l0i(0x0900_0000), l1i(0x0900_0000)), (0, 0));
    assert_eq!((l2i(0x0900_0000), l3i(0x0900_0000)), (4, 1024));
    assert_eq!((l2i(0x4000_0000), l3i(0x4000_0000)), (32, 0));
    assert_eq!(l0i(KERNEL_BASE), 0);
    assert_eq!(l0i(0x8000_0000_0000), 1);
    assert_eq!(l1i(0x7FFF_FFFF_FFFF), 2047);
}

#[test]
fn descriptors_carry_their_address() {
    assert_eq!(table_desc(0x4030_4000), 0x4030_4003);
    assert_eq!(page_desc(0x4020_0000, Attr::Ro) & 0x0000_FFFF_FFFF_C003, 0x4020_0003);
    assert_eq!(block_desc(0x4200_0000, Attr::Rw) & 0x0000_FFFF_FFFF_C003, 0x4200_0001);
    for a in [Attr::TextRx, Attr::Ro, Attr::Rw, Attr::Device, Attr::UserRx, Attr::UserRw] {
        assert_ne!(a.leaf_bits() & (1 << 10), 0);
    }
}

#[test]
fn a_cpu_without_the_granule_gets_no_tables() {
    let mut t = Box::new(Tables::new());
    assert_eq!(opal_build_tables(0x6, &layout(), TABLES_PA, &mut t), None);
    assert_eq!(t.l0.entries[0], 0);
}

#[test]
fn the_kernel_is_mapped_in_the_high_half() {
    let t = tables();
    let w = look(&t, 0xFFFF_0000_4020_0010);
    assert!(w.high);
    assert_eq!(w.root, TABLES_PA);
    assert_eq!(w.steps.len(), 4);
    assert_eq!(w.end, WalkEnd::Page { base: 0x4020_0000, pa: 0x4020_0010 });
    assert_eq!(decode_leaf(w.steps[3].desc), "[Normal RO +execute AF]");
}

#[test]
fn each_region_has_its_attributes() {
    let t = tables();
    let leaf = |va: u64| {
        let w = look(&t, va);
        decode_leaf(w.steps.last().unwrap().desc)
    };
    assert_eq!(leaf(0xFFFF_0000_4000_0000), "[Normal RO XN AF]");
    assert_eq!(leaf(0xFFFF_0000_4020_8000), "[Normal RO XN AF]");
    assert_eq!(leaf(0xFFFF_0000_4021_0000), "[Normal RW XN AF]");
    assert_eq!(leaf(0xFFFF_0000_4032_4000), "[Normal RW XN AF]");
    assert_eq!(leaf(0xFFFF_0000_4200_0000), "[Normal RW XN AF]");
    assert_eq!(leaf(0xFFFF_0000_0900_0000), "[Device-nGnRnE RW XN AF]");
    assert_eq!(leaf(0xFFFF_0000_6000_0000), "[Device-nGnRnE RW XN AF]");
}

#[test]
fn the_guard_page_faults_at_level_three() {
    let t = tables();
    assert_eq!(look(&t, 0xFFFF_0000_4032_3FF8).end, WalkEnd::Invalid { level: 3 });
}

#[test]
fn the_low_half_faults_at_level_zero() {
    let t = tables();
    let w = look(&t, 0x4020_0000);
    assert!(!w.high);
    assert_eq!(w.end, WalkEnd::Invalid { level: 0 });
    assert_eq!(condemn_low_half(TABLES_PA), TABLES_PA + 5 * 0x4000);
}

#[test]
fn before_the_condemnation_both_halves_agree() {
    let t = tables();
    let lo = walk(0x4020_0010, TABLES_PA, TABLES_PA, &t, TABLES_PA);
    assert_eq!(lo.end, WalkEnd::Page { base: 0x4020_0000, pa: 0x4020_0010 });
    let block = walk(0x4200_1234, TABLES_PA, TABLES_PA, &t, TABLES_PA);
    assert_eq!(block.end, WalkEnd::Block { base: 0x4200_0000, pa: 0x4200_1234 });
}

#[test]
fn strange_addresses_and_descriptors() {
    let mut t = tables();
    assert_eq!(look(&t, 0x1_0000_0000_0000).end, WalkEnd::NonCanonical);
    t.l3_kernel.set(0, 0x4000_0001);
    assert_eq!(look(&t, 0xFFFF_0000_4000_0000).end, WalkEnd::ReservedPage);
    t.l1.set(1, 0x4000_0001);
    assert_eq!(
        look(&t, 0xFFFF_0010_0000_0000).end,
        WalkEnd::ReservedBlock { level: 1 }
    );
    t.l1.set(2, 0x5000_0003);
    assert_eq!(
        look(&t, 0xFFFF_0020_0000_0000).end,
        WalkEnd::Outside { level: 2, table_pa: 0x5000_0000 }
    );
}

#[test]
fn a_root_anywhere_in_the_tables_is_read_there() {
    let mut t = tables();
    // One word into the first table, and into the level-2 table: what lies
    // there is taken as entries 0 and 1.
    t.l0.set(1, 0x4030_4003);
    let w = walk(0x4020_0010, TABLES_PA + 8, 0, &t, TABLES_PA);
    assert_eq!(w.steps[0].desc, 0x4030_4003);
    assert_eq!(w.end, WalkEnd::Page { base: 0x4020_0000, pa: 0x4020_0010 });
    t.l2.set(9, 0x4000_0001);
    let w = walk(0, TABLES_PA + 2 * 0x4000 + 9 * 8, 0, &t, TABLES_PA);
    assert_eq!(w.end, WalkEnd::ReservedBlock { level: 0 });
    // Entry 1 behind the last word of a table is the next table's first.
    t.l1.set(0, 0);
    let w = walk(0x8000_0000_0000, TABLES_PA + 0x3FF8, 0, &t, TABLES_PA);
    assert_eq!((w.steps[0].index, w.steps[0].desc), (1, 0));
    assert_eq!(w.end, WalkEnd::Invalid { level: 0 });
    // One word further on there is no table.
    let end = TABLES_PA + 0x1_8000;
    let w = walk(0, end, 0, &t, TABLES_PA);
    assert_eq!(w.end, WalkEnd::Outside { level: 0, table_pa: end });
}

#[test]
fn only_whole_words_can_be_read() {
    let last = TABLES_PA + 0x1_8000 - 8;
    assert!(can_walk(0, TABLES_PA, 0, TABLES_PA));
    assert!(can_walk(0, TABLES_PA + 8, 0, TABLES_PA));
    assert!(can_walk(0, TABLES_PA + 1, 0, TABLES_PA));
    assert!(!can_walk(0, TABLES_PA + 4, 0, TABLES_PA));
    assert!(can_walk(0, last, 0, TABLES_PA));
    assert!(!can_walk(0x8000_0000_0000, last, 0, TABLES_PA));
    assert!(can_walk(0x8000_0000_0000, last + 8, 0, TABLES_PA));
    assert!(can_walk(0x1_0000_0000_0000, TABLES_PA + 4, TABLES_PA + 4, TABLES_PA));
    assert!(!can_walk(u64::MAX, 0, TABLES_PA + 4, TABLES_PA));
}

#[test]
fn the_hardware_is_asked_and_compared() {
    assert_eq!(translate(0x123, 0x4020_0000), Ok(0x4020_0123));
    assert_eq!(translate(0x123, 0x80F), Err(0x80F));
    assert_eq!(par_status(0x80F), 7);
    assert_eq!(finish_walk(0x123, 0x4020_0123, 0x4020_0000), Verdict::Agrees);
    assert_eq!(
        finish_walk(0x123, 0x1, 0x4020_0000),
        Verdict::Disagrees { hw_pa: 0x4020_0123 }
    );
    assert_eq!(finish_walk(0x123, 0x1, 0x80F), Verdict::Faults { par: 0x80F });
}

#[test]
fn the_output_size_is_clamped() {
    let r = opal_mmu_enable(0x10_0006, TABLES_PA);
    assert_eq!((r.tcr >> 32) & 7, 5);
    let r = opal_mmu_enable(0x10_0001, TABLES_PA);
    assert_eq!((r.tcr >> 32) & 7, 1);
    assert_eq!(r.tcr & 0xFFFF_FFFF, 0x7510_B510);
    assert_eq!((r.ttbr0, r.ttbr1), (TABLES_PA, TABLES_PA));
    assert_eq!(r.sctlr, 0x30D5_199D);
    assert_eq!(r.mair, 0xFF);
}

#[test]
fn a_user_space_is_two_pages() {
    let mut s = Box::new(UserSpace::new());
    let p = UserPas {
        l0: 0x4100_0000,
        l1: 0x4100_4000,
        l2: 0x4100_8000,
        l3: 0x4100_C000,
        code: 0x4101_0000,
        stack: 0x4101_4000,
    };
    assert_eq!(build_user_space(&mut s, &p), 0x4100_0000);
    assert_eq!(s.l0.entries[0], 0x4100_4003);
    assert_eq!(s.l1.entries[0], 0x4100_8003);
    assert_eq!(s.l2.entries[0], 0x4100_C003);
    assert_eq!(s.l3.entries.iter().filter(|e| **e != 0).count(), 2);
    assert_eq!(s.l3.entries[64], page_desc(p.code, Attr::UserRx));
    assert_eq!(s.l3.entries[128], page_desc(p.stack, Attr::UserRw));
    assert_eq!(&s.code[..4], &[0x28, 0x00, 0x80, 0xd2]);
}

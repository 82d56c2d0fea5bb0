//! The device drivers' register arithmetic.

use opal::hal::aic::{event_num, event_type, Aic, AIC_MAX_IRQ};
use opal::hal::gicv2::{GicV2, TIMER_IRQ};
use opal::hal::mmio::MmioOp;
use opal::hal::pl011::{can_transmit, Pl011};
use opal::hal::s5l_uart::{RuntimeS5lUart, S5lUart};

#[test]
fn events_have_a_type_and_a_number() {
    assert_eq!(event_type(0x0001_0005), 1);
    assert_eq!(event_num(0x0001_0005), 5);
    assert_eq!(event_type(0xAB04_FFFF), 4);
    assert_eq!(event_num(0xAB04_FFFF), 0xFFFF);
    assert_eq!(event_type(0), 0);
}

#[test]
fn a_new_controller_knows_no_interrupts() {
    let a = Aic::new(0x1000);
    assert_eq!(a.base(), 0x1000);
    assert_eq!(a.cached_nr_irq(), 0);
    assert_eq!(Aic::nr_irq(0xFFFF_0380), 0x380);
    assert_eq!(AIC_MAX_IRQ, 1024);
}

#[test]
fn bringing_the_controller_online_masks_clears_and_targets() {
    let mut a = Aic::new(0x1_0000);
    let ops = a.init(40);
    assert_eq!(a.cached_nr_irq(), 40);
    // 40 interrupts: two banks; arrays start at 0x3000 + 160.
    let sw_clr = 0x1_0000 + 0x3000 + 160 + 8;
    let mask_set = sw_clr + 8;
    assert_eq!(ops.len(), 2 + 2 + 40);
    assert_eq!(ops[0], MmioOp::Write32 { addr: mask_set, val: 0xFFFF_FFFF });
    assert_eq!(ops[1], MmioOp::Write32 { addr: mask_set + 4, val: 0xFFFF_FFFF });
    assert_eq!(ops[2], MmioOp::Write32 { addr: sw_clr, val: 0xFFFF_FFFF });
    assert_eq!(ops[3], MmioOp::Write32 { addr: sw_clr + 4, val: 0xFFFF_FFFF });
    assert_eq!(ops[4], MmioOp::Write32 { addr: 0x1_3000, val: 1 });
    assert_eq!(ops[43], MmioOp::Write32 { addr: 0x1_3000 + 39 * 4, val: 1 });
}

#[test]
fn masking_touches_one_bit_of_one_bank() {
    let mut a = Aic::new(0);
    a.init(896);
    // 896 interrupts: 28 banks.
    let arrays = 0x3000 + 896 * 4;
    assert_eq!(
        a.mask_irq(33),
        MmioOp::Write32 { addr: arrays + 28 * 4 * 2 + 4, val: 2 }
    );
    assert_eq!(
        a.unmask_irq(33),
        MmioOp::Write32 { addr: arrays + 28 * 4 * 3 + 4, val: 2 }
    );
    assert_eq!(
        a.unmask_irq(31),
        MmioOp::Write32 { addr: arrays + 28 * 4 * 3, val: 0x8000_0000 }
    );
}

#[test]
fn any_interrupt_number_can_be_masked() {
    let mut a = Aic::new(0);
    a.init(32);
    // 32 interrupts: one bank. The number is not held against the count.
    assert_eq!(
        a.mask_irq(u32::MAX),
        MmioOp::Write32 { addr: 0x3000 + 128 + 8 + 0x1FFF_FFFC, val: 0x8000_0000 }
    );
    assert_eq!(
        a.unmask_irq(0x1_0000),
        MmioOp::Write32 { addr: 0x3000 + 128 + 12 + 0x2000, val: 1 }
    );
}

#[test]
fn only_bringing_it_online_changes_the_interrupt_count() {
    let mut a = Aic::new(0x1000);
    a.mask_irq(3);
    a.unmask_irq(4);
    a.event();
    assert_eq!(a.cached_nr_irq(), 0);
    a.init(0xABCD_0380);
    assert_eq!(a.cached_nr_irq(), 0x380);
    a.mask_irq(3);
    a.unmask_irq(4);
    a.event();
    assert_eq!(a.cached_nr_irq(), 0x380);
    a.init(64);
    assert_eq!(a.cached_nr_irq(), 64);
}

#[test]
fn controller_registers_are_at_their_offsets() {
    let a = Aic::new(0x100);
    assert_eq!((a.event(), a.whoami(), a.config()), (0x2104, 0x2100, 0x110));
}

#[test]
fn a_full_fifo_takes_no_byte() {
    assert!(can_transmit(0));
    assert!(can_transmit(0xFFFF_FFDF));
    assert!(!can_transmit(0x20));
}

#[test]
fn the_gic_comes_online_in_order() {
    let g = GicV2::new(0x0800_0000, 0x0801_0000);
    assert_eq!(
        g.init(),
        vec![
            MmioOp::Write32 { addr: 0x0800_0000, val: 1 },
            MmioOp::Update32 { addr: 0x0800_0080, keep: !(1 << 27), set: 0 },
            MmioOp::Write8 { addr: 0x0800_0400 + 27, byte: 0x80 },
            MmioOp::Write8 { addr: 0x0800_0800 + 27, byte: 0x01 },
            MmioOp::Update32 { addr: 0x0800_0C04, keep: u32::MAX, set: 0b10 << 22 },
            MmioOp::Write32 { addr: 0x0800_0100, val: 1 << 27 },
            MmioOp::Write32 { addr: 0x0801_0004, val: 0xFF },
            MmioOp::Write32 { addr: 0x0801_0008, val: 0 },
            MmioOp::Write32 { addr: 0x0801_0000, val: 1 },
        ]
    );
}

#[test]
fn gic_interrupts_are_enabled_acknowledged_and_ended() {
    let g = GicV2::new(0x1000, 0x2000);
    assert_eq!(g.enable_irq(TIMER_IRQ), MmioOp::Write32 { addr: 0x1100, val: 1 << 27 });
    assert_eq!(g.enable_irq(33), MmioOp::Write32 { addr: 0x1104, val: 2 });
    assert_eq!(g.disable_irq(33), MmioOp::Write32 { addr: 0x1184, val: 2 });
    assert_eq!(g.acknowledge(), 0x200C);
    assert_eq!(g.end_interrupt(27), MmioOp::Write32 { addr: 0x2010, val: 27 });
    assert_eq!(g.typer(), 0x1004);
}

#[test]
fn the_pl011_waits_for_room_and_for_data() {
    let u = Pl011::<0x0900_0000>::new();
    assert_eq!(u.flags(), 0x0900_0018);
    assert_eq!(u.write_byte(1 << 5, b'x'), None);
    assert_eq!(
        u.write_byte(!(1 << 5), b'x'),
        Some(MmioOp::Write32 { addr: 0x0900_0000, val: 0x78 })
    );
    assert_eq!(u.try_read_byte(1 << 4), None);
    assert_eq!(u.try_read_byte(0), Some(0x0900_0000));
    assert_eq!(u.read_byte(0xF41), 0x41);
    assert_eq!(u.write_str("a\nb"), b"a\r\nb".to_vec());
}

#[test]
fn the_s5l_uart_waits_for_room_and_for_data() {
    let u = S5lUart::<0x1000>::new();
    assert_eq!(u.status(), 0x1010);
    assert_eq!(u.write_byte(0b01, b'x'), None);
    assert_eq!(u.write_byte(0b10, b'x'), Some(MmioOp::Write8 { addr: 0x1020, byte: b'x' }));
    assert_eq!(u.try_read_byte(0b10), None);
    assert_eq!(u.try_read_byte(0b01), Some(0x1024));
    assert_eq!(u.write_str("\n"), b"\r\n".to_vec());
}

#[test]
fn a_runtime_uart_is_configured_later() {
    let mut u = RuntimeS5lUart::unconfigured();
    assert_eq!(u.base(), 0);
    u.set_base(0x4000);
    assert_eq!(u, RuntimeS5lUart::new(0x4000));
    assert_eq!(u.status(), 0x4010);
    assert_eq!(u.write_byte(2, 7), Some(MmioOp::Write8 { addr: 0x4020, byte: 7 }));
    assert_eq!(u.write_byte(0, 7), None);
    assert_eq!(u.try_read_byte(1), Some(0x4024));
    assert_eq!(u.try_read_byte(0), None);
    assert_eq!(u.write_str("ok\n"), b"ok\r\n".to_vec());
}

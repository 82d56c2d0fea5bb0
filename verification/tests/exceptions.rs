//! Exception decoding and routing.

use opal::arch::aarch64::current_el;
use opal::arch::aarch64::timer::{arm, on_tick, rearm, start_ticking, ticks, Timer, TimerRegs};
use opal::arch::aarch64::user::kill_task_on_fault;
use opal::arch::aarch64::vectors::{
    exception_dispatch, fault_status, handle_fiq, handle_irq, handle_sync, kill_task_from_el0,
    walk_level, Cause, FiqVerdict, IrqVerdict, Kind, Route, Source, SyncVerdict, TrapFrame,
};
use opal::console::{oops_exit, Oops};
use opal::sched::{spawn, Kernel, TaskState};

fn frame(esr: u64) -> TrapFrame {
    let mut f = TrapFrame::empty();
    f.esr = esr;
    f.elr = 0x1000;
    f.far = 0xBAD0;
    f.x[8] = 7;
    f
}

fn decode(esr: u64) -> SyncVerdict {
    let mut f = frame(esr);
    let v = handle_sync(&mut f);
    if !matches!(v.cause, Cause::Brk { .. }) {
        assert_eq!(f.elr, 0x1000);
    }
    v
}

#[test]
fn a_breakpoint_is_stepped_over() {
    let mut f = frame(0xF200_F00D);
    let v = handle_sync(&mut f);
    assert_eq!(v, SyncVerdict { cause: Cause::Brk { imm: 0xF00D }, recovered: true });
    assert_eq!(f.elr, 0x1004);
    assert_eq!(f.x[8], 7);
}

#[test]
fn a_breakpoint_at_the_end_of_memory_wraps() {
    let mut f = frame(0xF200_0000);
    f.elr = 0xFFFF_FFFF_FFFF_FFFC;
    handle_sync(&mut f);
    assert_eq!(f.elr, 0);
}

#[test]
fn a_supervisor_call_resumes_where_it_stands() {
    assert_eq!(
        decode((0x15 << 26) | 0x42),
        SyncVerdict { cause: Cause::Svc { imm: 0x42, nr: 7 }, recovered: true }
    );
}

#[test]
fn a_data_abort_is_fatal_and_says_where() {
    assert_eq!(
        decode((0x25 << 26) | (1 << 6) | 0x07),
        SyncVerdict {
            cause: Cause::DataAbort { write: true, addr: Some(0xBAD0), status: 7 },
            recovered: false
        }
    );
    assert_eq!(
        decode((0x25 << 26) | (1 << 10) | 0x10).cause,
        Cause::DataAbort { write: false, addr: None, status: 0x10 }
    );
}

#[test]
fn every_other_class_is_fatal() {
    let cases = [
        (0x21 << 26 | 0x0F, Cause::InstructionAbort { at: 0xBAD0, status: 0x0F }),
        (0x22 << 26, Cause::PcAlignment { at: 0xBAD0 }),
        (0x26 << 26, Cause::SpAlignment),
        (0, Cause::UnknownReason),
        (0x07 << 26 | 0x1234, Cause::OtherClass { ec: 7, iss: 0x1234 }),
        (0x24 << 26, Cause::OtherClass { ec: 0x24, iss: 0 }),
    ];
    for (esr, cause) in cases {
        assert_eq!(decode(esr), SyncVerdict { cause, recovered: false });
    }
}

#[test]
fn fault_statuses_have_words() {
    assert!(fault_status(0x04).starts_with("translation fault"));
    assert!(fault_status(0x07).starts_with("translation fault"));
    assert!(fault_status(0x08).starts_with("access-flag fault"));
    assert!(fault_status(0x0F).starts_with("permission fault"));
    assert!(fault_status(0x10).contains("the bus said no"));
    assert_eq!(fault_status(0x14), "synchronous external abort during a page-table walk");
    assert!(fault_status(0x21).starts_with("alignment fault"));
    assert!(fault_status(0x3F).starts_with("a fault status this kernel does not decode"));
    assert!(fault_status(0x03).starts_with("a fault status this kernel does not decode"));
}

#[test]
fn walk_failures_name_their_level() {
    assert_eq!(walk_level(0x04), Some(0));
    assert_eq!(walk_level(0x07), Some(3));
    assert_eq!(walk_level(0x0E), Some(2));
    assert_eq!(walk_level(0x10), None);
    assert_eq!(walk_level(0x03), None);
}

#[test]
fn kinds_and_sources_have_names() {
    let kinds: Vec<&str> = (0..5).map(|v| Kind::from_raw(v).name()).collect();
    assert_eq!(kinds, vec!["synchronous", "IRQ", "FIQ", "SError", "SError"]);
    let sources: Vec<&str> = (0..4).map(|v| Source::from_raw(v).name()).collect();
    assert_eq!(
        sources,
        vec![
            "current EL on SP_EL0",
            "current EL on SP_ELx",
            "a lower EL (AArch64)",
            "a lower EL (AArch32)"
        ]
    );
    assert_eq!(Source::CurrentSpElx.sp_note(), "");
    assert!(Source::CurrentSpEl0.sp_note().contains("SP_EL0"));
    assert!(Source::LowerAArch64.sp_note().contains("lower EL"));
}

#[test]
fn sixteen_slots_are_routed() {
    let sync = [
        Route::Fatal(Cause::ImpossibleContext),
        Route::KernelSync,
        Route::UserSync,
        Route::Fatal(Cause::ImpossibleContext),
    ];
    let irq = [
        Route::Fatal(Cause::ImpossibleContext),
        Route::Irq,
        Route::Irq,
        Route::Fatal(Cause::ImpossibleContext),
    ];
    let fiq = [
        Route::Fatal(Cause::ImpossibleContext),
        Route::Fiq,
        Route::Fiq,
        Route::Fatal(Cause::ImpossibleContext),
    ];
    let serror = [
        Route::Fatal(Cause::ImpossibleContext),
        Route::Fatal(Cause::SError),
        Route::Fatal(Cause::SErrorFromEl0),
        Route::Fatal(Cause::ImpossibleContext),
    ];
    for (kind, row) in [sync, irq, fiq, serror].iter().enumerate() {
        for (source, want) in row.iter().enumerate() {
            let mut o = Oops::new();
            assert_eq!(exception_dispatch(&mut o, kind as u64, source as u64), *want);
            assert!(o.active);
        }
    }
}

#[test]
fn a_fault_inside_a_report_is_nested() {
    let mut o = Oops::new();
    assert_eq!(exception_dispatch(&mut o, 0, 1), Route::KernelSync);
    assert_eq!(exception_dispatch(&mut o, 0, 1), Route::Nested);
    oops_exit(&mut o);
    assert_eq!(exception_dispatch(&mut o, 0, 1), Route::KernelSync);
}

#[test]
fn the_timer_interrupt_ticks_and_rearms() {
    let mut k = Kernel::new();
    k.timer.period = 100;
    let mut f = frame(0);
    let v = handle_irq(&mut k, &mut f, 27, 1000);
    assert_eq!(v, IrqVerdict {
            rearm: Some(TimerRegs { cval: 1100, ctl: None }),
            unknown: false,
            eoi: true,
        });
    assert_eq!(k.timer.ticks, 1);
    k.timer.period = 0;
    let v = handle_irq(&mut k, &mut f, 27, 1000);
    assert_eq!(v, IrqVerdict { rearm: None, unknown: false, eoi: true });
    assert_eq!(k.timer.ticks, 2);
}

#[test]
fn the_tick_counter_wraps() {
    let mut k = Kernel::new();
    k.timer.ticks = u64::MAX;
    handle_irq(&mut k, &mut frame(0), 27, 0);
    assert_eq!(k.timer.ticks, 0);
}

#[test]
fn other_interrupts_are_ended_too() {
    let mut k = Kernel::new();
    let mut f = frame(0);
    assert_eq!(
        handle_irq(&mut k, &mut f, 33, u64::MAX),
        IrqVerdict { rearm: None, unknown: true, eoi: true }
    );
    assert_eq!(
        handle_irq(&mut k, &mut f, 1020, u64::MAX),
        IrqVerdict { rearm: None, unknown: false, eoi: true }
    );
    assert_eq!(
        handle_irq(&mut k, &mut f, 1023, u64::MAX),
        IrqVerdict { rearm: None, unknown: false, eoi: false }
    );
    assert_eq!(k.timer.ticks, 0);
}

#[test]
fn an_fiq_is_the_timer_or_an_event() {
    let mut k = Kernel::new();
    k.timer.period = 5;
    let mut f = frame(0);
    assert_eq!(
        handle_fiq(&mut k, &mut f, true, 70, None),
        FiqVerdict {
            rearm: Some(TimerRegs { cval: 75, ctl: None }),
            report: None,
            unmask: None,
        }
    );
    assert_eq!(k.timer.ticks, 1);
    let report = |ev: Option<u32>| {
        let mut k = Kernel::new();
        let v = handle_fiq(&mut k, &mut frame(0), false, 0, ev);
        assert_eq!(v.rearm, None);
        assert_eq!(k.timer.ticks, 0);
        (v.report.unwrap(), v.unmask)
    };
    assert_eq!(report(None), (Cause::SpuriousFiq, None));
    assert_eq!(report(Some(0)), (Cause::SpuriousFiq, None));
    assert_eq!(report(Some(0x1_0005)), (Cause::AicIrq { num: 5 }, Some(5)));
    assert_eq!(report(Some(0x4_0001)), (Cause::AicIpi { num: 1 }, None));
    assert_eq!(report(Some(0x0_0009)), (Cause::AicFiq { num: 9 }, None));
    assert_eq!(
        report(Some(0x7_0009)),
        (Cause::AicOther { event: 0x7_0009, ty: 7, num: 9 }, None)
    );
}

#[test]
fn a_tick_does_not_preempt_unless_asked() {
    let mut k = Kernel::new();
    spawn(&mut k, b"a", 0x1000, 0, 0x10, 0x20);
    spawn(&mut k, b"b", 0x2000, 0, 0x30, 0x40);
    k.scheduler.dequeue();
    k.tasks[1].state = TaskState::Running;
    k.current = 1;
    let mut f = frame(0);
    handle_irq(&mut k, &mut f, 27, 1000);
    assert_eq!(k.current, 1);
    assert_eq!(f.elr, 0x1000);
    k.preempt = true;
    handle_irq(&mut k, &mut f, 27, 1000);
    assert_eq!(k.current, 2);
    assert_eq!((f.elr, f.sp), (0x30, 0x40));
    assert_eq!(k.tasks[1].saved.elr, 0x1000);
    assert_eq!(k.preempts, 1);
    assert_eq!(k.user_root, Some(0x2000));
}

#[test]
fn a_tick_with_nobody_waiting_resumes() {
    let mut k = Kernel::new();
    spawn(&mut k, b"a", 0x1000, 0, 0x10, 0x20);
    k.scheduler.dequeue();
    k.tasks[1].state = TaskState::Running;
    k.current = 1;
    k.preempt = true;
    let mut f = frame(0);
    handle_irq(&mut k, &mut f, 27, 1000);
    assert_eq!((k.current, k.preempts, f.elr), (1, 0, 0x1000));
    assert_eq!(k.tasks[1].state, TaskState::Running);
}

#[test]
fn the_last_task_killed_returns_to_the_monitor() {
    let mut k = Kernel::new();
    spawn(&mut k, b"a", 0x1000, 0, 0x10, 0x20);
    k.scheduler.dequeue();
    k.tasks[1].state = TaskState::Running;
    k.current = 1;
    k.preempt = true;
    k.user_root = Some(0x1000);
    assert!(!kill_task_from_el0(&mut k, &mut frame(0)));
    assert!(!k.preempt);
    assert_eq!(k.user_root, None);
    assert_eq!(k.tasks[1].state, TaskState::Exited);
}

#[test]
fn tearing_down_drops_the_user_half() {
    let mut k = Kernel::new();
    k.preempt = true;
    k.user_root = Some(0x1000);
    kill_task_on_fault(&mut k);
    assert!(!k.preempt);
    assert_eq!(k.user_root, None);
}

#[test]
fn timer_compare_values_are_absolute() {
    assert_eq!(arm(1000, 50), TimerRegs { cval: 1050, ctl: Some(1) });
    assert_eq!(rearm(1000, 50), TimerRegs { cval: 1050, ctl: None });
    let mut t = Timer::new();
    assert_eq!(start_ticking(&mut t, 10, 5), TimerRegs { cval: 15, ctl: Some(1) });
    assert_eq!((t.period, t.ticks), (5, 0));
}

#[test]
fn a_tick_counts_and_programs_the_next_period() {
    let mut t = Timer::new();
    assert_eq!(on_tick(&mut t, u64::MAX), None);
    assert_eq!(ticks(&t), 1);
    t.period = 625;
    assert_eq!(on_tick(&mut t, 5000), Some(TimerRegs { cval: 5625, ctl: None }));
    assert_eq!((t.ticks, t.period), (2, 625));
}

#[test]
fn the_exception_level_is_two_bits() {
    assert_eq!(current_el(0x4), 1);
    assert_eq!(current_el(0x8), 2);
    assert_eq!(current_el(0xFFFF_FFF3), 0);
}

//! Exceptions: the trap frame and what the kernel decides about each one.

use crate::arch::aarch64::timer::{on_tick, Timer, TimerRegs};
use crate::arch::aarch64::user::{handle_svc_from_el0, SvcAction};
use crate::console::{oops_enter, Oops};
use crate::hal::aic::{event_num, event_type, EVENT_TYPE_FIQ, EVENT_TYPE_IPI, EVENT_TYPE_IRQ};
use crate::hal::gicv2::TIMER_IRQ;
use crate::sched::{
    bump_preempts, current_tid, kill_current_task, preempt_enabled, preempt_off, save_and_switch,
    wake_sleepers, Kernel, KernelView,
};
use vstd::prelude::*;

verus! {

/// Everything the vector stub saves when an exception is taken: the general
/// registers, the interrupted stack pointer, and the four system registers
/// that say where, in what state and why.
#[derive(Clone, Copy)]
pub struct TrapFrame {
    /// x0..x30.
    pub x: [u64; 31],
    /// The interrupted context's stack pointer.
    pub sp: u64,
    /// ELR_EL1: where `eret` resumes.
    pub elr: u64,
    /// SPSR_EL1: the processor state `eret` restores.
    pub spsr: u64,
    /// ESR_EL1: the syndrome.
    pub esr: u64,
    /// FAR_EL1: the faulting address.
    pub far: u64,
}

/// A trap frame as a mathematical value.
#[verifier::ext_equal]
pub struct FrameView {
    pub x: Seq<u64>,
    pub sp: u64,
    pub elr: u64,
    pub spsr: u64,
    pub esr: u64,
    pub far: u64,
}

impl View for TrapFrame {
    type V = FrameView;

    open spec fn view(&self) -> FrameView {
        FrameView {
            x: self.x@,
            sp: self.sp,
            elr: self.elr,
            spsr: self.spsr,
            esr: self.esr,
            far: self.far,
        }
    }
}

impl FrameView {
    /// The frame with every register zero.
    pub open spec fn zero() -> FrameView {
        FrameView { x: Seq::new(31, |i: int| 0u64), sp: 0, elr: 0, spsr: 0, esr: 0, far: 0 }
    }

    /// The same frame with general register `i` holding `v`.
    pub open spec fn with_x(self, i: int, v: u64) -> FrameView {
        FrameView { x: self.x.update(i, v), ..self }
    }
}

impl TrapFrame {
    /// A zeroed trap frame: the starting context of a new task.
    pub fn empty() -> (f: TrapFrame)
        ensures
            f@ == FrameView::zero(),
    {
        TrapFrame { x: [0; 31], sp: 0, elr: 0, spsr: 0, esr: 0, far: 0 }
    }
}

/// The four kinds of exception, in the order the vector slots number them.
#[derive(Clone, Copy, PartialEq, Eq, Structural, Debug)]
pub enum Kind {
    Synchronous,
    Irq,
    Fiq,
    SError,
}

impl Kind {
    pub open spec fn of(v: u64) -> Kind {
        if v == 0 {
            Kind::Synchronous
        } else if v == 1 {
            Kind::Irq
        } else if v == 2 {
            Kind::Fiq
        } else {
            Kind::SError
        }
    }

    /// The kind a vector slot names.
    pub fn from_raw(v: u64) -> (k: Kind)
        ensures
            k == Kind::of(v),
    {
        match v {
            0 => Kind::Synchronous,
            1 => Kind::Irq,
            2 => Kind::Fiq,
            _ => Kind::SError,
        }
    }

    pub fn name(self) -> (s: &'static str)
        ensures
            s@ == (match self {
                Kind::Synchronous => "synchronous"@,
                Kind::Irq => "IRQ"@,
                Kind::Fiq => "FIQ"@,
                Kind::SError => "SError"@,
            }),
    {
        match self {
            Kind::Synchronous => "synchronous",
            Kind::Irq => "IRQ",
            Kind::Fiq => "FIQ",
            Kind::SError => "SError",
        }
    }
}

/// The four origins of an exception, in the order the vector slots number them.
#[derive(Clone, Copy, PartialEq, Eq, Structural, Debug)]
pub enum Source {
    CurrentSpEl0,
    CurrentSpElx,
    LowerAArch64,
    LowerAArch32,
}

impl Source {
    pub open spec fn of(v: u64) -> Source {
        if v == 0 {
            Source::CurrentSpEl0
        } else if v == 1 {
            Source::CurrentSpElx
        } else if v == 2 {
            Source::LowerAArch64
        } else {
            Source::LowerAArch32
        }
    }

    /// The origin a vector slot names.
    pub fn from_raw(v: u64) -> (s: Source)
        ensures
            s == Source::of(v),
    {
        match v {
            0 => Source::CurrentSpEl0,
            1 => Source::CurrentSpElx,
            2 => Source::LowerAArch64,
            _ => Source::LowerAArch32,
        }
    }

    pub fn name(self) -> (s: &'static str)
        ensures
            s@ == (match self {
                Source::CurrentSpEl0 => "current EL on SP_EL0"@,
                Source::CurrentSpElx => "current EL on SP_ELx"@,
                Source::LowerAArch64 => "a lower EL (AArch64)"@,
                Source::LowerAArch32 => "a lower EL (AArch32)"@,
            }),
    {
        match self {
            Source::CurrentSpEl0 => "current EL on SP_EL0",
            Source::CurrentSpElx => "current EL on SP_ELx",
            Source::LowerAArch64 => "a lower EL (AArch64)",
            Source::LowerAArch32 => "a lower EL (AArch32)",
        }
    }

    /// What a report adds behind the frame's stack pointer, which is the
    /// interrupted context's own only if that ran on SP_ELx.
    pub fn sp_note(self) -> (s: &'static str)
        ensures
            s@ == (match self {
                Source::CurrentSpElx => ""@,
                Source::CurrentSpEl0 =>
                    "  (handler stack — interrupted context ran on SP_EL0)"@,
                _ => "  (handler stack — interrupted context ran at a lower EL)"@,
            }),
    {
        match self {
            Source::CurrentSpElx => "",
            Source::CurrentSpEl0 => "  (handler stack — interrupted context ran on SP_EL0)",
            _ => "  (handler stack — interrupted context ran at a lower EL)",
        }
    }
}

/// Exception class: undefined or disabled instruction.
pub const EC_UNKNOWN: u64 = 0x00;

/// Exception class: `svc`.
pub const EC_SVC64: u64 = 0x15;

/// Exception class: instruction abort from EL0.
pub const EC_IABT_LOWER_EL: u64 = 0x20;

/// Exception class: instruction abort in the kernel.
pub const EC_IABT_SAME_EL: u64 = 0x21;

/// Exception class: PC alignment fault.
pub const EC_PC_ALIGN: u64 = 0x22;

/// Exception class: data abort from EL0.
pub const EC_DABT_LOWER_EL: u64 = 0x24;

/// Exception class: data abort in the kernel.
pub const EC_DABT_SAME_EL: u64 = 0x25;

/// Exception class: SP alignment fault.
pub const EC_SP_ALIGN: u64 = 0x26;

/// Exception class: `brk`.
pub const EC_BRK64: u64 = 0x3c;

/// ESR_EL1 bits [31:26]: the exception class.
pub open spec fn class_of(esr: u64) -> u64 {
    (esr / 0x400_0000) % 0x40
}

/// ESR_EL1 bits [24:0]: the syndrome within the class.
pub open spec fn iss_of(esr: u64) -> u64 {
    esr % 0x200_0000
}

/// Why an exception was taken.
#[derive(Clone, Copy, PartialEq, Eq, Structural, Debug)]
pub enum Cause {
    /// A software breakpoint.
    Brk { imm: u64 },
    /// A supervisor call, with this in x8.
    Svc { imm: u64, nr: u64 },
    /// A load or store failed; `addr` is None if the CPU does not say where.
    DataAbort { write: bool, addr: Option<u64>, status: u64 },
    /// Fetching an instruction failed.
    InstructionAbort { at: u64, status: u64 },
    /// A branch to a misaligned address.
    PcAlignment { at: u64 },
    /// A misaligned stack pointer was used.
    SpAlignment,
    /// Usually an undefined or disabled instruction.
    UnknownReason,
    /// A class that is not decoded.
    OtherClass { ec: u64, iss: u64 },
    /// An asynchronous external abort.
    SError,
    /// An asynchronous external abort while EL0 ran.
    SErrorFromEl0,
    /// A vector slot of a context that does not exist.
    ImpossibleContext,
    /// A load or store at EL0 failed.
    UserDataAbort { write: bool, at: u64, status: u64 },
    /// Fetching an instruction at EL0 failed.
    UserInstructionAbort { at: u64, status: u64 },
    /// Anything else that went wrong at EL0.
    UserOther { ec: u64, iss: u64 },
    /// A device interrupt nobody handles.
    AicIrq { num: u32 },
    /// An inter-processor interrupt nobody handles.
    AicIpi { num: u32 },
    /// An FIQ-type event nobody handles.
    AicFiq { num: u32 },
    /// An event of an unknown type.
    AicOther { event: u32, ty: u32, num: u32 },
    /// An FIQ with no visible source.
    SpuriousFiq,
}

/// Where an exception goes.
#[derive(Clone, Copy, PartialEq, Eq, Structural, Debug)]
pub enum Route {
    /// An exception inside an exception report: say so and stop.
    Nested,
    /// `handle_sync`.
    KernelSync,
    /// `handle_sync_from_el0`.
    UserSync,
    /// `handle_irq`.
    Irq,
    /// `handle_fiq`.
    Fiq,
    /// Report and stop.
    Fatal(Cause),
}

/// Where an exception of a given kind and origin goes.
pub open spec fn route(kind: Kind, source: Source) -> Route {
    match (kind, source) {
        (Kind::Synchronous, Source::CurrentSpElx) => Route::KernelSync,
        (Kind::Synchronous, Source::LowerAArch64) => Route::UserSync,
        (Kind::Irq, Source::CurrentSpElx) => Route::Irq,
        (Kind::Irq, Source::LowerAArch64) => Route::Irq,
        (Kind::Fiq, Source::CurrentSpElx) => Route::Fiq,
        (Kind::Fiq, Source::LowerAArch64) => Route::Fiq,
        (Kind::SError, Source::CurrentSpElx) => Route::Fatal(Cause::SError),
        (Kind::SError, Source::LowerAArch64) => Route::Fatal(Cause::SErrorFromEl0),
        _ => Route::Fatal(Cause::ImpossibleContext),
    }
}

/// Decide where the exception of vector slot (`kind`, `source`) goes. Every
/// exception enters emergency-print mode; one that finds it entered already is
/// nested. A handler that returns is followed by leaving that mode.
pub fn exception_dispatch(oops: &mut Oops, kind: u64, source: u64) -> (r: Route)
    ensures
        final(oops).active,
        r == (if old(oops).active {
            Route::Nested
        } else {
            route(Kind::of(kind), Source::of(source))
        }),
{
    if oops_enter(oops) {
        return Route::Nested;
    }
    match (Kind::from_raw(kind), Source::from_raw(source)) {
        (Kind::Synchronous, Source::CurrentSpElx) => Route::KernelSync,
        (Kind::Irq, Source::CurrentSpElx) => Route::Irq,
        (Kind::Fiq, Source::CurrentSpElx) => Route::Fiq,
        (Kind::SError, Source::CurrentSpElx) => Route::Fatal(Cause::SError),
        (Kind::Synchronous, Source::LowerAArch64) => Route::UserSync,
        (Kind::Irq, Source::LowerAArch64) => Route::Irq,
        (Kind::Fiq, Source::LowerAArch64) => Route::Fiq,
        (Kind::SError, Source::LowerAArch64) => Route::Fatal(Cause::SErrorFromEl0),
        _ => Route::Fatal(Cause::ImpossibleContext),
    }
}

/// Bit `n` of the syndrome.
pub open spec fn esr_bit(esr: u64, weight: u64) -> bool {
    (esr / weight) % 2 == 1
}

/// Why the kernel itself took a synchronous exception.
pub open spec fn sync_cause(f: FrameView) -> Cause {
    let ec = class_of(f.esr);
    let iss = iss_of(f.esr);
    let status = f.esr % 0x40;
    if ec == EC_BRK64 {
        Cause::Brk { imm: f.esr % 0x1_0000 }
    } else if ec == EC_SVC64 {
        Cause::Svc { imm: f.esr % 0x1_0000, nr: f.x[8] }
    } else if ec == EC_DABT_SAME_EL {
        Cause::DataAbort {
            write: esr_bit(f.esr, 0x40),
            addr: if esr_bit(f.esr, 0x400) {
                None
            } else {
                Some(f.far)
            },
            status,
        }
    } else if ec == EC_IABT_SAME_EL {
        Cause::InstructionAbort { at: f.far, status }
    } else if ec == EC_PC_ALIGN {
        Cause::PcAlignment { at: f.far }
    } else if ec == EC_SP_ALIGN {
        Cause::SpAlignment
    } else if ec == EC_UNKNOWN {
        Cause::UnknownReason
    } else {
        Cause::OtherClass { ec, iss }
    }
}

/// The kernel survives its own breakpoints and supervisor calls, and nothing
/// else.
pub open spec fn recovers(c: Cause) -> bool {
    c is Brk || c is Svc
}

/// The address of the instruction after `a`, in a 64-bit address space.
pub open spec fn next_insn(a: u64) -> u64 {
    ((a + 4) % 0x1_0000_0000_0000_0000) as u64
}

/// The frame a recovered exception resumes from: a breakpoint's return address
/// is the `brk` itself and must be stepped over, a supervisor call's is not.
pub open spec fn recovered(f: FrameView) -> FrameView {
    if sync_cause(f) is Brk {
        FrameView { elr: next_insn(f.elr), ..f }
    } else {
        f
    }
}

/// The exception class of a syndrome.
pub fn exception_class(esr: u64) -> (ec: u64)
    ensures
        ec == class_of(esr),
{
    assert((esr >> 26) & 0x3f == (esr / 0x400_0000) % 0x40) by (bit_vector);
    (esr >> 26) & 0x3f
}

fn iss(esr: u64) -> (v: u64)
    ensures
        v == iss_of(esr),
        v % 0x40 == esr % 0x40,
        v % 0x1_0000 == esr % 0x1_0000,
{
    assert(esr & 0x01ff_ffff == esr % 0x200_0000) by (bit_vector);
    assert((esr % 0x200_0000) % 0x40 == esr % 0x40) by (bit_vector);
    assert((esr % 0x200_0000) % 0x1_0000 == esr % 0x1_0000) by (bit_vector);
    esr & 0x01ff_ffff
}

/// What to report about a synchronous exception of the kernel's own, and
/// whether it is survived.
#[derive(Clone, Copy, PartialEq, Eq, Structural, Debug)]
pub struct SyncVerdict {
    pub cause: Cause,
    pub recovered: bool,
}

/// Handle a synchronous exception of the kernel's own.
pub fn handle_sync(frame: &mut TrapFrame) -> (v: SyncVerdict)
    ensures
        v.cause == sync_cause(old(frame)@),
        v.recovered == recovers(v.cause),
        final(frame)@ == recovered(old(frame)@),
{
    let esr: u64 = frame.esr;
    let ec: u64 = exception_class(esr);
    let iss: u64 = iss(esr);
    let cause: Cause = if ec == EC_BRK64 {
        frame.elr = frame.elr.wrapping_add(4);
        Cause::Brk { imm: iss % 0x1_0000 }
    } else if ec == EC_SVC64 {
        Cause::Svc { imm: iss % 0x1_0000, nr: frame.x[8] }
    } else if ec == EC_DABT_SAME_EL {
        Cause::DataAbort {
            write: (esr / 0x40) % 2 == 1,
            addr: if (esr / 0x400) % 2 == 1 {
                None
            } else {
                Some(frame.far)
            },
            status: iss % 0x40,
        }
    } else if ec == EC_IABT_SAME_EL {
        Cause::InstructionAbort { at: frame.far, status: iss % 0x40 }
    } else if ec == EC_PC_ALIGN {
        Cause::PcAlignment { at: frame.far }
    } else if ec == EC_SP_ALIGN {
        Cause::SpAlignment
    } else if ec == EC_UNKNOWN {
        Cause::UnknownReason
    } else {
        Cause::OtherClass { ec, iss }
    };
    let recovered: bool = match cause {
        Cause::Brk { .. } => true,
        Cause::Svc { .. } => true,
        _ => false,
    };
    SyncVerdict { cause, recovered }
}

/// A fault-status code in words.
pub open spec fn status_text(fsc: u64) -> Seq<char> {
    if 0x04 <= fsc <= 0x07 {
        "translation fault — the walk hit an INVALID descriptor: nothing is mapped at this address"@
    } else if 0x08 <= fsc <= 0x0b {
        "access-flag fault — a mapping with AF=0. mmu.rs's constructors bake AF in, so suspect a hand-written descriptor"@
    } else if 0x0c <= fsc <= 0x0f {
        "permission fault — mapped, but the descriptor forbids this access; W^X doing its job"@
    } else if fsc == 0x10 {
        "synchronous external abort — the translation SUCCEEDED and the bus said no: mapped, but nothing lives there"@
    } else if 0x14 <= fsc <= 0x17 {
        "synchronous external abort during a page-table walk"@
    } else if fsc == 0x21 {
        "alignment fault — Device memory (MMIO) forbids unaligned access (Normal memory has tolerated it since M2)"@
    } else {
        "a fault status this kernel does not decode (DDI 0601, ESR_EL1 has the full list)"@
    }
}

/// A fault-status code (the low six bits of an abort's syndrome, or PAR_EL1.FST)
/// in words.
pub fn fault_status(fsc: u64) -> (s: &'static str)
    ensures
        s@ == status_text(fsc),
{
    if 0x04 <= fsc && fsc <= 0x07 {
        "translation fault — the walk hit an INVALID descriptor: nothing is mapped at this address"
    } else if 0x08 <= fsc && fsc <= 0x0b {
        "access-flag fault — a mapping with AF=0. mmu.rs's constructors bake AF in, so suspect a hand-written descriptor"
    } else if 0x0c <= fsc && fsc <= 0x0f {
        "permission fault — mapped, but the descriptor forbids this access; W^X doing its job"
    } else if fsc == 0x10 {
        "synchronous external abort — the translation SUCCEEDED and the bus said no: mapped, but nothing lives there"
    } else if 0x14 <= fsc && fsc <= 0x17 {
        "synchronous external abort during a page-table walk"
    } else if fsc == 0x21 {
        "alignment fault — Device memory (MMIO) forbids unaligned access (Normal memory has tolerated it since M2)"
    } else {
        "a fault status this kernel does not decode (DDI 0601, ESR_EL1 has the full list)"
    }
}

/// The level at which a page-table walk failed, for the fault families that say.
pub fn walk_level(fsc: u64) -> (level: Option<u64>)
    ensures
        level == (if 0x04 <= fsc <= 0x0f {
            Some(fsc % 4)
        } else {
            None
        }),
{
    if 0x04 <= fsc && fsc <= 0x0f {
        Some(fsc % 4)
    } else {
        None
    }
}

/// The state and the frame after the running user task has been killed: the next
/// task's, or, if nobody is left, the monitor's.
pub open spec fn killed(k: KernelView, f: FrameView) -> crate::sched::Switch {
    let s = k.kill_and_switch(f);
    if s.switched {
        s
    } else {
        crate::sched::Switch { kernel: crate::arch::aarch64::user::monitor_state(s.kernel), ..s }
    }
}

/// Kill the running user task. True: the frame is the next task's. False: nobody
/// is left to run, the user address space is gone and preemption is off; go back
/// to the monitor.
pub fn kill_task_from_el0(k: &mut Kernel, frame: &mut TrapFrame) -> (switched: bool)
    requires
        old(k).wf(),
    ensures
        final(k).wf(),
        final(k)@ == killed(old(k)@, old(frame)@).kernel,
        final(frame)@ == killed(old(k)@, old(frame)@).frame,
        switched == killed(old(k)@, old(frame)@).switched,
        old(k)@.inv() && old(k)@.current_unqueued() ==> final(k)@.inv(),
{
    let switched: bool = kill_current_task(k, frame);
    if !switched {
        let ghost k0 = *k;
        preempt_off(k);
        k.user_root = None;
        assert(k@ =~= crate::arch::aarch64::user::monitor_state(k0@));
    }
    switched
}

/// Why EL0 took a synchronous exception that is not a system call.
pub open spec fn user_cause(f: FrameView) -> Cause {
    let ec = class_of(f.esr);
    let status = f.esr % 0x40;
    if ec == EC_DABT_LOWER_EL {
        Cause::UserDataAbort { write: esr_bit(f.esr, 0x40), at: f.far, status }
    } else if ec == EC_IABT_LOWER_EL {
        Cause::UserInstructionAbort { at: f.far, status }
    } else {
        Cause::UserOther { ec, iss: iss_of(f.esr) }
    }
}

/// What a synchronous exception from EL0 came to.
pub enum El0Outcome {
    /// A system call: what is left to do for it.
    Syscall(SvcAction),
    /// A fault: report it. The task is dead; `switched` says whether another
    /// one runs now or the monitor takes over.
    Killed { cause: Cause, switched: bool },
}

/// Handle a synchronous exception from EL0: a system call, or a fault that costs
/// the task its life. `input` is as for `handle_svc_from_el0`, and not looked at
/// for a fault.
pub fn handle_sync_from_el0(k: &mut Kernel, frame: &mut TrapFrame, input: &[u8]) -> (r: El0Outcome)
    requires
        old(k).wf(),
        class_of(old(frame)@.esr) == EC_SVC64 ==> input@.len()
            == crate::arch::aarch64::user::svc_input_len(old(frame)@),
    ensures
        final(k).wf(),
        old(k)@.inv() && old(k)@.current_unqueued() ==> final(k)@.inv(),
        class_of(old(frame)@.esr) == EC_SVC64 ==> (r matches El0Outcome::Syscall(action)
            && crate::arch::aarch64::user::svc(old(k)@, old(frame)@, input@) == (
        crate::arch::aarch64::user::Svc {
            kernel: final(k)@,
            frame: final(frame)@,
            action: action@,
        })),
        class_of(old(frame)@.esr) != EC_SVC64 ==> {
            let s = killed(old(k)@, old(frame)@);
            &&& r == (El0Outcome::Killed {
                cause: user_cause(old(frame)@),
                switched: s.switched,
            })
            &&& final(k)@ == s.kernel
            &&& final(frame)@ == s.frame
        },
{
    let esr: u64 = frame.esr;
    let ec: u64 = exception_class(esr);
    if ec == EC_SVC64 {
        return El0Outcome::Syscall(handle_svc_from_el0(k, frame, input));
    }
    let status: u64 = esr % 0x40;
    let cause: Cause = if ec == EC_DABT_LOWER_EL {
        Cause::UserDataAbort { write: (esr / 0x40) % 2 == 1, at: frame.far, status }
    } else if ec == EC_IABT_LOWER_EL {
        Cause::UserInstructionAbort { at: frame.far, status }
    } else {
        Cause::UserOther { ec, iss: iss(esr) }
    };
    let switched: bool = kill_task_from_el0(k, frame);
    El0Outcome::Killed { cause, switched }
}

/// What a timer tick makes of the state and the frame: the tick is counted,
/// sleepers whose time has come are woken, and with preemption on the running
/// user task gives way to the next ready one.
pub open spec fn tick(k: KernelView, f: FrameView) -> crate::sched::Switch {
    let k1 = KernelView {
        timer: Timer {
            ticks: ((k.timer.ticks + 1) % 0x1_0000_0000_0000_0000) as u64,
            ..k.timer
        },
        ..k
    }.wake_sleepers();
    if k1.preempt && k1.current != 0 {
        let s = k1.save_and_switch(f);
        if s.switched {
            crate::sched::Switch {
                kernel: KernelView {
                    preempts: ((s.kernel.preempts + 1) % 0x1_0000_0000_0000_0000) as u64,
                    ..s.kernel
                },
                ..s
            }
        } else {
            s
        }
    } else {
        crate::sched::Switch { kernel: k1, frame: f, switched: false }
    }
}

/// Count a timer tick taken at `counter`, wake the sleepers it is time for, and
/// preempt. The result is what to program the timer with for the next period.
fn timer_tick(k: &mut Kernel, frame: &mut TrapFrame, counter: u64) -> (rearm: Option<TimerRegs>)
    requires
        old(k).wf(),
        counter + old(k).timer.period <= u64::MAX,
    ensures
        final(k).wf(),
        final(k)@ == tick(old(k)@, old(frame)@).kernel,
        final(frame)@ == tick(old(k)@, old(frame)@).frame,
        old(k)@.inv() ==> final(k)@.inv(),
        rearm == crate::arch::aarch64::timer::next_period(counter, old(k).timer.period),
{
    let rearm: Option<TimerRegs> = on_tick(&mut k.timer, counter);
    let ghost counted = *k;
    proof {
        assert(counted@ =~= KernelView {
            timer: Timer {
                ticks: ((old(k)@.timer.ticks + 1) % 0x1_0000_0000_0000_0000) as u64,
                ..old(k)@.timer
            },
            ..old(k)@
        });
        assert(old(k)@.inv() ==> counted@.inv());
    }
    wake_sleepers(k);
    if preempt_enabled(k) && current_tid(k) != 0 {
        if save_and_switch(k, frame) {
            let ghost k1 = *k;
            bump_preempts(k);
            assert(k@ =~= KernelView {
                preempts: ((k1@.preempts + 1) % 0x1_0000_0000_0000_0000) as u64,
                ..k1@
            });
            assert(k1@.inv() ==> k@.inv());
        }
    }
    rearm
}

/// What an interrupt leaves to do.
#[derive(Clone, Copy, PartialEq, Eq, Structural, Debug)]
pub struct IrqVerdict {
    /// Program the timer for its next period.
    pub rearm: Option<TimerRegs>,
    /// Report an interrupt nobody knows.
    pub unknown: bool,
    /// Signal the end of the interrupt.
    pub eoi: bool,
}

/// Handle interrupt `id`, as the interrupt controller acknowledged it when the
/// virtual counter read `counter`. IDs from 1020 on mean that there was nothing
/// to handle.
pub fn handle_irq(k: &mut Kernel, frame: &mut TrapFrame, id: u32, counter: u64) -> (v: IrqVerdict)
    requires
        old(k).wf(),
        id == TIMER_IRQ ==> counter + old(k).timer.period <= u64::MAX,
    ensures
        final(k).wf(),
        old(k)@.inv() ==> final(k)@.inv(),
        id == TIMER_IRQ ==> final(k)@ == tick(old(k)@, old(frame)@).kernel && final(frame)@ == tick(
            old(k)@,
            old(frame)@,
        ).frame,
        id != TIMER_IRQ ==> final(k)@ == old(k)@ && final(frame)@ == old(frame)@,
        v == (IrqVerdict {
            rearm: if id == TIMER_IRQ {
                crate::arch::aarch64::timer::next_period(counter, old(k).timer.period)
            } else {
                None
            },
            unknown: id < 1020 && id != TIMER_IRQ,
            eoi: id <= 1020,
        }),
{
    if id >= 1020 {
        return IrqVerdict { rearm: None, unknown: false, eoi: id == 1020 };
    }
    if id == TIMER_IRQ {
        let rearm: Option<TimerRegs> = timer_tick(k, frame, counter);
        IrqVerdict { rearm, unknown: false, eoi: true }
    } else {
        IrqVerdict { rearm: None, unknown: true, eoi: true }
    }
}

/// What an FIQ leaves to do.
#[derive(Clone, Copy, PartialEq, Eq, Structural, Debug)]
pub struct FiqVerdict {
    /// Program the timer for its next period.
    pub rearm: Option<TimerRegs>,
    /// Report this.
    pub report: Option<Cause>,
    /// Unmask this interrupt again: reading the event masked it.
    pub unmask: Option<u32>,
}

/// The report on an interrupt controller event.
pub open spec fn event_cause(event: u32) -> Cause {
    let ty = (event / 0x1_0000) % 0x100;
    let num = event % 0x1_0000;
    if event == 0 {
        Cause::SpuriousFiq
    } else if ty == EVENT_TYPE_IRQ {
        Cause::AicIrq { num }
    } else if ty == EVENT_TYPE_IPI {
        Cause::AicIpi { num }
    } else if ty == EVENT_TYPE_FIQ {
        Cause::AicFiq { num }
    } else {
        Cause::AicOther { event, ty, num }
    }
}

/// Handle an FIQ. `fired` says whether the virtual timer's condition is met, and
/// `counter` is what the virtual counter reads. If the timer has not fired,
/// `event` is what the interrupt controller's event register read as; None if
/// there is no such controller.
pub fn handle_fiq(
    k: &mut Kernel,
    frame: &mut TrapFrame,
    fired: bool,
    counter: u64,
    event: Option<u32>,
) -> (v: FiqVerdict)
    requires
        old(k).wf(),
        fired ==> counter + old(k).timer.period <= u64::MAX,
    ensures
        final(k).wf(),
        old(k)@.inv() ==> final(k)@.inv(),
        fired ==> {
            &&& final(k)@ == tick(old(k)@, old(frame)@).kernel
            &&& final(frame)@ == tick(old(k)@, old(frame)@).frame
            &&& v == (FiqVerdict {
                rearm: crate::arch::aarch64::timer::next_period(counter, old(k).timer.period),
                report: None,
                unmask: None,
            })
        },
        !fired ==> {
            let cause = match event {
                None => Cause::SpuriousFiq,
                Some(ev) => event_cause(ev),
            };
            &&& final(k)@ == old(k)@
            &&& final(frame)@ == old(frame)@
            &&& v == (FiqVerdict {
                rearm: None,
                report: Some(cause),
                unmask: match cause {
                    Cause::AicIrq { num } => Some(num),
                    _ => None,
                },
            })
        },
{
    if fired {
        let rearm: Option<TimerRegs> = timer_tick(k, frame, counter);
        return FiqVerdict { rearm, report: None, unmask: None };
    }
    if let Some(ev) = event {
        if ev != 0 {
            let ty: u32 = event_type(ev);
            let num: u32 = event_num(ev);
            return if ty == EVENT_TYPE_IRQ {
                FiqVerdict {
                    rearm: None,
                    report: Some(Cause::AicIrq { num }),
                    unmask: Some(num),
                }
            } else if ty == EVENT_TYPE_IPI {
                FiqVerdict { rearm: None, report: Some(Cause::AicIpi { num }), unmask: None }
            } else if ty == EVENT_TYPE_FIQ {
                FiqVerdict { rearm: None, report: Some(Cause::AicFiq { num }), unmask: None }
            } else {
                FiqVerdict {
                    rearm: None,
                    report: Some(Cause::AicOther { event: ev, ty, num }),
                    unmask: None,
                }
            };
        }
    }
    FiqVerdict { rearm: None, report: Some(Cause::SpuriousFiq), unmask: None }
}

/// A syndrome taken apart: the exception class, the instruction length bit and
/// the 25 bits of detail, below bits that newer CPUs use.
pub proof fn law_syndromes_are_taken_apart(upper: u64, ec: u64, il: u64, detail: u64, esr: u64)
    requires
        upper < 0x1_0000_0000,
        ec < 0x40,
        il < 2,
        detail < 0x200_0000,
        esr == upper * 0x1_0000_0000 + ec * 0x400_0000 + il * 0x200_0000 + detail,
    ensures
        class_of(esr) == ec,
        iss_of(esr) == detail,
        esr % 0x1_0000 == detail % 0x1_0000,
        esr % 0x40 == detail % 0x40,
        esr_bit(esr, 0x40) == ((detail / 0x40) % 2 == 1),
        esr_bit(esr, 0x400) == ((detail / 0x400) % 2 == 1),
{
    assert(upper < 0x1_0000_0000 && ec < 0x40 && il < 2 && detail < 0x200_0000 && esr == upper
        * 0x1_0000_0000 + ec * 0x400_0000 + il * 0x200_0000 + detail ==> (esr / 0x400_0000) % 0x40
        == ec && esr % 0x200_0000 == detail && esr % 0x1_0000 == detail % 0x1_0000 && esr % 0x40
        == detail % 0x40 && (esr / 0x40) % 2 == (detail / 0x40) % 2 && (esr / 0x400) % 2 == (detail
        / 0x400) % 2) by (bit_vector);
}

/// What the kernel makes of its own synchronous exceptions, by the numbers of the
/// architecture: breakpoints (0x3c) and supervisor calls (0x15) with their 16-bit
/// number, aborts (0x25, 0x21) with their status in the low six bits, the write
/// bit (bit 6) and the address unless the CPU disowns it (bit 10), misaligned
/// branches (0x22) and stack pointers (0x26), and undefined instructions (0).
pub proof fn law_kernel_causes(upper: u64, ec: u64, il: u64, detail: u64, f: FrameView)
    requires
        upper < 0x1_0000_0000,
        ec < 0x40,
        il < 2,
        detail < 0x200_0000,
        f.esr == upper * 0x1_0000_0000 + ec * 0x400_0000 + il * 0x200_0000 + detail,
    ensures
        ({
            let c = sync_cause(f);
            &&& c matches Cause::Brk { imm } ==> ec == 0x3c && imm == detail % 0x1_0000
            &&& c matches Cause::Svc { imm, nr } ==> ec == 0x15 && imm == detail % 0x1_0000 && nr
                == f.x[8]
            &&& c matches Cause::DataAbort { write, addr, status } ==> {
                &&& ec == 0x25
                &&& write == ((detail / 0x40) % 2 == 1)
                &&& addr == (if (detail / 0x400) % 2 == 1 {
                    None
                } else {
                    Some(f.far)
                })
                &&& status == detail % 0x40
            }
            &&& c matches Cause::InstructionAbort { at, status } ==> ec == 0x21 && at == f.far
                && status == detail % 0x40
            &&& c matches Cause::PcAlignment { at } ==> ec == 0x22 && at == f.far
            &&& c is SpAlignment ==> ec == 0x26
            &&& c is UnknownReason ==> ec == 0
            &&& c matches Cause::OtherClass { ec: e, iss } ==> e == ec && iss == detail
            &&& c is Brk || c is Svc || c is DataAbort || c is InstructionAbort || c is PcAlignment
                || c is SpAlignment || c is UnknownReason || c is OtherClass
            &&& c is OtherClass <==> ec != 0x3c && ec != 0x15 && ec != 0x25 && ec != 0x21 && ec
                != 0x22 && ec != 0x26 && ec != 0
        }),
{
    law_syndromes_are_taken_apart(upper, ec, il, detail, f.esr);
}

/// What the kernel makes of a synchronous exception at EL0 that is not a system
/// call: aborts (0x24, 0x20) with where, how and why, and anything else with its
/// syndrome.
pub proof fn law_user_causes(upper: u64, ec: u64, il: u64, detail: u64, f: FrameView)
    requires
        upper < 0x1_0000_0000,
        ec < 0x40,
        il < 2,
        detail < 0x200_0000,
        f.esr == upper * 0x1_0000_0000 + ec * 0x400_0000 + il * 0x200_0000 + detail,
    ensures
        user_cause(f) == (if ec == 0x24 {
            Cause::UserDataAbort {
                write: (detail / 0x40) % 2 == 1,
                at: f.far,
                status: detail % 0x40,
            }
        } else if ec == 0x20 {
            Cause::UserInstructionAbort { at: f.far, status: detail % 0x40 }
        } else {
            Cause::UserOther { ec, iss: detail }
        }),
{
    law_syndromes_are_taken_apart(upper, ec, il, detail, f.esr);
}

/// A survived breakpoint goes on behind the four bytes of the `brk`, a supervisor
/// call where it stands; no other register changes.
pub proof fn law_survivors_go_on(f: FrameView)
    ensures
        ({
            let r = recovered(f);
            &&& r.x == f.x && r.sp == f.sp && r.spsr == f.spsr
            &&& sync_cause(f) is Brk ==> r.elr == (if f.elr + 4 < 0x1_0000_0000_0000_0000 {
                f.elr + 4
            } else {
                f.elr + 4 - 0x1_0000_0000_0000_0000
            })
            &&& !(sync_cause(f) is Brk) ==> r.elr == f.elr
        }),
{
    if f.elr + 4 >= 0x1_0000_0000_0000_0000 {
        assert((f.elr + 4) % 0x1_0000_0000_0000_0000 == f.elr + 4 - 0x1_0000_0000_0000_0000);
    }
}

/// The sixteen vector slots: synchronous exceptions, IRQs, FIQs and SErrors, each
/// from four origins, of which only the kernel on its own stack and EL0 in 64-bit
/// mode exist.
pub proof fn law_slots_are_routed(kind: u64, source: u64)
    requires
        kind < 4,
        source < 4,
    ensures
        ({
            let r = route(Kind::of(kind), Source::of(source));
            &&& source == 0 || source == 3 ==> r == Route::Fatal(Cause::ImpossibleContext)
            &&& kind == 0 && source == 1 ==> r == Route::KernelSync
            &&& kind == 0 && source == 2 ==> r == Route::UserSync
            &&& kind == 1 && (source == 1 || source == 2) ==> r == Route::Irq
            &&& kind == 2 && (source == 1 || source == 2) ==> r == Route::Fiq
            &&& kind == 3 && source == 1 ==> r == Route::Fatal(Cause::SError)
            &&& kind == 3 && source == 2 ==> r == Route::Fatal(Cause::SErrorFromEl0)
        }),
{
}

/// The fault statuses come in families of four, one per level of the walk: the
/// family decides the words.
pub proof fn law_fault_families(family: u64, level: u64)
    requires
        level < 4,
        family == 1 || family == 2 || family == 3 || family == 5,
    ensures
        status_text((family * 4 + level) as u64) == (if family == 1 {
            "translation fault — the walk hit an INVALID descriptor: nothing is mapped at this address"@
        } else if family == 2 {
            "access-flag fault — a mapping with AF=0. mmu.rs's constructors bake AF in, so suspect a hand-written descriptor"@
        } else if family == 3 {
            "permission fault — mapped, but the descriptor forbids this access; W^X doing its job"@
        } else {
            "synchronous external abort during a page-table walk"@
        }),
{
}

/// The other statuses that have words: a bus that said no, and an unaligned
/// access to a device.
pub proof fn law_fault_statuses(fsc: u64)
    ensures
        fsc == 0x10 ==> status_text(fsc)
            == "synchronous external abort — the translation SUCCEEDED and the bus said no: mapped, but nothing lives there"@,
        fsc == 0x21 ==> status_text(fsc)
            == "alignment fault — Device memory (MMIO) forbids unaligned access (Normal memory has tolerated it since M2)"@,
        fsc < 4 || 0x11 <= fsc <= 0x13 || 0x18 <= fsc <= 0x20 || fsc > 0x21 ==> status_text(fsc)
            == "a fault status this kernel does not decode (DDI 0601, ESR_EL1 has the full list)"@,
{
}

/// An interrupt controller event: nothing pending is spurious; otherwise the type
/// in bits [23:16] decides between a device (1), another processor (4) and an FIQ
/// (0), and the number stands in the low half.
pub proof fn law_events_are_decoded(upper: u32, ty: u32, num: u32, event: u32)
    requires
        upper < 0x100,
        ty < 0x100,
        num < 0x1_0000,
        event == upper * 0x100_0000 + ty * 0x1_0000 + num,
    ensures
        event_cause(event) == (if event == 0 {
            Cause::SpuriousFiq
        } else if ty == 1 {
            Cause::AicIrq { num }
        } else if ty == 4 {
            Cause::AicIpi { num }
        } else if ty == 0 {
            Cause::AicFiq { num }
        } else {
            Cause::AicOther { event, ty, num }
        }),
{
    assert((event / 0x1_0000) % 0x100 == ty);
    assert(event % 0x1_0000 == num);
}

} // verus!

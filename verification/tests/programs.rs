//! The demonstration programs, run instruction by instruction against the
//! kernel.

use opal::arch::aarch64::space::{
    drop_to_el0, drop_to_el0_blkipc, drop_to_el0_fault, drop_to_el0_ipc, drop_to_el0_preempt,
    drop_to_el0_scheduled, drop_to_el0_sendblk, El0Entry, Launch, TaskMem, UserPas, UserSpace,
    USER_CODE_VA, USER_STACK_TOP, USER_STACK_VA,
};
use opal::arch::aarch64::user::{svc_input, SvcAction};
use opal::arch::aarch64::vectors::{
    exception_dispatch, handle_irq, handle_sync_from_el0, Cause, El0Outcome, Route, TrapFrame,
};
use opal::console::{oops_exit, Oops};
use opal::hal::gicv2::TIMER_IRQ;
use opal::sched::{preempts, Kernel, TaskState};

const PAGE: u64 = 0x4000;

fn mem(base: u64) -> TaskMem {
    TaskMem {
        space: UserSpace::new(),
        pas: UserPas {
            l0: base,
            l1: base + PAGE,
            l2: base + 2 * PAGE,
            l3: base + 3 * PAGE,
            code: base + 4 * PAGE,
            stack: base + 5 * PAGE,
        },
        kstack_top: base + 8 * PAGE,
    }
}

enum Stop {
    Monitor(usize),
    Killed(Cause),
}

struct Machine {
    k: Kernel,
    frame: TrapFrame,
    mems: Vec<TaskMem>,
    out: String,
    alone: usize,
    exited: Vec<usize>,
    oops: Oops,
}

impl Machine {
    fn enter(k: Kernel, mems: Vec<TaskMem>, e: El0Entry) -> Machine {
        let mut frame = TrapFrame::empty();
        frame.elr = e.entry;
        frame.sp = e.sp;
        frame.spsr = e.spsr;
        assert_eq!(k.user_root, Some(e.root));
        Machine {
            k,
            frame,
            mems,
            out: String::new(),
            alone: 0,
            exited: Vec::new(),
            oops: Oops::new(),
        }
    }

    /// The index of the address space in TTBR0.
    fn space(&self) -> usize {
        let root = self.k.user_root.unwrap();
        self.mems.iter().position(|m| m.pas.l0 == root).unwrap()
    }

    fn read(&self, va: u64) -> u8 {
        let m = &self.mems[self.space()];
        if va >= USER_STACK_VA {
            m.space.stack[(va - USER_STACK_VA) as usize]
        } else {
            m.space.code[(va - USER_CODE_VA) as usize]
        }
    }

    fn insn(&self) -> u32 {
        let a = self.frame.elr;
        u32::from_le_bytes([self.read(a), self.read(a + 1), self.read(a + 2), self.read(a + 3)])
    }

    /// Take an exception from EL0 through the synchronous vector slot.
    fn trap(&mut self, esr: u64, far: u64) -> Option<Stop> {
        self.frame.esr = esr;
        self.frame.far = far;
        assert_eq!(exception_dispatch(&mut self.oops, 0, 2), Route::UserSync);
        let caller = self.space();
        let input: Vec<u8> = if esr >> 26 == 0x15 {
            let (va, n) = svc_input(&self.frame);
            (0..n as u64).map(|i| self.read(va + i)).collect()
        } else {
            Vec::new()
        };
        let r = handle_sync_from_el0(&mut self.k, &mut self.frame, &input);
        oops_exit(&mut self.oops);
        match r {
            El0Outcome::Killed { cause, switched } => {
                if !switched {
                    return Some(Stop::Killed(cause));
                }
            }
            El0Outcome::Syscall(action) => match action {
                SvcAction::Resume => {}
                SvcAction::Console(b) => self.out.push_str(&String::from_utf8(b).unwrap()),
                SvcAction::CopyOut { va, bytes } => {
                    let m = &mut self.mems[caller];
                    for (i, b) in bytes.iter().enumerate() {
                        m.space.stack[(va - USER_STACK_VA) as usize + i] = *b;
                    }
                }
                SvcAction::YieldedAlone => self.alone += 1,
                SvcAction::Exited { tid } => self.exited.push(tid),
                SvcAction::Monitor { tid } => return Some(Stop::Monitor(tid)),
                SvcAction::Unknown { nr } => panic!("unknown call {}", nr),
            },
        }
        None
    }

    /// Run one instruction.
    fn step(&mut self) -> Option<Stop> {
        let w = self.insn();
        let rd = (w & 31) as usize;
        let imm16 = ((w >> 5) & 0xFFFF) as u64;
        if w & 0xFFE0_0000 == 0xD280_0000 {
            self.frame.x[rd] = imm16; // movz
        } else if w & 0xFFE0_0000 == 0xF2A0_0000 {
            self.frame.x[rd] = (self.frame.x[rd] & !0xFFFF_0000) | (imm16 << 16); // movk, lsl 16
        } else if w & 0x9F00_0000 == 0x1000_0000 {
            let imm = ((w >> 5) & 0x7FFFF) << 2 | (w >> 29) & 3; // adr
            self.frame.x[rd] = self.frame.elr + imm as u64;
        } else if w == 0xD400_0001 {
            self.frame.elr += 4; // svc #0
            return self.trap(0x15 << 26, 0);
        } else if w == 0x1400_0000 {
            return None; // b .
        } else if w == 0xF900_0001 {
            let far = self.frame.x[0]; // str x1, [x0]
            return self.trap((0x24 << 26) | (1 << 6) | 0x04, far);
        } else {
            panic!("instruction {:#x} at {:#x}", w, self.frame.elr);
        }
        self.frame.elr += 4;
        None
    }

    fn run(&mut self) -> Stop {
        for _ in 0..1000 {
            if let Some(s) = self.step() {
                return s;
            }
        }
        panic!("still running: {}", self.out);
    }

    fn tick(&mut self) {
        assert_eq!(exception_dispatch(&mut self.oops, 1, 2), Route::Irq);
        let v = handle_irq(&mut self.k, &mut self.frame, TIMER_IRQ, 0);
        assert!(v.eoi);
        assert!(!v.unknown);
        oops_exit(&mut self.oops);
    }

    /// The output, one entry a line.
    fn lines(&self) -> Vec<String> {
        self.out.replace('\r', "").lines().map(|l| l.to_string()).collect()
    }
}

fn launched(l: Launch) -> El0Entry {
    match l {
        Launch::Enter { a, b, first, entry } => {
            assert_eq!((a, b, first), (1, 2, 1));
            entry
        }
        _ => panic!("not launched"),
    }
}

fn pair() -> (Kernel, TaskMem, TaskMem) {
    (Kernel::new(), mem(0x4100_0000), mem(0x4110_0000))
}

#[test]
fn one_program_writes_yields_and_exits() {
    let mut k = Kernel::new();
    let mut m = mem(0x4100_0000);
    let e = drop_to_el0(&mut k, &mut m.space, &m.pas);
    assert_eq!(e, El0Entry { root: 0x4100_0000, entry: USER_CODE_VA, sp: USER_STACK_TOP, spsr: 0 });
    let mut mach = Machine::enter(k, vec![m], e);
    match mach.run() {
        Stop::Monitor(tid) => assert_eq!(tid, 0),
        _ => panic!("killed"),
    }
    assert_eq!(mach.lines(), vec!["hello, EL0!", "back from yield"]);
    assert_eq!(mach.alone, 1);
    assert_eq!(mach.k.user_root, None);
}

#[test]
fn a_newline_from_a_program_gets_its_carriage_return() {
    let mut k = Kernel::new();
    let mut m = mem(0x4100_0000);
    let e = drop_to_el0(&mut k, &mut m.space, &m.pas);
    let mut mach = Machine::enter(k, vec![m], e);
    mach.run();
    assert!(mach.out.starts_with("hello, EL0!\r\n\r"));
}

#[test]
fn a_faulting_program_is_killed_and_the_monitor_returns() {
    let mut k = Kernel::new();
    let mut m = mem(0x4100_0000);
    let e = drop_to_el0_fault(&mut k, &mut m.space, &m.pas);
    let mut mach = Machine::enter(k, vec![m], e);
    match mach.run() {
        Stop::Killed(c) => {
            assert_eq!(c, Cause::UserDataAbort { write: true, at: 0, status: 4 })
        }
        _ => panic!("survived"),
    }
    assert_eq!(mach.k.user_root, None);
    assert!(!mach.k.preempt);
}

#[test]
fn two_tasks_take_turns() {
    let (mut k, mut a, mut b) = pair();
    let e = launched(drop_to_el0_scheduled(&mut k, &mut a, &mut b));
    let mut mach = Machine::enter(k, vec![a, b], e);
    match mach.run() {
        Stop::Monitor(tid) => assert_eq!(tid, 2),
        _ => panic!("killed"),
    }
    assert_eq!(mach.lines(), vec!["hello, EL0!", "task B!", "back from yield", "B done!"]);
    assert_eq!(mach.exited, vec![1]);
    assert_eq!(mach.alone, 0);
}

#[test]
fn a_message_reaches_the_receiver() {
    let (mut k, mut a, mut b) = pair();
    let e = launched(drop_to_el0_ipc(&mut k, &mut a, &mut b));
    let mut mach = Machine::enter(k, vec![a, b], e);
    mach.run();
    assert_eq!(mach.lines(), vec!["A: sending", "B: waiting", "A: sent", "B: got msg!"]);
    assert_eq!(&mach.mems[1].space.stack[0x100..0x108], b"hello B!");
}

#[test]
fn a_blocked_receiver_is_woken_by_the_message() {
    let (mut k, mut a, mut b) = pair();
    let e = launched(drop_to_el0_blkipc(&mut k, &mut a, &mut b));
    let mut mach = Machine::enter(k, vec![a, b], e);
    mach.run();
    assert_eq!(mach.lines(), vec!["A: send", "B: block", "A: done", "B: woke!"]);
    assert_eq!(&mach.mems[1].space.stack[0x100..0x105], b"wake!");
}

#[test]
fn a_blocked_sender_is_woken_by_the_receiver() {
    let (mut k, mut a, mut b) = pair();
    let e = launched(drop_to_el0_sendblk(&mut k, &mut a, &mut b));
    let mut mach = Machine::enter(k, vec![a, b], e);
    mach.run();
    assert_eq!(mach.lines(), vec!["A: send2", "B: recv2", "A: sent2", "B: got2"]);
    assert_eq!(&mach.mems[1].space.stack[0x100..0x106], b"second");
}

#[test]
fn the_timer_alone_switches_spinning_tasks() {
    let (mut k, mut a, mut b) = pair();
    let e = launched(drop_to_el0_preempt(&mut k, &mut a, &mut b, 62_500_000));
    assert!(k.preempt);
    assert_eq!(k.timer.period, 62_500_000);
    let mut mach = Machine::enter(k, vec![a, b], e);
    for _ in 0..50 {
        assert!(mach.step().is_none());
    }
    assert_eq!(mach.lines(), vec!["A"]);
    let spinning = mach.frame;
    mach.tick();
    assert_eq!(mach.k.current, 2);
    for _ in 0..50 {
        assert!(mach.step().is_none());
    }
    assert_eq!(mach.lines(), vec!["A", "B"]);
    mach.tick();
    assert_eq!(mach.k.current, 1);
    assert_eq!(mach.frame.elr, spinning.elr);
    assert_eq!(mach.frame.x, spinning.x);
    assert_eq!(preempts(&mach.k), 2);
    assert_eq!(mach.k.timer.ticks, 2);
}

#[test]
fn a_fault_in_one_task_leaves_the_other_running() {
    let (mut k, mut a, mut b) = pair();
    let e = launched(drop_to_el0_scheduled(&mut k, &mut a, &mut b));
    let mut mach = Machine::enter(k, vec![a, b], e);
    assert!(mach.trap((0x24 << 26) | (1 << 6) | 0x04, 0).is_none());
    assert_eq!(mach.k.current, 2);
    assert_eq!(mach.k.tasks[1].state, TaskState::Exited);
    assert_eq!(mach.k.tasks[1].exit_code, -1);
    mach.run();
    assert_eq!(mach.lines(), vec!["task B!", "B done!"]);
}

#[test]
fn a_full_task_table_refuses_to_launch() {
    let (mut k, mut a, mut b) = pair();
    for _ in 0..7 {
        assert!(opal::sched::spawn(&mut k, b"x", 0, 0, 0, 0).is_some());
    }
    assert!(matches!(drop_to_el0_scheduled(&mut k, &mut a, &mut b), Launch::TableFull));
}

//! The task table, the ready queue, messages, sleeping and waiting.

use opal::arch::aarch64::user::{handle_svc_from_el0, svc_input, SvcAction};
use opal::arch::aarch64::vectors::TrapFrame;
use opal::sched::{
    alloc_task, block_and_switch, bump_preempts, current_tid, dump_tasks, ipc_recv, ipc_send,
    kill_current_task, preempt_enabled, preempt_off, preempt_on, preempts, save_and_switch,
    scheduler, set_current_tid, spawn, task, try_wait, wake, wake_blocked_senders, wake_sleepers,
    wake_waiters, Kernel, Scheduler, Task, TaskState, EAGAIN, ESRCH, MAX_TASKS, MSG_MAX,
};

/// A kernel with `n` tasks, the first of them running.
fn kernel(n: usize) -> Kernel {
    let mut k = Kernel::new();
    for i in 0..n {
        let tid = spawn(&mut k, b"task", 0x1000 * (i as u64 + 1), 0x10 * (i as u64 + 1), 0, 0);
        assert_eq!(tid, Some(i + 1));
    }
    let first = scheduler(&mut k).dequeue().unwrap();
    task(&mut k, first).unwrap().state = TaskState::Running;
    set_current_tid(&mut k, first);
    k
}

fn regs(x: [u64; 3], nr: u64) -> TrapFrame {
    let mut f = TrapFrame::empty();
    f.x[0] = x[0];
    f.x[1] = x[1];
    f.x[2] = x[2];
    f.x[8] = nr;
    f.elr = 0x100;
    f
}

/// Make a system call whose input is `input`.
fn call(k: &mut Kernel, f: &mut TrapFrame, input: &[u8]) -> SvcAction {
    let (_, n) = svc_input(f);
    handle_svc_from_el0(k, f, &input[..n])
}

fn neg(e: i64) -> u64 {
    e as u64
}

#[test]
fn the_queue_is_first_in_first_out_and_bounded() {
    let mut s = Scheduler::new();
    assert!(s.is_empty());
    assert_eq!(s.dequeue(), None);
    for tid in 0..8 {
        assert!(s.enqueue(tid));
    }
    assert!(!s.enqueue(8));
    assert_eq!(s.len(), 8);
    assert_eq!(s.dequeue(), Some(0));
    assert!(s.enqueue(9));
    let rest: Vec<usize> = (0..8).map(|_| s.dequeue().unwrap()).collect();
    assert_eq!(rest, vec![1, 2, 3, 4, 5, 6, 7, 9]);
    assert!(s.is_empty());
}

#[test]
fn names_are_cut_and_padded() {
    let mut t = Task::empty();
    assert_eq!(t.name_str(), "");
    t.set_name(b"init");
    assert_eq!(t.name_str(), "init");
    t.set_name(b"longer-than-eight");
    assert_eq!(t.name.len(), 8);
    assert!("longer-than-eight".starts_with(t.name_str()));
    t.set_name(b"ab");
    assert_eq!(t.name_str(), "ab");
    t.set_name(&[0xFF, 0xFE]);
    assert_eq!(t.name_str(), "?");
}

#[test]
fn slots_run_out() {
    let mut k = Kernel::new();
    for i in 1..MAX_TASKS {
        assert_eq!(spawn(&mut k, b"x", 0, 0, 0, 0), Some(i));
    }
    assert_eq!(spawn(&mut k, b"x", 0, 0, 0, 0), None);
    assert_eq!(alloc_task(&mut k), None);
    assert_eq!(scheduler(&mut k).len(), 7);
}

#[test]
fn the_task_table_starts_at_one() {
    let mut k = kernel(1);
    assert!(task(&mut k, 0).is_none());
    assert!(task(&mut k, 1).is_some());
    assert!(task(&mut k, 2).is_none());
    assert!(task(&mut k, 8).is_none());
    assert_eq!(current_tid(&k), 1);
}

#[test]
fn turns_go_round() {
    let mut k = kernel(3);
    let mut f = TrapFrame::empty();
    let mut order = vec![current_tid(&k)];
    for _ in 0..6 {
        assert!(save_and_switch(&mut k, &mut f));
        order.push(current_tid(&k));
    }
    assert_eq!(order, vec![1, 2, 3, 1, 2, 3, 1]);
}

#[test]
fn a_switch_keeps_the_registers() {
    let mut k = kernel(2);
    let mut f = regs([11, 22, 33], 44);
    assert!(save_and_switch(&mut k, &mut f));
    assert_eq!(f.x[0], 0);
    assert_eq!(k.user_root, Some(0x2000));
    assert_eq!(k.pending_kstack_sp, 0x20);
    f.x[0] = 99;
    assert!(save_and_switch(&mut k, &mut f));
    assert_eq!((f.x[0], f.x[1], f.x[2], f.x[8]), (11, 22, 33, 44));
    assert_eq!(k.tasks[2].saved.x[0], 99);
    assert_eq!(k.user_root, Some(0x1000));
}

#[test]
fn alone_there_is_nothing_to_switch_to() {
    let mut k = kernel(1);
    let mut f = regs([1, 2, 3], 0);
    assert!(!save_and_switch(&mut k, &mut f));
    assert_eq!(f.x[0], 1);
    assert_eq!(k.tasks[1].state, TaskState::Running);
}

#[test]
fn a_message_arrives_as_it_was_sent() {
    let mut k = kernel(2);
    assert_eq!(ipc_send(&mut k, 2, b"hello"), Ok(()));
    assert_eq!(ipc_send(&mut k, 2, b"again"), Err(-EAGAIN));
    let mut f = TrapFrame::empty();
    save_and_switch(&mut k, &mut f);
    let mut buf = [0u8; 16];
    assert_eq!(ipc_recv(&mut k, &mut buf), Ok((5, 1)));
    assert_eq!(&buf[..5], b"hello");
    assert_eq!(ipc_recv(&mut k, &mut buf), Err(-EAGAIN));
    set_current_tid(&mut k, 1);
    assert_eq!(ipc_send(&mut k, 2, b"again"), Ok(()));
}

#[test]
fn a_long_message_is_cut_twice() {
    let mut k = kernel(2);
    let long = [7u8; 40];
    assert_eq!(ipc_send(&mut k, 2, &long), Ok(()));
    set_current_tid(&mut k, 2);
    let mut buf = [0u8; 10];
    assert_eq!(ipc_recv(&mut k, &mut buf), Ok((10, 1)));
    assert_eq!(k.tasks[2].mailbox_len, 0);
    assert_eq!(MSG_MAX, 32);
}

#[test]
fn nobody_home() {
    let mut k = kernel(1);
    assert_eq!(ipc_send(&mut k, 0, b"x"), Err(-ESRCH));
    assert_eq!(ipc_send(&mut k, 5, b"x"), Err(-ESRCH));
    assert_eq!(ipc_send(&mut k, 8, b"x"), Err(-ESRCH));
    assert_eq!(ipc_send(&mut k, usize::MAX, b"x"), Err(-ESRCH));
}

#[test]
fn only_a_blocked_task_is_woken() {
    let mut k = kernel(2);
    assert!(!wake(&mut k, 2));
    assert!(!wake(&mut k, 0));
    assert!(!wake(&mut k, 8));
    let mut f = TrapFrame::empty();
    assert!(block_and_switch(&mut k, &mut f));
    assert_eq!(k.tasks[1].state, TaskState::Blocked);
    assert!(wake(&mut k, 1));
    assert_eq!(k.tasks[1].state, TaskState::Ready);
    assert!(!wake(&mut k, 1));
}

#[test]
fn blocked_senders_of_one_mailbox_are_woken() {
    let mut k = kernel(3);
    let mut f = TrapFrame::empty();
    k.tasks[1].blocked_send_dst = 3;
    assert!(block_and_switch(&mut k, &mut f));
    k.tasks[2].blocked_send_dst = 1;
    assert!(block_and_switch(&mut k, &mut f));
    wake_blocked_senders(&mut k, 3);
    assert_eq!(k.tasks[1].state, TaskState::Ready);
    assert_eq!(k.tasks[1].blocked_send_dst, 0);
    assert_eq!(k.tasks[2].state, TaskState::Blocked);
}

#[test]
fn the_kernel_itself_cannot_block() {
    let mut k = Kernel::new();
    assert!(!block_and_switch(&mut k, &mut TrapFrame::empty()));
}

#[test]
fn killing_frees_one_slot() {
    let mut k = kernel(2);
    let mut f = TrapFrame::empty();
    assert!(kill_current_task(&mut k, &mut f));
    assert_eq!(current_tid(&k), 2);
    assert_eq!(k.tasks[1].state, TaskState::Exited);
    assert_eq!(k.tasks[1].exit_code, -1);
    assert!(!kill_current_task(&mut k, &mut f));
    assert_eq!(alloc_task(&mut k), Some(1));
}

#[test]
fn killing_the_kernel_does_nothing() {
    let mut k = Kernel::new();
    assert!(!kill_current_task(&mut k, &mut TrapFrame::empty()));
}

#[test]
fn sleepers_wake_at_their_deadline() {
    let mut k = kernel(2);
    let mut f = regs([3, 0, 0], 8);
    assert!(matches!(call(&mut k, &mut f, &[]), SvcAction::Resume));
    assert_eq!(k.tasks[1].state, TaskState::Blocked);
    assert_eq!(k.tasks[1].wake_tick, 3);
    assert_eq!(current_tid(&k), 2);
    k.timer.ticks = 2;
    wake_sleepers(&mut k);
    assert_eq!(k.tasks[1].state, TaskState::Blocked);
    k.timer.ticks = 3;
    wake_sleepers(&mut k);
    assert_eq!(k.tasks[1].state, TaskState::Ready);
    assert_eq!(k.tasks[1].wake_tick, 0);
    assert!(save_and_switch(&mut k, &mut f));
    assert_eq!(f.x[0], 0);
}

#[test]
fn a_sleep_past_the_end_of_time_is_capped() {
    let mut k = kernel(2);
    k.timer.ticks = 10;
    let mut f = regs([u64::MAX, 0, 0], 8);
    call(&mut k, &mut f, &[]);
    assert_eq!(k.tasks[1].wake_tick, u64::MAX);
}

#[test]
fn a_parent_gets_the_exit_code() {
    let mut k = kernel(2);
    assert_eq!(try_wait(&k, 2), Err(11));
    let mut f = regs([2, 0, 0], 10);
    call(&mut k, &mut f, &[]);
    assert_eq!(k.tasks[1].state, TaskState::Blocked);
    assert_eq!(k.tasks[1].waiting_on, 2);
    assert_eq!(k.tasks[1].saved.elr, 0xFC);
    let mut g = regs([42, 0, 0], 9);
    assert!(matches!(call(&mut k, &mut g, &[]), SvcAction::Exited { tid: 2 }));
    assert_eq!(current_tid(&k), 1);
    assert_eq!((g.elr, g.x[8], g.x[0]), (0xFC, 10, 2));
    g.elr += 4;
    call(&mut k, &mut g, &[]);
    assert_eq!(g.x[0], 42);
    assert_eq!(try_wait(&k, 2), Ok(42));
}

#[test]
fn waiting_for_nobody_fails() {
    let k = kernel(1);
    assert_eq!(try_wait(&k, 0), Err(3));
    assert_eq!(try_wait(&k, 5), Err(3));
    assert_eq!(try_wait(&k, 8), Err(3));
    let mut k = kernel(2);
    let mut f = regs([7, 0, 0], 10);
    call(&mut k, &mut f, &[]);
    assert_eq!(f.x[0], neg(-ESRCH));
}

#[test]
fn waiters_are_woken_by_their_own_child() {
    let mut k = kernel(3);
    let mut f = TrapFrame::empty();
    k.tasks[1].waiting_on = 3;
    assert!(block_and_switch(&mut k, &mut f));
    wake_waiters(&mut k, 2);
    assert_eq!(k.tasks[1].state, TaskState::Blocked);
    wake_waiters(&mut k, 3);
    assert_eq!(k.tasks[1].state, TaskState::Ready);
    assert_eq!(k.tasks[1].waiting_on, 0);
}

#[test]
fn writes_go_to_the_console_or_fail() {
    let mut k = kernel(1);
    let mut f = regs([1, 0x1000, 3], 1);
    assert_eq!(svc_input(&f), (0x1000, 3));
    match call(&mut k, &mut f, b"a\nb") {
        SvcAction::Console(b) => assert_eq!(b, b"a\r\nb".to_vec()),
        _ => panic!("no output"),
    }
    assert_eq!(f.x[0], 3);
    let mut f = regs([2, 0, 3], 1);
    assert_eq!(svc_input(&f).1, 0);
    call(&mut k, &mut f, &[]);
    assert_eq!(f.x[0], neg(-1));
    let mut f = regs([1, 0, 257], 1);
    call(&mut k, &mut f, &[]);
    assert_eq!(f.x[0], neg(-7));
    let mut f = regs([1, 0, 256], 1);
    assert_eq!(svc_input(&f).1, 256);
    call(&mut k, &mut f, &[b'x'; 256]);
    assert_eq!(f.x[0], 256);
}

#[test]
fn yields_return_zero() {
    let mut k = kernel(1);
    let mut f = regs([5, 0, 0], 3);
    assert!(matches!(call(&mut k, &mut f, &[]), SvcAction::YieldedAlone));
    assert_eq!(f.x[0], 0);
    let mut k = kernel(2);
    let mut f = regs([5, 0, 0], 3);
    assert!(matches!(call(&mut k, &mut f, &[]), SvcAction::Resume));
    assert_eq!(k.tasks[1].saved.x[0], 0);
}

#[test]
fn sends_and_receives_through_registers() {
    let mut k = kernel(2);
    let mut f = regs([2, 0x1000, 5], 4);
    assert_eq!(svc_input(&f), (0x1000, 5));
    call(&mut k, &mut f, b"hello");
    assert_eq!(f.x[0], 0);
    let mut f = regs([2, 0x1000, 5], 4);
    call(&mut k, &mut f, b"hello");
    assert_eq!(f.x[0], neg(-EAGAIN));
    let mut f = regs([6, 0x1000, 5], 4);
    call(&mut k, &mut f, b"hello");
    assert_eq!(f.x[0], neg(-ESRCH));
    let mut f = regs([2, 0x1000, 0], 4);
    call(&mut k, &mut f, b"");
    assert_eq!(f.x[0], 0);
    save_and_switch(&mut k, &mut f);
    let mut g = regs([0x2000, 3, 0], 5);
    match call(&mut k, &mut g, &[]) {
        SvcAction::CopyOut { va, bytes } => assert_eq!((va, bytes), (0x2000, b"hel".to_vec())),
        _ => panic!("nothing received"),
    }
    assert_eq!((g.x[0], g.x[1]), (3, 1));
    let mut g = regs([0x2000, 3, 0], 5);
    call(&mut k, &mut g, &[]);
    assert_eq!(g.x[0], neg(-EAGAIN));
    let mut g = regs([0x2000, 0, 0], 5);
    call(&mut k, &mut g, &[]);
    assert_eq!(g.x[0], neg(-22));
}

#[test]
fn a_blocking_receive_calls_again() {
    let mut k = kernel(2);
    let mut f = regs([0x2000, 8, 0], 6);
    assert!(matches!(call(&mut k, &mut f, &[]), SvcAction::Resume));
    assert_eq!(k.tasks[1].state, TaskState::Blocked);
    assert_eq!(k.tasks[1].saved.elr, 0xFC);
    assert_eq!(current_tid(&k), 2);
    assert_eq!(ipc_send(&mut k, 1, b"hi"), Ok(()));
    assert_eq!(k.tasks[1].state, TaskState::Ready);
}

#[test]
fn a_blocking_receive_alone_fails() {
    let mut k = kernel(1);
    let mut f = regs([0x2000, 8, 0], 6);
    call(&mut k, &mut f, &[]);
    assert_eq!(f.x[0], neg(-EAGAIN));
    assert_eq!(f.elr, 0x100);
}

#[test]
fn a_blocking_send_calls_again() {
    let mut k = kernel(2);
    let mut f = regs([2, 0x1000, 1], 7);
    call(&mut k, &mut f, b"x");
    assert_eq!(f.x[0], 0);
    let mut f = regs([2, 0x1000, 1], 7);
    call(&mut k, &mut f, b"y");
    assert_eq!(k.tasks[1].state, TaskState::Blocked);
    assert_eq!(k.tasks[1].blocked_send_dst, 2);
    assert_eq!(k.tasks[1].saved.elr, 0xFC);
    let mut g = regs([0x2000, 4, 0], 5);
    call(&mut k, &mut g, &[]);
    assert_eq!(k.tasks[1].state, TaskState::Ready);
    assert_eq!(k.tasks[1].blocked_send_dst, 0);
}

#[test]
fn unknown_calls_are_refused() {
    let mut k = kernel(1);
    let mut f = regs([0, 0, 0], 99);
    assert!(matches!(call(&mut k, &mut f, &[]), SvcAction::Unknown { nr: 99 }));
    assert_eq!(f.x[0], neg(-38));
}

#[test]
fn the_last_exit_returns_to_the_monitor() {
    let mut k = kernel(1);
    k.preempt = true;
    let mut f = regs([0, 0, 0], 2);
    assert!(matches!(call(&mut k, &mut f, &[]), SvcAction::Monitor { tid: 1 }));
    assert_eq!(k.user_root, None);
    assert!(!preempt_enabled(&k));
}

#[test]
fn preemption_is_switched_and_counted() {
    let mut k = Kernel::new();
    assert!(!preempt_enabled(&k));
    preempt_on(&mut k);
    assert!(preempt_enabled(&k));
    preempt_off(&mut k);
    assert!(!preempt_enabled(&k));
    bump_preempts(&mut k);
    assert_eq!(preempts(&k), 1);
    k.preempts = u64::MAX;
    bump_preempts(&mut k);
    assert_eq!(preempts(&k), 0);
}

#[test]
fn the_dump_lists_live_tasks() {
    let mut k = kernel(2);
    ipc_send(&mut k, 2, b"abc").unwrap();
    let d = dump_tasks(&k);
    assert_eq!(d.rows.len(), 2);
    assert_eq!(d.rows[0].tid, 1);
    assert_eq!(d.rows[0].name, "task");
    assert_eq!(d.rows[0].state, TaskState::Running);
    assert_eq!(d.rows[1].mailbox_len, 3);
    assert_eq!(d.rows[1].mailbox_from, 1);
    assert_eq!((d.ready, d.current, d.preempts), (1, 1, 0));
    let empty = dump_tasks(&Kernel::new());
    assert_eq!(empty.rows.len(), 0);
}

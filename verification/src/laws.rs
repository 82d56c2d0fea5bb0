//! What the scheduler and the system calls promise as a whole.
//!
//! Each law is stated over the same models that the functions' contracts use,
//! so it holds of the code.

use crate::arch::aarch64::user::{
    SvcActionView, SYS_EXIT, SYS_EXIT_CODE, SYS_RECVBLK, SYS_SENDBLK, SYS_SLEEP, SYS_WAIT, SYS_YIELD,
};
use crate::arch::aarch64::timer::Timer;
use crate::arch::aarch64::vectors::{Cause, FrameView, Kind, Route, Source, EC_BRK64, EC_SVC64};
use crate::sched::{KernelView, TaskState, TaskView, EAGAIN, MAX_TASKS, MSG_MAX};
use vstd::prelude::*;

verus! {

/// The first 32 bytes of a message, or all of it.
pub open spec fn truncated(data: Seq<u8>) -> Seq<u8> {
    if data.len() < MSG_MAX {
        data
    } else {
        data.take(MSG_MAX as int)
    }
}

/// A message arrives as it was sent: after an accepted send of a non-empty
/// message, the receiver, once it runs, reads the message (cut to 32 bytes) and
/// the sender's ID.
pub proof fn law_send_then_recv(k: KernelView, dst: usize, data: Seq<u8>, cap: nat)
    requires
        k.tasks.len() == MAX_TASKS,
        k.send_error(dst) is None,
        data.len() > 0,
    ensures
        ({
            let k2 = KernelView { current: dst, ..k.deliver(dst, data) };
            let t = k2.tasks[dst as int];
            let n = k2.recv_len(cap);
            &&& k2.can_recv()
            &&& t.mailbox_from == k.current
            &&& t.mailbox.take(t.mailbox_len as int) == truncated(data)
            &&& cap >= truncated(data).len() ==> t.mailbox.take(n as int) == truncated(data)
        }),
{
    let k2 = KernelView { current: dst, ..k.deliver(dst, data) };
    let t = k2.tasks[dst as int];
    assert(t.mailbox.take(t.mailbox_len as int) =~= truncated(data));
}

/// One message at a time: a mailbox that has accepted a non-empty message
/// refuses every other one until it is read.
pub proof fn law_full_mailbox_refuses(k: KernelView, dst: usize, data: Seq<u8>)
    requires
        k.tasks.len() == MAX_TASKS,
        k.send_error(dst) is None,
        data.len() > 0,
    ensures
        k.deliver(dst, data).send_error(dst) == Some((-EAGAIN) as i64),
{
}

/// Reading a message makes room for the next: the reader has nothing left to
/// read, and a live reader can be sent to again.
pub proof fn law_recv_empties(k: KernelView)
    requires
        k.tasks.len() == MAX_TASKS,
        k.can_recv(),
    ensures
        !k.drain().can_recv(),
        k.live(k.current as int) ==> k.drain().send_error(k.current) is None,
{
}

/// Refused sends leave no trace, and say why: the error is "no such task"
/// exactly when the destination is the kernel, out of range or not alive.
pub proof fn law_send_errors(k: KernelView, dst: usize)
    ensures
        k.send_error(dst) == Some((-3) as i64) <==> dst == 0 || dst >= MAX_TASKS
            || k.tasks[dst as int].state == TaskState::Exited,
        k.send_error(dst) == Some((-11) as i64) <==> 1 <= dst < MAX_TASKS
            && k.tasks[dst as int].state != TaskState::Exited && k.tasks[dst as int].mailbox_len
            > 0,
{
}

/// The tasks in the order they get the CPU: the running one, then the queue.
pub open spec fn ring(k: KernelView) -> Seq<usize> {
    seq![k.current] + k.ready
}

/// A user task runs and the scheduling invariant holds.
pub open spec fn user_running(k: KernelView) -> bool {
    &&& k.inv()
    &&& 1 <= k.current < MAX_TASKS
    &&& k.tasks[k.current as int].state == TaskState::Running
}

/// Round robin: giving up the CPU moves the running task behind everyone who
/// waits and changes the order of nobody else.
pub proof fn law_round_robin(k: KernelView, frame: FrameView)
    requires
        user_running(k),
    ensures
        ring(k.save_and_switch(frame).kernel) == ring(k).drop_first().push(k.current),
        user_running(k.save_and_switch(frame).kernel),
        k.save_and_switch(frame).switched == (k.ready.len() > 0),
{
    crate::sched::lemma_save_and_switch_inv(k, frame);
    let k2 = k.save_and_switch(frame).kernel;
    if k.ready.len() > 0 {
        crate::sched::lemma_ready_len(k);
        assert(k.save(frame).ready =~= k.ready.push(k.current));
        assert(k.save(frame).ready[0] == k.ready[0]);
        assert(k.tasks[k.ready[0] as int].state == TaskState::Ready);
        assert(ring(k2) =~= ring(k).drop_first().push(k.current));
    } else {
        assert(ring(k2) =~= ring(k).drop_first().push(k.current));
    }
}

/// The state after the running tasks have given up the CPU once for each of
/// `frames`, in turn.
pub open spec fn yields(k: KernelView, frames: Seq<FrameView>) -> KernelView
    decreases frames.len(),
{
    if frames.len() == 0 {
        k
    } else {
        yields(k, frames.drop_last()).save_and_switch(frames.last()).kernel
    }
}

/// Nobody starves: after `n` switches the order of turns has moved on by `n`.
pub proof fn law_turns_rotate(k: KernelView, frames: Seq<FrameView>)
    requires
        user_running(k),
        frames.len() <= ring(k).len(),
    ensures
        user_running(yields(k, frames)),
        ring(yields(k, frames)) == ring(k).skip(frames.len() as int) + ring(k).take(
            frames.len() as int,
        ),
    decreases frames.len(),
{
    if frames.len() == 0 {
        assert(ring(k).skip(0) + ring(k).take(0) =~= ring(k));
    } else {
        let n = frames.len() as int;
        let k1 = yields(k, frames.drop_last());
        law_turns_rotate(k, frames.drop_last());
        law_round_robin(k1, frames.last());
        let r = ring(k);
        assert(ring(k1)[0] == r[n - 1]);
        assert((r.skip(n - 1) + r.take(n - 1)).drop_first().push(r[n - 1]) =~= r.skip(n)
            + r.take(n));
    }
}

/// In particular, after as many switches as there are runnable tasks, each has
/// had its turn and the same task runs again with the same queue behind it.
pub proof fn law_full_round(k: KernelView, frames: Seq<FrameView>)
    requires
        user_running(k),
        frames.len() == ring(k).len(),
    ensures
        ring(yields(k, frames)) == ring(k),
{
    law_turns_rotate(k, frames);
    let r = ring(k);
    assert(r.skip(r.len() as int) + r.take(r.len() as int) =~= r);
}

/// A switch is invisible to the task switched out: its registers are kept as
/// they were, and loading it again gives exactly them back.
pub proof fn law_switch_saves_and_restores(k: KernelView, frame: FrameView)
    requires
        user_running(k),
    ensures
        ({
            let s = k.save_and_switch(frame);
            &&& s.kernel.tasks[k.current as int].saved == frame
            &&& s.switched ==> s.frame == k.tasks[k.ready[0] as int].saved
            &&& !s.switched ==> s.frame == frame
            &&& forall|tid: int|
                0 <= tid < MAX_TASKS && tid != k.current ==> #[trigger] s.kernel.tasks[tid].saved
                    == k.tasks[tid].saved
        }),
{
    if k.ready.len() > 0 {
        crate::sched::lemma_ready_len(k);
        assert(k.save(frame).ready[0] == k.ready[0]);
        assert(k.tasks[k.ready[0] as int].state == TaskState::Ready);
    }
}

/// Two tasks that yield to each other: the first gets its own registers back.
pub proof fn law_two_yields_return(k: KernelView, f: FrameView, g: FrameView)
    requires
        user_running(k),
        k.ready.len() == 1,
    ensures
        ({
            let s1 = k.save_and_switch(f);
            let s2 = s1.kernel.save_and_switch(g);
            &&& s1.switched && s2.switched
            &&& s2.frame == f
            &&& s2.kernel.current == k.current
            &&& s2.kernel.ready == k.ready
        }),
{
    let k1 = k.save_and_switch(f).kernel;
    let k2 = k1.save_and_switch(g).kernel;
    law_round_robin(k, f);
    law_round_robin(k1, g);
    law_switch_saves_and_restores(k, f);
    law_switch_saves_and_restores(k1, g);
    assert(ring(k).len() == 2);
    assert(ring(k1)[0] == ring(k)[1] && ring(k1)[1] == ring(k)[0]);
    assert(ring(k2)[0] == ring(k)[0] && ring(k2)[1] == ring(k)[1]);
    assert(k1.ready[0] == ring(k1)[1]);
    assert(k2.ready =~= k.ready) by {
        assert(k2.ready[0] == ring(k2)[1]);
        assert(k.ready[0] == ring(k)[1]);
    }
}

/// The address space follows the task: after a switch TTBR0 holds the new
/// task's root, if it has one, and its kernel stack is the one pending.
pub proof fn law_switch_installs_address_space(k: KernelView, frame: FrameView)
    requires
        k.inv(),
        k.save_and_switch(frame).switched,
    ensures
        ({
            let k2 = k.save_and_switch(frame).kernel;
            let t = k2.tasks[k2.current as int];
            &&& t.state == TaskState::Running
            &&& t.ttbr0_pa != 0 ==> k2.user_root == Some(t.ttbr0_pa)
            &&& t.ttbr0_pa == 0 ==> k2.user_root == k.user_root
            &&& k2.pending_kstack_sp == t.kstack_top
        }),
{
}

/// Killing the running task frees its slot with the code -1, takes nothing from
/// any other task, and stops the kernel only when nobody is left to run.
pub proof fn law_fault_kills_one_task(k: KernelView, frame: FrameView)
    requires
        user_running(k),
    ensures
        ({
            let s = k.kill_and_switch(frame);
            &&& s.kernel.tasks[k.current as int].state == TaskState::Exited
            &&& s.kernel.tasks[k.current as int].exit_code == -1
            &&& s.switched == (k.ready.len() > 0)
            &&& s.switched ==> s.kernel.current == k.ready[0] && s.frame
                == k.tasks[k.ready[0] as int].saved
            &&& forall|tid: int|
                1 <= tid < MAX_TASKS && tid != k.current && !(k.ready.len() > 0 && tid
                    == k.ready[0]) ==> #[trigger] s.kernel.tasks[tid] == k.tasks[tid]
        }),
{
    if k.ready.len() > 0 {
        assert(k.tasks[k.ready[0] as int].state == TaskState::Ready);
    }
}

/// Task `tid` sleeps, and resuming it makes the call in `frame` again.
pub open spec fn asleep_retrying(k: KernelView, tid: int, frame: FrameView) -> bool {
    &&& k.tasks[tid].state == TaskState::Blocked
    &&& k.tasks[tid].saved == crate::arch::aarch64::user::retrying(frame)
}

/// A blocking receive on an empty mailbox sleeps, set up to call again.
pub proof fn law_recvblk_sleeps(k: KernelView, frame: FrameView)
    requires
        user_running(k),
        k.ready.len() > 0,
        frame.x.len() == 31,
        frame.x[8] == SYS_RECVBLK,
        frame.x[1] != 0,
        !k.can_recv(),
    ensures
        ({
            let r = crate::arch::aarch64::user::svc(k, frame, Seq::empty());
            &&& r.kernel.inv()
            &&& r.action == SvcActionView::Resume
            &&& r.kernel.current == k.ready[0]
            &&& asleep_retrying(r.kernel, k.current as int, frame)
        }),
{
    let f = crate::arch::aarch64::user::retrying(frame);
    crate::sched::lemma_block_and_switch_inv(k, f);
    assert(k.tasks[k.ready[0] as int].state == TaskState::Ready);
}

/// A send wakes the sleeper, and its repeated call then receives the message.
pub proof fn law_send_wakes_recvblk(k: KernelView, tid: usize, frame: FrameView, data: Seq<u8>)
    requires
        k.inv(),
        1 <= tid < MAX_TASKS,
        asleep_retrying(k, tid as int, frame),
        k.tasks[tid as int].mailbox_len == 0,
        frame.x.len() == 31,
        frame.x[8] == SYS_RECVBLK,
        frame.x[1] != 0,
        data.len() > 0,
    ensures
        k.send_error(tid) is None,
        ({
            let k2 = k.deliver(tid, data);
            &&& k2.inv()
            &&& k2.tasks[tid as int].state == TaskState::Ready
            &&& k2.ready == k.ready.push(tid)
            &&& k2.tasks[tid as int].saved == k.tasks[tid as int].saved
            &&& ({
                let r = crate::arch::aarch64::user::svc(
                    KernelView { current: tid, ..k2 },
                    frame,
                    Seq::empty(),
                );
                &&& r.frame.x[0] == (if frame.x[1] < truncated(data).len() {
                    frame.x[1] as int
                } else {
                    truncated(data).len() as int
                })
                &&& r.frame.x[1] == k.current as u64
                &&& r.action == SvcActionView::CopyOut(
                    frame.x[0],
                    truncated(data).take(r.frame.x[0] as int),
                )
            })
        }),
{
    let t = k.tasks[tid as int];
    let n = truncated(data).len() as int;
    let t2 = TaskView {
        mailbox: data.take(n) + t.mailbox.skip(n),
        mailbox_len: n as usize,
        mailbox_from: k.current,
        ..t
    };
    crate::sched::lemma_make_ready_inv(k, tid as int, t2);
    let k2 = k.deliver(tid, data);
    assert(k2 == k.make_ready(tid as int, t2));
    let k3 = KernelView { current: tid, ..k2 };
    assert(k3.can_recv());
    let r = crate::arch::aarch64::user::svc(k3, frame, Seq::empty());
    let m = r.frame.x[0] as int;
    assert(k3.tasks[tid as int].mailbox.take(m) =~= truncated(data).take(m));
}

/// A blocking send to a full mailbox sleeps, remembering whom it waits for.
pub proof fn law_sendblk_sleeps(k: KernelView, frame: FrameView, input: Seq<u8>)
    requires
        user_running(k),
        k.ready.len() > 0,
        frame.x.len() == 31,
        frame.x[8] == SYS_SENDBLK,
        frame.x[2] != 0,
        frame.x[0] < MAX_TASKS,
        k.send_error(frame.x[0] as usize) == Some((-EAGAIN) as i64),
    ensures
        ({
            let r = crate::arch::aarch64::user::svc(k, frame, input);
            &&& r.kernel.inv()
            &&& asleep_retrying(r.kernel, k.current as int, frame)
            &&& r.kernel.tasks[k.current as int].blocked_send_dst == frame.x[0] as usize
        }),
{
    let f = crate::arch::aarch64::user::retrying(frame);
    let dst = frame.x[0] as usize;
    let k1 = crate::arch::aarch64::user::note_send_dst(k, dst);
    crate::sched::lemma_with_task_inv(k, k.current as int, k1.tasks[k.current as int]);
    crate::sched::lemma_block_and_switch_inv(k1, f);
    assert(k1.tasks[k1.ready[0] as int].state == TaskState::Ready);
}

/// Draining the mailbox wakes the sleeping sender, and its repeated call then
/// succeeds if nobody else filled the mailbox first.
pub proof fn law_recv_wakes_sendblk(k: KernelView, tid: usize, frame: FrameView, input: Seq<u8>)
    requires
        k.inv(),
        k.can_recv(),
        k.live(k.current as int),
        1 <= tid < MAX_TASKS,
        tid != k.current,
        asleep_retrying(k, tid as int, frame),
        k.tasks[tid as int].blocked_send_dst == k.current,
        frame.x.len() == 31,
        frame.x[8] == SYS_SENDBLK,
        frame.x[2] != 0,
        frame.x[0] == k.current,
    ensures
        ({
            let k2 = k.drain();
            &&& k2.tasks[tid as int].state == TaskState::Ready
            &&& k2.tasks[tid as int].blocked_send_dst == 0
            &&& k2.tasks[tid as int].saved == k.tasks[tid as int].saved
            &&& ({
                let k3 = KernelView { current: tid, ..k2 };
                let r = crate::arch::aarch64::user::svc(k3, frame, input);
                &&& r.frame == frame.with_x(0, 0)
                &&& r.kernel == k3.deliver(k.current, input)
            })
        }),
{
}

/// The tasks a wake function may touch are exactly the sleepers it is for:
/// every other task, and everything else about the state but the queue, stays.
pub proof fn law_wakes_exactly(k: KernelView, who: usize)
    requires
        k.tasks.len() == MAX_TASKS,
    ensures
        forall|tid: int|
            1 <= tid < MAX_TASKS ==> (#[trigger] k.wake_senders(who).tasks[tid] != k.tasks[tid]
                <==> k.tasks[tid].state == TaskState::Blocked && k.tasks[tid].blocked_send_dst
                == who),
        forall|tid: int|
            1 <= tid < MAX_TASKS ==> (#[trigger] k.wake_waiters(who).tasks[tid] != k.tasks[tid]
                <==> k.tasks[tid].state == TaskState::Blocked && k.tasks[tid].waiting_on == who),
        forall|tid: int|
            1 <= tid < MAX_TASKS ==> (#[trigger] k.wake_sleepers().tasks[tid] != k.tasks[tid]
                <==> 0 < k.tasks[tid].wake_tick <= k.timer.ticks),
{
}

/// A sleeper is not woken before its deadline and is woken at it.
pub proof fn law_sleep_ends_on_time(k: KernelView, tid: int)
    requires
        k.tasks.len() == MAX_TASKS,
        1 <= tid < MAX_TASKS,
        k.tasks[tid].state == TaskState::Blocked,
        k.tasks[tid].wake_tick > 0,
    ensures
        k.wake_sleepers().tasks[tid].state == (if k.timer.ticks < k.tasks[tid].wake_tick {
            TaskState::Blocked
        } else {
            TaskState::Ready
        }),
{
}

/// A parent waiting for a child gets the value the child exited with, bit for
/// bit: the exit wakes it, and its repeated call is answered with the code.
pub proof fn law_wait_gets_exit_code(k: KernelView, parent: usize, frame: FrameView, code: u64)
    requires
        user_running(k),
        k.tasks[k.current as int].spawned,
        1 <= parent < MAX_TASKS,
        parent != k.current,
        asleep_retrying(k, parent as int, frame),
        k.tasks[parent as int].waiting_on == k.current,
        frame.x.len() == 31,
        frame.x[8] == SYS_WAIT,
        frame.x[0] == k.current,
    ensures
        ({
            let k2 = crate::arch::aarch64::user::exited(
                k,
                crate::arch::aarch64::user::signed_value(code),
            );
            &&& k2.tasks[parent as int].state == TaskState::Ready
            &&& k2.tasks[parent as int].saved == k.tasks[parent as int].saved
            &&& crate::arch::aarch64::user::svc(
                KernelView { current: parent, ..k2 },
                frame,
                Seq::empty(),
            ).frame == frame.with_x(0, code)
        }),
{
}

/// A task that never lived cannot be waited for, and neither can the kernel: the
/// answer is "no such task", negative in the caller's register, and nothing
/// changes.
pub proof fn law_wait_needs_a_child(k: KernelView, child: usize, frame: FrameView)
    requires
        child == 0 || child >= MAX_TASKS || k.tasks[child as int] == TaskView::empty(),
    ensures
        k.wait_result(child) == Err::<i64, i64>(3),
        frame.x[8] == SYS_WAIT && frame.x[0] == child ==> ({
            let r = crate::arch::aarch64::user::svc(k, frame, Seq::empty());
            &&& r.kernel == k
            &&& r.frame == frame.with_x(0, 0xFFFF_FFFF_FFFF_FFFD)
        }),
{
}

/// A new task never takes the kernel's slot or a live task's, and leaves every
/// other task as it was.
pub proof fn law_spawn_takes_a_free_slot(k: KernelView, t: TaskView)
    requires
        k.tasks.len() == MAX_TASKS,
        k.free_slot() is Some,
    ensures
        ({
            let tid = k.free_slot()->Some_0;
            &&& 1 <= tid < MAX_TASKS
            &&& !k.live(tid as int)
            &&& forall|j: int| 1 <= j < tid ==> k.live(j)
            &&& forall|j: int|
                0 <= j < MAX_TASKS && j != tid ==> #[trigger] k.make_ready(tid as int, t).tasks[j]
                    == k.tasks[j]
        }),
{
    lemma_free_slot_from(k, 1);
}

proof fn lemma_free_slot_from(k: KernelView, from: int)
    requires
        1 <= from,
        k.free_slot_from(from) is Some,
    ensures
        ({
            let tid = k.free_slot_from(from)->Some_0;
            &&& from <= tid < MAX_TASKS
            &&& !k.live(tid as int)
            &&& forall|j: int| from <= j < tid ==> k.live(j)
        }),
    decreases MAX_TASKS - from,
{
    if k.tasks[from].state != TaskState::Exited {
        lemma_free_slot_from(k, from + 1);
    }
}

/// The table is full exactly when all seven user slots are taken.
pub proof fn law_spawn_fails_when_full(k: KernelView)
    ensures
        k.free_slot() is None <==> forall|j: int| 1 <= j < MAX_TASKS ==> k.live(j),
{
    if k.free_slot() is Some {
        lemma_free_slot_from(k, 1);
        assert(!k.live(k.free_slot()->Some_0 as int));
    } else {
        lemma_no_free_slot(k, 1);
    }
}

proof fn lemma_no_free_slot(k: KernelView, from: int)
    requires
        1 <= from,
        k.free_slot_from(from) is None,
    ensures
        forall|j: int| from <= j < MAX_TASKS ==> k.live(j),
    decreases MAX_TASKS - from,
{
    if from < MAX_TASKS {
        lemma_no_free_slot(k, from + 1);
    }
}

/// Errors reach the caller as negative numbers.
pub proof fn law_error_registers()
    ensures
        crate::arch::aarch64::user::signed_bits(-3) == 0xFFFF_FFFF_FFFF_FFFD,
        crate::arch::aarch64::user::signed_bits(-11) == 0xFFFF_FFFF_FFFF_FFF5,
        forall|v: i64| #[trigger]
            crate::arch::aarch64::user::signed_value(
                crate::arch::aarch64::user::signed_bits(v as int),
            ) == v,
{
}

/// The order of turns after the sleepers whose time has come have been woken:
/// nobody loses their place, and the running task keeps running.
proof fn lemma_woken(k: KernelView)
    requires
        user_running(k),
    ensures
        user_running(k.wake_sleepers()),
        k.ready.len() <= k.wake_sleepers().ready.len(),
        k.wake_sleepers().ready.take(k.ready.len() as int) == k.ready,
{
    let k2 = k.wake_sleepers();
    let now = k.timer.ticks;
    let woken = crate::sched::tids_where(
        k.tasks,
        KernelView::due_sleeper(now),
        MAX_TASKS as int,
    );
    crate::sched::lemma_wake_due_inv(k, now, MAX_TASKS as int);
    crate::sched::lemma_ready_len(k);
    assert(k2.ready == crate::sched::capped(k.ready + woken));
    assert(k2.ready.take(k.ready.len() as int) =~= k.ready);
}

/// The state a tick's switch starts from: the tick is counted and the sleepers
/// whose time has come are woken.
pub open spec fn ticked(k: KernelView) -> KernelView {
    KernelView {
        timer: Timer {
            ticks: ((k.timer.ticks + 1) % 0x1_0000_0000_0000_0000) as u64,
            ..k.timer
        },
        ..k
    }.wake_sleepers()
}

/// Preemption: with a task waiting, a tick takes the CPU from the running task
/// without its help. Its registers are kept, it goes to the back of the queue,
/// whoever waited longest resumes, and the switch is counted.
pub proof fn law_tick_preempts(k: KernelView, frame: FrameView)
    requires
        user_running(k),
        k.preempt,
        k.ready.len() > 0,
    ensures
        ({
            let s = crate::arch::aarch64::vectors::tick(k, frame);
            &&& s.switched
            &&& user_running(s.kernel)
            &&& s.kernel.current == k.ready[0]
            &&& s.frame == k.tasks[k.ready[0] as int].saved
            &&& s.kernel.tasks[k.current as int].state == TaskState::Ready
            &&& s.kernel.tasks[k.current as int].saved == frame
            &&& s.kernel.ready.last() == k.current
            &&& s.kernel.preempts == (k.preempts + 1) % 0x1_0000_0000_0000_0000
            &&& s.kernel.timer.ticks == (k.timer.ticks + 1) % 0x1_0000_0000_0000_0000
        }),
{
    let counted = KernelView {
        timer: Timer {
            ticks: ((k.timer.ticks + 1) % 0x1_0000_0000_0000_0000) as u64,
            ..k.timer
        },
        ..k
    };
    let k1 = ticked(k);
    let s = crate::arch::aarch64::vectors::tick(k, frame);
    assert(user_running(counted));
    lemma_woken(counted);
    assert(k1.ready[0] == k.ready[0]) by {
        assert(k1.ready.take(k.ready.len() as int)[0] == k1.ready[0]);
    }
    law_round_robin(k1, frame);
    law_switch_saves_and_restores(k1, frame);
    assert(k.tasks[k.ready[0] as int].state == TaskState::Ready);
    assert(k1.tasks[k.ready[0] as int].saved == k.tasks[k.ready[0] as int].saved);
    let s1 = k1.save_and_switch(frame);
    assert(ring(s1.kernel).last() == k.current);
    assert(ring(s1.kernel) =~= ring(k1).drop_first().push(k.current));
    assert(ring(s1.kernel).len() >= 2);
    assert(s1.kernel.ready.last() == ring(s1.kernel).last());
    assert(s1.kernel.current == ring(s1.kernel)[0]);
    assert(ring(s1.kernel)[0] == ring(k1)[1]);
    assert(ring(k1)[1] == k1.ready[0]);
    crate::sched::lemma_ready_len(k1);
    assert(s1.kernel.tasks[k.current as int].state == TaskState::Ready) by {
        assert(s1.kernel.ready[s1.kernel.ready.len() - 1] == k.current);
        assert(s1.kernel.inv());
    }
    assert(s.kernel.ready == s1.kernel.ready);
}

/// A tick that finds nobody to switch to, or that may not switch, returns to
/// exactly where it came from and counts no switch.
pub proof fn law_tick_resumes(k: KernelView, frame: FrameView)
    requires
        k.inv(),
        !k.preempt || k.current == 0 || ticked(k).ready.len() == 0,
    ensures
        ({
            let s = crate::arch::aarch64::vectors::tick(k, frame);
            &&& !s.switched
            &&& s.frame == frame
            &&& s.kernel.current == k.current
            &&& s.kernel.preempts == k.preempts
            &&& s.kernel.user_root == k.user_root
        }),
{
}

/// Two spinning tasks share the CPU by the timer alone: two ticks later the
/// first one has its own registers back.
pub proof fn law_two_ticks_return(k: KernelView, f: FrameView, g: FrameView)
    requires
        user_running(k),
        k.preempt,
        k.ready.len() == 1,
        forall|tid: int|
            1 <= tid < MAX_TASKS ==> #[trigger] k.tasks[tid].state != TaskState::Blocked,
    ensures
        ({
            let s1 = crate::arch::aarch64::vectors::tick(k, f);
            let s2 = crate::arch::aarch64::vectors::tick(s1.kernel, g);
            &&& s1.switched && s2.switched
            &&& s2.frame == f
            &&& s2.kernel.current == k.current
        }),
{
    let s1 = crate::arch::aarch64::vectors::tick(k, f);
    law_tick_preempts(k, f);
    lemma_nobody_woken(k);
    let k1 = ticked(k);
    assert(k1.ready =~= k.ready);
    law_round_robin(k1, f);
    let r1 = k1.save_and_switch(f).kernel;
    assert(ring(r1).len() == 2);
    assert(s1.kernel.ready.len() == 1);
    assert(s1.kernel.ready[0] == k.current);
    law_tick_preempts(s1.kernel, g);
}

/// Where nobody sleeps, a tick wakes nobody.
proof fn lemma_nobody_woken(k: KernelView)
    requires
        k.inv(),
        forall|tid: int|
            1 <= tid < MAX_TASKS ==> #[trigger] k.tasks[tid].state != TaskState::Blocked,
    ensures
        ticked(k).ready == k.ready,
{
    let now = ticked(k).timer.ticks;
    crate::sched::lemma_ready_len(k);
    lemma_no_tids(k.tasks, now, MAX_TASKS as int);
    assert(k.ready + Seq::<usize>::empty() =~= k.ready);
}

proof fn lemma_no_tids(tasks: Seq<TaskView>, now: u64, n: int)
    requires
        tasks.len() == MAX_TASKS,
        n <= MAX_TASKS,
        forall|tid: int|
            1 <= tid < MAX_TASKS ==> #[trigger] tasks[tid].state != TaskState::Blocked,
    ensures
        crate::sched::tids_where(tasks, KernelView::due_sleeper(now), n) == Seq::<usize>::empty(),
    decreases n,
{
    if n > 1 {
        assert(tasks[n - 1].state != TaskState::Blocked);
        lemma_no_tids(tasks, now, n - 1);
    }
}

/// A fault at EL0 is the task's problem, never the kernel's: whatever the
/// exception class, the task dies and either the next one runs or, with nobody
/// left, the monitor takes over with no user address space and no preemption.
pub proof fn law_user_fault_is_survived(k: KernelView, frame: FrameView)
    requires
        user_running(k),
    ensures
        ({
            let s = crate::arch::aarch64::vectors::killed(k, frame);
            &&& s.kernel.tasks[k.current as int].state == TaskState::Exited
            &&& s.switched == (k.ready.len() > 0)
            &&& s.switched ==> s.kernel.tasks[s.kernel.current as int].state == TaskState::Running
            &&& !s.switched ==> s.kernel.user_root is None && !s.kernel.preempt
        }),
{
    law_fault_kills_one_task(k, frame);
    if k.ready.len() > 0 {
        assert(k.tasks[k.ready[0] as int].state == TaskState::Ready);
    }
}

/// The kernel survives exactly its own breakpoints and supervisor calls.
pub proof fn law_kernel_survives(f: FrameView)
    ensures
        crate::arch::aarch64::vectors::recovers(crate::arch::aarch64::vectors::sync_cause(f)) <==> (
        crate::arch::aarch64::vectors::class_of(f.esr) == EC_BRK64
            || crate::arch::aarch64::vectors::class_of(f.esr) == EC_SVC64),
{
}

/// A tale of two return addresses: a breakpoint resumes one instruction on, a
/// supervisor call where it stands, and neither touches another register.
pub proof fn law_return_addresses(f: FrameView)
    ensures
        crate::arch::aarch64::vectors::class_of(f.esr) == EC_BRK64
            ==> crate::arch::aarch64::vectors::recovered(f) == (FrameView {
            elr: crate::arch::aarch64::vectors::next_insn(f.elr),
            ..f
        }),
        crate::arch::aarch64::vectors::class_of(f.esr) == EC_SVC64
            ==> crate::arch::aarch64::vectors::recovered(f) == f,
{
}

/// Interrupts are routine: an IRQ or an FIQ from a context that exists is
/// handled and never fatal, and every slot of a context that does not exist is.
pub proof fn law_interrupts_are_routine(kind: Kind, source: Source)
    ensures
        ({
            let exists_here = source == Source::CurrentSpElx || source == Source::LowerAArch64;
            let r = crate::arch::aarch64::vectors::route(kind, source);
            &&& exists_here && kind == Kind::Irq ==> r == Route::Irq
            &&& exists_here && kind == Kind::Fiq ==> r == Route::Fiq
            &&& exists_here && kind == Kind::Synchronous ==> r == Route::KernelSync || r
                == Route::UserSync
            &&& !exists_here ==> r == Route::Fatal(Cause::ImpossibleContext)
        }),
{
}

/// The ways a task's state can change within one system call or one tick: it is
/// dispatched, gives up the CPU, sleeps, is woken, or ends. A free slot stays
/// free, and nobody but the running task goes to sleep or ends.
pub open spec fn legal_step(from: TaskState, to: TaskState) -> bool {
    match from {
        TaskState::Exited => to == TaskState::Exited,
        TaskState::Ready => to == TaskState::Ready || to == TaskState::Running,
        TaskState::Running => true,
        TaskState::Blocked => to != TaskState::Exited,
    }
}

/// Every task's state changed legally between `k` and `k2`.
pub open spec fn legal(k: KernelView, k2: KernelView) -> bool {
    &&& k2.tasks.len() == k.tasks.len()
    &&& forall|tid: int|
        0 <= tid < k.tasks.len() ==> legal_step(
            k.tasks[tid].state,
            #[trigger] k2.tasks[tid].state,
        )
}

/// Loading the next task dispatches a Ready one and touches nobody else.
proof fn lemma_dispatch_states(k: KernelView, frame: FrameView)
    requires
        k.inv(),
    ensures
        ({
            let s = k.dispatch(frame);
            &&& s.kernel.tasks.len() == MAX_TASKS
            &&& forall|tid: int|
                0 <= tid < MAX_TASKS ==> #[trigger] s.kernel.tasks[tid].state
                    == k.tasks[tid].state || (k.tasks[tid].state == TaskState::Ready
                    && s.kernel.tasks[tid].state == TaskState::Running)
        }),
{
    if k.ready.len() > 0 {
        assert(k.tasks[k.ready[0] as int].state == TaskState::Ready);
    }
}

/// The life of a task: whatever system call the running task makes, every task's
/// state moves only along the edges from Ready to Running and back, from Running
/// to Blocked or Exited, and from Blocked to Ready.
pub proof fn law_task_lifecycle(k: KernelView, frame: FrameView, input: Seq<u8>)
    requires
        user_running(k),
        frame.x.len() == 31,
    ensures
        legal(k, crate::arch::aarch64::user::svc(k, frame, input).kernel),
{
    let cur = k.current as int;
    let nr = frame.x[8];
    crate::sched::lemma_ready_len(k);
    if nr == SYS_YIELD {
        let f = frame.with_x(0, 0);
        lemma_save_states(k, f);
    } else if nr == SYS_RECVBLK {
        let f = crate::arch::aarch64::user::retrying(frame);
        lemma_block_states(k, f);
    } else if nr == SYS_SENDBLK {
        let dst = crate::arch::aarch64::user::tid_arg(frame.x[0]);
        let k1 = crate::arch::aarch64::user::note_send_dst(k, dst);
        crate::sched::lemma_with_task_inv(k, cur, k1.tasks[cur]);
        lemma_block_states(k1, crate::arch::aarch64::user::retrying(frame));
    } else if nr == SYS_SLEEP {
        let t = TaskView {
            wake_tick: crate::arch::aarch64::user::deadline(k.timer.ticks, frame.x[0]),
            ..k.tasks[cur]
        };
        crate::sched::lemma_with_task_inv(k, cur, t);
        lemma_block_states(k.with_task(cur, t), frame.with_x(0, 0));
    } else if nr == SYS_WAIT {
        let child = crate::arch::aarch64::user::tid_arg(frame.x[0]);
        let t = TaskView { waiting_on: child, ..k.tasks[cur] };
        crate::sched::lemma_with_task_inv(k, cur, t);
        lemma_block_states(k.with_task(cur, t), crate::arch::aarch64::user::retrying(frame));
    } else if nr == SYS_EXIT || nr == SYS_EXIT_CODE {
        let code = crate::arch::aarch64::user::signed_value(frame.x[0]);
        let t = TaskView { state: TaskState::Exited, exit_code: code, ..k.tasks[cur] };
        let k1 = k.with_task(cur, t);
        crate::sched::lemma_retire_inv(k, cur, t);
        let f = |t: TaskView| TaskView { waiting_on: 0, ..t };
        crate::sched::lemma_wake_where_inv(
            k1,
            KernelView::blocked_waiting_on(k.current),
            f,
            MAX_TASKS as int,
        );
        let k2 = crate::arch::aarch64::user::exited(k, code);
        lemma_dispatch_states(k2, frame);
    }
}

proof fn lemma_save_states(k: KernelView, frame: FrameView)
    requires
        user_running(k),
    ensures
        legal(k, k.save_and_switch(frame).kernel),
{
    let cur = k.current as int;
    crate::sched::lemma_ready_len(k);
    let t = TaskView { saved: frame, ..k.tasks[cur] };
    if k.ready.len() > 0 {
        crate::sched::lemma_make_ready_inv(k, cur, t);
    } else {
        crate::sched::lemma_with_task_inv(k, cur, t);
    }
    lemma_dispatch_states(k.save(frame), frame);
}

proof fn lemma_block_states(k: KernelView, frame: FrameView)
    requires
        user_running(k),
    ensures
        legal(k, k.block_and_switch(frame).kernel),
{
    let cur = k.current as int;
    let t = TaskView { saved: frame, state: TaskState::Blocked, ..k.tasks[cur] };
    crate::sched::lemma_retire_inv(k, cur, t);
    lemma_dispatch_states(k.block(frame), frame);
}

/// The same holds of a timer tick.
pub proof fn law_tick_lifecycle(k: KernelView, frame: FrameView)
    requires
        user_running(k),
    ensures
        legal(k, crate::arch::aarch64::vectors::tick(k, frame).kernel),
{
    let counted = KernelView {
        timer: Timer {
            ticks: ((k.timer.ticks + 1) % 0x1_0000_0000_0000_0000) as u64,
            ..k.timer
        },
        ..k
    };
    assert(user_running(counted));
    lemma_woken(counted);
    lemma_save_states(ticked(k), frame);
}

/// Only the timer preempts: no system call changes the count of preemptions, and
/// a tick raises it exactly when it switches.
pub proof fn law_preemptions_are_counted(k: KernelView, frame: FrameView, input: Seq<u8>)
    ensures
        crate::arch::aarch64::user::svc(k, frame, input).kernel.preempts == k.preempts,
        ({
            let s = crate::arch::aarch64::vectors::tick(k, frame);
            s.kernel.preempts == (if s.switched {
                (k.preempts + 1) % 0x1_0000_0000_0000_0000
            } else {
                k.preempts as int
            })
        }),
{
}

/// A sleep is not repeated: the sleeper's registers are those of a call that has
/// returned 0, and its deadline is that many ticks away.
pub proof fn law_sleep_returns_zero(k: KernelView, frame: FrameView)
    requires
        user_running(k),
        k.ready.len() > 0,
        frame.x.len() == 31,
        frame.x[8] == SYS_SLEEP,
    ensures
        ({
            let k2 = crate::arch::aarch64::user::svc(k, frame, Seq::empty()).kernel;
            let t = k2.tasks[k.current as int];
            &&& t.state == TaskState::Blocked
            &&& t.saved == frame.with_x(0, 0)
            &&& t.wake_tick == crate::arch::aarch64::user::deadline(k.timer.ticks, frame.x[0])
            &&& k2.current == k.ready[0]
        }),
{
    assert(k.tasks[k.ready[0] as int].state == TaskState::Ready);
}

/// One task's exit does not end the session: its slot is free, and the monitor
/// takes over only when nobody is left to run.
pub proof fn law_exit_ends_one_task(k: KernelView, frame: FrameView)
    requires
        user_running(k),
        frame.x.len() == 31,
        frame.x[8] == SYS_EXIT || frame.x[8] == SYS_EXIT_CODE,
    ensures
        ({
            let r = crate::arch::aarch64::user::svc(k, frame, Seq::empty());
            let code = crate::arch::aarch64::user::signed_value(frame.x[0]);
            &&& r.kernel.tasks[k.current as int].state == TaskState::Exited
            &&& r.kernel.tasks[k.current as int].exit_code == code
            &&& r.action == SvcActionView::Exited(k.current) || r.action
                == SvcActionView::Monitor(k.current)
            &&& r.action == SvcActionView::Monitor(k.current) <==> crate::arch::aarch64::user::exited(
                k,
                code,
            ).ready.len() == 0
            &&& k.ready.len() > 0 ==> r.action == SvcActionView::Exited(k.current)
                && r.kernel.current == k.ready[0]
        }),
{
    let cur = k.current as int;
    let code = crate::arch::aarch64::user::signed_value(frame.x[0]);
    let t = TaskView { state: TaskState::Exited, exit_code: code, ..k.tasks[cur] };
    let k1 = k.with_task(cur, t);
    crate::sched::lemma_ready_len(k);
    crate::sched::lemma_retire_inv(k, cur, t);
    let f = |t: TaskView| TaskView { waiting_on: 0, ..t };
    crate::sched::lemma_wake_where_inv(
        k1,
        KernelView::blocked_waiting_on(k.current),
        f,
        MAX_TASKS as int,
    );
    let k2 = crate::arch::aarch64::user::exited(k, code);
    if k2.ready.len() > 0 {
        assert(k2.tasks[k2.ready[0] as int].state == TaskState::Ready);
        assert(k2.ready[0] != k.current);
    }
    if k.ready.len() > 0 {
        let woken = crate::sched::tids_where(
            k1.tasks,
            KernelView::blocked_waiting_on(k.current),
            MAX_TASKS as int,
        );
        assert(k2.ready[0] == (k.ready + woken)[0]);
    }
}

/// The tasks a scan selects come in ascending order, each once, and no other.
proof fn lemma_tids_where(tasks: Seq<TaskView>, p: spec_fn(TaskView) -> bool, n: int)
    requires
        n <= MAX_TASKS,
    ensures
        ({
            let s = crate::sched::tids_where(tasks, p, n);
            &&& forall|i: int, j: int| 0 <= i < j < s.len() ==> s[i] < s[j]
            &&& forall|i: int| 0 <= i < s.len() ==> 1 <= #[trigger] s[i] < n && p(tasks[s[i] as int])
            &&& forall|t: int|
                1 <= t < n && #[trigger] p(tasks[t]) ==> s.contains(t as usize)
        }),
    decreases n,
{
    if n > 1 {
        lemma_tids_where(tasks, p, n - 1);
        let s = crate::sched::tids_where(tasks, p, n - 1);
        let s2 = crate::sched::tids_where(tasks, p, n);
        assert forall|t: int| 1 <= t < n && #[trigger] p(tasks[t]) implies s2.contains(
            t as usize,
        ) by {
            if t == n - 1 {
                assert(s2[s.len() as int] == t as usize);
            } else {
                let i = choose|i: int| 0 <= i < s.len() && s[i] == t as usize;
                assert(s2[i] == t as usize);
            }
        }
    }
}

/// `w` are the tasks of which `p` holds, in the order of their numbers.
pub open spec fn selected(k: KernelView, p: spec_fn(TaskView) -> bool, w: Seq<usize>) -> bool {
    &&& forall|i: int, j: int| 0 <= i < j < w.len() ==> w[i] < w[j]
    &&& forall|i: int|
        0 <= i < w.len() ==> 1 <= #[trigger] w[i] < 8 && p(k.tasks[w[i] as int])
    &&& forall|t: int| 1 <= t < 8 && #[trigger] p(k.tasks[t]) ==> w.contains(t as usize)
}

proof fn lemma_uncapped(s: Seq<usize>)
    requires
        crate::sched::capped(s).len() < MAX_TASKS,
    ensures
        crate::sched::capped(s) == s,
{
}

/// Whoever is woken joins the back of the queue, the lower number first; nobody
/// in the queue loses their place, and nobody is woken twice or forgotten.
pub proof fn law_woken_tasks_queue_up(k: KernelView, who: usize)
    requires
        k.inv(),
    ensures
        exists|w: Seq<usize>|
            #![auto]
            k.wake_senders(who).ready == k.ready + w && selected(
                k,
                |t: TaskView| t.state == TaskState::Blocked && t.blocked_send_dst == who,
                w,
            ),
        exists|w: Seq<usize>|
            #![auto]
            k.wake_waiters(who).ready == k.ready + w && selected(
                k,
                |t: TaskView| t.state == TaskState::Blocked && t.waiting_on == who,
                w,
            ),
        exists|w: Seq<usize>|
            #![auto]
            k.wake_sleepers().ready == k.ready + w && selected(
                k,
                |t: TaskView|
                    t.state == TaskState::Blocked && 0 < t.wake_tick <= k.timer.ticks,
                w,
            ),
{
    let p1 = |t: TaskView| t.state == TaskState::Blocked && t.blocked_send_dst == who;
    let p2 = |t: TaskView| t.state == TaskState::Blocked && t.waiting_on == who;
    let p3 = |t: TaskView| t.state == TaskState::Blocked && 0 < t.wake_tick <= k.timer.ticks;
    let q1 = KernelView::blocked_sending_to(who);
    let q2 = KernelView::blocked_waiting_on(who);
    let q3 = KernelView::due_sleeper(k.timer.ticks);
    let f1 = |t: TaskView| TaskView { blocked_send_dst: 0, ..t };
    let f2 = |t: TaskView| TaskView { waiting_on: 0, ..t };
    let w1 = crate::sched::tids_where(k.tasks, q1, 8);
    let w2 = crate::sched::tids_where(k.tasks, q2, 8);
    let w3 = crate::sched::tids_where(k.tasks, q3, 8);
    lemma_tids_where(k.tasks, q1, 8);
    lemma_tids_where(k.tasks, q2, 8);
    lemma_tids_where(k.tasks, q3, 8);
    crate::sched::lemma_wake_where_inv(k, q1, f1, 8);
    crate::sched::lemma_wake_where_inv(k, q2, f2, 8);
    crate::sched::lemma_wake_due_inv(k, k.timer.ticks, 8);
    crate::sched::lemma_ready_len(k.wake_where(q1, f1, 8));
    crate::sched::lemma_ready_len(k.wake_where(q2, f2, 8));
    crate::sched::lemma_ready_len(k.wake_due(k.timer.ticks, 8));
    lemma_uncapped(k.ready + w1);
    lemma_uncapped(k.ready + w2);
    lemma_uncapped(k.ready + w3);
    assert(selected(k, p1, w1)) by {
        assert forall|t: int| 1 <= t < 8 && #[trigger] p1(k.tasks[t]) implies w1.contains(
            t as usize,
        ) by {
            assert(q1(k.tasks[t]));
        }
    }
    assert(selected(k, p2, w2)) by {
        assert forall|t: int| 1 <= t < 8 && #[trigger] p2(k.tasks[t]) implies w2.contains(
            t as usize,
        ) by {
            assert(q2(k.tasks[t]));
        }
    }
    assert(selected(k, p3, w3)) by {
        assert forall|t: int| 1 <= t < 8 && #[trigger] p3(k.tasks[t]) implies w3.contains(
            t as usize,
        ) by {
            assert(q3(k.tasks[t]));
        }
    }
    assert(k.wake_senders(who).ready == k.ready + w1);
    assert(k.wake_waiters(who).ready == k.ready + w2);
    assert(k.wake_sleepers().ready == k.ready + w3);
}

/// A new task starts from nothing: at its entry point and on its stack, with
/// every register zero and no interrupt masked, with an empty mailbox, waiting
/// for nobody, and last in the queue.
pub proof fn law_new_tasks_start_afresh(
    k: KernelView,
    name: Seq<u8>,
    ttbr0_pa: u64,
    kstack_top: u64,
    entry: u64,
    sp: u64,
)
    requires
        k.inv(),
        k.free_slot() is Some,
    ensures
        ({
            let tid = k.free_slot()->Some_0;
            let k2 = k.make_ready(
                tid as int,
                KernelView::newborn(name, ttbr0_pa, kstack_top, entry, sp),
            );
            let t = k2.tasks[tid as int];
            &&& t.saved.elr == entry && t.saved.sp == sp && t.saved.spsr == 0
            &&& t.saved.x.len() == 31
            &&& forall|i: int| 0 <= i < 31 ==> #[trigger] t.saved.x[i] == 0
            &&& t.ttbr0_pa == ttbr0_pa && t.kstack_top == kstack_top
            &&& t.state == TaskState::Ready
            &&& t.mailbox_len == 0 && t.blocked_send_dst == 0 && t.wake_tick == 0 && t.waiting_on
                == 0
            &&& t.spawned
            &&& k2.ready == k.ready.push(tid)
            &&& k2.inv()
        }),
{
    let tid = k.free_slot()->Some_0;
    lemma_free_slot_from(k, 1);
    crate::sched::lemma_ready_len(k);
    crate::sched::lemma_make_ready_inv(
        k,
        tid as int,
        KernelView::newborn(name, ttbr0_pa, kstack_top, entry, sp),
    );
}

/// A task's name is what it was given, up to eight bytes.
pub proof fn law_names_are_kept(name: Seq<u8>)
    requires
        vstd::utf8::valid_utf8(name),
        name.len() <= 8,
        !name.contains(0),
    ensures
        vstd::utf8::encode_utf8(crate::sched::name_text(crate::sched::padded_name(name))) == name,
        crate::sched::padded_name(name).len() == 8,
{
    let p = crate::sched::padded_name(name);
    assert forall|j: int| 0 <= j < name.len() implies p[j] != 0 by {
        assert(name.contains(name[j]));
    }
    crate::text::lemma_byte_position(p, 0, name.len());
    assert(p.take(name.len() as int) =~= name);
    vstd::utf8::decode_utf8_encode_utf8(name);
}

/// A longer name is cut to its first eight bytes.
pub proof fn law_long_names_are_cut(name: Seq<u8>)
    requires
        name.len() >= 8,
    ensures
        crate::sched::padded_name(name) == name.take(8),
{
    assert(crate::sched::padded_name(name) =~= name.take(8));
}

/// The task list shows exactly the tasks that have not exited, in the order of
/// their numbers.
pub proof fn law_task_list_is_complete(k: KernelView)
    ensures
        ({
            let s = crate::sched::live_tids(k, 8);
            &&& forall|i: int, j: int| 0 <= i < j < s.len() ==> s[i] < s[j]
            &&& forall|i: int|
                0 <= i < s.len() ==> 0 <= #[trigger] s[i] < 8 && k.tasks[s[i]].state
                    != TaskState::Exited
            &&& forall|t: int|
                0 <= t < 8 && #[trigger] k.tasks[t].state != TaskState::Exited ==> s.contains(t)
        }),
{
    lemma_live_tids(k, 8);
}

proof fn lemma_live_tids(k: KernelView, n: int)
    requires
        n <= 8,
    ensures
        ({
            let s = crate::sched::live_tids(k, n);
            &&& forall|i: int, j: int| 0 <= i < j < s.len() ==> s[i] < s[j]
            &&& forall|i: int|
                0 <= i < s.len() ==> 0 <= #[trigger] s[i] < n && k.tasks[s[i]].state
                    != TaskState::Exited
            &&& forall|t: int|
                0 <= t < n && #[trigger] k.tasks[t].state != TaskState::Exited ==> s.contains(t)
        }),
    decreases n,
{
    if n > 0 {
        lemma_live_tids(k, n - 1);
        let s = crate::sched::live_tids(k, n - 1);
        let s2 = crate::sched::live_tids(k, n);
        assert forall|t: int|
            0 <= t < n && #[trigger] k.tasks[t].state != TaskState::Exited implies s2.contains(
            t,
        ) by {
            if t == n - 1 {
                assert(s2[s.len() as int] == t);
            } else {
                let i = choose|i: int| 0 <= i < s.len() && s[i] == t;
                assert(s2[i] == t);
            }
        }
    }
}

/// A tick programs the timer for one period later, and leaves a timer that is not
/// ticking alone.
pub proof fn law_ticks_are_a_period_apart(counter: u64, period: u64)
    requires
        counter + period <= u64::MAX,
    ensures
        match crate::arch::aarch64::timer::next_period(counter, period) {
            Some(r) => period > 0 && r.cval - counter == period && r.ctl is None,
            None => period == 0,
        },
{
}

pub(crate) proof fn lemma_nobody_waits(k: KernelView, who: usize, n: int)
    requires
        n <= 8,
        forall|j: int| 1 <= j < 8 ==> #[trigger] k.tasks[j].state != TaskState::Blocked,
    ensures
        crate::sched::tids_where(k.tasks, KernelView::blocked_waiting_on(who), n)
            == Seq::<usize>::empty(),
    decreases n,
{
    if n > 1 {
        assert(k.tasks[n - 1].state != TaskState::Blocked);
        lemma_nobody_waits(k, who, n - 1);
    }
}

/// The kernel starts idle: no task exists, nothing waits, the clock stands at
/// zero and the timer takes nothing from anybody.
pub proof fn law_kernel_starts_idle()
    ensures
        ({
            let k = KernelView::boot();
            &&& k.inv()
            &&& k.tasks.len() == 8
            &&& forall|j: int|
                0 <= j < 8 ==> (#[trigger] k.tasks[j]).state == TaskState::Exited
                    && !k.tasks[j].spawned && k.tasks[j].mailbox_len == 0
            &&& k.ready.len() == 0
            &&& k.current == 0
            &&& k.user_root is None
            &&& k.pending_kstack_sp == 0
            &&& !k.preempt
            &&& k.preempts == 0
            &&& k.timer.ticks == 0 && k.timer.period == 0
        }),
{
}

/// A tick wakes the sleepers whose deadline it brings and no others, and keeps
/// everybody else asleep.
pub proof fn law_tick_wakes_sleepers(k: KernelView, frame: FrameView, j: int)
    requires
        k.inv(),
        k.timer.ticks < u64::MAX,
        1 <= j < 8,
        j != k.current,
        k.tasks[j].state == TaskState::Blocked,
    ensures
        ({
            let t = crate::arch::aarch64::vectors::tick(k, frame).kernel.tasks[j];
            let due = 0 < k.tasks[j].wake_tick <= k.timer.ticks + 1;
            &&& due ==> t.state != TaskState::Blocked && t.wake_tick == 0
            &&& !due ==> t == k.tasks[j]
            &&& t.saved == k.tasks[j].saved
        }),
{
    let k1 = ticked(k);
    let counted = KernelView {
        timer: Timer {
            ticks: ((k.timer.ticks + 1) % 0x1_0000_0000_0000_0000) as u64,
            ..k.timer
        },
        ..k
    };
    assert(counted.inv());
    crate::sched::lemma_wake_due_inv(counted, counted.timer.ticks, 8);
    assert(k1.inv());
    crate::sched::lemma_ready_len(k1);
    assert(k1.tasks[j].saved == k.tasks[j].saved);
    if k1.preempt && k1.current != 0 {
        let k2 = k1.save(frame);
        assert(k2.tasks[j] == k1.tasks[j]);
        if k2.ready.len() > 0 {
            let next = k2.ready[0] as int;
            assert(k2.ready[0] == k1.ready[0] || next == k1.current);
            assert(k1.tasks[j].state == TaskState::Blocked ==> next != j);
        }
    }
}

/// A name that is no text is shown as a question mark.
pub proof fn law_unreadable_names(name: Seq<u8>)
    requires
        name.len() == 8,
        !name.contains(0),
        !vstd::utf8::valid_utf8(name),
    ensures
        crate::sched::name_text(name) == "?"@,
{
    assert forall|j: int| 0 <= j < name.len() implies name[j] != 0 by {
        assert(name.contains(name[j]));
    }
    crate::text::lemma_byte_position(name, 0, 8);
    assert(name.take(8) =~= name);
}

} // verus!

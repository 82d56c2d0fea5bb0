//! What a user task can rely on, call by call: numbers in registers, bytes in
//! memory, ticks of the clock.
//!
//! Each law is stated over what goes in and what comes out, with the numbers of
//! the calling convention written out.

use crate::arch::aarch64::user::{Svc, SvcActionView};
use crate::arch::aarch64::vectors::FrameView;
use crate::sched::{KernelView, TaskState, TaskView};
use vstd::prelude::*;

verus! {

/// The outcome of the call that `f` makes while the caller's memory holds `mem`
/// at the address in x1. `mem` is at least as long as what the call reads.
pub open spec fn call(k: KernelView, f: FrameView, mem: Seq<u8>) -> Svc {
    crate::arch::aarch64::user::svc(
        k,
        f,
        mem.take(crate::arch::aarch64::user::svc_input_len(f) as int),
    )
}

/// A frame has 31 general registers, and `mem` covers the call's buffer.
pub open spec fn can_call(f: FrameView, mem: Seq<u8>) -> bool {
    &&& f.x.len() == 31
    &&& f.x[2] <= mem.len() || mem.len() >= 256
}

/// The smaller of two numbers.
pub open spec fn least(a: int, b: int) -> int {
    if a <= b {
        a
    } else {
        b
    }
}

/// The same frame but for x0, which holds `v`.
pub open spec fn gives(before: FrameView, after: FrameView, v: int) -> bool {
    &&& after.x.len() == before.x.len()
    &&& after.x[0] == v
    &&& forall|i: int| 1 <= i < 31 ==> #[trigger] after.x[i] == before.x[i]
    &&& after.sp == before.sp
    &&& after.elr == before.elr
    &&& after.spsr == before.spsr
}

/// How much of the caller's memory a call reads: a message up to 32 bytes, what a
/// write to the console names if it is no more than 256, and otherwise nothing.
pub proof fn law_calls_read_their_buffer(f: FrameView)
    ensures
        ({
            let n = crate::arch::aarch64::user::svc_input_len(f) as int;
            let len = f.x[2] as int;
            if f.x[8] == 4 || f.x[8] == 7 {
                n == (if len <= 32 {
                    len
                } else {
                    32
                })
            } else if f.x[8] == 1 && f.x[0] == 1 && len <= 256 {
                n == len
            } else {
                n == 0
            }
        }),
{
}

/// `write`: every byte goes to the console and is counted; another file and more
/// than 256 bytes are refused. The scheduler is not involved.
pub proof fn law_write(k: KernelView, f: FrameView, mem: Seq<u8>)
    requires
        can_call(f, mem),
        f.x[8] == 1,
    ensures
        ({
            let r = call(k, f, mem);
            &&& r.kernel == k
            &&& f.x[0] != 1 ==> gives(f, r.frame, 0xFFFF_FFFF_FFFF_FFFF) && r.action
                == SvcActionView::Resume
            &&& f.x[0] == 1 && f.x[2] > 256 ==> gives(f, r.frame, 0xFFFF_FFFF_FFFF_FFF9)
                && r.action == SvcActionView::Resume
            &&& f.x[0] == 1 && f.x[2] <= 256 ==> gives(f, r.frame, f.x[2] as int) && r.action
                == SvcActionView::Console(crate::text::crlf(mem.take(f.x[2] as int)))
        }),
{
}

/// A call number that means nothing: "no such call", and nothing happens.
pub proof fn law_unknown_calls(k: KernelView, f: FrameView, mem: Seq<u8>)
    requires
        can_call(f, mem),
        f.x[8] == 0 || f.x[8] > 10,
    ensures
        ({
            let r = call(k, f, mem);
            &&& r.kernel == k
            &&& gives(f, r.frame, 0xFFFF_FFFF_FFFF_FFDA)
            &&& r.action == SvcActionView::Unknown(f.x[8])
        }),
{
}

/// Slot `tid` holds a task that can be sent to.
pub open spec fn is_task(k: KernelView, tid: u64) -> bool {
    1 <= tid < 8 && k.tasks[tid as int].state != TaskState::Exited
}

/// Everything about the state but slot `tid`, and the ready queue, is the same.
pub open spec fn same_but(k: KernelView, k2: KernelView, tid: int) -> bool {
    &&& k2.tasks.len() == k.tasks.len()
    &&& forall|j: int|
        0 <= j < k.tasks.len() && j != tid ==> #[trigger] k2.tasks[j] == k.tasks[j]
    &&& k2.current == k.current
    &&& k2.pending_kstack_sp == k.pending_kstack_sp
    &&& k2.user_root == k.user_root
    &&& k2.preempt == k.preempt
    &&& k2.preempts == k.preempts
    &&& k2.timer == k.timer
}

/// `send`: nothing to send is success; otherwise an unknown task and a full
/// mailbox are refused, each with its own number, and nothing changes.
pub proof fn law_send_refused(k: KernelView, f: FrameView, mem: Seq<u8>)
    requires
        can_call(f, mem),
        k.tasks.len() == 8,
        f.x[8] == 4,
        f.x[2] == 0 || !is_task(k, f.x[0]) || k.tasks[f.x[0] as int].mailbox_len > 0,
    ensures
        ({
            let r = call(k, f, mem);
            &&& r.kernel == k
            &&& r.action == SvcActionView::Resume
            &&& gives(
                f,
                r.frame,
                if f.x[2] == 0 {
                    0
                } else if !is_task(k, f.x[0]) {
                    0xFFFF_FFFF_FFFF_FFFD
                } else {
                    0xFFFF_FFFF_FFFF_FFF5
                },
            )
        }),
{
}

/// A `send` or `sendblk` that is accepted returns 0, touches the receiver alone,
/// and leaves it runnable: one that slept is Ready and last in the queue.
pub proof fn law_send_accepted(k: KernelView, f: FrameView, mem: Seq<u8>)
    requires
        can_call(f, mem),
        k.inv(),
        f.x[8] == 4 || f.x[8] == 7,
        f.x[2] > 0,
        is_task(k, f.x[0]),
        k.tasks[f.x[0] as int].mailbox_len == 0,
        k.tasks[f.x[0] as int].mailbox.len() == 32,
    ensures
        ({
            let r = call(k, f, mem);
            let dst = f.x[0] as int;
            let n = least(f.x[2] as int, 32);
            let t = r.kernel.tasks[dst];
            &&& gives(f, r.frame, 0)
            &&& r.action == SvcActionView::Resume
            &&& same_but(k, r.kernel, dst)
            &&& t.mailbox_len == n
            &&& t.mailbox_from == k.current
            &&& t.mailbox.len() == 32
            &&& forall|i: int| 0 <= i < n ==> #[trigger] t.mailbox[i] == mem[i]
            &&& t.saved == k.tasks[dst].saved
            &&& k.tasks[dst].state == TaskState::Blocked ==> t.state == TaskState::Ready
                && r.kernel.ready == k.ready.push(f.x[0] as usize)
            &&& k.tasks[dst].state != TaskState::Blocked ==> t.state == k.tasks[dst].state
                && r.kernel.ready == k.ready
        }),
{
    crate::sched::lemma_ready_len(k);
}

/// `recv` and `recvblk` with no room are refused; so is `recv` with nothing to
/// receive. Nothing changes.
pub proof fn law_recv_refused(k: KernelView, f: FrameView, mem: Seq<u8>)
    requires
        can_call(f, mem),
        f.x[8] == 5 || f.x[8] == 6,
        f.x[1] == 0 || (f.x[8] == 5 && (!(1 <= k.current < 8) || k.tasks[
            k.current as int
        ].mailbox_len == 0)),
    ensures
        ({
            let r = call(k, f, mem);
            &&& r.kernel == k
            &&& r.action == SvcActionView::Resume
            &&& gives(
                f,
                r.frame,
                if f.x[1] == 0 {
                    0xFFFF_FFFF_FFFF_FFEA
                } else {
                    0xFFFF_FFFF_FFFF_FFF5
                },
            )
        }),
{
}

/// A message goes through: what the sender had at its buffer, up to 32 bytes, is
/// what the receiver gets at its own, with its length and the sender's number;
/// and the mailbox is empty again.
pub proof fn law_messages_go_through(
    k: KernelView,
    f: FrameView,
    mem: Seq<u8>,
    g: FrameView,
    mem2: Seq<u8>,
)
    requires
        can_call(f, mem),
        can_call(g, mem2),
        k.inv(),
        f.x[8] == 4 || f.x[8] == 7,
        f.x[2] > 0,
        is_task(k, f.x[0]),
        k.tasks[f.x[0] as int].mailbox_len == 0,
        k.tasks[f.x[0] as int].mailbox.len() == 32,
        g.x[8] == 5 || g.x[8] == 6,
        g.x[1] > 0,
    ensures
        ({
            let k2 = KernelView { current: f.x[0] as usize, ..call(k, f, mem).kernel };
            let r = call(k2, g, mem2);
            let n = least(least(f.x[2] as int, 32), g.x[1] as int);
            &&& r.frame.x[0] == n
            &&& r.frame.x[1] == k.current
            &&& r.action == SvcActionView::CopyOut(g.x[0], mem.take(n))
            &&& r.kernel.tasks[f.x[0] as int].mailbox_len == 0
        }),
{
    law_send_accepted(k, f, mem);
    let k1 = call(k, f, mem).kernel;
    let k2 = KernelView { current: f.x[0] as usize, ..k1 };
    let t = k2.tasks[f.x[0] as int];
    let n = least(least(f.x[2] as int, 32), g.x[1] as int);
    assert(t == k1.tasks[f.x[0] as int]);
    assert(k2.can_recv());
    assert(t.mailbox.take(n) =~= mem.take(n)) by {
        assert forall|i: int| 0 <= i < n implies t.mailbox[i] == mem[i] by {}
    }
}

/// A task that gives way resumes where it left off: its registers are kept as
/// they were but for x0, which is 0, and those behind it in the queue come first.
pub proof fn law_yield(k: KernelView, f: FrameView, mem: Seq<u8>)
    requires
        can_call(f, mem),
        crate::laws::user_running(k),
        f.x[8] == 3,
    ensures
        ({
            let r = call(k, f, mem);
            &&& gives(f, r.kernel.tasks[k.current as int].saved, 0)
            &&& k.ready.len() > 0 ==> {
                &&& r.action == SvcActionView::Resume
                &&& r.kernel.current == k.ready[0]
                &&& r.kernel.ready == k.ready.drop_first().push(k.current)
                &&& r.frame == k.tasks[k.ready[0] as int].saved
            }
            &&& k.ready.len() == 0 ==> {
                &&& r.action == SvcActionView::YieldedAlone
                &&& r.kernel.current == k.current
                &&& r.kernel.ready == k.ready
                &&& gives(f, r.frame, 0)
            }
        }),
{
    let f0 = f.with_x(0, 0);
    crate::laws::law_round_robin(k, f0);
    crate::laws::law_switch_saves_and_restores(k, f0);
    let k2 = k.save_and_switch(f0).kernel;
    let ring = crate::laws::ring(k2);
    assert(ring =~= crate::laws::ring(k).drop_first().push(k.current));
    if k.ready.len() > 0 {
        assert(ring[0] == k.ready[0]);
        assert(k2.ready =~= ring.drop_first());
        assert(k.ready.drop_first().push(k.current) =~= ring.drop_first());
    } else {
        assert(k2.ready =~= k.ready) by {
            assert(ring.len() == 1);
        }
    }
}

/// The frame of a call that is made again: everything as it was, with the program
/// counter back on the call itself.
pub open spec fn calls_again(f: FrameView, saved: FrameView) -> bool {
    &&& saved.x == f.x
    &&& saved.sp == f.sp
    &&& saved.spsr == f.spsr
    &&& (saved.elr + 4) % 0x1_0000_0000_0000_0000 == f.elr
}

/// The caller sleeps and the task that has waited longest runs in its place.
pub open spec fn slept(k: KernelView, r: Svc) -> bool {
    &&& r.action == SvcActionView::Resume
    &&& r.kernel.tasks[k.current as int].state == TaskState::Blocked
    &&& r.kernel.current == k.ready[0]
    &&& r.kernel.tasks[k.ready[0] as int].state == TaskState::Running
    &&& r.kernel.ready == k.ready.drop_first()
    &&& r.frame == k.tasks[k.ready[0] as int].saved
    &&& forall|j: int|
        0 <= j < 8 && j != k.current && j != k.ready[0] ==> #[trigger] r.kernel.tasks[j]
            == k.tasks[j]
}

proof fn lemma_blocked(k: KernelView, t: TaskView, f: FrameView)
    requires
        crate::laws::user_running(k),
        k.ready.len() > 0,
        t.state == TaskState::Running,
    ensures
        ({
            let s = k.with_task(k.current as int, t).block_and_switch(f);
            let r = Svc { kernel: s.kernel, frame: s.frame, action: SvcActionView::Resume };
            &&& s.switched
            &&& slept(k, r)
            &&& s.kernel.tasks[k.current as int] == (TaskView {
                saved: f,
                state: TaskState::Blocked,
                ..t
            })
        }),
{
    let next = k.ready[0];
    assert(k.tasks[next as int].state == TaskState::Ready);
    assert(next != k.current);
}

/// A `recvblk` with nothing to receive sleeps, and makes the call again when it
/// is woken.
pub proof fn law_recvblk_waits(k: KernelView, f: FrameView, mem: Seq<u8>)
    requires
        can_call(f, mem),
        crate::laws::user_running(k),
        k.ready.len() > 0,
        f.x[8] == 6,
        f.x[1] > 0,
        k.tasks[k.current as int].mailbox_len == 0,
    ensures
        ({
            let r = call(k, f, mem);
            &&& slept(k, r)
            &&& calls_again(f, r.kernel.tasks[k.current as int].saved)
        }),
{
    let t = k.tasks[k.current as int];
    lemma_blocked(k, t, crate::arch::aarch64::user::retrying(f));
    assert(k.with_task(k.current as int, t) =~= k);
    lemma_rewound(f);
}

/// A `sendblk` to a full mailbox sleeps, noting whose it is, and makes the call
/// again when it is woken.
pub proof fn law_sendblk_waits(k: KernelView, f: FrameView, mem: Seq<u8>)
    requires
        can_call(f, mem),
        crate::laws::user_running(k),
        k.ready.len() > 0,
        f.x[8] == 7,
        f.x[2] > 0,
        is_task(k, f.x[0]),
        k.tasks[f.x[0] as int].mailbox_len > 0,
    ensures
        ({
            let r = call(k, f, mem);
            &&& slept(k, r)
            &&& calls_again(f, r.kernel.tasks[k.current as int].saved)
            &&& r.kernel.tasks[k.current as int].blocked_send_dst == f.x[0]
        }),
{
    let t = TaskView { blocked_send_dst: f.x[0] as usize, ..k.tasks[k.current as int] };
    lemma_blocked(k, t, crate::arch::aarch64::user::retrying(f));
    lemma_rewound(f);
}

proof fn lemma_rewound(f: FrameView)
    ensures
        calls_again(f, crate::arch::aarch64::user::retrying(f)),
{
    let e = f.elr as int;
    if e >= 4 {
        assert((e - 4) % 0x1_0000_0000_0000_0000 == e - 4);
    } else {
        assert((e - 4) % 0x1_0000_0000_0000_0000 == e - 4 + 0x1_0000_0000_0000_0000);
        assert((e + 0x1_0000_0000_0000_0000) % 0x1_0000_0000_0000_0000 == e);
    }
}

/// `sleep(n)` made at tick `t` lasts until tick `t + n`: the caller sleeps, with
/// 0 as the value it will see, through every tick before that one and is Ready at
/// it.
pub proof fn law_sleep_lasts(k: KernelView, f: FrameView, mem: Seq<u8>, tick: u64)
    requires
        can_call(f, mem),
        crate::laws::user_running(k),
        k.ready.len() > 0,
        f.x[8] == 8,
        0 < k.timer.ticks + f.x[0] <= u64::MAX,
    ensures
        ({
            let r = call(k, f, mem);
            let later = KernelView {
                timer: crate::arch::aarch64::timer::Timer { ticks: tick, ..r.kernel.timer },
                ..r.kernel
            };
            let woken = later.wake_sleepers();
            &&& slept(k, r)
            &&& gives(f, r.kernel.tasks[k.current as int].saved, 0)
            &&& r.kernel.tasks[k.current as int].wake_tick == k.timer.ticks + f.x[0]
            &&& tick < k.timer.ticks + f.x[0] ==> woken.tasks[k.current as int].state
                == TaskState::Blocked
            &&& tick >= k.timer.ticks + f.x[0] ==> woken.tasks[k.current as int].state
                == TaskState::Ready
            &&& woken.tasks[k.current as int].saved == r.kernel.tasks[k.current as int].saved
        }),
{
    let due = (k.timer.ticks + f.x[0]) as u64;
    let t = TaskView { wake_tick: due, ..k.tasks[k.current as int] };
    lemma_blocked(k, t, f.with_x(0, 0));
}

/// A sleep that would end after the last tick ends with it.
pub proof fn law_sleep_is_capped(k: KernelView, f: FrameView, mem: Seq<u8>)
    requires
        can_call(f, mem),
        crate::laws::user_running(k),
        k.ready.len() > 0,
        f.x[8] == 8,
        k.timer.ticks + f.x[0] > u64::MAX,
    ensures
        slept(k, call(k, f, mem)),
        call(k, f, mem).kernel.tasks[k.current as int].wake_tick == 0xFFFF_FFFF_FFFF_FFFF,
{
    let t = TaskView { wake_tick: u64::MAX, ..k.tasks[k.current as int] };
    lemma_blocked(k, t, f.with_x(0, 0));
}

/// A `wait` for a task that lives sleeps, noting for whom, and makes the call
/// again when it is woken.
pub proof fn law_wait_waits(k: KernelView, f: FrameView, mem: Seq<u8>)
    requires
        can_call(f, mem),
        crate::laws::user_running(k),
        k.ready.len() > 0,
        f.x[8] == 10,
        is_task(k, f.x[0]),
    ensures
        ({
            let r = call(k, f, mem);
            &&& slept(k, r)
            &&& calls_again(f, r.kernel.tasks[k.current as int].saved)
            &&& r.kernel.tasks[k.current as int].waiting_on == f.x[0]
        }),
{
    let t = TaskView { waiting_on: f.x[0] as usize, ..k.tasks[k.current as int] };
    lemma_blocked(k, t, crate::arch::aarch64::user::retrying(f));
    lemma_rewound(f);
}

/// What a task exits with is what a `wait` for it returns, bit for bit, whichever
/// way it exits; nobody else ends, and who waited for it sleeps no more.
pub proof fn law_exit_codes_are_collected(
    k: KernelView,
    f: FrameView,
    mem: Seq<u8>,
    parent: usize,
    g: FrameView,
    mem2: Seq<u8>,
)
    requires
        can_call(f, mem),
        can_call(g, mem2),
        crate::laws::user_running(k),
        k.tasks[k.current as int].spawned,
        f.x[8] == 2 || f.x[8] == 9,
        g.x[8] == 10,
        g.x[0] == k.current,
        1 <= parent < 8,
        parent != k.current,
    ensures
        ({
            let k2 = call(k, f, mem).kernel;
            let r = call(KernelView { current: parent, ..k2 }, g, mem2);
            &&& k2.tasks[k.current as int].state == TaskState::Exited
            &&& gives(g, r.frame, f.x[0] as int)
            &&& r.kernel.tasks == k2.tasks
            &&& forall|j: int|
                1 <= j < 8 && j != k.current && k.tasks[j].state == TaskState::Blocked
                    && k.tasks[j].waiting_on == k.current ==> {
                    &&& #[trigger] k2.tasks[j].state != TaskState::Blocked
                    &&& k2.tasks[j].waiting_on == 0
                    &&& k2.tasks[j].saved == k.tasks[j].saved
                }
        }),
{
    let code = crate::arch::aarch64::user::signed_value(f.x[0]);
    crate::laws::law_task_lifecycle(
        k,
        f,
        mem.take(crate::arch::aarch64::user::svc_input_len(f) as int),
    );
    crate::laws::law_exit_ends_one_task(k, f);
    let k1 = crate::arch::aarch64::user::exited(k, code);
    let k2 = call(k, f, mem).kernel;
    assert(k1.tasks[k.current as int].state == TaskState::Exited);
    assert(k1.tasks[k.current as int].exit_code == code);
    assert(k1.tasks[k.current as int].spawned);
    assert(k2.tasks[k.current as int].exit_code == code);
    assert(k2.tasks[k.current as int].spawned);
    assert(crate::arch::aarch64::user::signed_bits(code as int) == f.x[0]);
}

/// A task that is killed is collected as -1.
pub proof fn law_killed_tasks_are_collected(
    k: KernelView,
    f: FrameView,
    parent: usize,
    g: FrameView,
    mem: Seq<u8>,
)
    requires
        can_call(g, mem),
        crate::laws::user_running(k),
        k.tasks[k.current as int].spawned,
        g.x[8] == 10,
        g.x[0] == k.current,
    ensures
        ({
            let k2 = crate::arch::aarch64::vectors::killed(k, f).kernel;
            let t = k2.tasks[k.current as int];
            &&& gives(
                g,
                call(KernelView { current: parent, ..k2 }, g, mem).frame,
                0xFFFF_FFFF_FFFF_FFFF,
            )
            &&& t.blocked_send_dst == 0 && t.wake_tick == 0 && t.waiting_on == 0
            &&& t.mailbox_len == 0 && t.mailbox_from == 0
        }),
{
    crate::laws::law_fault_kills_one_task(k, f);
    let k1 = k.kill();
    assert(k1.tasks[k.current as int].exit_code == -1);
    if k.ready.len() > 0 {
        assert(k.tasks[k.ready[0] as int].state == TaskState::Ready);
        assert(k.ready[0] != k.current);
    }
}

/// With nobody else to run, a blocking call fails instead: the caller goes on
/// behind the call with "try again".
pub proof fn law_blocking_alone_fails(k: KernelView, f: FrameView, mem: Seq<u8>)
    requires
        can_call(f, mem),
        crate::laws::user_running(k),
        k.ready.len() == 0,
        ({
            ||| f.x[8] == 6 && f.x[1] > 0 && k.tasks[k.current as int].mailbox_len == 0
            ||| f.x[8] == 7 && f.x[2] > 0 && is_task(k, f.x[0]) && k.tasks[
                f.x[0] as int
            ].mailbox_len > 0
        }),
    ensures
        ({
            let r = call(k, f, mem);
            &&& gives(f, r.frame, 0xFFFF_FFFF_FFFF_FFF5)
            &&& r.kernel.current == k.current
            &&& r.kernel.ready == k.ready
            &&& f.x[8] == 7 ==> r.kernel.tasks[k.current as int].blocked_send_dst == 0
        }),
{
}

/// With nobody else to run, a `sleep` returns at once, and a `wait` makes its
/// call again at once.
pub proof fn law_nobody_to_wait_with(k: KernelView, f: FrameView, mem: Seq<u8>)
    requires
        can_call(f, mem),
        crate::laws::user_running(k),
        k.ready.len() == 0,
    ensures
        ({
            let r = call(k, f, mem);
            &&& f.x[8] == 8 ==> gives(f, r.frame, 0) && r.kernel.current == k.current
            &&& f.x[8] == 10 && is_task(k, f.x[0]) ==> calls_again(f, r.frame) && r.kernel.current
                == k.current && r.kernel.tasks[k.current as int].waiting_on == f.x[0]
        }),
{
    lemma_rewound(f);
}

/// Receiving a message touches nobody but the receiver and those who wait to send
/// to it, and these are woken with nothing else about them changed.
pub proof fn law_recv_touches_senders_only(k: KernelView, f: FrameView, mem: Seq<u8>, j: int)
    requires
        can_call(f, mem),
        k.tasks.len() == 8,
        1 <= k.current < 8,
        k.tasks[k.current as int].mailbox_len > 0,
        f.x[8] == 5 || f.x[8] == 6,
        f.x[1] > 0,
        1 <= j < 8,
    ensures
        ({
            let r = call(k, f, mem);
            let t = k.tasks[j];
            let t2 = r.kernel.tasks[j];
            let waits = t.state == TaskState::Blocked && t.blocked_send_dst == k.current;
            &&& r.kernel.current == k.current
            &&& j == k.current ==> t2.mailbox_len == 0 && t2.mailbox_from == 0
            &&& j != k.current && !waits ==> t2 == t
            &&& j != k.current && waits ==> t2 == (TaskView {
                state: TaskState::Ready,
                blocked_send_dst: 0,
                ..t
            })
        }),
{
}

/// The last task's exit gives the machine back to the monitor, without a user
/// address space and without preemption.
pub proof fn law_last_exit_returns_to_the_monitor(k: KernelView, f: FrameView, mem: Seq<u8>)
    requires
        can_call(f, mem),
        crate::laws::user_running(k),
        k.ready.len() == 0,
        forall|j: int| 1 <= j < 8 ==> #[trigger] k.tasks[j].state != TaskState::Blocked,
        f.x[8] == 2 || f.x[8] == 9,
    ensures
        ({
            let r = call(k, f, mem);
            &&& r.action == SvcActionView::Monitor(k.current)
            &&& r.kernel.user_root is None
            &&& !r.kernel.preempt
            &&& r.kernel.tasks[k.current as int].state == TaskState::Exited
        }),
{
    let code = crate::arch::aarch64::user::signed_value(f.x[0]);
    crate::laws::law_exit_ends_one_task(k, f);
    let k1 = k.with_task(
        k.current as int,
        TaskView { state: TaskState::Exited, exit_code: code, ..k.tasks[k.current as int] },
    );
    let k2 = crate::arch::aarch64::user::exited(k, code);
    crate::laws::lemma_nobody_waits(k1, k.current, 8);
    assert(k2.ready.len() == 0);
}

/// Calls made while no task runs never block and never switch: each is answered
/// at once, and the state stays as it is but for what an exit takes down.
pub proof fn law_kernel_never_blocks(k: KernelView, f: FrameView, mem: Seq<u8>)
    requires
        can_call(f, mem),
        k.inv(),
        k.current == 0,
    ensures
        ({
            let r = call(k, f, mem);
            &&& f.x[8] == 3 ==> r.kernel == k && gives(f, r.frame, 0) && r.action
                == SvcActionView::YieldedAlone
            &&& f.x[8] == 6 && f.x[1] > 0 ==> r.kernel == k && gives(
                f,
                r.frame,
                0xFFFF_FFFF_FFFF_FFF5,
            )
            &&& f.x[8] == 7 && f.x[2] > 0 && is_task(k, f.x[0]) && k.tasks[
                f.x[0] as int
            ].mailbox_len > 0 ==> r.kernel == k && gives(f, r.frame, 0xFFFF_FFFF_FFFF_FFF5)
            &&& f.x[8] == 8 ==> r.kernel == k && gives(f, r.frame, 0)
            &&& f.x[8] == 2 || f.x[8] == 9 ==> r.action == SvcActionView::Monitor(0)
                && r.kernel.tasks == k.tasks && r.kernel.user_root is None && !r.kernel.preempt
        }),
{
}

} // verus!

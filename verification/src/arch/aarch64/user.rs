//! User tasks: the system calls they make.

use crate::arch::aarch64::vectors::{FrameView, TrapFrame};
use crate::sched::{
    block_and_switch, ipc_recv, ipc_send, preempt_off, save_and_switch, try_wait, wake_waiters,
    Kernel, KernelView, TaskState, TaskView, EAGAIN, MAX_TASKS, MSG_MAX,
};
use crate::text::crlf_bytes;
use vstd::prelude::*;

verus! {

/// `write(fd, buf, len)`: x0 = bytes written.
pub const SYS_WRITE: u64 = 1;

/// `exit()`: does not return.
pub const SYS_EXIT: u64 = 2;

/// `yield()`: x0 = 0.
pub const SYS_YIELD: u64 = 3;

/// `send(tid, buf, len)`: x0 = 0, or a negative error number.
pub const SYS_SEND: u64 = 4;

/// `recv(buf, len)`: x0 = bytes received and x1 = the sender, or x0 = a
/// negative error number.
pub const SYS_RECV: u64 = 5;

/// `recvblk(buf, len)`: `recv`, but sleeping until a message arrives.
pub const SYS_RECVBLK: u64 = 6;

/// `sendblk(tid, buf, len)`: `send`, but sleeping until there is room.
pub const SYS_SENDBLK: u64 = 7;

/// `sleep(ticks)`: x0 = 0 on waking.
pub const SYS_SLEEP: u64 = 8;

/// `exit(code)`: does not return.
pub const SYS_EXIT_CODE: u64 = 9;

/// `wait(tid)`: x0 = the child's exit code, or a negative error number.
pub const SYS_WAIT: u64 = 10;

/// The longest `write` the kernel accepts.
pub const WRITE_MAX: u64 = 256;

/// The register pattern of a signed value: two's complement.
pub open spec fn signed_bits(v: int) -> u64 {
    if v < 0 {
        (v + 0x1_0000_0000_0000_0000) as u64
    } else {
        v as u64
    }
}

/// The signed value of a register pattern.
pub open spec fn signed_value(bits: u64) -> i64 {
    if bits < 0x8000_0000_0000_0000 {
        bits as i64
    } else {
        (bits - 0x1_0000_0000_0000_0000) as i64
    }
}

/// A signed value as it is put in a register.
fn to_register(v: i64) -> (bits: u64)
    ensures
        bits == signed_bits(v as int),
{
    let bits: u64 = v as u64;
    assert(v < 0 ==> v as u64 == v + 0x1_0000_0000_0000_0000) by (bit_vector);
    assert(v >= 0 ==> v as u64 == v) by (bit_vector);
    bits
}

/// A register read as a signed value.
fn from_register(bits: u64) -> (v: i64)
    ensures
        v == signed_value(bits),
{
    let v: i64 = bits as i64;
    assert(bits < 0x8000_0000_0000_0000 ==> bits as i64 == bits) by (bit_vector);
    assert(bits >= 0x8000_0000_0000_0000 ==> bits as i64 == bits - 0x1_0000_0000_0000_0000)
        by (bit_vector);
    v
}

/// The address four bytes below `a`: the instruction before, in a 64-bit
/// address space.
pub open spec fn prev_insn(a: u64) -> u64 {
    ((a - 4) % 0x1_0000_0000_0000_0000) as u64
}

/// The task a register names: its value, or a number no task has.
pub open spec fn tid_arg(x: u64) -> usize {
    if x < MAX_TASKS {
        x as usize
    } else {
        MAX_TASKS
    }
}

/// What remains to be done for a system call once the scheduling state and the
/// frame have been updated.
pub enum SvcAction {
    /// Nothing: return through the frame.
    Resume,
    /// Send these bytes to the console, then return through the frame.
    Console(Vec<u8>),
    /// Store these bytes at this address of the caller's address space, then
    /// return through the frame.
    CopyOut { va: u64, bytes: Vec<u8> },
    /// Report that a yield found no other task, then return through the frame.
    YieldedAlone,
    /// Report that task `tid` exited, then return through the frame, which is
    /// another task's.
    Exited { tid: usize },
    /// Report that task `tid` exited and go back to the monitor: no task is
    /// left to run.
    Monitor { tid: usize },
    /// Report the unknown call number, then return through the frame.
    Unknown { nr: u64 },
}

/// `SvcAction` as a mathematical value.
#[verifier::ext_equal]
pub enum SvcActionView {
    Resume,
    Console(Seq<u8>),
    CopyOut(u64, Seq<u8>),
    YieldedAlone,
    Exited(usize),
    Monitor(usize),
    Unknown(u64),
}

impl View for SvcAction {
    type V = SvcActionView;

    open spec fn view(&self) -> SvcActionView {
        match *self {
            SvcAction::Resume => SvcActionView::Resume,
            SvcAction::Console(b) => SvcActionView::Console(b@),
            SvcAction::CopyOut { va, bytes } => SvcActionView::CopyOut(va, bytes@),
            SvcAction::YieldedAlone => SvcActionView::YieldedAlone,
            SvcAction::Exited { tid } => SvcActionView::Exited(tid),
            SvcAction::Monitor { tid } => SvcActionView::Monitor(tid),
            SvcAction::Unknown { nr } => SvcActionView::Unknown(nr),
        }
    }
}

/// The outcome of a system call.
#[verifier::ext_equal]
pub struct Svc {
    pub kernel: KernelView,
    pub frame: FrameView,
    pub action: SvcActionView,
}

/// The call returns `v` in x0 and changes nothing else.
pub open spec fn svc_value(k: KernelView, frame: FrameView, v: u64) -> Svc {
    Svc { kernel: k, frame: frame.with_x(0, v), action: SvcActionView::Resume }
}

/// The call fails with error number `e`.
pub open spec fn svc_error(k: KernelView, frame: FrameView, e: int) -> Svc {
    svc_value(k, frame, signed_bits(e))
}

pub open spec fn min_nat(a: nat, b: nat) -> nat {
    if a < b {
        a
    } else {
        b
    }
}

/// How many bytes of the caller's memory, from x1 on, the call reads.
pub open spec fn svc_input_len(frame: FrameView) -> nat {
    let nr = frame.x[8];
    if nr == SYS_WRITE && frame.x[0] == 1 && frame.x[2] <= WRITE_MAX {
        frame.x[2] as nat
    } else if nr == SYS_SEND || nr == SYS_SENDBLK {
        min_nat(frame.x[2] as nat, MSG_MAX as nat)
    } else {
        0
    }
}

pub open spec fn svc_write(k: KernelView, frame: FrameView, input: Seq<u8>) -> Svc {
    if frame.x[0] != 1 {
        svc_error(k, frame, -1)
    } else if frame.x[2] > WRITE_MAX {
        svc_error(k, frame, -7)
    } else {
        Svc {
            kernel: k,
            frame: frame.with_x(0, frame.x[2]),
            action: SvcActionView::Console(crate::text::crlf(input)),
        }
    }
}

/// The caller sees x0 = 0 when it runs again.
pub open spec fn svc_yield(k: KernelView, frame: FrameView) -> Svc {
    let f = frame.with_x(0, 0);
    if k.current == 0 {
        Svc { kernel: k, frame: f, action: SvcActionView::YieldedAlone }
    } else {
        let s = k.save_and_switch(f);
        Svc {
            kernel: s.kernel,
            frame: s.frame,
            action: if s.switched {
                SvcActionView::Resume
            } else {
                SvcActionView::YieldedAlone
            },
        }
    }
}

pub open spec fn svc_send(k: KernelView, frame: FrameView, input: Seq<u8>) -> Svc {
    let dst = tid_arg(frame.x[0]);
    if frame.x[2] == 0 {
        svc_value(k, frame, 0)
    } else {
        match k.send_error(dst) {
            Some(e) => svc_error(k, frame, e as int),
            None => svc_value(k.deliver(dst, input), frame, 0),
        }
    }
}

/// A message received: x0 = its length, x1 = the sender, the bytes to be stored
/// at the caller's buffer.
pub open spec fn svc_received(k: KernelView, frame: FrameView) -> Svc {
    let t = k.tasks[k.current as int];
    let n = k.recv_len(min_nat(frame.x[1] as nat, MSG_MAX as nat));
    Svc {
        kernel: k.drain(),
        frame: frame.with_x(0, n as u64).with_x(1, t.mailbox_from as u64),
        action: SvcActionView::CopyOut(frame.x[0], t.mailbox.take(n as int)),
    }
}

pub open spec fn svc_recv(k: KernelView, frame: FrameView) -> Svc {
    if frame.x[1] == 0 {
        svc_error(k, frame, -22)
    } else if k.can_recv() {
        svc_received(k, frame)
    } else {
        svc_error(k, frame, -EAGAIN)
    }
}

/// The frame of a caller that will make the same call again when it resumes.
pub open spec fn retrying(frame: FrameView) -> FrameView {
    FrameView { elr: prev_insn(frame.elr), ..frame }
}

/// An empty mailbox puts the caller to sleep, set up to call again. With nobody
/// else to run the call fails instead.
pub open spec fn svc_recvblk(k: KernelView, frame: FrameView) -> Svc {
    if frame.x[1] == 0 {
        svc_error(k, frame, -22)
    } else if k.can_recv() {
        svc_received(k, frame)
    } else {
        let s = k.block_and_switch(retrying(frame));
        if s.switched {
            Svc { kernel: s.kernel, frame: s.frame, action: SvcActionView::Resume }
        } else {
            svc_error(s.kernel, frame, -EAGAIN)
        }
    }
}

/// The current task, if there is one, with its send destination noted.
pub open spec fn note_send_dst(k: KernelView, dst: usize) -> KernelView {
    let cur = k.current as int;
    if k.live(cur) {
        k.with_task(cur, TaskView { blocked_send_dst: dst, ..k.tasks[cur] })
    } else {
        k
    }
}

/// A full mailbox puts the caller to sleep, set up to call again. With nobody
/// else to run the call fails instead.
pub open spec fn svc_sendblk(k: KernelView, frame: FrameView, input: Seq<u8>) -> Svc {
    let dst = tid_arg(frame.x[0]);
    if frame.x[2] == 0 {
        svc_value(k, frame, 0)
    } else {
        match k.send_error(dst) {
            None => svc_value(k.deliver(dst, input), frame, 0),
            Some(e) => if e != -EAGAIN || k.current == 0 {
                svc_error(k, frame, e as int)
            } else {
                let s = note_send_dst(k, dst).block_and_switch(retrying(frame));
                if s.switched {
                    Svc { kernel: s.kernel, frame: s.frame, action: SvcActionView::Resume }
                } else {
                    svc_error(note_send_dst(s.kernel, 0), frame, -EAGAIN)
                }
            },
        }
    }
}

/// The tick `ticks` from `now`, or the last there is.
pub open spec fn deadline(now: u64, ticks: u64) -> u64 {
    if now + ticks > u64::MAX {
        u64::MAX
    } else {
        (now + ticks) as u64
    }
}

/// The caller sleeps until the tick counter has advanced by x0, and then sees
/// x0 = 0.
pub open spec fn svc_sleep(k: KernelView, frame: FrameView) -> Svc {
    let cur = k.current as int;
    let k1 = if k.live(cur) {
        k.with_task(
            cur,
            TaskView { wake_tick: deadline(k.timer.ticks, frame.x[0]), ..k.tasks[cur] },
        )
    } else {
        k
    };
    let s = k1.block_and_switch(frame.with_x(0, 0));
    Svc { kernel: s.kernel, frame: s.frame, action: SvcActionView::Resume }
}

/// The current task has exited with `code` and the tasks waiting for it are
/// woken.
pub open spec fn exited(k: KernelView, code: i64) -> KernelView {
    let cur = k.current as int;
    let k1 = if k.live(cur) {
        k.with_task(cur, TaskView { state: TaskState::Exited, exit_code: code, ..k.tasks[cur] })
    } else {
        k
    };
    k1.wake_waiters(k.current)
}

/// The state the monitor runs in: no user address space, no preemption.
pub open spec fn monitor_state(k: KernelView) -> KernelView {
    KernelView { preempt: false, user_root: None, ..k }
}

pub open spec fn svc_exit(k: KernelView, frame: FrameView) -> Svc {
    let tid = k.current;
    if tid == 0 {
        Svc { kernel: monitor_state(k), frame, action: SvcActionView::Monitor(tid) }
    } else {
        let s = exited(k, signed_value(frame.x[0])).save_and_switch(frame);
        if s.switched {
            Svc { kernel: s.kernel, frame: s.frame, action: SvcActionView::Exited(tid) }
        } else {
            Svc {
                kernel: monitor_state(s.kernel),
                frame: s.frame,
                action: SvcActionView::Monitor(tid),
            }
        }
    }
}

/// A child that still lives puts the caller to sleep, set up to call again.
pub open spec fn svc_wait(k: KernelView, frame: FrameView) -> Svc {
    let child = tid_arg(frame.x[0]);
    match k.wait_result(child) {
        Ok(code) => svc_value(k, frame, signed_bits(code as int)),
        Err(e) => if e != EAGAIN {
            svc_error(k, frame, -e)
        } else {
            let cur = k.current as int;
            let k1 = if k.live(cur) {
                k.with_task(cur, TaskView { waiting_on: child, ..k.tasks[cur] })
            } else {
                k
            };
            let s = k1.block_and_switch(retrying(frame));
            Svc { kernel: s.kernel, frame: s.frame, action: SvcActionView::Resume }
        },
    }
}

/// The outcome of the system call in `frame`, where `input` is what the
/// caller's memory holds from x1 on.
pub open spec fn svc(k: KernelView, frame: FrameView, input: Seq<u8>) -> Svc {
    let nr = frame.x[8];
    if nr == SYS_WRITE {
        svc_write(k, frame, input)
    } else if nr == SYS_YIELD {
        svc_yield(k, frame)
    } else if nr == SYS_SEND {
        svc_send(k, frame, input)
    } else if nr == SYS_RECV {
        svc_recv(k, frame)
    } else if nr == SYS_RECVBLK {
        svc_recvblk(k, frame)
    } else if nr == SYS_SENDBLK {
        svc_sendblk(k, frame, input)
    } else if nr == SYS_SLEEP {
        svc_sleep(k, frame)
    } else if nr == SYS_EXIT || nr == SYS_EXIT_CODE {
        svc_exit(k, frame)
    } else if nr == SYS_WAIT {
        svc_wait(k, frame)
    } else {
        Svc {
            kernel: k,
            frame: frame.with_x(0, signed_bits(-38)),
            action: SvcActionView::Unknown(nr),
        }
    }
}

fn tid_arg_of(x: u64) -> (tid: usize)
    ensures
        tid == tid_arg(x),
{
    if x < MAX_TASKS as u64 {
        x as usize
    } else {
        MAX_TASKS
    }
}

/// The part of the caller's memory the call reads: an address and a length.
pub fn svc_input(frame: &TrapFrame) -> (r: (u64, usize))
    ensures
        r.0 == frame@.x[1],
        r.1 == svc_input_len(frame@),
{
    let nr: u64 = frame.x[8];
    let len: u64 = frame.x[2];
    let n: usize = if nr == SYS_WRITE && frame.x[0] == 1 && len <= WRITE_MAX {
        len as usize
    } else if nr == SYS_SEND || nr == SYS_SENDBLK {
        if len < MSG_MAX as u64 {
            len as usize
        } else {
            MSG_MAX
        }
    } else {
        0
    };
    (frame.x[1], n)
}

fn set_result(frame: &mut TrapFrame, v: u64)
    ensures
        final(frame)@ == old(frame)@.with_x(0, v),
{
    frame.x[0] = v;
    assert(frame@ =~= old(frame)@.with_x(0, v));
}

fn set_error(frame: &mut TrapFrame, e: i64)
    ensures
        final(frame)@ == old(frame)@.with_x(0, signed_bits(e as int)),
{
    let bits: u64 = to_register(e);
    set_result(frame, bits);
}

fn do_write(frame: &mut TrapFrame, input: &[u8]) -> (action: SvcAction)
    ensures
        forall|k: KernelView| #[trigger]
            svc_write(k, old(frame)@, input@) == (Svc {
                kernel: k,
                frame: final(frame)@,
                action: action@,
            }),
{
    if frame.x[0] != 1 {
        set_error(frame, -1);
        return SvcAction::Resume;
    }
    let len: u64 = frame.x[2];
    if len > WRITE_MAX {
        set_error(frame, -7);
        return SvcAction::Resume;
    }
    let out = crlf_bytes(input);
    set_result(frame, len);
    SvcAction::Console(out)
}

fn do_yield(k: &mut Kernel, frame: &mut TrapFrame) -> (action: SvcAction)
    requires
        old(k).wf(),
    ensures
        final(k).wf(),
        svc_yield(old(k)@, old(frame)@) == (Svc {
            kernel: final(k)@,
            frame: final(frame)@,
            action: action@,
        }),
        old(k)@.inv() ==> final(k)@.inv(),
{
    set_result(frame, 0);
    let switched: bool = if k.current != 0 {
        save_and_switch(k, frame)
    } else {
        false
    };
    if switched {
        SvcAction::Resume
    } else {
        SvcAction::YieldedAlone
    }
}

fn do_send(k: &mut Kernel, frame: &mut TrapFrame, input: &[u8]) -> (action: SvcAction)
    requires
        old(k).wf(),
    ensures
        final(k).wf(),
        svc_send(old(k)@, old(frame)@, input@) == (Svc {
            kernel: final(k)@,
            frame: final(frame)@,
            action: action@,
        }),
        old(k)@.inv() ==> final(k)@.inv(),
{
    if frame.x[2] == 0 {
        set_result(frame, 0);
        return SvcAction::Resume;
    }
    let dst: usize = tid_arg_of(frame.x[0]);
    match ipc_send(k, dst, input) {
        Ok(()) => set_result(frame, 0),
        Err(e) => set_error(frame, e),
    }
    SvcAction::Resume
}

/// Receive into a kernel buffer of `cap` bytes.
fn receive(k: &mut Kernel, cap: usize) -> (r: Option<(Vec<u8>, usize)>)
    requires
        old(k).wf(),
    ensures
        final(k).wf(),
        r is Some == old(k)@.can_recv(),
        match r {
            Some((bytes, from)) => {
                let t = old(k)@.tasks[old(k)@.current as int];
                &&& bytes@ == t.mailbox.take(old(k)@.recv_len(cap as nat) as int)
                &&& from == t.mailbox_from
                &&& final(k)@ == old(k)@.drain()
            },
            None => final(k)@ == old(k)@,
        },
        old(k)@.inv() ==> final(k)@.inv(),
{
    let mut msg: Vec<u8> = Vec::new();
    let mut i: usize = 0;
    while i < cap
        invariant
            msg@.len() == i,
            i <= cap,
        decreases cap - i,
    {
        msg.push(0);
        i = i + 1;
    }
    match ipc_recv(k, msg.as_mut_slice()) {
        Ok((n, from)) => {
            let ghost t = old(k)@.tasks[old(k)@.current as int];
            msg.truncate(n);
            assert(msg@ =~= t.mailbox.take(n as int));
            Some((msg, from))
        },
        Err(_) => None,
    }
}

/// Hand a received message to the caller.
fn return_message(frame: &mut TrapFrame, bytes: Vec<u8>, from: usize) -> (action: SvcAction)
    ensures
        final(frame)@ == old(frame)@.with_x(0, bytes@.len() as u64).with_x(1, from as u64),
        action@ == SvcActionView::CopyOut(old(frame)@.x[0], bytes@),
{
    let va: u64 = frame.x[0];
    set_result(frame, bytes.len() as u64);
    frame.x[1] = from as u64;
    assert(frame@ =~= old(frame)@.with_x(0, bytes@.len() as u64).with_x(1, from as u64));
    SvcAction::CopyOut { va, bytes }
}

fn recv_capacity(len: u64) -> (cap: usize)
    ensures
        cap == min_nat(len as nat, MSG_MAX as nat),
{
    if len < MSG_MAX as u64 {
        len as usize
    } else {
        MSG_MAX
    }
}

fn do_recv(k: &mut Kernel, frame: &mut TrapFrame) -> (action: SvcAction)
    requires
        old(k).wf(),
    ensures
        final(k).wf(),
        svc_recv(old(k)@, old(frame)@) == (Svc {
            kernel: final(k)@,
            frame: final(frame)@,
            action: action@,
        }),
        old(k)@.inv() ==> final(k)@.inv(),
{
    if frame.x[1] == 0 {
        set_error(frame, -22);
        return SvcAction::Resume;
    }
    let cap: usize = recv_capacity(frame.x[1]);
    match receive(k, cap) {
        Some((bytes, from)) => return_message(frame, bytes, from),
        None => {
            set_error(frame, -EAGAIN);
            SvcAction::Resume
        },
    }
}

/// Point the frame at the `svc` again.
fn rewind(frame: &mut TrapFrame)
    ensures
        final(frame)@ == retrying(old(frame)@),
{
    frame.elr = frame.elr.wrapping_sub(4);
    assert(frame@ =~= retrying(old(frame)@));
}

/// Undo `rewind`.
fn unwind(frame: &mut TrapFrame, before: Ghost<FrameView>)
    requires
        old(frame)@ == retrying(before@),
    ensures
        final(frame)@ == before@,
{
    frame.elr = frame.elr.wrapping_add(4);
    assert(frame@ =~= before@);
}

fn do_recvblk(k: &mut Kernel, frame: &mut TrapFrame) -> (action: SvcAction)
    requires
        old(k).wf(),
    ensures
        final(k).wf(),
        svc_recvblk(old(k)@, old(frame)@) == (Svc {
            kernel: final(k)@,
            frame: final(frame)@,
            action: action@,
        }),
        old(k)@.inv() && old(k)@.current_unqueued() ==> final(k)@.inv(),
{
    if frame.x[1] == 0 {
        set_error(frame, -22);
        return SvcAction::Resume;
    }
    let cap: usize = recv_capacity(frame.x[1]);
    match receive(k, cap) {
        Some((bytes, from)) => return_message(frame, bytes, from),
        None => {
            let ghost f0 = frame@;
            rewind(frame);
            if !block_and_switch(k, frame) {
                unwind(frame, Ghost(f0));
                set_error(frame, -EAGAIN);
            }
            SvcAction::Resume
        },
    }
}

/// Note in the current task, if there is one, whom it is blocked sending to.
fn set_send_dst(k: &mut Kernel, dst: usize)
    requires
        old(k).wf(),
    ensures
        final(k).wf(),
        final(k)@ == note_send_dst(old(k)@, dst),
        old(k)@.inv() ==> final(k)@.inv(),
        old(k)@.current_unqueued() ==> final(k)@.current_unqueued(),
{
    let cur: usize = k.current;
    if cur < MAX_TASKS && k.tasks[cur].state != TaskState::Exited {
        k.tasks[cur].blocked_send_dst = dst;
    }
    proof {
        assert(k@ =~= note_send_dst(old(k)@, dst));
        if old(k)@.inv() && old(k)@.live(cur as int) {
            crate::sched::lemma_with_task_inv(old(k)@, cur as int, k@.tasks[cur as int]);
        }
    }
}

fn do_sendblk(k: &mut Kernel, frame: &mut TrapFrame, input: &[u8]) -> (action: SvcAction)
    requires
        old(k).wf(),
    ensures
        final(k).wf(),
        svc_sendblk(old(k)@, old(frame)@, input@) == (Svc {
            kernel: final(k)@,
            frame: final(frame)@,
            action: action@,
        }),
        old(k)@.inv() && old(k)@.current_unqueued() ==> final(k)@.inv(),
{
    if frame.x[2] == 0 {
        set_result(frame, 0);
        return SvcAction::Resume;
    }
    let dst: usize = tid_arg_of(frame.x[0]);
    match ipc_send(k, dst, input) {
        Ok(()) => set_result(frame, 0),
        Err(e) => {
            if e != -EAGAIN || k.current == 0 {
                set_error(frame, e);
            } else {
                let ghost f0 = frame@;
                set_send_dst(k, dst);
                rewind(frame);
                if !block_and_switch(k, frame) {
                    unwind(frame, Ghost(f0));
                    set_send_dst(k, 0);
                    set_error(frame, -EAGAIN);
                }
            }
        },
    }
    SvcAction::Resume
}

fn do_sleep(k: &mut Kernel, frame: &mut TrapFrame) -> (action: SvcAction)
    requires
        old(k).wf(),
    ensures
        final(k).wf(),
        svc_sleep(old(k)@, old(frame)@) == (Svc {
            kernel: final(k)@,
            frame: final(frame)@,
            action: action@,
        }),
        old(k)@.inv() && old(k)@.current_unqueued() ==> final(k)@.inv(),
{
    let due: u64 = k.timer.ticks.saturating_add(frame.x[0]);
    let cur: usize = k.current;
    if cur < MAX_TASKS && k.tasks[cur].state != TaskState::Exited {
        k.tasks[cur].wake_tick = due;
    }
    proof {
        let t = TaskView { wake_tick: due, ..old(k)@.tasks[cur as int] };
        if old(k)@.live(cur as int) {
            assert(k@ =~= old(k)@.with_task(cur as int, t));
            if old(k)@.inv() {
                crate::sched::lemma_with_task_inv(old(k)@, cur as int, t);
            }
        } else {
            assert(k@ =~= old(k)@);
        }
    }
    set_result(frame, 0);
    let _ = block_and_switch(k, frame);
    SvcAction::Resume
}

fn do_exit(k: &mut Kernel, frame: &mut TrapFrame) -> (action: SvcAction)
    requires
        old(k).wf(),
    ensures
        final(k).wf(),
        svc_exit(old(k)@, old(frame)@) == (Svc {
            kernel: final(k)@,
            frame: final(frame)@,
            action: action@,
        }),
        old(k)@.inv() && old(k)@.current_unqueued() ==> final(k)@.inv(),
{
    let tid: usize = k.current;
    let code: i64 = from_register(frame.x[0]);
    let switched: bool = if tid != 0 {
        if tid < MAX_TASKS && k.tasks[tid].state != TaskState::Exited {
            k.tasks[tid].exit_code = code;
            k.tasks[tid].state = TaskState::Exited;
        }
        proof {
            let t = TaskView {
                state: TaskState::Exited,
                exit_code: code,
                ..old(k)@.tasks[tid as int]
            };
            if old(k)@.live(tid as int) {
                assert(k@ =~= old(k)@.with_task(tid as int, t));
                if old(k)@.inv() && old(k)@.current_unqueued() {
                    crate::sched::lemma_retire_inv(old(k)@, tid as int, t);
                }
            } else {
                assert(k@ =~= old(k)@);
            }
        }
        wake_waiters(k, tid);
        save_and_switch(k, frame)
    } else {
        false
    };
    if switched {
        SvcAction::Exited { tid }
    } else {
        let ghost k1 = k@;
        preempt_off(k);
        k.user_root = None;
        proof {
            assert(k@ =~= monitor_state(k1));
            if k1.inv() {
                lemma_monitor_inv(k1);
            }
        }
        SvcAction::Monitor { tid }
    }
}

proof fn lemma_monitor_inv(k: KernelView)
    requires
        k.inv(),
    ensures
        monitor_state(k).inv(),
{
    let k2 = monitor_state(k);
    assert(k2.tasks == k.tasks && k2.ready == k.ready && k2.current == k.current);
}

fn do_wait(k: &mut Kernel, frame: &mut TrapFrame) -> (action: SvcAction)
    requires
        old(k).wf(),
    ensures
        final(k).wf(),
        svc_wait(old(k)@, old(frame)@) == (Svc {
            kernel: final(k)@,
            frame: final(frame)@,
            action: action@,
        }),
        old(k)@.inv() && old(k)@.current_unqueued() ==> final(k)@.inv(),
{
    let child: usize = tid_arg_of(frame.x[0]);
    match try_wait(k, child) {
        Ok(code) => {
            let bits: u64 = to_register(code);
            set_result(frame, bits);
        },
        Err(e) => {
            if e != EAGAIN {
                set_error(frame, -e);
            } else {
                let cur: usize = k.current;
                if cur < MAX_TASKS && k.tasks[cur].state != TaskState::Exited {
                    k.tasks[cur].waiting_on = child;
                }
                proof {
                    let t = TaskView { waiting_on: child, ..old(k)@.tasks[cur as int] };
                    if old(k)@.live(cur as int) {
                        assert(k@ =~= old(k)@.with_task(cur as int, t));
                        if old(k)@.inv() {
                            crate::sched::lemma_with_task_inv(old(k)@, cur as int, t);
                        }
                    } else {
                        assert(k@ =~= old(k)@);
                    }
                }
                rewind(frame);
                let _ = block_and_switch(k, frame);
            }
        },
    }
    SvcAction::Resume
}

/// Handle a system call from EL0. `input` is what the caller's memory holds at
/// the address and for the length `svc_input` gives. The scheduling state and
/// the frame are updated; the action says what is left to do.
pub fn handle_svc_from_el0(k: &mut Kernel, frame: &mut TrapFrame, input: &[u8]) -> (action:
    SvcAction)
    requires
        old(k).wf(),
        input@.len() == svc_input_len(old(frame)@),
    ensures
        final(k).wf(),
        svc(old(k)@, old(frame)@, input@) == (Svc {
            kernel: final(k)@,
            frame: final(frame)@,
            action: action@,
        }),
        old(k)@.inv() && old(k)@.current_unqueued() ==> final(k)@.inv(),
{
    let nr: u64 = frame.x[8];
    if nr == SYS_WRITE {
        do_write(frame, input)
    } else if nr == SYS_YIELD {
        do_yield(k, frame)
    } else if nr == SYS_SEND {
        do_send(k, frame, input)
    } else if nr == SYS_RECV {
        do_recv(k, frame)
    } else if nr == SYS_RECVBLK {
        do_recvblk(k, frame)
    } else if nr == SYS_SENDBLK {
        do_sendblk(k, frame, input)
    } else if nr == SYS_SLEEP {
        do_sleep(k, frame)
    } else if nr == SYS_EXIT || nr == SYS_EXIT_CODE {
        do_exit(k, frame)
    } else if nr == SYS_WAIT {
        do_wait(k, frame)
    } else {
        set_error(frame, -38);
        SvcAction::Unknown { nr }
    }
}

/// Tear down the user address space after a fault: no user translations, no
/// preemption. The monitor takes over.
pub fn kill_task_on_fault(k: &mut Kernel)
    requires
        old(k).wf(),
    ensures
        final(k).wf(),
        final(k)@ == monitor_state(old(k)@),
{
    preempt_off(k);
    k.user_root = None;
    assert(k@ =~= monitor_state(old(k)@));
}

} // verus!

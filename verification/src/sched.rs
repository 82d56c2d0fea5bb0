//! Tasks, the ready queue, context switching and message passing.

use crate::arch::aarch64::timer::{ticks, Timer};
use crate::arch::aarch64::vectors::{FrameView, TrapFrame};
use crate::text::{from_utf8, position};
use vstd::prelude::*;
use vstd::slice::slice_subrange;

verus! {

/// How many task slots exist. Slot 0 belongs to the kernel itself.
pub const MAX_TASKS: usize = 8;

/// The capacity of a mailbox in bytes; longer messages are truncated to it.
pub const MSG_MAX: usize = 32;

/// Where a task is in its life.
#[derive(Clone, Copy, PartialEq, Eq, Debug, Structural)]
pub enum TaskState {
    /// The slot is free: never used, exited, or killed.
    Exited,
    /// Runnable and waiting in the ready queue.
    Ready,
    /// Executing now. At most one task is.
    Running,
    /// Waiting for a message, for mailbox room, for the timer or for a child.
    Blocked,
}

/// One task's complete state: everything needed to pause and resume it.
#[derive(Clone, Copy)]
pub struct Task {
    /// The register state to restore on resume.
    pub saved: TrapFrame,
    /// Physical address of the task's page-table root; 0 = no user space.
    pub ttbr0_pa: u64,
    /// Top of the task's kernel stack; 0 = the boot stack.
    pub kstack_top: u64,
    pub state: TaskState,
    /// A short name, NUL-padded.
    pub name: [u8; 8],
    /// The inbox: one message at a time.
    pub mailbox: [u8; 32],
    /// Bytes waiting in the mailbox; 0 = empty.
    pub mailbox_len: usize,
    /// Who sent the waiting message; 0 = nobody.
    pub mailbox_from: usize,
    /// The receiver a blocking send waits on; 0 = not blocked on a send.
    pub blocked_send_dst: usize,
    /// The tick a sleeping task is due at; 0 = not sleeping.
    pub wake_tick: u64,
    /// What the task exited with; -1 if it was killed on a fault.
    pub exit_code: i64,
    /// The child a `wait` is blocked on; 0 = not waiting.
    pub waiting_on: usize,
    /// Whether the slot has ever held a spawned task.
    pub spawned: bool,
}

/// A task as a mathematical value.
#[verifier::ext_equal]
pub struct TaskView {
    pub saved: FrameView,
    pub ttbr0_pa: u64,
    pub kstack_top: u64,
    pub state: TaskState,
    pub name: Seq<u8>,
    pub mailbox: Seq<u8>,
    pub mailbox_len: usize,
    pub mailbox_from: usize,
    pub blocked_send_dst: usize,
    pub wake_tick: u64,
    pub exit_code: i64,
    pub waiting_on: usize,
    pub spawned: bool,
}

impl View for Task {
    type V = TaskView;

    open spec fn view(&self) -> TaskView {
        TaskView {
            saved: self.saved@,
            ttbr0_pa: self.ttbr0_pa,
            kstack_top: self.kstack_top,
            state: self.state,
            name: self.name@,
            mailbox: self.mailbox@,
            mailbox_len: self.mailbox_len,
            mailbox_from: self.mailbox_from,
            blocked_send_dst: self.blocked_send_dst,
            wake_tick: self.wake_tick,
            exit_code: self.exit_code,
            waiting_on: self.waiting_on,
            spawned: self.spawned,
        }
    }
}

impl TaskView {
    /// A free slot that never held a task.
    pub open spec fn empty() -> TaskView {
        TaskView {
            saved: FrameView::zero(),
            ttbr0_pa: 0,
            kstack_top: 0,
            state: TaskState::Exited,
            name: Seq::new(8, |i: int| 0u8),
            mailbox: Seq::new(32, |i: int| 0u8),
            mailbox_len: 0,
            mailbox_from: 0,
            blocked_send_dst: 0,
            wake_tick: 0,
            exit_code: 0,
            waiting_on: 0,
            spawned: false,
        }
    }
}

/// `s` cut to eight bytes and padded with NULs.
pub open spec fn padded_name(s: Seq<u8>) -> Seq<u8> {
    Seq::new(8, |i: int| if i < s.len() { s[i] } else { 0u8 })
}

impl Task {
    /// A free slot.
    pub fn empty() -> (t: Task)
        ensures
            t@ == TaskView::empty(),
    {
        Task {
            saved: TrapFrame::empty(),
            ttbr0_pa: 0,
            kstack_top: 0,
            state: TaskState::Exited,
            name: [0; 8],
            mailbox: [0; 32],
            mailbox_len: 0,
            mailbox_from: 0,
            blocked_send_dst: 0,
            wake_tick: 0,
            exit_code: 0,
            waiting_on: 0,
            spawned: false,
        }
    }

    /// Set the task's name, truncated to eight bytes.
    pub fn set_name(&mut self, s: &[u8])
        ensures
            final(self)@ == (TaskView { name: padded_name(s@), ..old(self)@ }),
    {
        let mut i: usize = 0;
        while i < 8
            invariant
                0 <= i <= 8,
                self@ == (TaskView { name: self.name@, ..old(self)@ }),
                forall|j: int| 0 <= j < i ==> self.name@[j] == padded_name(s@)[j],
            decreases 8 - i,
        {
            self.name[i] = if i < s.len() { s[i] } else { 0 };
            i = i + 1;
        }
        assert(self.name@ =~= padded_name(s@));
    }

    /// The task's name up to its first NUL, or "?" if that is not UTF-8.
    pub fn name_str(&self) -> (r: &str)
        ensures
            r@ == name_text(self@.name),
    {
        let slice: &[u8] = &self.name;
        let end: usize = position(slice, 0);
        match from_utf8(slice_subrange(slice, 0, end)) {
            Some(s) => s,
            None => "?",
        }
    }
}

/// The text a NUL-padded name stands for.
pub open spec fn name_text(name: Seq<u8>) -> Seq<char> {
    let bytes = name.take(crate::text::byte_position(name, 0) as int);
    if vstd::utf8::valid_utf8(bytes) {
        vstd::utf8::decode_utf8(bytes)
    } else {
        "?"@
    }
}

/// The ready queue: a ring of task IDs in the order they became ready.
pub struct Scheduler {
    ready_queue: [usize; 8],
    head: usize,
    count: usize,
}

impl View for Scheduler {
    type V = Seq<usize>;

    closed spec fn view(&self) -> Seq<usize> {
        Seq::new(
            self.count as nat,
            |i: int| self.ready_queue@[(self.head + i) % (MAX_TASKS as int)],
        )
    }
}

impl Scheduler {
    /// The ring's indices stay inside its storage.
    pub closed spec fn wf(&self) -> bool {
        self.head < MAX_TASKS && self.count <= MAX_TASKS
    }

    /// A well-formed queue holds at most one entry per slot of the ring.
    pub proof fn lemma_len(&self)
        requires
            self.wf(),
        ensures
            self@.len() <= MAX_TASKS,
    {
    }

    /// An empty queue.
    pub fn new() -> (s: Scheduler)
        ensures
            s.wf(),
            s@ == Seq::<usize>::empty(),
    {
        let s = Scheduler { ready_queue: [0; 8], head: 0, count: 0 };
        assert(s@ =~= Seq::<usize>::empty());
        s
    }

    /// Append `tid`; false, with the queue unchanged, if the ring is full.
    pub fn enqueue(&mut self, tid: usize) -> (ok: bool)
        requires
            old(self).wf(),
        ensures
            final(self).wf(),
            ok == (old(self)@.len() < MAX_TASKS),
            final(self)@ == (if ok { old(self)@.push(tid) } else { old(self)@ }),
    {
        if self.count >= MAX_TASKS {
            return false;
        }
        let tail: usize = (self.head + self.count) % MAX_TASKS;
        self.ready_queue[tail] = tid;
        self.count = self.count + 1;
        proof {
            assert(self@ =~= old(self)@.push(tid));
        }
        true
    }

    /// Take the task that has been ready longest, or None if there is none.
    pub fn dequeue(&mut self) -> (r: Option<usize>)
        requires
            old(self).wf(),
        ensures
            final(self).wf(),
            r == (if old(self)@.len() == 0 { None } else { Some(old(self)@[0]) }),
            final(self)@ == (if old(self)@.len() == 0 { old(self)@ } else {
                old(self)@.drop_first()
            }),
    {
        if self.count == 0 {
            return None;
        }
        let tid: usize = self.ready_queue[self.head];
        self.head = (self.head + 1) % MAX_TASKS;
        self.count = self.count - 1;
        assert(self@ =~= old(self)@.drop_first());
        Some(tid)
    }

    /// How many tasks are waiting.
    pub fn len(&self) -> (n: usize)
        ensures
            n == self@.len(),
    {
        self.count
    }

    /// Is the ready queue empty?
    pub fn is_empty(&self) -> (b: bool)
        ensures
            b == (self@.len() == 0),
    {
        self.count == 0
    }
}

/// The whole of the kernel's mutable scheduling state.
pub struct Kernel {
    /// The task table; the index is the task ID. Slot 0 is the kernel's own.
    pub tasks: [Task; 8],
    /// The ready queue.
    pub scheduler: Scheduler,
    /// The running task's ID, or 0 when the kernel itself runs.
    pub current: usize,
    /// The kernel stack to install on the next exception return; 0 = none.
    pub pending_kstack_sp: u64,
    /// The user page-table root in TTBR0_EL1; None = the empty root.
    pub user_root: Option<u64>,
    /// Does the timer take the CPU away?
    pub preempt: bool,
    /// How often it has.
    pub preempts: u64,
    /// The tick counter.
    pub timer: Timer,
}

/// The scheduling state as a mathematical value.
#[verifier::ext_equal]
pub struct KernelView {
    pub tasks: Seq<TaskView>,
    pub ready: Seq<usize>,
    pub current: usize,
    pub pending_kstack_sp: u64,
    pub user_root: Option<u64>,
    pub preempt: bool,
    pub preempts: u64,
    pub timer: Timer,
}

impl View for Kernel {
    type V = KernelView;

    open spec fn view(&self) -> KernelView {
        KernelView {
            tasks: Seq::new(8, |i: int| self.tasks@[i]@),
            ready: self.scheduler@,
            current: self.current,
            pending_kstack_sp: self.pending_kstack_sp,
            user_root: self.user_root,
            preempt: self.preempt,
            preempts: self.preempts,
            timer: self.timer,
        }
    }
}

impl Kernel {
    /// The ring is well-formed and no mailbox claims more than it can hold.
    pub open spec fn wf(&self) -> bool {
        &&& self.scheduler.wf()
        &&& forall|i: int| 0 <= i < MAX_TASKS ==> #[trigger] self@.tasks[i].mailbox_len <= MSG_MAX
    }

    /// The state at boot: every slot free, nothing ready, the kernel running.
    pub fn new() -> (k: Kernel)
        ensures
            k.wf(),
            k@ == KernelView::boot(),
            k@.inv(),
    {
        let t = Task::empty();
        let k = Kernel {
            tasks: [t; 8],
            scheduler: Scheduler::new(),
            current: 0,
            pending_kstack_sp: 0,
            user_root: None,
            preempt: false,
            preempts: 0,
            timer: Timer::new(),
        };
        assert(k@ =~= KernelView::boot());
        k
    }
}

/// The result of an attempt to switch tasks: the new scheduling state, the
/// frame the exception return will load, and whether another task was loaded.
pub struct Switch {
    pub kernel: KernelView,
    pub frame: FrameView,
    pub switched: bool,
}

impl KernelView {
    /// The state at boot.
    pub open spec fn boot() -> KernelView {
        KernelView {
            tasks: Seq::new(8, |i: int| TaskView::empty()),
            ready: Seq::empty(),
            current: 0,
            pending_kstack_sp: 0,
            user_root: None,
            preempt: false,
            preempts: 0,
            timer: Timer { ticks: 0, period: 0 },
        }
    }

    /// `tid` names a task that has not exited.
    pub open spec fn live(self, tid: int) -> bool {
        0 <= tid < MAX_TASKS && self.tasks[tid].state != TaskState::Exited
    }

    /// The scheduling invariant. The ready queue lists exactly the Ready
    /// tasks, each once; only the current task runs; the kernel's slot holds
    /// no task.
    pub open spec fn inv(self) -> bool {
        &&& self.tasks.len() == MAX_TASKS
        &&& self.tasks[0].state == TaskState::Exited
        &&& self.ready.no_duplicates()
        &&& forall|i: int|
            0 <= i < self.ready.len() ==> 1 <= #[trigger] self.ready[i] < MAX_TASKS
                && self.tasks[self.ready[i] as int].state == TaskState::Ready
        &&& forall|tid: int|
            1 <= tid < MAX_TASKS && #[trigger] self.tasks[tid].state == TaskState::Ready
                ==> self.ready.contains(tid as usize)
        &&& forall|tid: int|
            1 <= tid < MAX_TASKS && #[trigger] self.tasks[tid].state == TaskState::Running ==> tid
                == self.current
    }

    /// The same state with slot `tid` holding `t`.
    pub open spec fn with_task(self, tid: int, t: TaskView) -> KernelView {
        KernelView { tasks: self.tasks.update(tid, t), ..self }
    }

    /// The same state with `tid` at the back of the ready queue, if it fits.
    pub open spec fn enqueue(self, tid: usize) -> KernelView {
        if self.ready.len() < MAX_TASKS {
            KernelView { ready: self.ready.push(tid), ..self }
        } else {
            self
        }
    }

    /// The same state with slot `tid` holding `t`, Ready and queued.
    pub open spec fn make_ready(self, tid: int, t: TaskView) -> KernelView {
        self.with_task(tid, TaskView { state: TaskState::Ready, ..t }).enqueue(tid as usize)
    }

    /// The lowest free slot at or above `tid`.
    pub open spec fn free_slot_from(self, tid: int) -> Option<usize>
        decreases MAX_TASKS - tid,
    {
        if tid >= MAX_TASKS {
            None
        } else if self.tasks[tid].state == TaskState::Exited {
            Some(tid as usize)
        } else {
            self.free_slot_from(tid + 1)
        }
    }

    /// The slot a new task gets: the lowest free one above the kernel's.
    pub open spec fn free_slot(self) -> Option<usize> {
        self.free_slot_from(1)
    }

    /// A freshly spawned task.
    pub open spec fn newborn(
        name: Seq<u8>,
        ttbr0_pa: u64,
        kstack_top: u64,
        entry: u64,
        sp: u64,
    ) -> TaskView {
        TaskView {
            saved: FrameView { elr: entry, sp: sp, ..FrameView::zero() },
            ttbr0_pa: ttbr0_pa,
            kstack_top: kstack_top,
            state: TaskState::Ready,
            name: padded_name(name),
            spawned: true,
            ..TaskView::empty()
        }
    }
}

proof fn lemma_free_slot(k: KernelView, from: int, tid: int)
    requires
        from <= tid <= MAX_TASKS,
        forall|j: int| from <= j < tid ==> k.tasks[j].state != TaskState::Exited,
    ensures
        k.free_slot_from(from) == k.free_slot_from(tid),
    decreases tid - from,
{
    if from < tid {
        lemma_free_slot(k, from + 1, tid);
    }
}

/// Queueing a task that was neither Ready nor in the kernel's slot keeps the
/// scheduling invariant, and the queue always has room for it.
pub(crate) proof fn lemma_make_ready_inv(k: KernelView, tid: int, t: TaskView)
    requires
        k.inv(),
        1 <= tid < MAX_TASKS,
        k.tasks[tid].state != TaskState::Ready,
    ensures
        k.make_ready(tid, t).inv(),
        k.ready.len() < MAX_TASKS,
{
    lemma_ready_len(k);
    let k2 = k.make_ready(tid, t);
    assert(!k.ready.contains(tid as usize));
    assert forall|j: int|
        1 <= j < MAX_TASKS && #[trigger] k2.tasks[j].state
            == TaskState::Ready implies k2.ready.contains(j as usize) by {
        if j == tid {
            assert(k2.ready[k.ready.len() as int] == j as usize);
        } else {
            assert(k.tasks[j].state == TaskState::Ready);
            let w = choose|w: int| 0 <= w < k.ready.len() && k.ready[w] == j as usize;
            assert(k2.ready[w] == j as usize);
        }
    }
    assert forall|j: int|
        1 <= j < MAX_TASKS && #[trigger] k2.tasks[j].state == TaskState::Running implies j
        == k2.current by {
        assert(k.tasks[j].state == TaskState::Running);
    }
}

/// Under the invariant fewer tasks are ready than there are slots.
pub(crate) proof fn lemma_ready_len(k: KernelView)
    requires
        k.inv(),
    ensures
        k.ready.len() < MAX_TASKS,
{
    let slots = vstd::set_lib::set_int_range(1, MAX_TASKS as int);
    let tids = k.ready.map_values(|t: usize| t as int);
    assert(tids.no_duplicates());
    tids.unique_seq_to_set();
    vstd::set_lib::lemma_int_range(1, MAX_TASKS as int);
    assert(tids.to_set().subset_of(slots)) by {
        assert forall|x: int| tids.to_set().contains(x) implies slots.contains(x) by {
            let i = choose|i: int| 0 <= i < tids.len() && tids[i] == x;
            assert(1 <= k.ready[i] < MAX_TASKS);
        }
    }
    vstd::set_lib::lemma_len_subset(tids.to_set(), slots);
}

/// The scheduler itself.
pub fn scheduler(k: &mut Kernel) -> (s: &mut Scheduler)
    ensures
        *s == old(k).scheduler,
        *final(k) == (Kernel { scheduler: *final(s), ..*old(k) }),
{
    &mut k.scheduler
}

/// A task by ID: None if the ID is out of range or the slot is free.
pub fn task(k: &mut Kernel, tid: usize) -> (r: Option<&mut Task>)
    ensures
        match r {
            Some(t) => {
                &&& old(k)@.live(tid as int)
                &&& *t == old(k).tasks@[tid as int]
                &&& final(k).tasks@ == old(k).tasks@.update(tid as int, *final(t))
                &&& *final(k) == (Kernel { tasks: final(k).tasks, ..*old(k) })
            },
            None => !old(k)@.live(tid as int) && *final(k) == *old(k),
        },
{
    if tid >= MAX_TASKS {
        return None;
    }
    if k.tasks[tid].state == TaskState::Exited {
        return None;
    }
    Some(&mut k.tasks[tid])
}

/// Claim the lowest free slot for a new task and clear it. None if every slot
/// but the kernel's is in use.
pub fn alloc_task(k: &mut Kernel) -> (r: Option<usize>)
    requires
        old(k).wf(),
    ensures
        final(k).wf(),
        r == old(k)@.free_slot(),
        final(k)@ == (match r {
            Some(tid) => old(k)@.with_task(tid as int, TaskView::empty()),
            None => old(k)@,
        }),
        match r {
            Some(tid) => 1 <= tid < MAX_TASKS && old(k)@.tasks[tid as int].state
                == TaskState::Exited,
            None => true,
        },
{
    let mut tid: usize = 1;
    while tid < MAX_TASKS
        invariant
            1 <= tid <= MAX_TASKS,
            *k == *old(k),
            k.wf(),
            forall|j: int| 1 <= j < tid ==> k@.tasks[j].state != TaskState::Exited,
        decreases MAX_TASKS - tid,
    {
        if k.tasks[tid].state == TaskState::Exited {
            proof {
                lemma_free_slot(k@, 1, tid as int);
            }
            k.tasks[tid] = Task::empty();
            assert(k@ =~= old(k)@.with_task(tid as int, TaskView::empty()));
            return Some(tid);
        }
        tid = tid + 1;
    }
    proof {
        lemma_free_slot(k@, 1, MAX_TASKS as int);
    }
    None
}

/// The running task's ID, or 0 when no user task is active.
pub fn current_tid(k: &Kernel) -> (tid: usize)
    ensures
        tid == k@.current,
{
    k.current
}

/// Set the current task's ID.
pub fn set_current_tid(k: &mut Kernel, tid: usize)
    ensures
        *final(k) == (Kernel { current: tid, ..*old(k) }),
{
    k.current = tid;
}

/// Create a user task in the lowest free slot: Ready, queued, about to start
/// at `entry` in EL0 with every interrupt unmasked. None if the table is full.
pub fn spawn(
    k: &mut Kernel,
    name: &[u8],
    ttbr0_pa: u64,
    kstack_top: u64,
    entry: u64,
    sp: u64,
) -> (r: Option<usize>)
    requires
        old(k).wf(),
    ensures
        final(k).wf(),
        r == old(k)@.free_slot(),
        final(k)@ == (match r {
            Some(tid) => old(k)@.make_ready(
                tid as int,
                KernelView::newborn(name@, ttbr0_pa, kstack_top, entry, sp),
            ),
            None => old(k)@,
        }),
        r matches Some(tid) ==> 1 <= tid < MAX_TASKS,
        old(k)@.inv() ==> final(k)@.inv(),
{
    let tid: usize = match alloc_task(k) {
        Some(tid) => tid,
        None => {
            return None;
        },
    };
    let ghost k1 = *k;
    let mut t = Task::empty();
    t.saved.elr = entry;
    t.saved.sp = sp;
    t.saved.spsr = 0;
    t.ttbr0_pa = ttbr0_pa;
    t.kstack_top = kstack_top;
    t.state = TaskState::Ready;
    t.spawned = true;
    t.set_name(name);
    k.tasks[tid] = t;
    let _ = k.scheduler.enqueue(tid);
    proof {
        let born = KernelView::newborn(name@, ttbr0_pa, kstack_top, entry, sp);
        assert(t@ =~= born);
        assert(k@.tasks =~= k1@.tasks.update(tid as int, born));
        assert(k@ =~= old(k)@.make_ready(tid as int, born));
        if old(k)@.inv() {
            lemma_make_ready_inv(old(k)@, tid as int, born);
        }
    }
    Some(tid)
}

/// "No such task".
pub const ESRCH: i64 = 3;

/// "Try again": the mailbox is full, or empty, or the child still lives.
pub const EAGAIN: i64 = 11;

/// The IDs of the tasks in slots 1 up to (not including) `n` that satisfy `p`,
/// ascending.
pub open spec fn tids_where(tasks: Seq<TaskView>, p: spec_fn(TaskView) -> bool, n: int) -> Seq<
    usize,
>
    decreases n,
{
    if n <= 1 {
        Seq::empty()
    } else if p(tasks[n - 1]) {
        tids_where(tasks, p, n - 1).push((n - 1) as usize)
    } else {
        tids_where(tasks, p, n - 1)
    }
}

/// As much of `s` as the ready queue holds.
pub open spec fn capped(s: Seq<usize>) -> Seq<usize> {
    if s.len() <= MAX_TASKS {
        s
    } else {
        s.take(MAX_TASKS as int)
    }
}

impl KernelView {
    /// Every task in slots 1 up to `n` that satisfies `p` becomes `f` of what it
    /// was, Ready, and joins the back of the queue in ID order.
    pub open spec fn wake_where(
        self,
        p: spec_fn(TaskView) -> bool,
        f: spec_fn(TaskView) -> TaskView,
        n: int,
    ) -> KernelView {
        KernelView {
            tasks: Seq::new(
                self.tasks.len(),
                |i: int|
                    if 1 <= i < n && p(self.tasks[i]) {
                        TaskView { state: TaskState::Ready, ..f(self.tasks[i]) }
                    } else {
                        self.tasks[i]
                    },
            ),
            ready: capped(self.ready + tids_where(self.tasks, p, n)),
            ..self
        }
    }

    /// `t` sleeps in a blocking send to `recv_tid`.
    pub open spec fn blocked_sending_to(recv_tid: usize) -> spec_fn(TaskView) -> bool {
        |t: TaskView| t.state == TaskState::Blocked && t.blocked_send_dst == recv_tid
    }

    /// Every task blocked in a send to `recv_tid` is woken.
    pub open spec fn wake_senders(self, recv_tid: usize) -> KernelView {
        self.wake_where(
            KernelView::blocked_sending_to(recv_tid),
            |t: TaskView| TaskView { blocked_send_dst: 0, ..t },
            MAX_TASKS as int,
        )
    }

    /// Why a send to `dst` is refused, if it is.
    pub open spec fn send_error(self, dst: usize) -> Option<i64> {
        if dst == 0 || !self.live(dst as int) {
            Some((-ESRCH) as i64)
        } else if self.tasks[dst as int].mailbox_len > 0 {
            Some((-EAGAIN) as i64)
        } else {
            None
        }
    }

    /// The message `data` lies in `dst`'s mailbox, cut to the mailbox's size;
    /// if `dst` was Blocked it is woken.
    pub open spec fn deliver(self, dst: usize, data: Seq<u8>) -> KernelView {
        let t = self.tasks[dst as int];
        let n = if data.len() < MSG_MAX { data.len() as int } else { MSG_MAX as int };
        let t2 = TaskView {
            mailbox: data.take(n) + t.mailbox.skip(n),
            mailbox_len: n as usize,
            mailbox_from: self.current,
            ..t
        };
        if t.state == TaskState::Blocked {
            self.make_ready(dst as int, t2)
        } else {
            self.with_task(dst as int, t2)
        }
    }

    /// The current task is a user slot with a message waiting.
    pub open spec fn can_recv(self) -> bool {
        1 <= self.current < MAX_TASKS && self.tasks[self.current as int].mailbox_len > 0
    }

    /// How many bytes a receive into a buffer of `cap` bytes copies.
    pub open spec fn recv_len(self, cap: nat) -> nat {
        let len = self.tasks[self.current as int].mailbox_len as nat;
        if len < cap {
            len
        } else {
            cap
        }
    }

    /// The current task's mailbox is emptied and the senders blocked on it woken.
    pub open spec fn drain(self) -> KernelView {
        let cur = self.current as int;
        self.with_task(
            cur,
            TaskView { mailbox_len: 0, mailbox_from: 0, ..self.tasks[cur] },
        ).wake_senders(self.current)
    }
}

/// One step of a scan that wakes tasks.
proof fn lemma_wake_where_step(
    k: KernelView,
    p: spec_fn(TaskView) -> bool,
    f: spec_fn(TaskView) -> TaskView,
    n: int,
)
    requires
        1 <= n < MAX_TASKS,
        k.tasks.len() == MAX_TASKS,
        k.ready.len() <= MAX_TASKS,
    ensures
        k.wake_where(p, f, n).tasks[n] == k.tasks[n],
        k.wake_where(p, f, n + 1) == (if p(k.tasks[n]) {
            k.wake_where(p, f, n).make_ready(n, f(k.tasks[n]))
        } else {
            k.wake_where(p, f, n)
        }),
{
    let a = k.wake_where(p, f, n);
    let b = k.wake_where(p, f, n + 1);
    let prev = tids_where(k.tasks, p, n);
    if p(k.tasks[n]) {
        let c = a.make_ready(n, f(k.tasks[n]));
        assert(b.tasks =~= c.tasks);
        assert(k.ready + prev.push(n as usize) =~= (k.ready + prev).push(n as usize));
        assert(b.ready =~= c.ready);
    } else {
        assert(b.tasks =~= a.tasks);
    }
}

proof fn lemma_wake_where_start(
    k: KernelView,
    p: spec_fn(TaskView) -> bool,
    f: spec_fn(TaskView) -> TaskView,
)
    requires
        k.ready.len() <= MAX_TASKS,
    ensures
        k.wake_where(p, f, 1) == k,
{
    assert(k.wake_where(p, f, 1) =~= k);
}

/// Waking sleepers keeps the invariant.
pub(crate) proof fn lemma_wake_where_inv(
    k: KernelView,
    p: spec_fn(TaskView) -> bool,
    f: spec_fn(TaskView) -> TaskView,
    n: int,
)
    requires
        k.inv(),
        1 <= n <= MAX_TASKS,
        forall|t: TaskView| #[trigger] p(t) ==> t.state == TaskState::Blocked,
    ensures
        k.wake_where(p, f, n).inv(),
    decreases n,
{
    lemma_ready_len(k);
    if n == 1 {
        lemma_wake_where_start(k, p, f);
    } else {
        lemma_wake_where_inv(k, p, f, n - 1);
        lemma_wake_where_step(k, p, f, n - 1);
        if p(k.tasks[n - 1]) {
            lemma_make_ready_inv(k.wake_where(p, f, n - 1), n - 1, f(k.tasks[n - 1]));
        }
    }
}

/// Send up to 32 bytes to task `dst_tid`, waking it if it was Blocked. The
/// error is `-ESRCH` for a task that does not exist and `-EAGAIN` for a full
/// mailbox; nothing changes then.
pub fn ipc_send(k: &mut Kernel, dst_tid: usize, data: &[u8]) -> (r: Result<(), i64>)
    requires
        old(k).wf(),
    ensures
        final(k).wf(),
        match old(k)@.send_error(dst_tid) {
            Some(e) => r == Err::<(), i64>(e) && final(k)@ == old(k)@,
            None => r == Ok::<(), i64>(()) && final(k)@ == old(k)@.deliver(dst_tid, data@),
        },
        old(k)@.inv() ==> final(k)@.inv(),
{
    if dst_tid == 0 || dst_tid >= MAX_TASKS {
        return Err(-ESRCH);
    }
    if k.tasks[dst_tid].state == TaskState::Exited {
        return Err(-ESRCH);
    }
    if k.tasks[dst_tid].mailbox_len > 0 {
        return Err(-EAGAIN);
    }
    let n: usize = if data.len() < MSG_MAX { data.len() } else { MSG_MAX };
    let mut t = k.tasks[dst_tid];
    let ghost t0 = t;
    let mut i: usize = 0;
    while i < n
        invariant
            0 <= i <= n,
            n <= data@.len(),
            n <= MSG_MAX,
            t@ == (TaskView { mailbox: t.mailbox@, ..t0@ }),
            forall|j: int| 0 <= j < i ==> t.mailbox@[j] == data@[j],
            forall|j: int| i <= j < MSG_MAX ==> t.mailbox@[j] == t0.mailbox@[j],
        decreases n - i,
    {
        t.mailbox[i] = data[i];
        i = i + 1;
    }
    t.mailbox_len = n;
    t.mailbox_from = k.current;
    let ghost t2 = TaskView {
        mailbox: data@.take(n as int) + t0.mailbox@.skip(n as int),
        mailbox_len: n,
        mailbox_from: k.current,
        ..t0@
    };
    assert(t@ =~= t2);
    if t.state == TaskState::Blocked {
        t.state = TaskState::Ready;
        k.tasks[dst_tid] = t;
        let _ = k.scheduler.enqueue(dst_tid);
        assert(k@ =~= old(k)@.make_ready(dst_tid as int, t2));
    } else {
        k.tasks[dst_tid] = t;
        assert(k@ =~= old(k)@.with_task(dst_tid as int, t2));
    }
    proof {
        if old(k)@.inv() {
            if t0.state == TaskState::Blocked {
                lemma_make_ready_inv(old(k)@, dst_tid as int, t2);
            } else {
                lemma_with_task_inv(old(k)@, dst_tid as int, t2);
            }
        }
    }
    Ok(())
}

/// Changing a task without changing its state keeps the invariant.
pub(crate) proof fn lemma_with_task_inv(k: KernelView, tid: int, t: TaskView)
    requires
        k.inv(),
        0 <= tid < MAX_TASKS,
        t.state == k.tasks[tid].state,
    ensures
        k.with_task(tid, t).inv(),
{
    let k2 = k.with_task(tid, t);
    assert forall|j: int| 0 <= j < MAX_TASKS implies #[trigger] k2.tasks[j].state
        == k.tasks[j].state by {}
}

/// Wake a Blocked task: Ready and queued. False if it was not Blocked.
pub fn wake(k: &mut Kernel, tid: usize) -> (woken: bool)
    requires
        old(k).wf(),
    ensures
        final(k).wf(),
        woken == (1 <= tid < MAX_TASKS && old(k)@.tasks[tid as int].state == TaskState::Blocked),
        final(k)@ == (if woken {
            old(k)@.make_ready(tid as int, old(k)@.tasks[tid as int])
        } else {
            old(k)@
        }),
        old(k)@.inv() ==> final(k)@.inv(),
{
    if tid == 0 || tid >= MAX_TASKS {
        return false;
    }
    if k.tasks[tid].state != TaskState::Blocked {
        return false;
    }
    k.tasks[tid].state = TaskState::Ready;
    let _ = k.scheduler.enqueue(tid);
    proof {
        assert(k@ =~= old(k)@.make_ready(tid as int, old(k)@.tasks[tid as int]));
        if old(k)@.inv() {
            lemma_make_ready_inv(old(k)@, tid as int, old(k)@.tasks[tid as int]);
        }
    }
    true
}

/// Wake every task Blocked in a send to `recv_tid`, in ID order.
pub fn wake_blocked_senders(k: &mut Kernel, recv_tid: usize)
    requires
        old(k).wf(),
    ensures
        final(k).wf(),
        final(k)@ == old(k)@.wake_senders(recv_tid),
        old(k)@.inv() ==> final(k)@.inv(),
{
    let ghost p = KernelView::blocked_sending_to(recv_tid);
    let ghost f = |t: TaskView| TaskView { blocked_send_dst: 0, ..t };
    let mut tid: usize = 1;
    proof {
        old(k).scheduler.lemma_len();
        lemma_wake_where_start(k@, p, f);
    }
    while tid < MAX_TASKS
        invariant
            1 <= tid <= MAX_TASKS,
            k.wf(),
            old(k)@.ready.len() <= MAX_TASKS,
            p == KernelView::blocked_sending_to(recv_tid),
            f == (|t: TaskView| TaskView { blocked_send_dst: 0, ..t }),
            k@ == old(k)@.wake_where(p, f, tid as int),
            old(k)@.inv() ==> k@.inv(),
        decreases MAX_TASKS - tid,
    {
        let ghost k0 = *k;
        proof {
            lemma_wake_where_step(old(k)@, p, f, tid as int);
        }
        if k.tasks[tid].state == TaskState::Blocked && k.tasks[tid].blocked_send_dst == recv_tid {
            k.tasks[tid].blocked_send_dst = 0;
            k.tasks[tid].state = TaskState::Ready;
            let _ = k.scheduler.enqueue(tid);
            proof {
                let t = k0@.tasks[tid as int];
                assert(k@ =~= k0@.make_ready(tid as int, f(t)));
                if k0@.inv() {
                    lemma_make_ready_inv(k0@, tid as int, f(t));
                }
            }
        }
        tid = tid + 1;
    }
}

/// Receive the waiting message into `buf`: the number of bytes copied and the
/// sender. The mailbox is emptied and the senders blocked on it are woken.
/// `-EAGAIN`, with nothing changed, if no message is waiting.
pub fn ipc_recv(k: &mut Kernel, buf: &mut [u8]) -> (r: Result<(usize, usize), i64>)
    requires
        old(k).wf(),
    ensures
        final(k).wf(),
        if old(k)@.can_recv() {
            let t = old(k)@.tasks[old(k)@.current as int];
            let n = old(k)@.recv_len(old(buf)@.len());
            &&& r == Ok::<(usize, usize), i64>((n as usize, t.mailbox_from))
            &&& final(buf)@ == t.mailbox.take(n as int) + old(buf)@.skip(n as int)
            &&& final(k)@ == old(k)@.drain()
        } else {
            &&& r == Err::<(usize, usize), i64>((-EAGAIN) as i64)
            &&& final(buf)@ == old(buf)@
            &&& final(k)@ == old(k)@
        },
        old(k)@.inv() ==> final(k)@.inv(),
{
    let cur: usize = k.current;
    if cur == 0 || cur >= MAX_TASKS {
        return Err(-EAGAIN);
    }
    let t = k.tasks[cur];
    if t.mailbox_len == 0 {
        return Err(-EAGAIN);
    }
    assert(k@.tasks[cur as int].mailbox_len <= MSG_MAX);
    let n: usize = if t.mailbox_len < buf.len() { t.mailbox_len } else { buf.len() };
    let mut i: usize = 0;
    while i < n
        invariant
            0 <= i <= n <= t.mailbox_len <= MSG_MAX,
            n <= old(buf)@.len() == buf@.len(),
            forall|j: int| 0 <= j < i ==> buf@[j] == t.mailbox@[j],
            forall|j: int| i <= j < buf@.len() ==> buf@[j] == old(buf)@[j],
        decreases n - i,
    {
        buf[i] = t.mailbox[i];
        i = i + 1;
    }
    assert(buf@ =~= t.mailbox@.take(n as int) + old(buf)@.skip(n as int));
    let from: usize = t.mailbox_from;
    k.tasks[cur].mailbox_len = 0;
    k.tasks[cur].mailbox_from = 0;
    proof {
        let t2 = TaskView { mailbox_len: 0, mailbox_from: 0, ..t@ };
        assert(k@ =~= old(k)@.with_task(cur as int, t2));
        if old(k)@.inv() {
            lemma_with_task_inv(old(k)@, cur as int, t2);
        }
    }
    wake_blocked_senders(k, cur);
    Ok((n, from))
}

impl KernelView {
    /// Take the next task off the ready queue and load it: its saved frame
    /// becomes the frame to return to, it runs, its address space is installed
    /// (if it has one) and its kernel stack is pending. Nothing is loaded when
    /// the queue is empty, or when its head names no live task.
    pub open spec fn dispatch(self, frame: FrameView) -> Switch {
        if self.ready.len() == 0 {
            Switch { kernel: self, frame, switched: false }
        } else {
            let next = self.ready[0];
            let k = KernelView { ready: self.ready.drop_first(), ..self };
            let t = self.tasks[next as int];
            if !self.live(next as int) {
                Switch { kernel: k, frame, switched: false }
            } else {
                Switch {
                    kernel: KernelView {
                        user_root: if t.ttbr0_pa != 0 {
                            Some(t.ttbr0_pa)
                        } else {
                            self.user_root
                        },
                        pending_kstack_sp: t.kstack_top,
                        current: next,
                        ..k.with_task(next as int, TaskView { state: TaskState::Running, ..t })
                    },
                    frame: t.saved,
                    switched: true,
                }
            }
        }
    }

    /// The current task's frame is saved; if it was Running and another task
    /// waits, it goes to the back of the queue. A task nobody waits behind keeps
    /// running.
    pub open spec fn save(self, frame: FrameView) -> KernelView {
        let cur = self.current as int;
        if cur != 0 && self.live(cur) {
            let t = TaskView { saved: frame, ..self.tasks[cur] };
            if t.state == TaskState::Running && self.ready.len() > 0 {
                self.make_ready(cur, t)
            } else {
                self.with_task(cur, t)
            }
        } else {
            self
        }
    }

    /// The cooperative switch.
    pub open spec fn save_and_switch(self, frame: FrameView) -> Switch {
        self.save(frame).dispatch(frame)
    }

    /// The current task's frame is saved and the task sleeps.
    pub open spec fn block(self, frame: FrameView) -> KernelView {
        let cur = self.current as int;
        if self.live(cur) {
            self.with_task(
                cur,
                TaskView { saved: frame, state: TaskState::Blocked, ..self.tasks[cur] },
            )
        } else {
            self
        }
    }

    /// The blocking switch. The kernel itself cannot block.
    pub open spec fn block_and_switch(self, frame: FrameView) -> Switch {
        if self.current == 0 {
            Switch { kernel: self, frame, switched: false }
        } else {
            self.block(frame).dispatch(frame)
        }
    }

    /// The current task is gone: its slot is free, its exit code says it was
    /// killed, and nothing it waited for can reach it.
    pub open spec fn kill(self) -> KernelView {
        let cur = self.current as int;
        if self.live(cur) {
            self.with_task(
                cur,
                TaskView {
                    state: TaskState::Exited,
                    blocked_send_dst: 0,
                    wake_tick: 0,
                    waiting_on: 0,
                    exit_code: (-1) as i64,
                    mailbox_len: 0,
                    mailbox_from: 0,
                    ..self.tasks[cur]
                },
            )
        } else {
            self
        }
    }

    /// The switch away from a task killed on a fault.
    pub open spec fn kill_and_switch(self, frame: FrameView) -> Switch {
        if self.current == 0 || self.current >= MAX_TASKS {
            Switch { kernel: self, frame, switched: false }
        } else {
            self.kill().dispatch(frame)
        }
    }

    /// The current task, if there is one, is not queued behind itself.
    pub open spec fn current_unqueued(self) -> bool {
        self.live(self.current as int) ==> self.tasks[self.current as int].state
            != TaskState::Ready
    }
}

/// Loading the next task keeps the invariant, provided no task is left Running.
proof fn lemma_dispatch_inv(k: KernelView, frame: FrameView)
    requires
        k.inv(),
        k.ready.len() > 0 ==> forall|j: int|
            1 <= j < MAX_TASKS ==> #[trigger] k.tasks[j].state != TaskState::Running,
    ensures
        k.dispatch(frame).kernel.inv(),
        k.dispatch(frame).switched == (k.ready.len() > 0),
        k.ready.len() > 0 ==> {
            let k2 = k.dispatch(frame).kernel;
            1 <= k2.current < MAX_TASKS && k2.tasks[k2.current as int].state == TaskState::Running
        },
{
    if k.ready.len() > 0 {
        let next = k.ready[0];
        let k2 = k.dispatch(frame).kernel;
        assert(k.tasks[next as int].state == TaskState::Ready);
        assert forall|i: int| 0 <= i < k2.ready.len() implies 1 <= #[trigger] k2.ready[i]
            < MAX_TASKS && k2.tasks[k2.ready[i] as int].state == TaskState::Ready by {
            assert(k2.ready[i] == k.ready[i + 1]);
        }
        assert forall|j: int|
            1 <= j < MAX_TASKS && #[trigger] k2.tasks[j].state
                == TaskState::Ready implies k2.ready.contains(j as usize) by {
            assert(j != next);
            assert(k.tasks[j].state == TaskState::Ready);
            let w = choose|w: int| 0 <= w < k.ready.len() && k.ready[w] == j as usize;
            assert(k2.ready[w - 1] == j as usize);
        }
        assert forall|j: int|
            1 <= j < MAX_TASKS && #[trigger] k2.tasks[j].state == TaskState::Running implies j
            == k2.current by {
            if j != next {
                assert(k.tasks[j].state == TaskState::Running);
            }
        }
    }
}

/// The cooperative switch keeps the invariant, and switches exactly when
/// somebody waits.
pub(crate) proof fn lemma_save_and_switch_inv(k: KernelView, frame: FrameView)
    requires
        k.inv(),
    ensures
        k.save_and_switch(frame).kernel.inv(),
        k.save_and_switch(frame).switched == (k.ready.len() > 0),
{
    let cur = k.current as int;
    let k1 = k.save(frame);
    let t = TaskView { saved: frame, ..k.tasks[cur] };
    if cur != 0 && k.live(cur) {
        if t.state == TaskState::Running && k.ready.len() > 0 {
            lemma_make_ready_inv(k, cur, t);
        } else {
            lemma_with_task_inv(k, cur, t);
        }
    }
    if k1.ready.len() > 0 {
        assert forall|j: int| 1 <= j < MAX_TASKS implies #[trigger] k1.tasks[j].state
            != TaskState::Running by {
            assert(k.tasks[j].state == TaskState::Running ==> j == cur);
        }
    }
    lemma_dispatch_inv(k1, frame);
}

/// Taking a task that is not queued out of the runnable set keeps the invariant.
pub(crate) proof fn lemma_retire_inv(k: KernelView, tid: int, t: TaskView)
    requires
        k.inv(),
        1 <= tid < MAX_TASKS,
        k.tasks[tid].state != TaskState::Ready,
        t.state == TaskState::Exited || t.state == TaskState::Blocked,
    ensures
        k.with_task(tid, t).inv(),
{
    let k2 = k.with_task(tid, t);
    assert(!k.ready.contains(tid as usize));
    assert forall|i: int| 0 <= i < k2.ready.len() implies 1 <= #[trigger] k2.ready[i] < MAX_TASKS
        && k2.tasks[k2.ready[i] as int].state == TaskState::Ready by {
        assert(k.ready[i] != tid as usize);
    }
    assert forall|j: int|
        1 <= j < MAX_TASKS && #[trigger] k2.tasks[j].state
            == TaskState::Ready implies k2.ready.contains(j as usize) by {
        assert(k.tasks[j].state == TaskState::Ready);
    }
    assert forall|j: int|
        1 <= j < MAX_TASKS && #[trigger] k2.tasks[j].state == TaskState::Running implies j
        == k2.current by {
        assert(k.tasks[j].state == TaskState::Running);
    }
}

/// The blocking switch keeps the invariant, and switches exactly when somebody
/// waits.
pub(crate) proof fn lemma_block_and_switch_inv(k: KernelView, frame: FrameView)
    requires
        k.inv(),
        k.current_unqueued(),
    ensures
        k.block_and_switch(frame).kernel.inv(),
        k.block_and_switch(frame).switched == (k.current != 0 && k.ready.len() > 0),
{
    let cur = k.current as int;
    if cur != 0 {
        let k1 = k.block(frame);
        if k.live(cur) {
            lemma_retire_inv(k, cur, k1.tasks[cur]);
        }
        assert forall|j: int| 1 <= j < MAX_TASKS implies #[trigger] k1.tasks[j].state
            != TaskState::Running by {
            assert(k.tasks[j].state == TaskState::Running ==> j == cur);
        }
        lemma_dispatch_inv(k1, frame);
    }
}

/// Record the kernel stack the next exception return installs; 0 = leave it.
fn set_pending_kstack_sp(k: &mut Kernel, next_kstack_top: u64)
    ensures
        *final(k) == (Kernel { pending_kstack_sp: next_kstack_top, ..*old(k) }),
{
    k.pending_kstack_sp = next_kstack_top;
}

/// Load the next ready task into `frame`.
fn dispatch(k: &mut Kernel, frame: &mut TrapFrame) -> (switched: bool)
    requires
        old(k).wf(),
    ensures
        final(k).wf(),
        final(k)@ == old(k)@.dispatch(old(frame)@).kernel,
        final(frame)@ == old(k)@.dispatch(old(frame)@).frame,
        switched == old(k)@.dispatch(old(frame)@).switched,
{
    let next: usize = match k.scheduler.dequeue() {
        Some(tid) => tid,
        None => {
            return false;
        },
    };
    if next >= MAX_TASKS || k.tasks[next].state == TaskState::Exited {
        assert(k@ =~= old(k)@.dispatch(old(frame)@).kernel);
        return false;
    }
    *frame = k.tasks[next].saved;
    k.tasks[next].state = TaskState::Running;
    if k.tasks[next].ttbr0_pa != 0 {
        k.user_root = Some(k.tasks[next].ttbr0_pa);
    }
    let top: u64 = k.tasks[next].kstack_top;
    set_pending_kstack_sp(k, top);
    set_current_tid(k, next);
    proof {
        assert(k@.tasks =~= old(k)@.dispatch(old(frame)@).kernel.tasks);
        assert(k@ =~= old(k)@.dispatch(old(frame)@).kernel);
    }
    true
}

/// Save the current task's frame and switch to the task that has been ready
/// longest. False, with `frame` unchanged, if there is none: the current task
/// then keeps running.
pub fn save_and_switch(k: &mut Kernel, frame: &mut TrapFrame) -> (switched: bool)
    requires
        old(k).wf(),
    ensures
        final(k).wf(),
        final(k)@ == old(k)@.save_and_switch(old(frame)@).kernel,
        final(frame)@ == old(k)@.save_and_switch(old(frame)@).frame,
        switched == old(k)@.save_and_switch(old(frame)@).switched,
        old(k)@.inv() ==> final(k)@.inv() && switched == (old(k)@.ready.len() > 0),
{
    let cur: usize = k.current;
    if cur != 0 && cur < MAX_TASKS && k.tasks[cur].state != TaskState::Exited {
        k.tasks[cur].saved = *frame;
        if k.tasks[cur].state == TaskState::Running && !k.scheduler.is_empty() {
            k.tasks[cur].state = TaskState::Ready;
            let _ = k.scheduler.enqueue(cur);
        }
    }
    assert(k@ =~= old(k)@.save(old(frame)@));
    proof {
        if old(k)@.inv() {
            lemma_save_and_switch_inv(old(k)@, old(frame)@);
        }
    }
    dispatch(k, frame)
}

/// Put the current task to sleep and switch to the next ready task. False if
/// there is none; the task is left Blocked and the caller decides what then.
pub fn block_and_switch(k: &mut Kernel, frame: &mut TrapFrame) -> (switched: bool)
    requires
        old(k).wf(),
    ensures
        final(k).wf(),
        final(k)@ == old(k)@.block_and_switch(old(frame)@).kernel,
        final(frame)@ == old(k)@.block_and_switch(old(frame)@).frame,
        switched == old(k)@.block_and_switch(old(frame)@).switched,
        old(k)@.inv() && old(k)@.current_unqueued() ==> final(k)@.inv() && switched == (
        old(k)@.current != 0 && old(k)@.ready.len() > 0),
{
    let cur: usize = k.current;
    if cur == 0 {
        return false;
    }
    if cur < MAX_TASKS && k.tasks[cur].state != TaskState::Exited {
        k.tasks[cur].saved = *frame;
        k.tasks[cur].state = TaskState::Blocked;
    }
    assert(k@ =~= old(k)@.block(old(frame)@));
    proof {
        if old(k)@.inv() && old(k)@.current_unqueued() {
            lemma_block_and_switch_inv(old(k)@, old(frame)@);
        }
    }
    dispatch(k, frame)
}

/// Kill the current task and switch to the next ready one. False if there is
/// no current task, or nobody left to run.
pub fn kill_current_task(k: &mut Kernel, frame: &mut TrapFrame) -> (switched: bool)
    requires
        old(k).wf(),
    ensures
        final(k).wf(),
        final(k)@ == old(k)@.kill_and_switch(old(frame)@).kernel,
        final(frame)@ == old(k)@.kill_and_switch(old(frame)@).frame,
        switched == old(k)@.kill_and_switch(old(frame)@).switched,
        old(k)@.inv() && old(k)@.current_unqueued() ==> final(k)@.inv(),
{
    let cur: usize = k.current;
    if cur == 0 || cur >= MAX_TASKS {
        return false;
    }
    if k.tasks[cur].state != TaskState::Exited {
        k.tasks[cur].state = TaskState::Exited;
        k.tasks[cur].blocked_send_dst = 0;
        k.tasks[cur].wake_tick = 0;
        k.tasks[cur].waiting_on = 0;
        k.tasks[cur].exit_code = -1;
        k.tasks[cur].mailbox_len = 0;
        k.tasks[cur].mailbox_from = 0;
    }
    assert(k@ =~= old(k)@.kill());
    proof {
        if old(k)@.inv() && old(k)@.current_unqueued() {
            if old(k)@.live(cur as int) {
                lemma_retire_inv(old(k)@, cur as int, k@.tasks[cur as int]);
            }
            assert forall|j: int| 1 <= j < MAX_TASKS implies #[trigger] k@.tasks[j].state
                != TaskState::Running by {
                assert(old(k)@.tasks[j].state == TaskState::Running ==> j == cur);
            }
            lemma_dispatch_inv(k@, old(frame)@);
        }
    }
    dispatch(k, frame)
}

impl KernelView {
    /// A sleep that is over at tick `now`.
    pub open spec fn due(now: u64, t: TaskView) -> bool {
        0 < t.wake_tick <= now
    }

    /// A sleeper to wake at tick `now`.
    pub open spec fn due_sleeper(now: u64) -> spec_fn(TaskView) -> bool {
        |t: TaskView| t.state == TaskState::Blocked && KernelView::due(now, t)
    }

    /// Every deadline in slots 1 up to `n` that has passed is cleared, and the
    /// tasks among them that are Blocked are woken in ID order.
    pub open spec fn wake_due(self, now: u64, n: int) -> KernelView {
        KernelView {
            tasks: Seq::new(
                self.tasks.len(),
                |i: int|
                    {
                        let t = self.tasks[i];
                        if 1 <= i < n && KernelView::due(now, t) {
                            TaskView {
                                wake_tick: 0,
                                state: if t.state == TaskState::Blocked {
                                    TaskState::Ready
                                } else {
                                    t.state
                                },
                                ..t
                            }
                        } else {
                            t
                        }
                    },
            ),
            ready: capped(
                self.ready + tids_where(self.tasks, KernelView::due_sleeper(now), n),
            ),
            ..self
        }
    }

    /// Every sleeper whose time has come is woken.
    pub open spec fn wake_sleepers(self) -> KernelView {
        self.wake_due(self.timer.ticks, MAX_TASKS as int)
    }

    /// `t` sleeps in a `wait` for `child`.
    pub open spec fn blocked_waiting_on(child: usize) -> spec_fn(TaskView) -> bool {
        |t: TaskView| t.state == TaskState::Blocked && t.waiting_on == child
    }

    /// Every task waiting for `child` is woken.
    pub open spec fn wake_waiters(self, child: usize) -> KernelView {
        self.wake_where(
            KernelView::blocked_waiting_on(child),
            |t: TaskView| TaskView { waiting_on: 0, ..t },
            MAX_TASKS as int,
        )
    }

    /// What a `wait` for `child` is answered at once: its exit code if it has
    /// exited, `ESRCH` if there never was such a task, `EAGAIN` if it lives.
    pub open spec fn wait_result(self, child: usize) -> Result<i64, i64> {
        if child == 0 || child >= MAX_TASKS {
            Err(ESRCH)
        } else if self.tasks[child as int].state != TaskState::Exited {
            Err(EAGAIN)
        } else if !self.tasks[child as int].spawned {
            Err(ESRCH)
        } else {
            Ok(self.tasks[child as int].exit_code)
        }
    }
}

/// Looking at one more slot wakes at most the task in it, and keeps the
/// invariant.
proof fn lemma_wake_due_step(k: KernelView, now: u64, tid: usize)
    requires
        k.tasks.len() == MAX_TASKS,
        k.ready.len() <= MAX_TASKS,
        1 <= tid < MAX_TASKS,
    ensures
        ({
            let cur = k.wake_due(now, tid as int);
            let next = k.wake_due(now, tid + 1);
            let t = k.tasks[tid as int];
            let t2 = TaskView { wake_tick: 0, ..t };
            &&& cur.tasks[tid as int] == t
            &&& next == (if !KernelView::due(now, t) {
                cur
            } else if t.state == TaskState::Blocked {
                cur.make_ready(tid as int, t2)
            } else {
                cur.with_task(tid as int, t2)
            })
            &&& cur.inv() ==> next.inv()
        }),
{
    let p = KernelView::due_sleeper(now);
    let cur = k.wake_due(now, tid as int);
    let next = k.wake_due(now, tid + 1);
    let t = k.tasks[tid as int];
    let t2 = TaskView { wake_tick: 0, ..t };
    assert(cur.tasks[tid as int] == t);
    if !KernelView::due(now, t) {
        assert(next.tasks =~= cur.tasks);
        assert(next =~= cur);
    } else if t.state == TaskState::Blocked {
        let prev = tids_where(k.tasks, p, tid as int);
        assert(k.ready + prev.push(tid) =~= (k.ready + prev).push(tid));
        assert(next.tasks =~= cur.make_ready(tid as int, t2).tasks);
        assert(next =~= cur.make_ready(tid as int, t2));
        if cur.inv() {
            lemma_make_ready_inv(cur, tid as int, t2);
        }
    } else {
        assert(next.tasks =~= cur.with_task(tid as int, t2).tasks);
        assert(next =~= cur.with_task(tid as int, t2));
        if cur.inv() {
            lemma_with_task_inv(cur, tid as int, t2);
        }
    }
}

/// Waking keeps the invariant.
pub(crate) proof fn lemma_wake_due_inv(k: KernelView, now: u64, n: int)
    requires
        k.inv(),
        1 <= n <= MAX_TASKS,
    ensures
        k.wake_due(now, n).inv(),
    decreases n,
{
    lemma_ready_len(k);
    if n == 1 {
        assert(k.wake_due(now, 1) =~= k);
    } else {
        lemma_wake_due_inv(k, now, n - 1);
        lemma_wake_due_step(k, now, (n - 1) as usize);
    }
}

/// Wake every sleeping task whose deadline the tick counter has reached.
pub fn wake_sleepers(k: &mut Kernel)
    requires
        old(k).wf(),
    ensures
        final(k).wf(),
        final(k)@ == old(k)@.wake_sleepers(),
        old(k)@.inv() ==> final(k)@.inv(),
{
    let now: u64 = ticks(&k.timer);
    let mut tid: usize = 1;
    proof {
        old(k).scheduler.lemma_len();
        assert(k@.wake_due(now, 1) =~= k@);
    }
    while tid < MAX_TASKS
        invariant
            1 <= tid <= MAX_TASKS,
            k.wf(),
            old(k)@.tasks.len() == MAX_TASKS,
            old(k)@.ready.len() <= MAX_TASKS,
            k@ == old(k)@.wake_due(now, tid as int),
            old(k)@.inv() ==> k@.inv(),
        decreases MAX_TASKS - tid,
    {
        let ghost k0 = *k;
        proof {
            lemma_wake_due_step(old(k)@, now, tid);
        }
        let due: bool = k.tasks[tid].wake_tick != 0 && k.tasks[tid].wake_tick <= now;
        if due {
            let ghost t2 = TaskView { wake_tick: 0, ..k0@.tasks[tid as int] };
            k.tasks[tid].wake_tick = 0;
            if k.tasks[tid].state == TaskState::Blocked {
                k.tasks[tid].state = TaskState::Ready;
                let _ = k.scheduler.enqueue(tid);
                assert(k@ =~= k0@.make_ready(tid as int, t2));
            } else {
                assert(k@ =~= k0@.with_task(tid as int, t2));
            }
        }
        tid = tid + 1;
    }
}

/// Collect the exit code of task `child_tid` if it has exited. `ESRCH` if there
/// never was such a task, `EAGAIN` if it has not exited yet; the system call
/// negates them.
pub fn try_wait(k: &Kernel, child_tid: usize) -> (r: Result<i64, i64>)
    ensures
        r == k@.wait_result(child_tid),
{
    if child_tid == 0 || child_tid >= MAX_TASKS {
        return Err(ESRCH);
    }
    let t = k.tasks[child_tid];
    if t.state != TaskState::Exited {
        Err(EAGAIN)
    } else if !t.spawned {
        Err(ESRCH)
    } else {
        Ok(t.exit_code)
    }
}

/// Wake every task Blocked in a `wait` for `exiting_tid`, in ID order.
pub fn wake_waiters(k: &mut Kernel, exiting_tid: usize)
    requires
        old(k).wf(),
    ensures
        final(k).wf(),
        final(k)@ == old(k)@.wake_waiters(exiting_tid),
        old(k)@.inv() ==> final(k)@.inv(),
{
    let ghost p = KernelView::blocked_waiting_on(exiting_tid);
    let ghost f = |t: TaskView| TaskView { waiting_on: 0, ..t };
    let mut tid: usize = 1;
    proof {
        old(k).scheduler.lemma_len();
        lemma_wake_where_start(k@, p, f);
    }
    while tid < MAX_TASKS
        invariant
            1 <= tid <= MAX_TASKS,
            k.wf(),
            old(k)@.ready.len() <= MAX_TASKS,
            p == KernelView::blocked_waiting_on(exiting_tid),
            f == (|t: TaskView| TaskView { waiting_on: 0, ..t }),
            k@ == old(k)@.wake_where(p, f, tid as int),
            old(k)@.inv() ==> k@.inv(),
        decreases MAX_TASKS - tid,
    {
        let ghost k0 = *k;
        proof {
            lemma_wake_where_step(old(k)@, p, f, tid as int);
        }
        if k.tasks[tid].state == TaskState::Blocked && k.tasks[tid].waiting_on == exiting_tid {
            k.tasks[tid].waiting_on = 0;
            k.tasks[tid].state = TaskState::Ready;
            let _ = k.scheduler.enqueue(tid);
            proof {
                let t = k0@.tasks[tid as int];
                assert(k@ =~= k0@.make_ready(tid as int, f(t)));
                if k0@.inv() {
                    lemma_make_ready_inv(k0@, tid as int, f(t));
                }
            }
        }
        tid = tid + 1;
    }
}

/// Is preemptive scheduling enabled?
pub fn preempt_enabled(k: &Kernel) -> (b: bool)
    ensures
        b == k@.preempt,
{
    k.preempt
}

/// Let the timer take the CPU away from a running task.
pub fn preempt_on(k: &mut Kernel)
    ensures
        *final(k) == (Kernel { preempt: true, ..*old(k) }),
{
    k.preempt = true;
}

/// Leave switching to the tasks.
pub fn preempt_off(k: &mut Kernel)
    ensures
        *final(k) == (Kernel { preempt: false, ..*old(k) }),
{
    k.preempt = false;
}

/// How many timer-driven switches have happened.
pub fn preempts(k: &Kernel) -> (n: u64)
    ensures
        n == k@.preempts,
{
    k.preempts
}

/// Count a timer-driven switch. The counter wraps, as an atomic add does.
pub fn bump_preempts(k: &mut Kernel)
    ensures
        *final(k) == (Kernel {
            preempts: ((old(k).preempts + 1) % 0x1_0000_0000_0000_0000) as u64,
            ..*old(k)
        }),
{
    k.preempts = k.preempts.wrapping_add(1);
}

/// One line of the task table as the monitor shows it.
pub struct TaskRow {
    pub tid: usize,
    pub name: String,
    pub state: TaskState,
    pub ttbr0_pa: u64,
    pub kstack_top: u64,
    pub mailbox_len: usize,
    pub mailbox_from: usize,
}

impl TaskRow {
    /// The row shows slot `tid` holding `t`.
    pub open spec fn shows(self, tid: int, t: TaskView) -> bool {
        &&& self.tid == tid
        &&& self.name@ == name_text(t.name)
        &&& self.state == t.state
        &&& self.ttbr0_pa == t.ttbr0_pa
        &&& self.kstack_top == t.kstack_top
        &&& self.mailbox_len == t.mailbox_len
        &&& self.mailbox_from == t.mailbox_from
    }
}

/// The task table and scheduler as the monitor shows them.
pub struct TaskDump {
    /// One row per live slot, in ID order.
    pub rows: Vec<TaskRow>,
    pub ready: usize,
    pub current: usize,
    pub preempts: u64,
}

/// The live slots below `n`, ascending.
pub open spec fn live_tids(k: KernelView, n: int) -> Seq<int>
    decreases n,
{
    if n <= 0 {
        Seq::empty()
    } else if k.live(n - 1) {
        live_tids(k, n - 1).push(n - 1)
    } else {
        live_tids(k, n - 1)
    }
}

/// What the `tasks` command shows: every task that has not exited, and the
/// scheduler's counters.
pub fn dump_tasks(k: &Kernel) -> (d: TaskDump)
    ensures
        d.rows@.len() == live_tids(k@, MAX_TASKS as int).len(),
        forall|i: int|
            0 <= i < d.rows@.len() ==> {
                let tid = live_tids(k@, MAX_TASKS as int)[i];
                (#[trigger] d.rows@[i]).shows(tid, k@.tasks[tid])
            },
        d.ready == k@.ready.len(),
        d.current == k@.current,
        d.preempts == k@.preempts,
{
    let mut rows: Vec<TaskRow> = Vec::new();
    let mut tid: usize = 0;
    while tid < MAX_TASKS
        invariant
            0 <= tid <= MAX_TASKS,
            rows@.len() == live_tids(k@, tid as int).len(),
            forall|i: int|
                0 <= i < rows@.len() ==> {
                    let j = live_tids(k@, tid as int)[i];
                    (#[trigger] rows@[i]).shows(j, k@.tasks[j])
                },
        decreases MAX_TASKS - tid,
    {
        let t = &k.tasks[tid];
        if t.state != TaskState::Exited {
            rows.push(
                TaskRow {
                    tid: tid,
                    name: t.name_str().to_owned(),
                    state: t.state,
                    ttbr0_pa: t.ttbr0_pa,
                    kstack_top: t.kstack_top,
                    mailbox_len: t.mailbox_len,
                    mailbox_from: t.mailbox_from,
                },
            );
        }
        tid = tid + 1;
    }
    TaskDump { rows, ready: k.scheduler.len(), current: k.current, preempts: k.preempts }
}

} // verus!

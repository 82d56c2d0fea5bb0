//! User address spaces, and the drop into them.

use crate::arch::aarch64::mmu::{page_desc, table_desc, Attr, PageTable, GRANULE, PA_LIMIT};
use crate::arch::aarch64::mmu::{l0i, l1i, l2i, l3i};
use crate::arch::aarch64::programs::{
    TASK_BLKIPC_RECEIVER_BYTES, TASK_BLKIPC_SENDER_BYTES, TASK_B_PROGRAM_BYTES,
    TASK_IPC_RECEIVER_BYTES, TASK_IPC_SENDER_BYTES, TASK_PREEMPT_A_BYTES, TASK_PREEMPT_B_BYTES,
    TASK_SENDBLK_RECEIVER_BYTES, TASK_SENDBLK_SENDER_BYTES, USER_FAULT_PROGRAM_BYTES,
    USER_PROGRAM_BYTES,
};
use crate::sched::{
    preempt_on, set_current_tid, spawn, Kernel, KernelView, TaskState, TaskView, MAX_TASKS,
};
use vstd::prelude::*;

verus! {

/// Where the user code page lies.
pub const USER_CODE_VA: u64 = 0x10_0000;

/// Where the user stack page lies.
pub const USER_STACK_VA: u64 = 0x20_0000;

/// The initial stack pointer: the top of the stack page.
pub const USER_STACK_TOP: u64 = 0x20_4000;

/// A user address space: four tables, a page of code and a page of stack.
pub struct UserSpace {
    pub l0: PageTable,
    pub l1: PageTable,
    pub l2: PageTable,
    pub l3: PageTable,
    pub code: Vec<u8>,
    pub stack: Vec<u8>,
}

/// Where the parts of a user address space lie, physically.
#[derive(Clone, Copy)]
pub struct UserPas {
    pub l0: u64,
    pub l1: u64,
    pub l2: u64,
    pub l3: u64,
    pub code: u64,
    pub stack: u64,
}

/// A usable table or page address.
pub open spec fn frame_at(pa: u64) -> bool {
    pa % GRANULE == 0 && pa < PA_LIMIT
}

impl UserPas {
    /// Every part is a whole, aligned frame.
    pub open spec fn wf(self) -> bool {
        frame_at(self.l0) && frame_at(self.l1) && frame_at(self.l2) && frame_at(self.l3)
            && frame_at(self.code) && frame_at(self.stack)
    }
}

impl UserSpace {
    /// The code page is a page.
    pub open spec fn wf(self) -> bool {
        self.code@.len() == GRANULE
    }

    /// Nothing is mapped and the pages are zeroed.
    pub open spec fn is_empty(self) -> bool {
        &&& self.l0@ == crate::arch::aarch64::mmu::empty_table()
        &&& self.l1@ == crate::arch::aarch64::mmu::empty_table()
        &&& self.l2@ == crate::arch::aarch64::mmu::empty_table()
        &&& self.l3@ == crate::arch::aarch64::mmu::empty_table()
        &&& self.code@ == Seq::new(GRANULE as nat, |i: int| 0u8)
        &&& self.stack@ == Seq::new(GRANULE as nat, |i: int| 0u8)
    }

    /// An address space in which nothing is mapped.
    pub fn new() -> (s: UserSpace)
        ensures
            s.is_empty(),
            s.wf(),
    {
        UserSpace {
            l0: PageTable::new(),
            l1: PageTable::new(),
            l2: PageTable::new(),
            l3: PageTable::new(),
            code: zero_page(),
            stack: zero_page(),
        }
    }
}

fn zero_page() -> (v: Vec<u8>)
    ensures
        v@ == Seq::new(GRANULE as nat, |i: int| 0u8),
{
    let mut v: Vec<u8> = Vec::new();
    let mut i: u64 = 0;
    while i < GRANULE
        invariant
            i <= GRANULE,
            v@ == Seq::new(i as nat, |j: int| 0u8),
        decreases GRANULE - i,
    {
        v.push(0);
        i = i + 1;
        assert(v@ =~= Seq::new(i as nat, |j: int| 0u8));
    }
    v
}

/// `s` is `before` with its two pages wired in at the standard addresses: code
/// readable and executable by the user, stack readable and writable.
pub open spec fn wired(s: UserSpace, before: UserSpace, pas: UserPas) -> bool {
    &&& s.l0@ == before.l0@.update(0, (pas.l1 + 3) as u64)
    &&& s.l1@ == before.l1@.update(0, (pas.l2 + 3) as u64)
    &&& s.l2@ == before.l2@.update(0, (pas.l3 + 3) as u64)
    &&& s.l3@ == before.l3@.update(
        64,
        crate::arch::aarch64::mmu::page(pas.code as int, Attr::UserRx),
    ).update(128, crate::arch::aarch64::mmu::page(pas.stack as int, Attr::UserRw))
}

/// Wire the tree: root to leaf table, with the code and the stack page.
fn wire_user_tables(s: &mut UserSpace, pas: &UserPas)
    requires
        pas.wf(),
    ensures
        wired(*final(s), *old(s), *pas),
        final(s).code == old(s).code,
        final(s).stack == old(s).stack,
{
    s.l0.set(l0i(USER_CODE_VA), table_desc(pas.l1));
    s.l1.set(l1i(USER_CODE_VA), table_desc(pas.l2));
    s.l2.set(l2i(USER_CODE_VA), table_desc(pas.l3));
    s.l3.set(l3i(USER_CODE_VA), page_desc(pas.code, Attr::UserRx));
    s.l3.set(l3i(USER_STACK_VA), page_desc(pas.stack, Attr::UserRw));
}

/// `s` is `before` holding `prog` at the start of its code page, wired.
pub open spec fn loaded(s: UserSpace, before: UserSpace, pas: UserPas, prog: Seq<u8>) -> bool {
    &&& wired(s, before, pas)
    &&& s.code@ == prog + before.code@.skip(prog.len() as int)
    &&& s.stack@ == before.stack@
}

/// Copy `prog` into the code page, wire the tree, and return its root.
fn build_user_space_with(s: &mut UserSpace, pas: &UserPas, prog: &[u8]) -> (root: u64)
    requires
        old(s).wf(),
        pas.wf(),
        prog@.len() <= GRANULE,
    ensures
        final(s).wf(),
        loaded(*final(s), *old(s), *pas, prog@),
        root == pas.l0,
{
    let mut i: usize = 0;
    while i < prog.len()
        invariant
            0 <= i <= prog@.len() <= GRANULE,
            s.code@.len() == GRANULE,
            forall|j: int| 0 <= j < i ==> s.code@[j] == prog@[j],
            forall|j: int| i <= j < GRANULE ==> s.code@[j] == old(s).code@[j],
            s.l0 == old(s).l0,
            s.l1 == old(s).l1,
            s.l2 == old(s).l2,
            s.l3 == old(s).l3,
            s.stack == old(s).stack,
        decreases prog@.len() - i,
    {
        s.code[i] = prog[i];
        i = i + 1;
    }
    assert(s.code@ =~= prog@ + old(s).code@.skip(prog@.len() as int));
    wire_user_tables(s, pas);
    pas.l0
}

/// Build the address space of the "hello" program.
pub fn build_user_space(s: &mut UserSpace, pas: &UserPas) -> (root: u64)
    requires
        old(s).wf(),
        pas.wf(),
    ensures
        final(s).wf(),
        loaded(*final(s), *old(s), *pas, USER_PROGRAM_BYTES@),
        root == pas.l0,
{
    let prog = USER_PROGRAM_BYTES;
    build_user_space_with(s, pas, &prog)
}

/// Build the address space of the faulting program.
pub fn build_fault_user_space(s: &mut UserSpace, pas: &UserPas) -> (root: u64)
    requires
        old(s).wf(),
        pas.wf(),
    ensures
        final(s).wf(),
        loaded(*final(s), *old(s), *pas, USER_FAULT_PROGRAM_BYTES@),
        root == pas.l0,
{
    let prog = USER_FAULT_PROGRAM_BYTES;
    build_user_space_with(s, pas, &prog)
}

/// Everything `eret` needs to enter EL0, besides zeroed general registers.
#[derive(Clone, Copy, PartialEq, Eq, Structural, Debug)]
pub struct El0Entry {
    /// TTBR0_EL1.
    pub root: u64,
    /// ELR_EL1.
    pub entry: u64,
    /// SP_EL0.
    pub sp: u64,
    /// SPSR_EL1: EL0, every interrupt unmasked.
    pub spsr: u64,
}

/// The entry state of a task whose tree is at `root`.
pub open spec fn entry_at(root: u64) -> El0Entry {
    El0Entry { root, entry: USER_CODE_VA, sp: USER_STACK_TOP, spsr: 0 }
}

fn drop_to_el0_with(k: &mut Kernel, root_pa: u64) -> (e: El0Entry)
    requires
        old(k).wf(),
    ensures
        final(k).wf(),
        final(k)@ == (KernelView { user_root: Some(root_pa), ..old(k)@ }),
        e == entry_at(root_pa),
{
    k.user_root = Some(root_pa);
    assert(k@ =~= (KernelView { user_root: Some(root_pa), ..old(k)@ }));
    El0Entry { root: root_pa, entry: USER_CODE_VA, sp: USER_STACK_TOP, spsr: 0 }
}

/// Enter the "hello" program.
pub fn drop_to_el0(k: &mut Kernel, s: &mut UserSpace, pas: &UserPas) -> (e: El0Entry)
    requires
        old(k).wf(),
        old(s).wf(),
        pas.wf(),
    ensures
        final(k).wf(),
        final(s).wf(),
        loaded(*final(s), *old(s), *pas, USER_PROGRAM_BYTES@),
        final(k)@ == (KernelView { user_root: Some(pas.l0), ..old(k)@ }),
        e == entry_at(pas.l0),
{
    let root: u64 = build_user_space(s, pas);
    drop_to_el0_with(k, root)
}

/// Enter the faulting program.
pub fn drop_to_el0_fault(k: &mut Kernel, s: &mut UserSpace, pas: &UserPas) -> (e: El0Entry)
    requires
        old(k).wf(),
        old(s).wf(),
        pas.wf(),
    ensures
        final(k).wf(),
        final(s).wf(),
        loaded(*final(s), *old(s), *pas, USER_FAULT_PROGRAM_BYTES@),
        final(k)@ == (KernelView { user_root: Some(pas.l0), ..old(k)@ }),
        e == entry_at(pas.l0),
{
    let root: u64 = build_fault_user_space(s, pas);
    drop_to_el0_with(k, root)
}

/// The memory of one task of a demonstration.
pub struct TaskMem {
    pub space: UserSpace,
    pub pas: UserPas,
    /// The top of the task's kernel stack.
    pub kstack_top: u64,
}

impl TaskMem {
    pub open spec fn wf(self) -> bool {
        self.space.wf() && self.pas.wf()
    }

    /// `self` is `before` with `prog` loaded.
    pub open spec fn holds(self, before: TaskMem, prog: Seq<u8>) -> bool {
        &&& self.pas == before.pas
        &&& self.kstack_top == before.kstack_top
        &&& loaded(self.space, before.space, before.pas, prog)
    }
}

/// How the start of a demonstration went.
#[derive(Clone, Copy, PartialEq, Eq, Structural, Debug)]
pub enum Launch {
    /// Enter EL0 in task `first`; tasks `a` and `b` were created.
    Enter { a: usize, b: usize, first: usize, entry: El0Entry },
    /// The task table was full.
    TableFull,
    /// The ready queue was empty.
    QueueEmpty,
    /// The first task in the queue does not exist.
    Vanished { first: usize },
}

/// The two tasks of a demonstration are created, A first.
pub open spec fn spawned(
    k: KernelView,
    a: Option<usize>,
    name: Seq<u8>,
    root: u64,
    kstack_top: u64,
) -> KernelView {
    match a {
        Some(tid) => k.make_ready(
            tid as int,
            KernelView::newborn(name, root, kstack_top, USER_CODE_VA, USER_STACK_TOP),
        ),
        None => k,
    }
}

/// The task at the head of the queue is entered from the monitor.
pub open spec fn enter_first(k: KernelView, a: usize, b: usize) -> (Launch, KernelView) {
    if k.ready.len() == 0 {
        (Launch::QueueEmpty, k)
    } else {
        let first = k.ready[0];
        let k1 = KernelView { ready: k.ready.drop_first(), ..k };
        let t = k.tasks[first as int];
        if !k.live(first as int) {
            (Launch::Vanished { first }, k1)
        } else {
            (
                Launch::Enter { a, b, first, entry: entry_at(t.ttbr0_pa) },
                KernelView {
                    current: first,
                    user_root: Some(t.ttbr0_pa),
                    ..k1.with_task(first as int, TaskView { state: TaskState::Running, ..t })
                },
            )
        }
    }
}

/// Tasks A and B are created; if both could be, the head of the queue is
/// entered, with preemption at `period` counter ticks if that is given.
pub open spec fn launch(
    k: KernelView,
    name_a: Seq<u8>,
    name_b: Seq<u8>,
    mem_a: TaskMem,
    mem_b: TaskMem,
    period: Option<u64>,
) -> (Launch, KernelView) {
    let a = k.free_slot();
    let k1 = spawned(k, a, name_a, mem_a.pas.l0, mem_a.kstack_top);
    let b = k1.free_slot();
    let k2 = spawned(k1, b, name_b, mem_b.pas.l0, mem_b.kstack_top);
    match (a, b) {
        (Some(a), Some(b)) => {
            let k3 = match period {
                Some(p) => KernelView {
                    preempt: true,
                    timer: crate::arch::aarch64::timer::Timer { period: p, ..k2.timer },
                    ..k2
                },
                None => k2,
            };
            enter_first(k3, a, b)
        },
        _ => (Launch::TableFull, k2),
    }
}

fn enter_head(k: &mut Kernel, a: usize, b: usize) -> (l: Launch)
    requires
        old(k).wf(),
    ensures
        final(k).wf(),
        (l, final(k)@) == enter_first(old(k)@, a, b),
{
    let first: usize = match k.scheduler.dequeue() {
        Some(tid) => tid,
        None => {
            return Launch::QueueEmpty;
        },
    };
    if first >= MAX_TASKS || k.tasks[first].state == TaskState::Exited {
        assert(k@ =~= enter_first(old(k)@, a, b).1);
        return Launch::Vanished { first };
    }
    k.tasks[first].state = TaskState::Running;
    let root: u64 = k.tasks[first].ttbr0_pa;
    set_current_tid(k, first);
    assert(k@.tasks =~= enter_first(old(k)@, a, b).1.tasks);
    let entry = drop_to_el0_with(k, root);
    assert(k@ =~= enter_first(old(k)@, a, b).1);
    Launch::Enter { a, b, first, entry }
}

fn launch_pair(
    k: &mut Kernel,
    name_a: &[u8],
    name_b: &[u8],
    root_a: u64,
    root_b: u64,
    mem_a: &TaskMem,
    mem_b: &TaskMem,
    period: Option<u64>,
) -> (l: Launch)
    requires
        old(k).wf(),
        root_a == mem_a.pas.l0,
        root_b == mem_b.pas.l0,
    ensures
        final(k).wf(),
        (l, final(k)@) == launch(old(k)@, name_a@, name_b@, *mem_a, *mem_b, period),
{
    let a = spawn(k, name_a, root_a, mem_a.kstack_top, USER_CODE_VA, USER_STACK_TOP);
    let b = spawn(k, name_b, root_b, mem_b.kstack_top, USER_CODE_VA, USER_STACK_TOP);
    match (a, b) {
        (Some(a), Some(b)) => {
            let ghost k2 = k@;
            match period {
                Some(p) => {
                    k.timer.period = p;
                    preempt_on(k);
                    assert(k@ =~= (KernelView {
                        preempt: true,
                        timer: crate::arch::aarch64::timer::Timer { period: p, ..k2.timer },
                        ..k2
                    }));
                },
                None => {},
            }
            enter_head(k, a, b)
        },
        _ => Launch::TableFull,
    }
}

fn build_task_user_space(mem: &mut TaskMem, prog: &[u8]) -> (root: u64)
    requires
        old(mem).wf(),
        prog@.len() <= GRANULE,
    ensures
        final(mem).wf(),
        final(mem).holds(*old(mem), prog@),
        root == final(mem).pas.l0,
{
    let pas = mem.pas;
    build_user_space_with(&mut mem.space, &pas, prog)
}

/// Two tasks that yield to each other: "A" and "B".
pub fn drop_to_el0_scheduled(
    k: &mut Kernel,
    mem_a: &mut TaskMem,
    mem_b: &mut TaskMem,
) -> (l: Launch)
    requires
        old(k).wf(),
        old(mem_a).wf(),
        old(mem_b).wf(),
    ensures
        final(k).wf(),
        final(mem_a).wf(),
        final(mem_b).wf(),
        final(mem_a).holds(*old(mem_a), USER_PROGRAM_BYTES@),
        final(mem_b).holds(*old(mem_b), TASK_B_PROGRAM_BYTES@),
        (l, final(k)@) == launch(
            old(k)@,
            seq![0x41u8],
            seq![0x42u8],
            *final(mem_a),
            *final(mem_b),
            None,
        ),
{
    let prog_a = USER_PROGRAM_BYTES;
    let prog_b = TASK_B_PROGRAM_BYTES;
    let root_a: u64 = build_task_user_space(mem_a, &prog_a);
    let root_b: u64 = build_task_user_space(mem_b, &prog_b);
    let name_a: [u8; 1] = [0x41u8];
    let name_b: [u8; 1] = [0x42u8];
    assert(name_a@ =~= seq![0x41u8]);
    assert(name_b@ =~= seq![0x42u8]);
    launch_pair(k, &name_a, &name_b, root_a, root_b, mem_a, mem_b, None)
}

/// Two tasks that spin, "preA" and "preB", under preemption: the timer is to be
/// armed to fire after `freq` counter ticks, one second.
pub fn drop_to_el0_preempt(
    k: &mut Kernel,
    mem_a: &mut TaskMem,
    mem_b: &mut TaskMem,
    freq: u64,
) -> (l: Launch)
    requires
        old(k).wf(),
        old(mem_a).wf(),
        old(mem_b).wf(),
    ensures
        final(k).wf(),
        final(mem_a).wf(),
        final(mem_b).wf(),
        final(mem_a).holds(*old(mem_a), TASK_PREEMPT_A_BYTES@),
        final(mem_b).holds(*old(mem_b), TASK_PREEMPT_B_BYTES@),
        (l, final(k)@) == launch(
            old(k)@,
            seq![0x70u8, 0x72u8, 0x65u8, 0x41u8],
            seq![0x70u8, 0x72u8, 0x65u8, 0x42u8],
            *final(mem_a),
            *final(mem_b),
            Some(freq),
        ),
{
    let prog_a = TASK_PREEMPT_A_BYTES;
    let prog_b = TASK_PREEMPT_B_BYTES;
    let root_a: u64 = build_task_user_space(mem_a, &prog_a);
    let root_b: u64 = build_task_user_space(mem_b, &prog_b);
    let name_a: [u8; 4] = [0x70u8, 0x72, 0x65, 0x41];
    let name_b: [u8; 4] = [0x70u8, 0x72, 0x65, 0x42];
    assert(name_a@ =~= seq![0x70u8, 0x72u8, 0x65u8, 0x41u8]);
    assert(name_b@ =~= seq![0x70u8, 0x72u8, 0x65u8, 0x42u8]);
    launch_pair(k, &name_a, &name_b, root_a, root_b, mem_a, mem_b, Some(freq))
}

/// A sender and a receiver, "ipcA" and "ipcB".
pub fn drop_to_el0_ipc(
    k: &mut Kernel,
    mem_a: &mut TaskMem,
    mem_b: &mut TaskMem,
) -> (l: Launch)
    requires
        old(k).wf(),
        old(mem_a).wf(),
        old(mem_b).wf(),
    ensures
        final(k).wf(),
        final(mem_a).wf(),
        final(mem_b).wf(),
        final(mem_a).holds(*old(mem_a), TASK_IPC_SENDER_BYTES@),
        final(mem_b).holds(*old(mem_b), TASK_IPC_RECEIVER_BYTES@),
        (l, final(k)@) == launch(
            old(k)@,
            seq![0x69u8, 0x70u8, 0x63u8, 0x41u8],
            seq![0x69u8, 0x70u8, 0x63u8, 0x42u8],
            *final(mem_a),
            *final(mem_b),
            None,
        ),
{
    let prog_a = TASK_IPC_SENDER_BYTES;
    let prog_b = TASK_IPC_RECEIVER_BYTES;
    let root_a: u64 = build_task_user_space(mem_a, &prog_a);
    let root_b: u64 = build_task_user_space(mem_b, &prog_b);
    let name_a: [u8; 4] = [0x69u8, 0x70, 0x63, 0x41];
    let name_b: [u8; 4] = [0x69u8, 0x70, 0x63, 0x42];
    assert(name_a@ =~= seq![0x69u8, 0x70u8, 0x63u8, 0x41u8]);
    assert(name_b@ =~= seq![0x69u8, 0x70u8, 0x63u8, 0x42u8]);
    launch_pair(k, &name_a, &name_b, root_a, root_b, mem_a, mem_b, None)
}

/// A sender and a receiver that blocks, "blkA" and "blkB".
pub fn drop_to_el0_blkipc(
    k: &mut Kernel,
    mem_a: &mut TaskMem,
    mem_b: &mut TaskMem,
) -> (l: Launch)
    requires
        old(k).wf(),
        old(mem_a).wf(),
        old(mem_b).wf(),
    ensures
        final(k).wf(),
        final(mem_a).wf(),
        final(mem_b).wf(),
        final(mem_a).holds(*old(mem_a), TASK_BLKIPC_SENDER_BYTES@),
        final(mem_b).holds(*old(mem_b), TASK_BLKIPC_RECEIVER_BYTES@),
        (l, final(k)@) == launch(
            old(k)@,
            seq![0x62u8, 0x6cu8, 0x6bu8, 0x41u8],
            seq![0x62u8, 0x6cu8, 0x6bu8, 0x42u8],
            *final(mem_a),
            *final(mem_b),
            None,
        ),
{
    let prog_a = TASK_BLKIPC_SENDER_BYTES;
    let prog_b = TASK_BLKIPC_RECEIVER_BYTES;
    let root_a: u64 = build_task_user_space(mem_a, &prog_a);
    let root_b: u64 = build_task_user_space(mem_b, &prog_b);
    let name_a: [u8; 4] = [0x62u8, 0x6c, 0x6b, 0x41];
    let name_b: [u8; 4] = [0x62u8, 0x6c, 0x6b, 0x42];
    assert(name_a@ =~= seq![0x62u8, 0x6cu8, 0x6bu8, 0x41u8]);
    assert(name_b@ =~= seq![0x62u8, 0x6cu8, 0x6bu8, 0x42u8]);
    launch_pair(k, &name_a, &name_b, root_a, root_b, mem_a, mem_b, None)
}

/// A sender that blocks and a receiver, "sdkA" and "sdkB".
pub fn drop_to_el0_sendblk(
    k: &mut Kernel,
    mem_a: &mut TaskMem,
    mem_b: &mut TaskMem,
) -> (l: Launch)
    requires
        old(k).wf(),
        old(mem_a).wf(),
        old(mem_b).wf(),
    ensures
        final(k).wf(),
        final(mem_a).wf(),
        final(mem_b).wf(),
        final(mem_a).holds(*old(mem_a), TASK_SENDBLK_SENDER_BYTES@),
        final(mem_b).holds(*old(mem_b), TASK_SENDBLK_RECEIVER_BYTES@),
        (l, final(k)@) == launch(
            old(k)@,
            seq![0x73u8, 0x64u8, 0x6bu8, 0x41u8],
            seq![0x73u8, 0x64u8, 0x6bu8, 0x42u8],
            *final(mem_a),
            *final(mem_b),
            None,
        ),
{
    let prog_a = TASK_SENDBLK_SENDER_BYTES;
    let prog_b = TASK_SENDBLK_RECEIVER_BYTES;
    let root_a: u64 = build_task_user_space(mem_a, &prog_a);
    let root_b: u64 = build_task_user_space(mem_b, &prog_b);
    let name_a: [u8; 4] = [0x73u8, 0x64, 0x6b, 0x41];
    let name_b: [u8; 4] = [0x73u8, 0x64, 0x6b, 0x42];
    assert(name_a@ =~= seq![0x73u8, 0x64u8, 0x6bu8, 0x41u8]);
    assert(name_b@ =~= seq![0x73u8, 0x64u8, 0x6bu8, 0x42u8]);
    launch_pair(k, &name_a, &name_b, root_a, root_b, mem_a, mem_b, None)
}

/// The next table of a walk, if the descriptor is a table's.
pub open spec fn next_table(desc: u64) -> Option<u64> {
    if desc % 4 == 3 {
        Some(crate::arch::aarch64::mmu::page_base(desc))
    } else {
        None
    }
}

/// Where `va` leads through the tree of a user address space: the leaf
/// descriptor, or None for a translation fault.
pub open spec fn user_leaf(s: UserSpace, pas: UserPas, va: u64) -> Option<u64> {
    if next_table(s.l0@[crate::arch::aarch64::mmu::l0_index(va)]) != Some(pas.l1) {
        None
    } else if next_table(s.l1@[crate::arch::aarch64::mmu::l1_index(va)]) != Some(pas.l2) {
        None
    } else if next_table(s.l2@[crate::arch::aarch64::mmu::l2_index(va)]) != Some(pas.l3) {
        None
    } else {
        let d = s.l3@[crate::arch::aarch64::mmu::l3_index(va)];
        if d % 4 == 3 {
            Some(d)
        } else {
            None
        }
    }
}

/// A user task sees its own code page, its own stack page and nothing else.
pub proof fn law_user_space_is_two_pages(
    s: UserSpace,
    before: UserSpace,
    pas: UserPas,
    prog: Seq<u8>,
    va: u64,
)
    requires
        before.is_empty(),
        pas.wf(),
        loaded(s, before, pas, prog),
        va < PA_LIMIT,
    ensures
        user_leaf(s, pas, va) == (if USER_CODE_VA <= va < USER_CODE_VA + GRANULE {
            Some(crate::arch::aarch64::mmu::page(pas.code as int, Attr::UserRx))
        } else if USER_STACK_VA <= va < USER_STACK_TOP {
            Some(crate::arch::aarch64::mmu::page(pas.stack as int, Attr::UserRw))
        } else {
            None
        }),
        crate::arch::aarch64::mmu::page_base(
            crate::arch::aarch64::mmu::page(pas.code as int, Attr::UserRx),
        ) == pas.code,
        crate::arch::aarch64::mmu::page_base(
            crate::arch::aarch64::mmu::page(pas.stack as int, Attr::UserRw),
        ) == pas.stack,
{
    let i0 = crate::arch::aarch64::mmu::l0_index(va);
    let i1 = crate::arch::aarch64::mmu::l1_index(va);
    let i2 = crate::arch::aarch64::mmu::l2_index(va);
    let i3 = crate::arch::aarch64::mmu::l3_index(va);
    lemma_link_base(pas.l1);
    lemma_link_base(pas.l2);
    lemma_link_base(pas.l3);
    assert(0 <= i0 < 2048 && 0 <= i1 < 2048 && 0 <= i2 < 2048 && 0 <= i3 < 2048);
    assert(i0 == 0 ==> va < 0x8000_0000_0000);
    assert(i0 == 0 && i1 == 0 ==> va < 0x10_0000_0000);
    assert(i0 == 0 && i1 == 0 && i2 == 0 ==> va < 0x200_0000 && i3 == va as int / 0x4000);
}

proof fn lemma_link_base(pa: u64)
    requires
        frame_at(pa),
    ensures
        next_table((pa + 3) as u64) == Some(pa),
        next_table(0) is None,
{
    crate::arch::aarch64::mmu::lemma_table_base(pa);
}

/// Two tasks with different pages share none: no address of one leads to a page
/// of the other.
pub proof fn law_user_spaces_are_disjoint(
    s1: UserSpace,
    s2: UserSpace,
    before: UserSpace,
    p1: UserPas,
    p2: UserPas,
    prog1: Seq<u8>,
    prog2: Seq<u8>,
    va1: u64,
    va2: u64,
)
    requires
        before.is_empty(),
        p1.wf(),
        p2.wf(),
        loaded(s1, before, p1, prog1),
        loaded(s2, before, p2, prog2),
        p1.code != p2.code,
        p1.code != p2.stack,
        p1.stack != p2.code,
        p1.stack != p2.stack,
        va1 < PA_LIMIT,
        va2 < PA_LIMIT,
    ensures
        match (user_leaf(s1, p1, va1), user_leaf(s2, p2, va2)) {
            (Some(d1), Some(d2)) => crate::arch::aarch64::mmu::page_base(d1)
                != crate::arch::aarch64::mmu::page_base(d2),
            _ => true,
        },
{
    law_user_space_is_two_pages(s1, before, p1, prog1, va1);
    law_user_space_is_two_pages(s2, before, p2, prog2, va2);
}

/// From a kernel without tasks a demonstration starts with A running as task 1
/// and B waiting as task 2, and the scheduling invariant holds.
pub proof fn law_launch_enters(
    k: KernelView,
    name_a: Seq<u8>,
    name_b: Seq<u8>,
    mem_a: TaskMem,
    mem_b: TaskMem,
)
    requires
        k.inv(),
        k.ready.len() == 0,
        forall|tid: int|
            1 <= tid < MAX_TASKS ==> #[trigger] k.tasks[tid].state == TaskState::Exited,
    ensures
        ({
            let (l, k2) = launch(k, name_a, name_b, mem_a, mem_b, None);
            &&& l == (Launch::Enter { a: 1, b: 2, first: 1, entry: entry_at(mem_a.pas.l0) })
            &&& k2.current == 1
            &&& k2.ready == seq![2usize]
            &&& k2.tasks[1].state == TaskState::Running
            &&& k2.inv()
        }),
{
    assert(k.tasks[1].state == TaskState::Exited);
    assert(k.free_slot() == Some(1usize));
    let k1 = spawned(k, Some(1usize), name_a, mem_a.pas.l0, mem_a.kstack_top);
    assert(k1.tasks[2].state == TaskState::Exited) by {
        assert(k.tasks[2].state == TaskState::Exited);
    }
    assert(k1.tasks[1].state == TaskState::Ready);
    reveal_with_fuel(KernelView::free_slot_from, 3);
    assert(k1.free_slot() == Some(2usize));
    let k2 = spawned(k1, Some(2usize), name_b, mem_b.pas.l0, mem_b.kstack_top);
    let born_a = KernelView::newborn(
        name_a,
        mem_a.pas.l0,
        mem_a.kstack_top,
        USER_CODE_VA,
        USER_STACK_TOP,
    );
    let born_b = KernelView::newborn(
        name_b,
        mem_b.pas.l0,
        mem_b.kstack_top,
        USER_CODE_VA,
        USER_STACK_TOP,
    );
    crate::sched::lemma_make_ready_inv(k, 1, born_a);
    crate::sched::lemma_make_ready_inv(k1, 2, born_b);
    assert(k2.ready =~= seq![1usize, 2usize]);
    let k3 = enter_first(k2, 1, 2).1;
    assert(k3.ready =~= seq![2usize]);
    assert(k2.tasks[1] == born_a);
    assert forall|i: int| 0 <= i < k3.ready.len() implies 1 <= #[trigger] k3.ready[i] < MAX_TASKS
        && k3.tasks[k3.ready[i] as int].state == TaskState::Ready by {
        assert(k2.ready[i + 1] == k3.ready[i]);
    }
    assert forall|tid: int|
        1 <= tid < MAX_TASKS && #[trigger] k3.tasks[tid].state
            == TaskState::Ready implies k3.ready.contains(tid as usize) by {
        assert(k2.tasks[tid].state == TaskState::Ready);
        if tid != 2 {
            assert(k.tasks[tid].state == TaskState::Exited);
        }
        assert(k3.ready[0] == 2usize);
    }
    assert forall|tid: int|
        1 <= tid < MAX_TASKS && #[trigger] k3.tasks[tid].state == TaskState::Running implies tid
        == k3.current by {
        if tid > 2 {
            assert(k.tasks[tid].state == TaskState::Exited);
        }
    }
}

/// EL0 finds its code at one page, which it may read and execute but not write,
/// and its stack at another, which it may read and write but not execute. The
/// kernel executes neither. Everywhere else EL0 finds nothing.
pub proof fn law_user_permissions(
    s: UserSpace,
    before: UserSpace,
    pas: UserPas,
    prog: Seq<u8>,
    va: u64,
)
    requires
        before.is_empty(),
        pas.wf(),
        loaded(s, before, pas, prog),
        va < PA_LIMIT,
    ensures
        ({
            let code = 0x10_0000 <= va < 0x10_4000;
            let stack = 0x20_0000 <= va < 0x20_4000;
            match user_leaf(s, pas, va) {
                Some(d) => {
                    &&& code || stack
                    &&& crate::arch::aarch64::map::el0_access(d)
                    &&& crate::arch::aarch64::map::read_only(d) <==> code
                    &&& crate::arch::aarch64::map::el0_executes(d) <==> code
                    &&& !crate::arch::aarch64::map::el1_executes(d)
                    &&& !crate::arch::aarch64::map::device_memory(d)
                    &&& crate::arch::aarch64::map::sound_leaf(
                        d,
                        if code {
                            pas.code as int
                        } else {
                            pas.stack as int
                        },
                    )
                },
                None => !code && !stack,
            }
        }),
{
    law_user_space_is_two_pages(s, before, pas, prog, va);
    crate::arch::aarch64::map::law_leaves_permit_what_they_say(pas.code, Attr::UserRx);
    crate::arch::aarch64::map::law_leaves_permit_what_they_say(pas.stack, Attr::UserRw);
}

/// A task starts at the first instruction of its program with an empty, aligned
/// stack, at EL0 with nothing masked, in its own address space.
pub proof fn law_tasks_start_at_their_program(
    s: UserSpace,
    before: UserSpace,
    pas: UserPas,
    prog: Seq<u8>,
    i: int,
)
    requires
        before.is_empty(),
        pas.wf(),
        loaded(s, before, pas, prog),
        0 <= i < prog.len() <= GRANULE,
    ensures
        ({
            let e = entry_at(pas.l0);
            &&& e.root == pas.l0
            &&& e.spsr == 0
            &&& user_leaf(s, pas, e.entry) is Some
            &&& e.entry % 0x4000 == 0
            &&& s.code@[e.entry % 0x4000 + i] == prog[i]
            &&& user_leaf(s, pas, (e.sp - 1) as u64) is Some
            &&& user_leaf(s, pas, e.sp) is None
            &&& e.sp % 16 == 0
        }),
{
    law_user_space_is_two_pages(s, before, pas, prog, USER_CODE_VA);
    law_user_space_is_two_pages(s, before, pas, prog, USER_STACK_TOP);
    law_user_space_is_two_pages(s, before, pas, prog, (USER_STACK_TOP - 1) as u64);
}

/// What a demonstration starts with, on a kernel without tasks: the first task in
/// the first address space and running, the second in the second and waiting,
/// both about to start their program, and preemption exactly if it was asked for.
pub proof fn law_launch_starts_both(
    k: KernelView,
    name_a: Seq<u8>,
    name_b: Seq<u8>,
    mem_a: TaskMem,
    mem_b: TaskMem,
    period: Option<u64>,
)
    requires
        k.inv(),
        k.ready.len() == 0,
        forall|tid: int|
            1 <= tid < MAX_TASKS ==> #[trigger] k.tasks[tid].state == TaskState::Exited,
    ensures
        ({
            let (l, k2) = launch(k, name_a, name_b, mem_a, mem_b, period);
            &&& l matches Launch::Enter { a, b, first, entry } && {
                &&& a == 1 && b == 2 && first == 1
                &&& entry.root == mem_a.pas.l0
                &&& entry.entry == 0x10_0000
                &&& entry.sp == 0x20_4000
                &&& entry.spsr == 0
            }
            &&& k2.current == 1
            &&& k2.user_root == Some(mem_a.pas.l0)
            &&& k2.ready == seq![2usize]
            &&& k2.tasks[1].state == TaskState::Running
            &&& k2.tasks[1].ttbr0_pa == mem_a.pas.l0
            &&& k2.tasks[1].kstack_top == mem_a.kstack_top
            &&& k2.tasks[2].state == TaskState::Ready
            &&& k2.tasks[2].ttbr0_pa == mem_b.pas.l0
            &&& k2.tasks[2].kstack_top == mem_b.kstack_top
            &&& k2.tasks[2].saved.elr == 0x10_0000
            &&& k2.tasks[2].saved.sp == 0x20_4000
            &&& k2.tasks[2].saved.spsr == 0
            &&& match period {
                Some(p) => k2.preempt && k2.timer.period == p,
                None => k2.preempt == k.preempt && k2.timer == k.timer,
            }
            &&& k2.timer.ticks == k.timer.ticks
        }),
{
    assert(k.tasks[1].state == TaskState::Exited);
    assert(k.free_slot() == Some(1usize));
    let k1 = spawned(k, Some(1usize), name_a, mem_a.pas.l0, mem_a.kstack_top);
    assert(k1.tasks[2].state == TaskState::Exited) by {
        assert(k.tasks[2].state == TaskState::Exited);
    }
    assert(k1.tasks[1].state == TaskState::Ready);
    reveal_with_fuel(KernelView::free_slot_from, 3);
    assert(k1.free_slot() == Some(2usize));
    let k2 = spawned(k1, Some(2usize), name_b, mem_b.pas.l0, mem_b.kstack_top);
    assert(k2.ready =~= seq![1usize, 2usize]);
    assert(k2.ready.drop_first() =~= seq![2usize]);
}

} // verus!

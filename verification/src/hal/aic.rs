//! The Apple Interrupt Controller, version 1.
//!
//! Reading the event register acknowledges and masks the highest-priority
//! pending interrupt in one step; there is no end-of-interrupt write. Behind the
//! per-interrupt target registers lie five arrays of bit-banks, 32 interrupts to
//! a word: SW_SET, SW_CLR, MASK_SET, MASK_CLR, HW_STATE.

use crate::hal::mmio::MmioOp;
use vstd::prelude::*;

verus! {

/// How many interrupts a controller is expected to have at most: something to
/// hold the reported count against. The driver goes by what AIC_INFO says.
pub const AIC_MAX_IRQ: u32 = 0x400;

/// NR_IRQ in bits [15:0].
pub const AIC_INFO: u64 = 0x0004;

/// Global configuration.
pub const AIC_CONFIG: u64 = 0x0010;

/// Which CPU is reading.
pub const AIC_WHOAMI: u64 = 0x2000;

/// Acknowledge and return an event; 0 = nothing pending.
pub const AIC_EVENT: u64 = 0x2004;

/// The target CPUs of each interrupt, a word each.
pub const AIC_TARGET_CPU: u64 = 0x3000;

/// The event's type lies in bits [23:16].
pub const EVENT_TYPE_SHIFT: u32 = 16;

/// The event's number lies in bits [15:0].
pub const EVENT_NUM_MASK: u32 = 0xFFFF;

pub const EVENT_TYPE_FIQ: u32 = 0;

pub const EVENT_TYPE_IRQ: u32 = 1;

pub const EVENT_TYPE_IPI: u32 = 4;

/// The type field of an event word.
pub fn event_type(event: u32) -> (t: u32)
    ensures
        t == event as int / 0x1_0000 % 0x100,
{
    assert((event >> 16) & 0xFF == (event / 0x1_0000) % 0x100) by (bit_vector);
    (event >> EVENT_TYPE_SHIFT) & 0xFF
}

/// The number field of an event word.
pub fn event_num(event: u32) -> (n: u32)
    ensures
        n == event as int % 0x1_0000,
{
    assert(event & 0xFFFF == event % 0x1_0000) by (bit_vector);
    event & EVENT_NUM_MASK
}

/// A controller at a given register base.
#[derive(Clone, Copy, PartialEq, Eq, Structural, Debug)]
pub struct Aic {
    base: u64,
    nr_irq: u32,
}

/// A call on a controller.
pub enum AicCall {
    /// `init`, when AIC_INFO reads as `info`.
    Init { info: u32 },
    Mask { irq: u32 },
    Unmask { irq: u32 },
    Event,
}

/// The cached interrupt count after `call`, where it was `irqs` before.
pub open spec fn irqs_step(irqs: u32, call: AicCall) -> u32 {
    match call {
        AicCall::Init { info } => (info % 0x1_0000) as u32,
        _ => irqs,
    }
}

/// The cached interrupt count of a new controller after `calls`, in order.
pub open spec fn irqs_after(calls: Seq<AicCall>) -> u32
    decreases calls.len(),
{
    if calls.len() == 0 {
        0
    } else {
        irqs_step(irqs_after(calls.drop_last()), calls.last())
    }
}

/// How many bit-banks `nr_irq` interrupts take.
pub open spec fn bank_count(nr_irq: int) -> int {
    (nr_irq + 31) / 32
}

/// Where the `n`-th array of bit-banks starts.
pub open spec fn bank_array(nr_irq: int, n: int) -> int {
    AIC_TARGET_CPU + 4 * nr_irq + 4 * n * bank_count(nr_irq)
}

/// The array offsets that the driver computes, spelled out.
proof fn lemma_bank_arrays(nr_irq: int)
    requires
        0 <= nr_irq <= 0xFFFF,
    ensures
        0 <= bank_count(nr_irq) <= 0x800,
        bank_array(nr_irq, 1) == AIC_TARGET_CPU + 4 * nr_irq + 4 * bank_count(nr_irq),
        bank_array(nr_irq, 2) == AIC_TARGET_CPU + 4 * nr_irq + 8 * bank_count(nr_irq),
        bank_array(nr_irq, 3) == AIC_TARGET_CPU + 4 * nr_irq + 12 * bank_count(nr_irq),
{
    let c = bank_count(nr_irq);
    assert(4 * 1 * c == 4 * c && 4 * 2 * c == 8 * c && 4 * 3 * c == 12 * c) by (nonlinear_arith);
}

/// Bit `n` of a word.
pub open spec fn bit32(n: int) -> u32 {
    1u32 << (n as u32)
}

/// `n` stores of `val` to consecutive words from `addr` on.
pub open spec fn fill(addr: int, n: int, val: u32) -> Seq<MmioOp> {
    Seq::new(n as nat, |i: int| MmioOp::Write32 { addr: (addr + 4 * i) as u64, val })
}

/// Append `n` stores of `val` to consecutive words from `addr` on.
fn push_fill(ops: &mut Vec<MmioOp>, addr: u64, n: u32, val: u32)
    requires
        addr + 4 * n <= u64::MAX,
    ensures
        final(ops)@ == old(ops)@ + fill(addr as int, n as int, val),
{
    let mut i: u32 = 0;
    while i < n
        invariant
            0 <= i <= n,
            addr + 4 * n <= u64::MAX,
            ops@ == old(ops)@ + fill(addr as int, i as int, val),
        decreases n - i,
    {
        ops.push(MmioOp::Write32 { addr: addr + 4 * i as u64, val });
        i = i + 1;
        assert(ops@ =~= old(ops)@ + fill(addr as int, i as int, val));
    }
    assert(ops@ =~= old(ops)@ + fill(addr as int, n as int, val));
}

impl Aic {
    pub closed spec fn base_addr(&self) -> u64 {
        self.base
    }

    /// How many interrupts the controller has; 0 before `init`.
    pub closed spec fn irqs(&self) -> u32 {
        self.nr_irq
    }

    /// The interrupt count is a 16-bit field.
    #[verifier::type_invariant]
    spec fn type_inv(self) -> bool {
        self.nr_irq <= 0xFFFF
    }

    /// The registers lie inside the address space.
    pub open spec fn wf(&self) -> bool {
        self.base_addr() <= 0xFFFF_FFFF_FFF0_0000
    }

    /// A controller whose interrupt count is not known yet.
    pub fn new(base: u64) -> (a: Aic)
        ensures
            a.base_addr() == base,
            a.irqs() == 0,
            a.irqs() == irqs_after(Seq::empty()),
    {
        Aic { base, nr_irq: 0 }
    }

    /// The register base.
    pub fn base(&self) -> (b: u64)
        ensures
            b == self.base_addr(),
    {
        self.base
    }

    /// The interrupt count that `info`, the value of AIC_INFO, reports.
    pub fn nr_irq(info: u32) -> (n: u32)
        ensures
            n == info as int % 0x1_0000,
            n <= 0xFFFF,
    {
        assert(info & 0xFFFF == info % 0x1_0000) by (bit_vector);
        info & 0xFFFF
    }

    /// The interrupt count read by `init`; 0 before.
    pub fn cached_nr_irq(&self) -> (n: u32)
        ensures
            n == self.irqs(),
            n <= 0xFFFF,
    {
        proof {
            use_type_invariant(self);
        }
        self.nr_irq
    }

    fn num_banks(nr_irq: u32) -> (n: u32)
        requires
            nr_irq <= 0xFFFF,
        ensures
            n == bank_count(nr_irq as int),
    {
        (nr_irq + 31) / 32
    }

    fn mask_set_off(nr_irq: u32) -> (off: u64)
        requires
            nr_irq <= 0xFFFF,
        ensures
            off == bank_array(nr_irq as int, 2),
    {
        proof {
            lemma_bank_arrays(nr_irq as int);
        }
        let nb: u64 = Self::num_banks(nr_irq) as u64;
        AIC_TARGET_CPU + nr_irq as u64 * 4 + nb * 4 * 2
    }

    fn mask_clr_off(nr_irq: u32) -> (off: u64)
        requires
            nr_irq <= 0xFFFF,
        ensures
            off == bank_array(nr_irq as int, 3),
    {
        proof {
            lemma_bank_arrays(nr_irq as int);
        }
        Self::mask_set_off(nr_irq) + Self::num_banks(nr_irq) as u64 * 4
    }

    /// What bringing the controller online writes: every interrupt masked, every
    /// software trigger cleared, every interrupt aimed at CPU 0.
    pub open spec fn init_ops(base: u64, nr_irq: int) -> Seq<MmioOp> {
        fill(base + bank_array(nr_irq, 2), bank_count(nr_irq), 0xFFFF_FFFF) + fill(
            base + bank_array(nr_irq, 1),
            bank_count(nr_irq),
            0xFFFF_FFFF,
        ) + fill(base + AIC_TARGET_CPU, nr_irq, 1)
    }

    /// Bring the controller online. `info` is the value of AIC_INFO, whose
    /// interrupt count is remembered.
    pub fn init(&mut self, info: u32) -> (ops: Vec<MmioOp>)
        requires
            old(self).wf(),
        ensures
            final(self).wf(),
            final(self).base_addr() == old(self).base_addr(),
            final(self).irqs() == info as int % 0x1_0000,
            final(self).irqs() == old(self).irqs_on(AicCall::Init { info }),
            ops@ == Aic::init_ops(old(self).base_addr(), info as int % 0x1_0000),
    {
        self.nr_irq = Self::nr_irq(info);
        let nr: u32 = self.nr_irq;
        proof {
            lemma_bank_arrays(nr as int);
        }
        let num_banks: u32 = Self::num_banks(nr);
        let sw_clr: u64 = AIC_TARGET_CPU + nr as u64 * 4 + num_banks as u64 * 4;
        let mask_set: u64 = Self::mask_set_off(nr);
        let mut ops: Vec<MmioOp> = Vec::new();
        push_fill(&mut ops, self.base + mask_set, num_banks, 0xFFFF_FFFF);
        push_fill(&mut ops, self.base + sw_clr, num_banks, 0xFFFF_FFFF);
        push_fill(&mut ops, self.base + AIC_TARGET_CPU, nr, 1);
        assert(ops@ =~= Aic::init_ops(old(self).base_addr(), nr as int));
        ops
    }

    /// The address of the word of interrupt `irq` in the `n`-th array of
    /// bit-banks.
    pub open spec fn bank_addr(&self, irq: u32, n: int) -> int {
        self.base_addr() + bank_array(self.irqs() as int, n) + irq as int / 32 * 4
    }

    /// The store that touches interrupt `irq` in the `n`-th array of bit-banks.
    pub open spec fn bank_op(&self, irq: u32, n: int) -> MmioOp {
        MmioOp::Write32 { addr: self.bank_addr(irq, n) as u64, val: bit32(irq as int % 32) }
    }

    /// The interrupt count after `call`.
    pub open spec fn irqs_on(&self, call: AicCall) -> u32 {
        irqs_step(self.irqs(), call)
    }

    /// Enable interrupt `irq`: set its bit in MASK_CLR.
    pub fn unmask_irq(&self, irq: u32) -> (op: MmioOp)
        requires
            self.bank_addr(irq, 3) <= u64::MAX,
        ensures
            op == self.bank_op(irq, 3),
            self.irqs_on(AicCall::Unmask { irq }) == self.irqs(),
    {
        proof {
            use_type_invariant(self);
            lemma_bank_arrays(self.nr_irq as int);
        }
        let off: u64 = Self::mask_clr_off(self.nr_irq);
        MmioOp::Write32 {
            addr: self.base + off + (irq / 32) as u64 * 4,
            val: 1u32 << (irq % 32),
        }
    }

    /// Disable interrupt `irq`: set its bit in MASK_SET.
    pub fn mask_irq(&self, irq: u32) -> (op: MmioOp)
        requires
            self.bank_addr(irq, 2) <= u64::MAX,
        ensures
            op == self.bank_op(irq, 2),
            self.irqs_on(AicCall::Mask { irq }) == self.irqs(),
    {
        proof {
            use_type_invariant(self);
            lemma_bank_arrays(self.nr_irq as int);
        }
        let off: u64 = Self::mask_set_off(self.nr_irq);
        MmioOp::Write32 {
            addr: self.base + off + (irq / 32) as u64 * 4,
            val: 1u32 << (irq % 32),
        }
    }
}

impl Aic {
    /// The register whose value is the pending event; reading it acknowledges
    /// the event and masks its source.
    pub fn event(&self) -> (addr: u64)
        requires
            self.wf(),
        ensures
            addr == self.base_addr() + AIC_EVENT,
            self.irqs_on(AicCall::Event) == self.irqs(),
    {
        self.base + AIC_EVENT
    }

    /// The register that names the reading CPU.
    pub fn whoami(&self) -> (addr: u64)
        requires
            self.wf(),
        ensures
            addr == self.base_addr() + AIC_WHOAMI,
    {
        self.base + AIC_WHOAMI
    }

    /// The configuration register.
    pub fn config(&self) -> (addr: u64)
        requires
            self.wf(),
        ensures
            addr == self.base_addr() + AIC_CONFIG,
    {
        self.base + AIC_CONFIG
    }
}

/// The five bit-bank arrays lie one behind the other, past the target registers:
/// for an interrupt the controller has, masking and unmasking touch words of
/// their own arrays and nothing else.
pub proof fn law_banks_do_not_overlap(nr_irq: int, irq: int, n: int)
    requires
        0 <= irq < nr_irq,
        0 <= n,
    ensures
        bank_array(nr_irq, n) <= bank_array(nr_irq, n) + irq / 32 * 4,
        bank_array(nr_irq, n) + irq / 32 * 4 + 4 <= bank_array(nr_irq, n + 1),
        AIC_TARGET_CPU + 4 * nr_irq <= bank_array(nr_irq, n),
{
    let c = bank_count(nr_irq);
    assert(irq / 32 + 1 <= c);
    assert(4 * (n + 1) * c == 4 * n * c + 4 * c) by (nonlinear_arith);
    assert(4 * n * c >= 0) by (nonlinear_arith)
        requires
            n >= 0,
            c >= 0,
    ;
}

/// Two interrupts of one controller never share a bit: they differ in the word
/// or in the bit's number.
pub proof fn law_irqs_have_their_own_bit(a: int, b: int)
    requires
        0 <= a,
        0 <= b,
        a != b,
    ensures
        a / 32 != b / 32 || a % 32 != b % 32,
{
}

/// Only `init` changes the cached interrupt count: whatever else is called, it is
/// 0 as long as `init` has not run, and afterwards what AIC_INFO reported when
/// `init` ran last.
pub proof fn law_only_init_counts(before: Seq<AicCall>, info: u32, calls: Seq<AicCall>)
    requires
        forall|i: int| 0 <= i < calls.len() ==> !(#[trigger] calls[i] is Init),
    ensures
        irqs_after(calls) == 0,
        irqs_after(before.push(AicCall::Init { info }) + calls) == info as int % 0x1_0000,
        info as int % 0x1_0000 == info & 0xFFFF,
    decreases calls.len(),
{
    let all = before.push(AicCall::Init { info }) + calls;
    assert(info & 0xFFFF == info % 0x1_0000) by (bit_vector);
    if calls.len() == 0 {
        assert(all.drop_last() =~= before);
    } else {
        law_only_init_counts(before, info, calls.drop_last());
        assert(!(calls.last() is Init));
        assert(all.drop_last() =~= before.push(AicCall::Init { info }) + calls.drop_last());
    }
}

/// Whatever interrupt an event names, masking it and unmasking it stay inside the
/// address space.
pub proof fn law_event_irqs_can_be_masked(a: Aic, event: u32)
    requires
        a.wf(),
        a.irqs() <= 0xFFFF,
    ensures
        a.bank_addr((event % 0x1_0000) as u32, 2) <= u64::MAX,
        a.bank_addr((event % 0x1_0000) as u32, 3) <= u64::MAX,
{
    lemma_bank_arrays(a.irqs() as int);
}

/// Every event is named by exactly its two fields.
pub proof fn law_event_fields(event: u32)
    ensures
        event as int % 0x100_0000 == (event as int / 0x1_0000 % 0x100) * 0x1_0000 + event as int
            % 0x1_0000,
{
}

/// How many whole or started groups of 32 make up `nr_irq`.
pub proof fn law_banks_cover_the_interrupts(nr_irq: int)
    requires
        nr_irq >= 0,
    ensures
        32 * bank_count(nr_irq) >= nr_irq,
        32 * (bank_count(nr_irq) - 1) < nr_irq,
{
}

/// Bringing the controller online masks every interrupt it has, clears its
/// software trigger and aims it at CPU 0: the words that do so are among the
/// stores, at the addresses of the register map.
pub proof fn law_init_covers_every_interrupt(base: u64, nr_irq: int, irq: int)
    requires
        0 <= irq < nr_irq <= 0xFFFF,
        base <= 0xFFFF_FFFF_FFF0_0000,
    ensures
        ({
            let ops = Aic::init_ops(base, nr_irq);
            let banks = base + 0x3000 + 4 * nr_irq;
            let c = (nr_irq + 31) / 32;
            &&& ops.contains(
                MmioOp::Write32 { addr: (banks + 8 * c + irq / 32 * 4) as u64, val: 0xFFFF_FFFF },
            )
            &&& ops.contains(
                MmioOp::Write32 { addr: (banks + 4 * c + irq / 32 * 4) as u64, val: 0xFFFF_FFFF },
            )
            &&& ops.contains(MmioOp::Write32 { addr: (base + 0x3000 + 4 * irq) as u64, val: 1 })
            &&& ops.len() == 2 * c + nr_irq
        }),
{
    let ops = Aic::init_ops(base, nr_irq);
    let c = bank_count(nr_irq);
    let i = irq / 32;
    lemma_bank_arrays(nr_irq);
    assert(0 <= i < c);
    assert(ops[i] == MmioOp::Write32 {
        addr: (base + bank_array(nr_irq, 2) + 4 * i) as u64,
        val: 0xFFFF_FFFF,
    });
    assert(ops[c + i] == MmioOp::Write32 {
        addr: (base + bank_array(nr_irq, 1) + 4 * i) as u64,
        val: 0xFFFF_FFFF,
    });
    assert(ops[2 * c + irq] == MmioOp::Write32 { addr: (base + 0x3000 + 4 * irq) as u64, val: 1 });
}

/// Masking and unmasking an interrupt set its bit, and only its bit, in its word
/// of MASK_SET and of MASK_CLR, which lie two and three arrays behind the target
/// registers.
pub proof fn law_masking_is_exact(a: Aic, irq: u32)
    requires
        a.wf(),
        a.irqs() <= 0xFFFF,
        irq <= 0xFFFF,
    ensures
        ({
            let c = (a.irqs() + 31) / 32;
            let word = a.base_addr() + 0x3000 + 4 * a.irqs() + irq as int / 32 * 4;
            &&& a.bank_op(irq, 2) == (MmioOp::Write32 {
                addr: (word + 8 * c) as u64,
                val: 1u32 << (irq % 32),
            })
            &&& a.bank_op(irq, 3) == (MmioOp::Write32 {
                addr: (word + 12 * c) as u64,
                val: 1u32 << (irq % 32),
            })
        }),
{
    lemma_bank_arrays(a.irqs() as int);
}

} // verus!

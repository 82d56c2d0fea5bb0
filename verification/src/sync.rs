//! The console lock's protocol.
//!
//! A critical section is a fixed dance: mask interrupts, take the lock, run,
//! drop the lock, put the interrupt mask back. The order is what makes it
//! correct on one core: a handler that arrives while the lock is held would
//! wait forever for the code frozen underneath it. `Section` is that dance as a
//! state machine; whoever drives it performs each step on the machine and
//! reports what came of it.

use vstd::prelude::*;

verus! {

/// PSTATE.DAIF with IRQ (bit 7) and FIQ (bit 6) masked.
pub const DAIF_IF: u64 = 0xC0;

/// The next thing to do in a critical section.
#[derive(Clone, Copy, PartialEq, Eq, Structural, Debug)]
pub enum LockStep {
    /// Save PSTATE.DAIF and mask IRQ and FIQ.
    Mask,
    /// Try to change the lock from free to held.
    Acquire,
    /// Look at the lock, without trying to take it.
    Wait,
    /// Run the critical section.
    Run,
    /// Mark the lock free.
    Release,
    /// Restore PSTATE.DAIF to this value.
    Restore { daif: u64 },
    /// Nothing: the section is over.
    Done,
}

/// What came of a step.
#[derive(Clone, Copy, PartialEq, Eq, Structural, Debug)]
pub enum Outcome {
    /// The step is done.
    Performed,
    /// Interrupts are masked; before that PSTATE.DAIF was this.
    Masked { daif: u64 },
    /// The attempt to take the lock succeeded, or failed.
    Tried { won: bool },
    /// The lock was seen held, or free.
    Saw { held: bool },
}

/// `outcome` can come of `step`.
pub open spec fn answers(step: LockStep, outcome: Outcome) -> bool {
    match step {
        LockStep::Mask => outcome is Masked,
        LockStep::Acquire => outcome is Tried,
        LockStep::Wait => outcome is Saw,
        _ => outcome is Performed,
    }
}

/// The step after `step`, where `saved` is the mask saved at the start.
pub open spec fn step_after(step: LockStep, saved: u64, outcome: Outcome) -> LockStep {
    match step {
        LockStep::Mask => LockStep::Acquire,
        LockStep::Acquire => if outcome == (Outcome::Tried { won: true }) {
            LockStep::Run
        } else {
            LockStep::Wait
        },
        LockStep::Wait => if outcome == (Outcome::Saw { held: true }) {
            LockStep::Wait
        } else {
            LockStep::Acquire
        },
        LockStep::Run => LockStep::Release,
        LockStep::Release => LockStep::Restore { daif: saved },
        LockStep::Restore { .. } => LockStep::Done,
        LockStep::Done => LockStep::Done,
    }
}

/// The mask saved after `outcome`.
pub open spec fn saved_after(saved: u64, outcome: Outcome) -> u64 {
    match outcome {
        Outcome::Masked { daif } => daif,
        _ => saved,
    }
}

/// A critical section in progress.
pub struct Section {
    step: LockStep,
    daif: u64,
}

impl Section {
    /// What is to be done next.
    pub closed spec fn next(&self) -> LockStep {
        self.step
    }

    /// The mask that was in force when the section was entered.
    pub closed spec fn saved(&self) -> u64 {
        self.daif
    }

    /// A critical section that is about to be entered.
    pub fn new() -> (s: Section)
        ensures
            s.next() == LockStep::Mask,
    {
        Section { step: LockStep::Mask, daif: 0 }
    }

    /// The next step.
    pub fn step(&self) -> (s: LockStep)
        ensures
            s == self.next(),
    {
        self.step
    }

    /// The step has been performed, with this outcome: go on to the next.
    pub fn advance(&mut self, outcome: Outcome)
        requires
            answers(old(self).next(), outcome),
        ensures
            final(self).next() == step_after(old(self).next(), old(self).saved(), outcome),
            final(self).saved() == saved_after(old(self).saved(), outcome),
    {
        if let Outcome::Masked { daif } = outcome {
            self.daif = daif;
        }
        self.step = match self.step {
            LockStep::Mask => LockStep::Acquire,
            LockStep::Acquire => match outcome {
                Outcome::Tried { won: true } => LockStep::Run,
                _ => LockStep::Wait,
            },
            LockStep::Wait => match outcome {
                Outcome::Saw { held: true } => LockStep::Wait,
                _ => LockStep::Acquire,
            },
            LockStep::Run => LockStep::Release,
            LockStep::Release => LockStep::Restore { daif: self.daif },
            LockStep::Restore { .. } => LockStep::Done,
            LockStep::Done => LockStep::Done,
        };
    }
}

/// The machine as a critical section changes it.
pub struct Core {
    /// This core holds the lock.
    pub holds: bool,
    /// PSTATE.DAIF.
    pub daif: u64,
}

/// The machine after `step` has been performed with `outcome`.
pub open spec fn performed(c: Core, step: LockStep, outcome: Outcome) -> Core {
    match step {
        LockStep::Mask => Core { daif: c.daif | DAIF_IF, ..c },
        LockStep::Acquire => Core { holds: outcome == (Outcome::Tried { won: true }), ..c },
        LockStep::Release => Core { holds: false, ..c },
        LockStep::Restore { daif } => Core { daif, ..c },
        _ => c,
    }
}

/// IRQ and FIQ are masked.
pub open spec fn masked(c: Core) -> bool {
    c.daif & DAIF_IF == DAIF_IF
}

/// The machine stands where a section entered with mask `entry` says it stands.
pub open spec fn in_section(c: Core, step: LockStep, saved: u64, entry: u64) -> bool {
    match step {
        LockStep::Mask => !c.holds && c.daif == entry,
        LockStep::Acquire | LockStep::Wait => !c.holds && masked(c) && saved == entry,
        LockStep::Run | LockStep::Release => c.holds && masked(c) && saved == entry,
        LockStep::Restore { daif } => !c.holds && masked(c) && daif == entry,
        LockStep::Done => !c.holds && c.daif == entry,
    }
}

/// However a section goes: the lock is held only while IRQ and FIQ are masked,
/// the critical section runs with the lock held, the lock is free before the
/// mask is put back, and in the end the mask is what it was at the start.
pub proof fn law_lock_protocol(c: Core, step: LockStep, saved: u64, entry: u64, outcome: Outcome)
    requires
        in_section(c, step, saved, entry),
        answers(step, outcome),
        outcome matches Outcome::Masked { daif } ==> daif == c.daif,
    ensures
        in_section(
            performed(c, step, outcome),
            step_after(step, saved, outcome),
            saved_after(saved, outcome),
            entry,
        ),
        c.holds ==> masked(c),
        step == LockStep::Run ==> c.holds,
        step is Restore ==> !c.holds,
        step == LockStep::Done ==> c.daif == entry,
{
    let d = c.daif;
    assert((d | 0xC0) & 0xC0 == 0xC0) by (bit_vector);
}

/// The steps do not stall: unless another context keeps the lock, each brings
/// the section closer to its end.
pub open spec fn steps_left(step: LockStep) -> nat {
    match step {
        LockStep::Mask => 6,
        LockStep::Wait => 5,
        LockStep::Acquire => 4,
        LockStep::Run => 3,
        LockStep::Release => 2,
        LockStep::Restore { .. } => 1,
        LockStep::Done => 0,
    }
}

/// A section ends unless the lock is kept by someone else.
pub proof fn law_section_ends(step: LockStep, saved: u64, outcome: Outcome)
    requires
        answers(step, outcome),
        step != LockStep::Done,
        outcome != (Outcome::Tried { won: false }),
        outcome != (Outcome::Saw { held: true }),
    ensures
        steps_left(step_after(step, saved, outcome)) < steps_left(step),
{
}

} // verus!

//! AArch64 logic: exception frames, address translation, the devicetree,
//! the timer and user tasks.

pub mod fdt;
pub mod map;
pub mod mmu;
pub mod programs;
pub mod space;
pub mod timer;
pub mod tree;
pub mod user;
pub mod vectors;

use vstd::prelude::*;

verus! {

/// The exception level in a value of CurrentEL: bits [3:2].
pub fn current_el(reg: u64) -> (el: u64)
    ensures
        el == reg / 4 % 4,
{
    assert((reg >> 2) & 3 == reg / 4 % 4) by (bit_vector);
    (reg >> 2) & 3
}

} // verus!

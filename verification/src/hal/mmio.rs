//! Device-register accesses as values.

use vstd::prelude::*;

verus! {

/// One access to a device register.
#[derive(Clone, Copy, PartialEq, Eq, Structural, Debug)]
pub enum MmioOp {
    /// Store a byte.
    Write8 { addr: u64, byte: u8 },
    /// Store a 32-bit word.
    Write32 { addr: u64, val: u32 },
    /// Load a 32-bit word, keep the bits in `keep`, set those in `set`, store it.
    Update32 { addr: u64, keep: u32, set: u32 },
}

} // verus!

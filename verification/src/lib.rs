//! Opal: the decision logic of a small AArch64 teaching kernel, verified.

pub mod arch;
pub mod board;
pub mod boot;
pub mod calls;
pub mod console;
pub mod hal;
pub mod laws;
pub mod monitor;
pub mod sched;
pub mod sync;
pub mod text;

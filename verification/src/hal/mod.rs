//! Hardware blocks: what their registers mean.
//!
//! A driver here decides; it never touches a device. Where a driver wants
//! registers written it returns the accesses, in order, for the caller to
//! perform; what a register read as is handed in.

pub mod aic;
pub mod gicv2;
pub mod mmio;
pub mod pl011;
pub mod s5l_uart;

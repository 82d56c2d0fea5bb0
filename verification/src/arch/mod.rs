//! Architecture-specific logic. Opal targets exactly one architecture.

pub mod aarch64;

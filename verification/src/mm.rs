//! Memory management.

pub mod elf;

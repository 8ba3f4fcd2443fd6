//! What the kernel keeps for each process.

pub mod capability;

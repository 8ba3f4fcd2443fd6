//! What the kernel knows of the machine it runs on.

pub mod arch;
pub mod platform;

//! What user processes share with the kernel: the configuration of the
//! system and the way kernel calls are made.

pub mod config;
pub mod kcall;

//! Kernel calls as user processes make them.

pub mod ipc;

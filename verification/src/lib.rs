//! Event and message coordination core of a small single-CPU microkernel.
//!
//! The crate holds the ownership registry for interrupts, exceptions and
//! scheduling events, the pending queues that multiplex those events with
//! inter-process messages, the mailbox, and the decisions of the kernel-call
//! dispatcher. Every executable function carries a contract that is checked
//! against a mathematical model of the state it works on.

pub mod collections;
pub mod endian;
pub mod error;
pub mod event;
pub mod hal;
pub mod ipc;
pub mod kcall;
pub mod klog;
pub mod mm;
pub mod pm;
pub mod scan;
pub mod sys;

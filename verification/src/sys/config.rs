//! The configuration of the system.

use vstd::prelude::*;

verus! {

/// The number of bytes in a kilobyte.
pub const KILOBYTE: usize = 1024;

/// The number of bytes in a megabyte.
pub const MEGABYTE: usize = 1024 * 1024;

/// Total size of physical memory, in bytes.
pub const MEMORY_SIZE: usize = 256 * 1024 * 1024;

/// Total size of the kernel pool, in bytes. It is a multiple of the size of
/// a page and does not exceed what a page table spans.
pub const KPOOL_SIZE: usize = 4 * 1024 * 1024;

/// Size of a kernel stack, in bytes. It is a multiple of the size of a page.
pub const KSTACK_SIZE: usize = 8 * 4 * 1024;

/// Size of a user stack, in bytes. It is a multiple of the size of a page.
pub const USTACK_SIZE: usize = 16 * 4 * 1024;

/// Frequency of the timer, in hertz.
pub const TIMER_FREQ: u32 = 100;

/// Frequency of the scheduler, in ticks. It is a power of two.
pub const SCHEDULER_FREQ: usize = 128;

/// The most messages that the kernel buffers.
pub const MAX_IKC_MESSAGES: usize = 128;

/// Size of the payload of a message, in bytes: one cache line.
pub const IPC_MESSAGE_SIZE: usize = 64;

/// Size of a page, in bytes.
pub const PAGE_SIZE: u32 = 4096;

/// Where user space starts.
pub const USER_BASE: u32 = 0x4000_0000;

/// Where user space ends.
pub const USER_END: u32 = 0xf000_0000;

/// Where the heap of a user process starts.
pub const USER_HEAP_BASE: u32 = 0xa000_0000;

/// Where the stack of a user process starts.
pub const USER_STACK_BASE: u32 = 0xf000_0000;

} // verus!

//! Kernel calls: their numbers, their arguments, and the loop that serves
//! them.

use vstd::prelude::*;

pub mod handler;
pub mod number;

verus! {

/// A kernel call as a process deposits it: the number of the call and its
/// arguments.
#[derive(Clone, Copy, Debug, PartialEq, Eq, Structural)]
pub struct KcallArgs {
    /// The number of the kernel call.
    pub number: u32,
    /// The first argument.
    pub arg0: u32,
    /// The second argument.
    pub arg1: u32,
    /// The third argument.
    pub arg2: u32,
    /// The fourth argument.
    pub arg3: u32,
    /// The fifth argument.
    pub arg4: u32,
}

} // verus!

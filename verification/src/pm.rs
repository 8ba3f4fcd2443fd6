//! Processes as the kernel names them: identifiers and capabilities.

use vstd::prelude::*;

pub mod process;

verus! {

/// The name of a process: a small integer that the process manager hands
/// out.
#[derive(Clone, Copy, Debug, PartialEq, Eq, Hash, Structural)]
pub struct ProcessIdentifier(pub u32);

impl ProcessIdentifier {
    /// The kernel itself, named as the source of the messages it generates.
    pub open spec fn spec_kernel() -> ProcessIdentifier {
        ProcessIdentifier(0)
    }

    /// The process daemon. The kernel shuts down when it terminates.
    pub open spec fn spec_procd() -> ProcessIdentifier {
        ProcessIdentifier(1)
    }

    /// Returns the identifier of the kernel itself.
    #[verifier::when_used_as_spec(spec_kernel)]
    pub fn kernel() -> (pid: ProcessIdentifier)
        ensures
            pid == ProcessIdentifier::spec_kernel(),
    {
        ProcessIdentifier(0)
    }

    /// Returns the identifier of the process daemon.
    #[verifier::when_used_as_spec(spec_procd)]
    pub fn procd() -> (pid: ProcessIdentifier)
        ensures
            pid == ProcessIdentifier::spec_procd(),
    {
        ProcessIdentifier(1)
    }
}

/// A privilege that a process may hold.
#[derive(Clone, Copy, Debug, PartialEq, Eq, Structural)]
pub enum Capability {
    /// Allocate and use I/O ports and memory-mapped I/O.
    IoManagement,
    /// Own interrupts.
    InterruptControl,
    /// Own exceptions.
    ExceptionControl,
    /// Change the memory of other processes.
    MemoryManagement,
    /// Manage processes and receive scheduling events.
    ProcessManagement,
}

impl Capability {
    /// The position of the capability in a capability set.
    pub open spec fn spec_bit(self) -> u8 {
        match self {
            Capability::IoManagement => 0,
            Capability::InterruptControl => 1,
            Capability::ExceptionControl => 2,
            Capability::MemoryManagement => 3,
            Capability::ProcessManagement => 4,
        }
    }

    /// Returns the position of the capability in a capability set.
    pub fn bit(self) -> (position: u8)
        ensures
            position == self.spec_bit(),
            position < 5,
    {
        match self {
            Capability::IoManagement => 0,
            Capability::InterruptControl => 1,
            Capability::ExceptionControl => 2,
            Capability::MemoryManagement => 3,
            Capability::ProcessManagement => 4,
        }
    }
}

} // verus!

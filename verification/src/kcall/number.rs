//! The numbers of the kernel calls.

use vstd::prelude::*;

verus! {

/// A kernel call.
#[derive(Clone, Copy, Debug, PartialEq, Eq, Structural)]
pub enum KcallNumber {
    /// Write to the debug console.
    Debug,
    /// Get the identifier of the calling process.
    GetPid,
    /// Get the identifier of the calling thread.
    GetTid,
    /// Get the user identifier of the calling process.
    GetUid,
    /// Get the group identifier of the calling process.
    GetGid,
    /// Get the effective user identifier of the calling process.
    GetEuid,
    /// Get the effective group identifier of the calling process.
    GetEgid,
    /// Set the user identifier of the calling process.
    SetUid,
    /// Set the group identifier of the calling process.
    SetGid,
    /// Set the effective user identifier of the calling process.
    SetEuid,
    /// Set the effective group identifier of the calling process.
    SetEgid,
    /// Change the capabilities of a process.
    CapCtl,
    /// Terminate a process.
    Terminate,
    /// Register or give up an event.
    EventCtrl,
    /// Map memory.
    MemoryMap,
    /// Unmap memory.
    MemoryUnmap,
    /// Change the attributes of memory.
    MemoryCtrl,
    /// Copy memory.
    MemoryCopy,
    /// Send a message.
    Send,
    /// Receive a message.
    Recv,
    /// Allocate a region of memory-mapped I/O.
    AllocMmio,
    /// Free a region of memory-mapped I/O.
    FreeMmio,
    /// Allocate an I/O port.
    AllocPmio,
    /// Free an I/O port.
    FreePmio,
    /// Read from an I/O port.
    ReadPmio,
    /// Write to an I/O port.
    WritePmio,
    /// No kernel call has this number.
    Invalid,
}

impl KcallNumber {
    /// The kernel call that a number stands for.
    pub open spec fn spec_from_number(number: u32) -> KcallNumber {
        if number == 0 {
            KcallNumber::Debug
        } else if number == 1 {
            KcallNumber::GetPid
        } else if number == 2 {
            KcallNumber::GetTid
        } else if number == 3 {
            KcallNumber::GetUid
        } else if number == 4 {
            KcallNumber::GetGid
        } else if number == 5 {
            KcallNumber::GetEuid
        } else if number == 6 {
            KcallNumber::GetEgid
        } else if number == 7 {
            KcallNumber::SetUid
        } else if number == 8 {
            KcallNumber::SetGid
        } else if number == 9 {
            KcallNumber::SetEuid
        } else if number == 10 {
            KcallNumber::SetEgid
        } else if number == 11 {
            KcallNumber::CapCtl
        } else if number == 12 {
            KcallNumber::Terminate
        } else if number == 13 {
            KcallNumber::EventCtrl
        } else if number == 14 {
            KcallNumber::MemoryMap
        } else if number == 15 {
            KcallNumber::MemoryUnmap
        } else if number == 16 {
            KcallNumber::MemoryCtrl
        } else if number == 17 {
            KcallNumber::MemoryCopy
        } else if number == 18 {
            KcallNumber::Send
        } else if number == 19 {
            KcallNumber::Recv
        } else if number == 20 {
            KcallNumber::AllocMmio
        } else if number == 21 {
            KcallNumber::FreeMmio
        } else if number == 22 {
            KcallNumber::AllocPmio
        } else if number == 23 {
            KcallNumber::FreePmio
        } else if number == 24 {
            KcallNumber::ReadPmio
        } else if number == 25 {
            KcallNumber::WritePmio
        } else {
            KcallNumber::Invalid
        }
    }

    /// The number that stands for the kernel call. The call that stands for
    /// unknown numbers has the largest number there is.
    pub open spec fn spec_number(self) -> u32 {
        match self {
            KcallNumber::Debug => 0,
            KcallNumber::GetPid => 1,
            KcallNumber::GetTid => 2,
            KcallNumber::GetUid => 3,
            KcallNumber::GetGid => 4,
            KcallNumber::GetEuid => 5,
            KcallNumber::GetEgid => 6,
            KcallNumber::SetUid => 7,
            KcallNumber::SetGid => 8,
            KcallNumber::SetEuid => 9,
            KcallNumber::SetEgid => 10,
            KcallNumber::CapCtl => 11,
            KcallNumber::Terminate => 12,
            KcallNumber::EventCtrl => 13,
            KcallNumber::MemoryMap => 14,
            KcallNumber::MemoryUnmap => 15,
            KcallNumber::MemoryCtrl => 16,
            KcallNumber::MemoryCopy => 17,
            KcallNumber::Send => 18,
            KcallNumber::Recv => 19,
            KcallNumber::AllocMmio => 20,
            KcallNumber::FreeMmio => 21,
            KcallNumber::AllocPmio => 22,
            KcallNumber::FreePmio => 23,
            KcallNumber::ReadPmio => 24,
            KcallNumber::WritePmio => 25,
            KcallNumber::Invalid => u32::MAX,
        }
    }

    /// The dispatcher serves the kernel call. It does not serve the two
    /// calls that the trap entry answers by itself, nor unknown ones.
    pub open spec fn spec_is_dispatched(self) -> bool {
        self != KcallNumber::GetPid && self != KcallNumber::GetTid && self != KcallNumber::Invalid
    }

    /// Reads a kernel call from its number.
    pub fn from_number(number: u32) -> (kcall: KcallNumber)
        ensures
            kcall == KcallNumber::spec_from_number(number),
    {
        if number == 0 {
            KcallNumber::Debug
        } else if number == 1 {
            KcallNumber::GetPid
        } else if number == 2 {
            KcallNumber::GetTid
        } else if number == 3 {
            KcallNumber::GetUid
        } else if number == 4 {
            KcallNumber::GetGid
        } else if number == 5 {
            KcallNumber::GetEuid
        } else if number == 6 {
            KcallNumber::GetEgid
        } else if number == 7 {
            KcallNumber::SetUid
        } else if number == 8 {
            KcallNumber::SetGid
        } else if number == 9 {
            KcallNumber::SetEuid
        } else if number == 10 {
            KcallNumber::SetEgid
        } else if number == 11 {
            KcallNumber::CapCtl
        } else if number == 12 {
            KcallNumber::Terminate
        } else if number == 13 {
            KcallNumber::EventCtrl
        } else if number == 14 {
            KcallNumber::MemoryMap
        } else if number == 15 {
            KcallNumber::MemoryUnmap
        } else if number == 16 {
            KcallNumber::MemoryCtrl
        } else if number == 17 {
            KcallNumber::MemoryCopy
        } else if number == 18 {
            KcallNumber::Send
        } else if number == 19 {
            KcallNumber::Recv
        } else if number == 20 {
            KcallNumber::AllocMmio
        } else if number == 21 {
            KcallNumber::FreeMmio
        } else if number == 22 {
            KcallNumber::AllocPmio
        } else if number == 23 {
            KcallNumber::FreePmio
        } else if number == 24 {
            KcallNumber::ReadPmio
        } else if number == 25 {
            KcallNumber::WritePmio
        } else {
            KcallNumber::Invalid
        }
    }

    /// Returns the number that stands for the kernel call.
    pub fn number(&self) -> (number: u32)
        ensures
            number == self.spec_number(),
            KcallNumber::spec_from_number(number) == *self,
    {
        match self {
            KcallNumber::Debug => 0,
            KcallNumber::GetPid => 1,
            KcallNumber::GetTid => 2,
            KcallNumber::GetUid => 3,
            KcallNumber::GetGid => 4,
            KcallNumber::GetEuid => 5,
            KcallNumber::GetEgid => 6,
            KcallNumber::SetUid => 7,
            KcallNumber::SetGid => 8,
            KcallNumber::SetEuid => 9,
            KcallNumber::SetEgid => 10,
            KcallNumber::CapCtl => 11,
            KcallNumber::Terminate => 12,
            KcallNumber::EventCtrl => 13,
            KcallNumber::MemoryMap => 14,
            KcallNumber::MemoryUnmap => 15,
            KcallNumber::MemoryCtrl => 16,
            KcallNumber::MemoryCopy => 17,
            KcallNumber::Send => 18,
            KcallNumber::Recv => 19,
            KcallNumber::AllocMmio => 20,
            KcallNumber::FreeMmio => 21,
            KcallNumber::AllocPmio => 22,
            KcallNumber::FreePmio => 23,
            KcallNumber::ReadPmio => 24,
            KcallNumber::WritePmio => 25,
            KcallNumber::Invalid => u32::MAX,
        }
    }

    /// Says whether the dispatcher serves the kernel call.
    pub fn is_dispatched(&self) -> (dispatched: bool)
        ensures
            dispatched == self.spec_is_dispatched(),
    {
        match self {
            KcallNumber::GetPid => false,
            KcallNumber::GetTid => false,
            KcallNumber::Invalid => false,
            _ => true,
        }
    }
}

} // verus!

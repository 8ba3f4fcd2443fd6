//! Error codes shared by every kernel interface.

use vstd::prelude::*;

verus! {

/// The reasons for which a kernel operation fails.
#[derive(Clone, Copy, Debug, PartialEq, Eq, Structural)]
pub enum ErrorCode {
    /// Malformed input, index out of range, zero-length buffer.
    InvalidArgument,
    /// The kernel-call number is not recognised.
    InvalidSysCall,
    /// Missing capability or ownership mismatch.
    PermissionDenied,
    /// The slot is already owned.
    ResourceBusy,
    /// The operation needs hardware that is not present.
    OperationNotSupported,
    /// Nothing is stored under the given name.
    NoSuchEntry,
    /// No process can take the event.
    NoSuchProcess,
    /// Memory is exhausted.
    OutOfMemory,
    /// The service is not initialised yet.
    TryAgain,
    /// The operation cannot complete without suspending.
    OperationWouldBlock,
    /// The operation was interrupted.
    Interrupted,
    /// The file is not what it claims to be.
    BadFile,
}

impl ErrorCode {
    /// The positive number that stands for the code on the kernel-call
    /// interface.
    pub open spec fn spec_errno(self) -> int {
        match self {
            ErrorCode::NoSuchEntry => 2,
            ErrorCode::NoSuchProcess => 3,
            ErrorCode::Interrupted => 4,
            ErrorCode::BadFile => 9,
            ErrorCode::TryAgain => 11,
            ErrorCode::OutOfMemory => 12,
            ErrorCode::PermissionDenied => 13,
            ErrorCode::ResourceBusy => 16,
            ErrorCode::InvalidArgument => 22,
            ErrorCode::InvalidSysCall => 38,
            ErrorCode::OperationWouldBlock => 41,
            ErrorCode::OperationNotSupported => 95,
        }
    }

    /// The code that a kernel-call status stands for, if it stands for one.
    pub open spec fn spec_from_errno(errno: int) -> Option<ErrorCode> {
        if errno == -2 {
            Some(ErrorCode::NoSuchEntry)
        } else if errno == -3 {
            Some(ErrorCode::NoSuchProcess)
        } else if errno == -4 {
            Some(ErrorCode::Interrupted)
        } else if errno == -9 {
            Some(ErrorCode::BadFile)
        } else if errno == -11 {
            Some(ErrorCode::TryAgain)
        } else if errno == -12 {
            Some(ErrorCode::OutOfMemory)
        } else if errno == -13 {
            Some(ErrorCode::PermissionDenied)
        } else if errno == -16 {
            Some(ErrorCode::ResourceBusy)
        } else if errno == -22 {
            Some(ErrorCode::InvalidArgument)
        } else if errno == -38 {
            Some(ErrorCode::InvalidSysCall)
        } else if errno == -41 {
            Some(ErrorCode::OperationWouldBlock)
        } else if errno == -95 {
            Some(ErrorCode::OperationNotSupported)
        } else {
            None
        }
    }

    /// Returns the status that reports this code to user space: the negated
    /// error number, which is never zero.
    pub fn into_errno(self) -> (errno: i32)
        ensures
            errno == -self.spec_errno(),
            errno < 0,
    {
        match self {
            ErrorCode::NoSuchEntry => -2,
            ErrorCode::NoSuchProcess => -3,
            ErrorCode::Interrupted => -4,
            ErrorCode::BadFile => -9,
            ErrorCode::TryAgain => -11,
            ErrorCode::OutOfMemory => -12,
            ErrorCode::PermissionDenied => -13,
            ErrorCode::ResourceBusy => -16,
            ErrorCode::InvalidArgument => -22,
            ErrorCode::InvalidSysCall => -38,
            ErrorCode::OperationWouldBlock => -41,
            ErrorCode::OperationNotSupported => -95,
        }
    }

    /// Reads a kernel-call status back into a code. A status that reports no
    /// known code, zero included, is rejected as an invalid argument.
    pub fn try_from_errno(errno: i32) -> (code: Result<ErrorCode, Error>)
        ensures
            match ErrorCode::spec_from_errno(errno as int) {
                Some(known) => code == Ok::<ErrorCode, Error>(known),
                None => failed(code, ErrorCode::InvalidArgument),
            },
    {
        if errno == -2 {
            Ok(ErrorCode::NoSuchEntry)
        } else if errno == -3 {
            Ok(ErrorCode::NoSuchProcess)
        } else if errno == -4 {
            Ok(ErrorCode::Interrupted)
        } else if errno == -9 {
            Ok(ErrorCode::BadFile)
        } else if errno == -11 {
            Ok(ErrorCode::TryAgain)
        } else if errno == -12 {
            Ok(ErrorCode::OutOfMemory)
        } else if errno == -13 {
            Ok(ErrorCode::PermissionDenied)
        } else if errno == -16 {
            Ok(ErrorCode::ResourceBusy)
        } else if errno == -22 {
            Ok(ErrorCode::InvalidArgument)
        } else if errno == -38 {
            Ok(ErrorCode::InvalidSysCall)
        } else if errno == -41 {
            Ok(ErrorCode::OperationWouldBlock)
        } else if errno == -95 {
            Ok(ErrorCode::OperationNotSupported)
        } else {
            Err(Error::new(ErrorCode::InvalidArgument, "unknown error number"))
        }
    }

    /// Every code survives the trip through its status.
    pub proof fn law_errno_round_trip(code: ErrorCode)
        ensures
            ErrorCode::spec_from_errno(-code.spec_errno()) == Some(code),
    {
    }

    /// Two codes with the same status are the same code.
    pub proof fn law_errno_is_injective(a: ErrorCode, b: ErrorCode)
        requires
            a.spec_errno() == b.spec_errno(),
        ensures
            a == b,
    {
    }
}

/// A failure: its code, and a note for the log that says what went wrong.
#[derive(Clone, Copy, Debug, PartialEq, Eq)]
pub struct Error {
    /// What kind of failure this is.
    pub code: ErrorCode,
    /// A note for the kernel log. No contract depends on it.
    pub reason: &'static str,
}

impl Error {
    /// Builds a failure from its code and its note.
    pub fn new(code: ErrorCode, reason: &'static str) -> (error: Error)
        ensures
            error.code == code,
            error.reason == reason,
    {
        Error { code, reason }
    }
}

/// What a result says once the note of a failure is set aside: the value, or
/// the code of the failure.
pub open spec fn outcome<T>(result: Result<T, Error>) -> Result<T, ErrorCode> {
    match result {
        Ok(value) => Ok(value),
        Err(error) => Err(error.code),
    }
}

/// The result is a failure with the given code.
pub open spec fn failed<T>(result: Result<T, Error>, code: ErrorCode) -> bool {
    result matches Err(error) && error.code == code
}

} // verus!

//! The user side of message passing: what goes into the kernel call, and
//! what its status means.

use crate::error::{failed, Error, ErrorCode};
use crate::ipc::{Message, MessageView};
use crate::kcall::number::KcallNumber;
use vstd::prelude::*;

verus! {

/// What a process hands to the trap to send a message: the number of the
/// kernel call, and the message as it stands in memory.
pub fn send_request(message: &Message) -> (request: (u32, [u8; 80]))
    ensures
        request.0 == KcallNumber::Send.spec_number(),
        request.1@ == message@.spec_to_bytes(),
{
    (KcallNumber::Send.number(), message.to_bytes())
}

/// What a process hands to the trap to receive a message: the number of the
/// kernel call, and an empty message for the kernel to fill.
pub fn recv_request() -> (request: (u32, [u8; 80]))
    ensures
        request.0 == KcallNumber::Recv.spec_number(),
        request.1@ == Message::default_view().spec_to_bytes(),
{
    (KcallNumber::Recv.number(), Message::default().to_bytes())
}

/// What the status of a kernel call means: zero is success, the negated
/// number of an error code is that failure, and any other status is an
/// invalid argument.
pub open spec fn spec_status(status: i32) -> Result<(), ErrorCode> {
    if status == 0 {
        Ok(())
    } else {
        match ErrorCode::spec_from_errno(status as int) {
            Some(code) => Err(code),
            None => Err(ErrorCode::InvalidArgument),
        }
    }
}

/// Reads the status of a kernel call.
pub fn check_status(status: i32, reason: &'static str) -> (result: Result<(), Error>)
    ensures
        match spec_status(status) {
            Ok(_) => result is Ok,
            Err(code) => failed(result, code),
        },
{
    if status == 0 {
        Ok(())
    } else {
        Err(Error::new(ErrorCode::try_from_errno(status)?, reason))
    }
}

/// Completes the sending of a message: reads the status with which the
/// kernel answered.
pub fn send(status: i32) -> (result: Result<(), Error>)
    ensures
        match spec_status(status) {
            Ok(_) => result is Ok,
            Err(code) => failed(result, code),
        },
{
    check_status(status, "failed to send()")
}

/// Completes the reception of a message: reads the status with which the
/// kernel answered, and the message that it left in memory. Memory that
/// holds no message is an invalid argument.
pub fn recv(status: i32, memory: &[u8; 80]) -> (result: Result<Message, Error>)
    ensures
        match spec_status(status) {
            Ok(_) => match MessageView::spec_from_bytes(memory@) {
                Some(view) => result matches Ok(message) && message@ == view,
                None => failed(result, ErrorCode::InvalidArgument),
            },
            Err(code) => failed(result, code),
        },
{
    check_status(status, "failed to recv()")?;
    Message::from_bytes(memory)
}

} // verus!

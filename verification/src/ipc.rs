//! Messages between processes, and from the kernel to processes.

use crate::endian::{
    bits_of, get_le, le_byte, le_value, lemma_le_round_trip, lemma_pow256_values, put_le,
    signed_of, spec_bits_of, spec_signed_of,
};
use crate::error::{failed, Error, ErrorCode};
use crate::event::{EventInformation, ProcessTerminationInfo};
use crate::pm::ProcessIdentifier;
use vstd::prelude::*;

pub mod mailbox;

verus! {

/// What a message carries.
#[derive(Clone, Copy, Debug, PartialEq, Eq, Structural)]
pub enum MessageType {
    /// Data that one process sent to another.
    Ipc,
    /// An interrupt occurred.
    Interrupt,
    /// An exception occurred.
    Exception,
    /// A scheduling notification.
    SchedulingEvent,
}

impl MessageType {
    /// The number that stands for the type in the layout of a message.
    pub open spec fn spec_encode(self) -> u32 {
        match self {
            MessageType::Ipc => 0,
            MessageType::Interrupt => 1,
            MessageType::Exception => 2,
            MessageType::SchedulingEvent => 3,
        }
    }

    /// The type that a number stands for, if it stands for one.
    pub open spec fn spec_decode(number: u32) -> Option<MessageType> {
        if number == 0 {
            Some(MessageType::Ipc)
        } else if number == 1 {
            Some(MessageType::Interrupt)
        } else if number == 2 {
            Some(MessageType::Exception)
        } else if number == 3 {
            Some(MessageType::SchedulingEvent)
        } else {
            None
        }
    }

    /// Returns the number that stands for the type.
    pub fn encode(&self) -> (number: u32)
        ensures
            number == self.spec_encode(),
            MessageType::spec_decode(number) == Some(*self),
    {
        match self {
            MessageType::Ipc => 0,
            MessageType::Interrupt => 1,
            MessageType::Exception => 2,
            MessageType::SchedulingEvent => 3,
        }
    }

    /// Reads a type from its number. A number that stands for no type is an
    /// invalid argument.
    pub fn decode(number: u32) -> (message_type: Result<MessageType, Error>)
        ensures
            match MessageType::spec_decode(number) {
                Some(known) => message_type == Ok::<MessageType, Error>(known),
                None => failed(message_type, ErrorCode::InvalidArgument),
            },
    {
        if number == 0 {
            Ok(MessageType::Ipc)
        } else if number == 1 {
            Ok(MessageType::Interrupt)
        } else if number == 2 {
            Ok(MessageType::Exception)
        } else if number == 3 {
            Ok(MessageType::SchedulingEvent)
        } else {
            Err(Error::new(ErrorCode::InvalidArgument, "invalid message type"))
        }
    }
}

/// A message: a fixed-size record with a payload of one cache line.
#[derive(Clone, Copy, Debug, PartialEq, Eq)]
pub struct Message {
    /// The process that sent the message.
    pub source: ProcessIdentifier,
    /// The process that the message is for.
    pub destination: ProcessIdentifier,
    /// What the message carries.
    pub message_type: MessageType,
    /// A status that goes with the message.
    pub status: i32,
    /// The payload.
    pub payload: [u8; 64],
}

/// A message as a mathematical value.
pub struct MessageView {
    /// The process that sent the message.
    pub source: ProcessIdentifier,
    /// The process that the message is for.
    pub destination: ProcessIdentifier,
    /// What the message carries.
    pub message_type: MessageType,
    /// A status that goes with the message.
    pub status: i32,
    /// The payload, 64 bytes long.
    pub payload: Seq<u8>,
}

impl View for Message {
    type V = MessageView;

    open spec fn view(&self) -> MessageView {
        MessageView {
            source: self.source,
            destination: self.destination,
            message_type: self.message_type,
            status: self.status,
            payload: self.payload@,
        }
    }
}

impl MessageView {
    /// A message that the kernel generates for a process.
    pub open spec fn from_kernel(
        destination: ProcessIdentifier,
        message_type: MessageType,
        payload: Seq<u8>,
    ) -> MessageView {
        MessageView {
            source: ProcessIdentifier::spec_kernel(),
            destination,
            message_type,
            status: 0,
            payload,
        }
    }

    /// The message that tells a process of an interrupt. Its payload is all
    /// zeros.
    pub open spec fn interrupt(destination: ProcessIdentifier) -> MessageView {
        MessageView::from_kernel(
            destination,
            MessageType::Interrupt,
            Seq::new(64, |index: int| 0u8),
        )
    }

    /// The message that tells a process of an exception.
    pub open spec fn exception(
        destination: ProcessIdentifier,
        info: EventInformation,
    ) -> MessageView {
        MessageView::from_kernel(destination, MessageType::Exception, info.spec_payload())
    }

    /// The message that tells a process of a termination.
    pub open spec fn scheduling(
        destination: ProcessIdentifier,
        info: ProcessTerminationInfo,
    ) -> MessageView {
        MessageView::from_kernel(destination, MessageType::SchedulingEvent, info.spec_payload())
    }

    /// The 80 bytes that a message occupies in memory: source, destination,
    /// type and status in four bytes each, least significant byte first, and
    /// the payload.
    pub open spec fn spec_to_bytes(self) -> Seq<u8> {
        Seq::new(
            80,
            |index: int|
                if index < 4 {
                    le_byte(self.source.0 as nat, index as nat)
                } else if index < 8 {
                    le_byte(self.destination.0 as nat, (index - 4) as nat)
                } else if index < 12 {
                    le_byte(self.message_type.spec_encode() as nat, (index - 8) as nat)
                } else if index < 16 {
                    le_byte(spec_bits_of(self.status), (index - 12) as nat)
                } else {
                    self.payload[index - 16]
                },
        )
    }

    /// The message that 80 bytes of memory hold, if the type they name is
    /// known.
    pub open spec fn spec_from_bytes(bytes: Seq<u8>) -> Option<MessageView> {
        match MessageType::spec_decode(le_value(bytes, 8, 4) as u32) {
            Some(message_type) => Some(
                MessageView {
                    source: ProcessIdentifier(le_value(bytes, 0, 4) as u32),
                    destination: ProcessIdentifier(le_value(bytes, 4, 4) as u32),
                    message_type,
                    status: spec_signed_of(le_value(bytes, 12, 4)) as i32,
                    payload: bytes.subrange(16, 80),
                },
            ),
            None => None,
        }
    }

    /// A message survives the trip through memory.
    pub proof fn law_bytes_round_trip(message: MessageView)
        requires
            message.payload.len() == 64,
        ensures
            MessageView::spec_from_bytes(message.spec_to_bytes()) == Some(message),
    {
        let bytes = message.spec_to_bytes();
        lemma_pow256_values();
        lemma_le_round_trip(bytes, 0, 4, message.source.0 as nat);
        lemma_le_round_trip(bytes, 4, 4, message.destination.0 as nat);
        lemma_le_round_trip(bytes, 8, 4, message.message_type.spec_encode() as nat);
        lemma_le_round_trip(bytes, 12, 4, spec_bits_of(message.status));
        assert(bytes.subrange(16, 80) =~= message.payload);
    }
}

impl Default for Message {
    /// An empty message from the kernel to itself.
    fn default() -> (message: Message)
        ensures
            message@ == Message::default_view(),
    {
        let message = Message {
            source: ProcessIdentifier::kernel(),
            destination: ProcessIdentifier::kernel(),
            message_type: MessageType::Ipc,
            status: 0,
            payload: [0u8; 64],
        };
        assert(message.payload@ =~= Seq::new(64, |index: int| 0u8));
        message
    }
}

impl Message {
    /// The empty message from the kernel to itself.
    pub open spec fn default_view() -> MessageView {
        MessageView::from_kernel(
            ProcessIdentifier::spec_kernel(),
            MessageType::Ipc,
            Seq::new(64, |index: int| 0u8),
        )
    }

    /// The size of the payload in bytes.
    pub const PAYLOAD_SIZE: usize = 64;

    /// The size of a message in memory, in bytes.
    pub const SIZE: usize = 80;

    /// Builds a message.
    pub fn new(
        source: ProcessIdentifier,
        destination: ProcessIdentifier,
        message_type: MessageType,
        status: i32,
        payload: [u8; 64],
    ) -> (message: Message)
        ensures
            message == (Message { source, destination, message_type, status, payload }),
    {
        Message { source, destination, message_type, status, payload }
    }

    /// Builds the message that tells a process of an interrupt.
    pub fn interrupt(destination: ProcessIdentifier) -> (message: Message)
        ensures
            message@ == MessageView::interrupt(destination),
    {
        let message = Message {
            source: ProcessIdentifier::kernel(),
            destination,
            message_type: MessageType::Interrupt,
            status: 0,
            payload: [0u8; 64],
        };
        assert(message.payload@ =~= Seq::new(64, |index: int| 0u8));
        message
    }

    /// Builds the message that tells a process of an exception.
    pub fn exception(destination: ProcessIdentifier, info: &EventInformation) -> (message: Message)
        ensures
            message@ == MessageView::exception(destination, *info),
    {
        Message {
            source: ProcessIdentifier::kernel(),
            destination,
            message_type: MessageType::Exception,
            status: 0,
            payload: info.to_payload(),
        }
    }

    /// Builds the message that tells a process of a termination.
    pub fn scheduling(destination: ProcessIdentifier, info: &ProcessTerminationInfo) -> (message:
        Message)
        ensures
            message@ == MessageView::scheduling(destination, *info),
    {
        Message {
            source: ProcessIdentifier::kernel(),
            destination,
            message_type: MessageType::SchedulingEvent,
            status: 0,
            payload: info.to_payload(),
        }
    }

    /// Lays the message out as it stands in memory.
    pub fn to_bytes(&self) -> (bytes: [u8; 80])
        ensures
            bytes@ == self@.spec_to_bytes(),
    {
        let mut bytes = [0u8; 80];
        put_le(&mut bytes, 0, 4, self.source.0 as u64);
        put_le(&mut bytes, 4, 4, self.destination.0 as u64);
        put_le(&mut bytes, 8, 4, self.message_type.encode() as u64);
        put_le(&mut bytes, 12, 4, bits_of(self.status) as u64);
        let mut index: usize = 0;
        while index < 64
            invariant
                index <= 64,
                forall|at: int|
                    0 <= at < 80 ==> bytes[at] == if at < 16 || at >= 16 + index {
                        if at < 16 {
                            self@.spec_to_bytes()[at]
                        } else {
                            0u8
                        }
                    } else {
                        self.payload[at - 16]
                    },
            decreases 64 - index,
        {
            bytes[16 + index] = self.payload[index];
            index = index + 1;
        }
        assert(bytes@ =~= self@.spec_to_bytes());
        bytes
    }

    /// Reads a message from memory. Bytes that name no known type are an
    /// invalid argument.
    pub fn from_bytes(bytes: &[u8; 80]) -> (message: Result<Message, Error>)
        ensures
            match MessageView::spec_from_bytes(bytes@) {
                Some(view) => message matches Ok(read) && read@ == view,
                None => failed(message, ErrorCode::InvalidArgument),
            },
    {
        proof {
            lemma_pow256_values();
        }
        let source = get_le(bytes, 0, 4) as u32;
        let destination = get_le(bytes, 4, 4) as u32;
        let message_type = MessageType::decode(get_le(bytes, 8, 4) as u32)?;
        let status = signed_of(get_le(bytes, 12, 4) as u32);
        let mut payload = [0u8; 64];
        let mut index: usize = 0;
        while index < 64
            invariant
                index <= 64,
                forall|at: int| 0 <= at < index ==> payload[at] == bytes[16 + at],
            decreases 64 - index,
        {
            payload[index] = bytes[16 + index];
            index = index + 1;
        }
        assert(payload@ =~= bytes@.subrange(16, 80));
        Ok(
            Message {
                source: ProcessIdentifier(source),
                destination: ProcessIdentifier(destination),
                message_type,
                status,
                payload,
            },
        )
    }
}

/// Two messages with the same view are the same message.
pub proof fn law_message_is_its_view(first: Message, second: Message)
    requires
        first@ == second@,
    ensures
        first == second,
{
    assert(first.payload@ == second.payload@);
    assert(first.payload =~= second.payload);
}

} // verus!

//! Events: interrupts, exceptions and scheduling notifications, and the
//! records that carry them from the trap surface to the process that owns
//! them.

use crate::endian::{
    bits_of, get_le, le_byte, le_value, lemma_le_round_trip, lemma_pow256_values, put_le,
    signed_of, spec_bits_of, spec_signed_of,
};
use crate::error::{failed, Error, ErrorCode};
use crate::pm::ProcessIdentifier;
use vstd::prelude::*;

pub mod laws;
pub mod manager;
pub mod mask;
pub mod model;
pub mod table;

verus! {

/// The three classes of events, in the order in which deliveries rotate over
/// them.
#[derive(Clone, Copy, Debug, PartialEq, Eq, Structural)]
pub enum EventClass {
    /// Hardware interrupts.
    Interrupt,
    /// CPU exceptions.
    Exception,
    /// Scheduling notifications.
    Scheduling,
}

/// An interrupt line.
#[derive(Clone, Copy, Debug, PartialEq, Eq, Structural)]
pub struct InterruptEvent(pub u8);

/// A CPU exception vector.
#[derive(Clone, Copy, Debug, PartialEq, Eq, Structural)]
pub struct ExceptionEvent(pub u8);

/// A kind of scheduling notification.
#[derive(Clone, Copy, Debug, PartialEq, Eq, Structural)]
pub enum SchedulingEvent {
    /// A process has terminated.
    ProcessTermination,
}

impl SchedulingEvent {
    /// The number of kinds of scheduling notifications.
    pub const NUMBER_EVENTS: usize = 1;

    /// The slot of the kind in the scheduling tables.
    pub open spec fn spec_index(self) -> int {
        0
    }

    /// Returns the slot of the kind in the scheduling tables.
    pub fn index(self) -> (slot: usize)
        ensures
            slot == self.spec_index(),
            slot < SchedulingEvent::NUMBER_EVENTS,
    {
        0
    }
}

/// An event that a process may own and wait for.
#[derive(Clone, Copy, Debug, PartialEq, Eq, Structural)]
pub enum Event {
    /// A hardware interrupt on the given line.
    Interrupt(InterruptEvent),
    /// A CPU exception on the given vector.
    Exception(ExceptionEvent),
    /// A scheduling notification of the given kind.
    Scheduling(SchedulingEvent),
}

/// The number of slots that the tables of a class hold: one for each bit of a
/// machine word for interrupts and exceptions, one for each kind of
/// scheduling notification.
pub open spec fn slots_of(class: EventClass) -> int {
    match class {
        EventClass::Interrupt => usize::BITS as int,
        EventClass::Exception => usize::BITS as int,
        EventClass::Scheduling => SchedulingEvent::NUMBER_EVENTS as int,
    }
}

/// The event of a class that is kept in the given slot.
pub open spec fn event_at(class: EventClass, slot: int) -> Event {
    match class {
        EventClass::Interrupt => Event::Interrupt(InterruptEvent(slot as u8)),
        EventClass::Exception => Event::Exception(ExceptionEvent(slot as u8)),
        EventClass::Scheduling => Event::Scheduling(SchedulingEvent::ProcessTermination),
    }
}

impl Event {
    /// The class of the event.
    pub open spec fn spec_class(self) -> EventClass {
        match self {
            Event::Interrupt(_) => EventClass::Interrupt,
            Event::Exception(_) => EventClass::Exception,
            Event::Scheduling(_) => EventClass::Scheduling,
        }
    }

    /// The slot of the event in the tables of its class.
    pub open spec fn spec_index(self) -> int {
        match self {
            Event::Interrupt(line) => line.0 as int,
            Event::Exception(vector) => vector.0 as int,
            Event::Scheduling(kind) => kind.spec_index(),
        }
    }

    /// The event names a slot that exists.
    pub open spec fn spec_is_valid(self) -> bool {
        self.spec_index() < slots_of(self.spec_class())
    }

    /// Returns the class of the event.
    pub fn class(&self) -> (class: EventClass)
        ensures
            class == self.spec_class(),
    {
        match self {
            Event::Interrupt(_) => EventClass::Interrupt,
            Event::Exception(_) => EventClass::Exception,
            Event::Scheduling(_) => EventClass::Scheduling,
        }
    }

    /// Returns the slot of the event in the tables of its class.
    pub fn index(&self) -> (slot: usize)
        ensures
            slot == self.spec_index(),
    {
        match self {
            Event::Interrupt(line) => line.0 as usize,
            Event::Exception(vector) => vector.0 as usize,
            Event::Scheduling(kind) => kind.index(),
        }
    }

    /// Says whether the event names a slot that exists.
    pub fn is_valid(&self) -> (valid: bool)
        ensures
            valid == self.spec_is_valid(),
    {
        match self {
            Event::Interrupt(line) => (line.0 as u32) < usize::BITS,
            Event::Exception(vector) => (vector.0 as u32) < usize::BITS,
            Event::Scheduling(_) => true,
        }
    }

    /// The class tag and the index that stand for the event on the
    /// kernel-call interface.
    pub open spec fn spec_encode(self) -> (u8, u8) {
        match self {
            Event::Interrupt(line) => (1u8, line.0),
            Event::Exception(vector) => (2u8, vector.0),
            Event::Scheduling(_) => (3u8, 0u8),
        }
    }

    /// The event that a class tag and an index stand for, if they stand for
    /// one: the tag is known and the index names a slot of the class.
    pub open spec fn spec_decode(class_tag: u8, index: u8) -> Option<Event> {
        if class_tag == 1 && index < usize::BITS {
            Some(Event::Interrupt(InterruptEvent(index)))
        } else if class_tag == 2 && index < usize::BITS {
            Some(Event::Exception(ExceptionEvent(index)))
        } else if class_tag == 3 && index < SchedulingEvent::NUMBER_EVENTS {
            Some(Event::Scheduling(SchedulingEvent::ProcessTermination))
        } else {
            None
        }
    }

    /// Returns the class tag and the index that stand for the event on the
    /// kernel-call interface.
    pub fn encode(&self) -> (wire: (u8, u8))
        ensures
            wire == self.spec_encode(),
    {
        match self {
            Event::Interrupt(line) => (1, line.0),
            Event::Exception(vector) => (2, vector.0),
            Event::Scheduling(_) => (3, 0),
        }
    }

    /// Reads an event from its class tag and index. An unknown tag or an
    /// index beyond the slots of the class is an invalid argument.
    pub fn decode(class_tag: u8, index: u8) -> (event: Result<Event, Error>)
        ensures
            match Event::spec_decode(class_tag, index) {
                Some(decoded) => event == Ok::<Event, Error>(decoded),
                None => failed(event, ErrorCode::InvalidArgument),
            },
    {
        if class_tag == 1 && (index as u32) < usize::BITS {
            Ok(Event::Interrupt(InterruptEvent(index)))
        } else if class_tag == 2 && (index as u32) < usize::BITS {
            Ok(Event::Exception(ExceptionEvent(index)))
        } else if class_tag == 3 && index == 0 {
            Ok(Event::Scheduling(SchedulingEvent::ProcessTermination))
        } else {
            Err(Error::new(ErrorCode::InvalidArgument, "invalid event"))
        }
    }

    /// A valid event survives the trip through its encoding, and only valid
    /// events are ever decoded.
    pub proof fn law_wire_round_trip(event: Event)
        requires
            event.spec_is_valid(),
        ensures
            Event::spec_decode(event.spec_encode().0, event.spec_encode().1) == Some(event),
    {
    }

    /// Whatever decodes is valid and encodes to what it was decoded from.
    pub proof fn law_decoded_events_are_valid(class_tag: u8, index: u8)
        requires
            Event::spec_decode(class_tag, index) is Some,
        ensures
            Event::spec_decode(class_tag, index)->Some_0.spec_is_valid(),
            Event::spec_decode(class_tag, index)->Some_0.spec_encode() == (class_tag, index),
    {
    }
}

/// What a process asks of the registry for one event.
#[derive(Clone, Copy, Debug, PartialEq, Eq, Structural)]
pub enum EventCtrlRequest {
    /// Become the owner of the event.
    Register,
    /// Give the event up.
    Unregister,
}

impl EventCtrlRequest {
    /// The request that a number stands for on the kernel-call interface.
    pub open spec fn spec_decode(request: u32) -> Option<EventCtrlRequest> {
        if request == 0 {
            Some(EventCtrlRequest::Register)
        } else if request == 1 {
            Some(EventCtrlRequest::Unregister)
        } else {
            None
        }
    }

    /// The number that stands for the request on the kernel-call interface.
    pub open spec fn spec_encode(self) -> u32 {
        match self {
            EventCtrlRequest::Register => 0,
            EventCtrlRequest::Unregister => 1,
        }
    }

    /// Returns the number that stands for the request.
    pub fn encode(&self) -> (request: u32)
        ensures
            request == self.spec_encode(),
            EventCtrlRequest::spec_decode(request) == Some(*self),
    {
        match self {
            EventCtrlRequest::Register => 0,
            EventCtrlRequest::Unregister => 1,
        }
    }

    /// Reads a request from its number. Any number but the two known ones is
    /// an invalid argument.
    pub fn decode(request: u32) -> (decoded: Result<EventCtrlRequest, Error>)
        ensures
            match EventCtrlRequest::spec_decode(request) {
                Some(known) => decoded == Ok::<EventCtrlRequest, Error>(known),
                None => failed(decoded, ErrorCode::InvalidArgument),
            },
    {
        if request == 0 {
            Ok(EventCtrlRequest::Register)
        } else if request == 1 {
            Ok(EventCtrlRequest::Unregister)
        } else {
            Err(Error::new(ErrorCode::InvalidArgument, "invalid event control request"))
        }
    }
}

/// Names one pending occurrence of an event: the sequence number that the
/// event manager gave it when it was enqueued, and the event.
#[derive(Clone, Copy, Debug, PartialEq, Eq, Structural)]
pub struct EventDescriptor {
    /// The position of the occurrence among all injections.
    pub sequence: u64,
    /// The event that occurred.
    pub event: Event,
}

impl EventDescriptor {
    /// Names an occurrence.
    pub fn new(sequence: u64, event: Event) -> (descriptor: EventDescriptor)
        ensures
            descriptor == (EventDescriptor { sequence, event }),
    {
        EventDescriptor { sequence, event }
    }

    /// Returns the sequence number of the occurrence.
    pub fn sequence(&self) -> (sequence: u64)
        ensures
            sequence == self.sequence,
    {
        self.sequence
    }

    /// Returns the event that occurred.
    pub fn event(&self) -> (event: Event)
        ensures
            event == self.event,
    {
        self.event
    }

    /// Says whether the occurrence waits for an acknowledgement: exceptions
    /// do, interrupts and scheduling notifications do not.
    pub fn needs_acknowledgement(&self) -> (needed: bool)
        ensures
            needed == (self.event is Exception),
    {
        match self.event {
            Event::Exception(_) => true,
            _ => false,
        }
    }
}

/// What the CPU reports of an exception.
#[derive(Clone, Copy, Debug, PartialEq, Eq, Structural)]
pub struct ExceptionInformation {
    /// The exception vector.
    pub num: u32,
    /// The error code that the CPU pushed.
    pub code: u32,
    /// The address whose access faulted.
    pub addr: u32,
    /// The address of the faulting instruction.
    pub instruction: u32,
}

/// Names the one-shot condition on which a faulting process is parked until
/// the owner of the exception acknowledges it. There is one waiter, the
/// faulting process, and one notifier, the owner.
#[derive(Clone, Copy, Debug, PartialEq, Eq, Hash, Structural)]
pub struct ResumeHandle(pub u64);

/// What is kept of a pending exception: who faulted, what the CPU reported,
/// and where the faulting process is parked.
#[derive(Clone, Copy, Debug, PartialEq, Eq, Structural)]
pub struct ExceptionEventInformation {
    /// The process that faulted.
    pub pid: ProcessIdentifier,
    /// What the CPU reported.
    pub info: ExceptionInformation,
    /// Where the faulting process is parked.
    pub resume: ResumeHandle,
}

/// What is kept of a terminated process.
#[derive(Clone, Copy, Debug, PartialEq, Eq, Structural)]
pub struct ProcessTerminationInfo {
    /// The process that terminated.
    pub pid: ProcessIdentifier,
    /// Its exit status.
    pub status: i32,
}

impl ProcessTerminationInfo {
    /// Records a termination.
    pub fn new(pid: ProcessIdentifier, status: i32) -> (info: ProcessTerminationInfo)
        ensures
            info == (ProcessTerminationInfo { pid, status }),
    {
        ProcessTerminationInfo { pid, status }
    }

    /// The payload of the message that reports the termination: the
    /// identifier of the process in four bytes, then the bits of its exit
    /// status in four bytes, each least significant byte first, then zeros.
    pub open spec fn spec_payload(self) -> Seq<u8> {
        Seq::new(
            64,
            |index: int|
                if index < 4 {
                    le_byte(self.pid.0 as nat, index as nat)
                } else if index < 8 {
                    le_byte(spec_bits_of(self.status), (index - 4) as nat)
                } else {
                    0u8
                },
        )
    }

    /// The termination that a payload reports.
    pub open spec fn spec_from_payload(payload: Seq<u8>) -> ProcessTerminationInfo {
        ProcessTerminationInfo {
            pid: ProcessIdentifier(le_value(payload, 0, 4) as u32),
            status: spec_signed_of(le_value(payload, 4, 4)) as i32,
        }
    }

    /// Lays the termination out as the payload of a message.
    pub fn to_payload(&self) -> (payload: [u8; 64])
        ensures
            payload@ == self.spec_payload(),
    {
        let mut payload = [0u8; 64];
        put_le(&mut payload, 0, 4, self.pid.0 as u64);
        put_le(&mut payload, 4, 4, bits_of(self.status) as u64);
        assert(payload@ =~= self.spec_payload());
        payload
    }

    /// Reads a termination from the payload of a message.
    pub fn from_payload(payload: &[u8; 64]) -> (info: ProcessTerminationInfo)
        ensures
            info == ProcessTerminationInfo::spec_from_payload(payload@),
    {
        proof {
            lemma_pow256_values();
        }
        let pid = get_le(payload, 0, 4) as u32;
        let status = signed_of(get_le(payload, 4, 4) as u32);
        ProcessTerminationInfo { pid: ProcessIdentifier(pid), status }
    }

    /// A termination survives the trip through its payload.
    pub proof fn law_payload_round_trip(info: ProcessTerminationInfo)
        ensures
            ProcessTerminationInfo::spec_from_payload(info.spec_payload()) == info,
    {
        let payload = info.spec_payload();
        lemma_pow256_values();
        lemma_le_round_trip(payload, 0, 4, info.pid.0 as nat);
        lemma_le_round_trip(payload, 4, 4, spec_bits_of(info.status));
    }
}

/// What the owner of an exception is told of one occurrence.
#[derive(Clone, Copy, Debug, PartialEq, Eq, Structural)]
pub struct EventInformation {
    /// The sequence number of the occurrence.
    pub id: u64,
    /// The process that faulted.
    pub pid: ProcessIdentifier,
    /// The exception vector.
    pub number: u32,
    /// The error code that the CPU pushed.
    pub code: u32,
    /// The address whose access faulted.
    pub address: u32,
    /// The address of the faulting instruction.
    pub instruction: u32,
}

impl EventInformation {
    /// What the owner is told of a pending exception.
    pub open spec fn spec_of(sequence: u64, fault: ExceptionEventInformation) -> EventInformation {
        EventInformation {
            id: sequence,
            pid: fault.pid,
            number: fault.info.num,
            code: fault.info.code,
            address: fault.info.addr,
            instruction: fault.info.instruction,
        }
    }

    /// Gathers what the owner is told of a pending exception.
    pub fn of(sequence: u64, fault: &ExceptionEventInformation) -> (info: EventInformation)
        ensures
            info == EventInformation::spec_of(sequence, *fault),
    {
        EventInformation {
            id: sequence,
            pid: fault.pid,
            number: fault.info.num,
            code: fault.info.code,
            address: fault.info.addr,
            instruction: fault.info.instruction,
        }
    }

    /// The descriptor that names the occurrence, with which the owner
    /// acknowledges it. It is valid only where the vector fits in a byte.
    pub open spec fn spec_descriptor(self) -> EventDescriptor {
        EventDescriptor {
            sequence: self.id,
            event: Event::Exception(ExceptionEvent(self.number as u8)),
        }
    }

    /// Returns the descriptor that names the occurrence, or fails with an
    /// invalid argument where the vector names no slot.
    pub fn descriptor(&self) -> (descriptor: Result<EventDescriptor, Error>)
        ensures
            self.number < usize::BITS ==> descriptor == Ok::<EventDescriptor, Error>(
                self.spec_descriptor(),
            ),
            self.number >= usize::BITS ==> failed(descriptor, ErrorCode::InvalidArgument),
    {
        if self.number < usize::BITS {
            Ok(EventDescriptor::new(self.id, Event::Exception(ExceptionEvent(self.number as u8))))
        } else {
            Err(Error::new(ErrorCode::InvalidArgument, "invalid exception vector"))
        }
    }

    /// The payload of the message that reports the occurrence: the sequence
    /// number in eight bytes, then the process, the vector, the error code,
    /// the address and the instruction in four bytes each, every field least
    /// significant byte first, then zeros.
    pub open spec fn spec_payload(self) -> Seq<u8> {
        Seq::new(
            64,
            |index: int|
                if index < 8 {
                    le_byte(self.id as nat, index as nat)
                } else if index < 12 {
                    le_byte(self.pid.0 as nat, (index - 8) as nat)
                } else if index < 16 {
                    le_byte(self.number as nat, (index - 12) as nat)
                } else if index < 20 {
                    le_byte(self.code as nat, (index - 16) as nat)
                } else if index < 24 {
                    le_byte(self.address as nat, (index - 20) as nat)
                } else if index < 28 {
                    le_byte(self.instruction as nat, (index - 24) as nat)
                } else {
                    0u8
                },
        )
    }

    /// The report that a payload holds.
    pub open spec fn spec_from_payload(payload: Seq<u8>) -> EventInformation {
        EventInformation {
            id: le_value(payload, 0, 8) as u64,
            pid: ProcessIdentifier(le_value(payload, 8, 4) as u32),
            number: le_value(payload, 12, 4) as u32,
            code: le_value(payload, 16, 4) as u32,
            address: le_value(payload, 20, 4) as u32,
            instruction: le_value(payload, 24, 4) as u32,
        }
    }

    /// Lays the report out as the payload of a message.
    pub fn to_payload(&self) -> (payload: [u8; 64])
        ensures
            payload@ == self.spec_payload(),
    {
        let mut payload = [0u8; 64];
        put_le(&mut payload, 0, 8, self.id);
        put_le(&mut payload, 8, 4, self.pid.0 as u64);
        put_le(&mut payload, 12, 4, self.number as u64);
        put_le(&mut payload, 16, 4, self.code as u64);
        put_le(&mut payload, 20, 4, self.address as u64);
        put_le(&mut payload, 24, 4, self.instruction as u64);
        assert(payload@ =~= self.spec_payload());
        payload
    }

    /// Reads a report from the payload of a message.
    pub fn from_payload(payload: &[u8; 64]) -> (info: EventInformation)
        ensures
            info == EventInformation::spec_from_payload(payload@),
    {
        proof {
            lemma_pow256_values();
        }
        EventInformation {
            id: get_le(payload, 0, 8),
            pid: ProcessIdentifier(get_le(payload, 8, 4) as u32),
            number: get_le(payload, 12, 4) as u32,
            code: get_le(payload, 16, 4) as u32,
            address: get_le(payload, 20, 4) as u32,
            instruction: get_le(payload, 24, 4) as u32,
        }
    }

    /// A report survives the trip through its payload.
    pub proof fn law_payload_round_trip(info: EventInformation)
        ensures
            EventInformation::spec_from_payload(info.spec_payload()) == info,
    {
        let payload = info.spec_payload();
        lemma_pow256_values();
        lemma_le_round_trip(payload, 0, 8, info.id as nat);
        lemma_le_round_trip(payload, 8, 4, info.pid.0 as nat);
        lemma_le_round_trip(payload, 12, 4, info.number as nat);
        lemma_le_round_trip(payload, 16, 4, info.code as nat);
        lemma_le_round_trip(payload, 20, 4, info.address as nat);
        lemma_le_round_trip(payload, 24, 4, info.instruction as nat);
    }
}

/// One entry of a pending queue: the descriptor of the occurrence and what
/// its class keeps with it.
#[derive(Debug, PartialEq, Eq)]
pub struct PendingEvent<P> {
    /// Names the occurrence.
    pub descriptor: EventDescriptor,
    /// What the class keeps with the occurrence.
    pub payload: P,
}

} // verus!

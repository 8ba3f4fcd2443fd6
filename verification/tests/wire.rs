use kernel::error::ErrorCode;
use kernel::event::{
    Event, EventCtrlRequest, EventDescriptor, EventInformation, ExceptionEvent,
    ExceptionEventInformation, ExceptionInformation, InterruptEvent, ProcessTerminationInfo,
    ResumeHandle, SchedulingEvent,
};
use kernel::ipc::{Message, MessageType};
use kernel::pm::ProcessIdentifier;

#[test]
fn events_are_encoded_as_class_tag_and_index() {
    assert_eq!(Event::Interrupt(InterruptEvent(5)).encode(), (1, 5));
    assert_eq!(Event::Exception(ExceptionEvent(14)).encode(), (2, 14));
    assert_eq!(Event::Scheduling(SchedulingEvent::ProcessTermination).encode(), (3, 0));
}

#[test]
fn events_are_decoded_from_class_tag_and_index() {
    assert_eq!(Event::decode(1, 5), Ok(Event::Interrupt(InterruptEvent(5))));
    assert_eq!(Event::decode(2, 14), Ok(Event::Exception(ExceptionEvent(14))));
    assert_eq!(Event::decode(3, 0), Ok(Event::Scheduling(SchedulingEvent::ProcessTermination)));
}

#[test]
fn unknown_class_tags_and_indices_are_invalid() {
    let width = usize::BITS as u8;
    for (tag, index) in [(0, 0), (4, 0), (255, 1), (1, width), (2, width), (3, 1), (1, 255)] {
        assert_eq!(Event::decode(tag, index).unwrap_err().code, ErrorCode::InvalidArgument);
    }
    assert!(Event::decode(1, width - 1).is_ok());
    assert!(Event::decode(2, width - 1).is_ok());
}

#[test]
fn every_valid_event_survives_its_encoding() {
    for index in 0..usize::BITS as u8 {
        for event in
            [Event::Interrupt(InterruptEvent(index)), Event::Exception(ExceptionEvent(index))]
        {
            assert!(event.is_valid());
            let (tag, wire_index) = event.encode();
            assert_eq!(Event::decode(tag, wire_index), Ok(event));
        }
    }
    let kind = Event::Scheduling(SchedulingEvent::ProcessTermination);
    let (tag, index) = kind.encode();
    assert_eq!(Event::decode(tag, index), Ok(kind));
}

#[test]
fn event_class_index_and_validity() {
    let line = Event::Interrupt(InterruptEvent(7));
    assert_eq!(line.index(), 7);
    assert!(line.is_valid());
    assert!(!Event::Exception(ExceptionEvent(usize::BITS as u8)).is_valid());
    assert_eq!(Event::Scheduling(SchedulingEvent::ProcessTermination).index(), 0);
    assert_eq!(SchedulingEvent::NUMBER_EVENTS, 1);
}

#[test]
fn requests_are_zero_and_one() {
    assert_eq!(EventCtrlRequest::decode(0), Ok(EventCtrlRequest::Register));
    assert_eq!(EventCtrlRequest::decode(1), Ok(EventCtrlRequest::Unregister));
    assert_eq!(EventCtrlRequest::decode(2).unwrap_err().code, ErrorCode::InvalidArgument);
    assert_eq!(EventCtrlRequest::decode(u32::MAX).unwrap_err().code, ErrorCode::InvalidArgument);
    assert_eq!(EventCtrlRequest::Register.encode(), 0);
    assert_eq!(EventCtrlRequest::Unregister.encode(), 1);
}

#[test]
fn message_types_are_numbered_from_zero() {
    let types = [
        MessageType::Ipc,
        MessageType::Interrupt,
        MessageType::Exception,
        MessageType::SchedulingEvent,
    ];
    for (number, message_type) in types.into_iter().enumerate() {
        assert_eq!(message_type.encode(), number as u32);
        assert_eq!(MessageType::decode(number as u32), Ok(message_type));
    }
    assert_eq!(MessageType::decode(4).unwrap_err().code, ErrorCode::InvalidArgument);
}

#[test]
fn termination_payload_is_pid_then_status() {
    let info = ProcessTerminationInfo::new(ProcessIdentifier(0x0102_0304), -2);
    let payload = info.to_payload();
    assert_eq!(&payload[0..4], &[0x04, 0x03, 0x02, 0x01]);
    assert_eq!(&payload[4..8], &[0xfe, 0xff, 0xff, 0xff]);
    assert!(payload[8..].iter().all(|byte| *byte == 0));
    assert_eq!(&payload[0..4], &0x0102_0304u32.to_le_bytes());
    assert_eq!(&payload[4..8], &(-2i32).to_le_bytes());
    assert_eq!(ProcessTerminationInfo::from_payload(&payload), info);
}

#[test]
fn termination_payload_survives_extreme_statuses() {
    for status in [0, 1, -1, i32::MAX, i32::MIN, 255, -256] {
        for pid in [0, 1, 77, u32::MAX] {
            let info = ProcessTerminationInfo::new(ProcessIdentifier(pid), status);
            assert_eq!(ProcessTerminationInfo::from_payload(&info.to_payload()), info);
        }
    }
}

#[test]
fn exception_payload_layout_is_exact() {
    let info = EventInformation {
        id: 0x1122_3344_5566_7788,
        pid: ProcessIdentifier(0xa1a2_a3a4),
        number: 14,
        code: 0xb1b2_b3b4,
        address: 0xc1c2_c3c4,
        instruction: 0xd1d2_d3d4,
    };
    let payload = info.to_payload();
    let mut expected = [0u8; 64];
    expected[0..8].copy_from_slice(&[0x88, 0x77, 0x66, 0x55, 0x44, 0x33, 0x22, 0x11]);
    expected[8..12].copy_from_slice(&[0xa4, 0xa3, 0xa2, 0xa1]);
    expected[12..16].copy_from_slice(&[14, 0, 0, 0]);
    expected[16..20].copy_from_slice(&[0xb4, 0xb3, 0xb2, 0xb1]);
    expected[20..24].copy_from_slice(&[0xc4, 0xc3, 0xc2, 0xc1]);
    expected[24..28].copy_from_slice(&[0xd4, 0xd3, 0xd2, 0xd1]);
    assert_eq!(payload, expected);
    assert_eq!(EventInformation::from_payload(&payload), info);
}

#[test]
fn exception_report_is_gathered_from_the_pending_entry() {
    let fault = ExceptionEventInformation {
        pid: ProcessIdentifier(9),
        info: ExceptionInformation { num: 14, code: 2, addr: 0xdead_0000, instruction: 0x4000_1000 },
        resume: ResumeHandle(77),
    };
    let info = EventInformation::of(77, &fault);
    assert_eq!(
        info,
        EventInformation {
            id: 77,
            pid: ProcessIdentifier(9),
            number: 14,
            code: 2,
            address: 0xdead_0000,
            instruction: 0x4000_1000,
        }
    );
    assert_eq!(
        info.descriptor(),
        Ok(EventDescriptor::new(77, Event::Exception(ExceptionEvent(14))))
    );
}

#[test]
fn report_with_a_vector_that_names_no_slot_has_no_descriptor() {
    let info = EventInformation {
        id: 1,
        pid: ProcessIdentifier(9),
        number: usize::BITS,
        code: 0,
        address: 0,
        instruction: 0,
    };
    assert_eq!(info.descriptor().unwrap_err().code, ErrorCode::InvalidArgument);
}

#[test]
fn descriptor_accessors() {
    let descriptor = EventDescriptor::new(12, Event::Interrupt(InterruptEvent(3)));
    assert_eq!(descriptor.sequence(), 12);
    assert_eq!(descriptor.event(), Event::Interrupt(InterruptEvent(3)));
}

#[test]
fn message_layout_is_eighty_bytes() {
    let mut payload = [0u8; 64];
    for (index, byte) in payload.iter_mut().enumerate() {
        *byte = index as u8 + 1;
    }
    let message = Message::new(
        ProcessIdentifier(0x0a0b_0c0d),
        ProcessIdentifier(0x1a1b_1c1d),
        MessageType::Exception,
        -22,
        payload,
    );
    let bytes = message.to_bytes();
    assert_eq!(bytes.len(), 80);
    assert_eq!(Message::SIZE, 80);
    assert_eq!(Message::PAYLOAD_SIZE, 64);
    assert_eq!(&bytes[0..4], &[0x0d, 0x0c, 0x0b, 0x0a]);
    assert_eq!(&bytes[4..8], &[0x1d, 0x1c, 0x1b, 0x1a]);
    assert_eq!(&bytes[8..12], &[2, 0, 0, 0]);
    assert_eq!(&bytes[12..16], &(-22i32).to_le_bytes());
    assert_eq!(&bytes[16..80], &payload[..]);
    assert_eq!(Message::from_bytes(&bytes), Ok(message));
}

#[test]
fn memory_with_an_unknown_message_type_is_no_message() {
    let mut bytes = Message::default().to_bytes();
    bytes[8] = 4;
    assert_eq!(Message::from_bytes(&bytes).unwrap_err().code, ErrorCode::InvalidArgument);
    bytes[8] = 0;
    bytes[11] = 1;
    assert_eq!(Message::from_bytes(&bytes).unwrap_err().code, ErrorCode::InvalidArgument);
}

#[test]
fn default_message_is_empty() {
    let message = Message::default();
    assert_eq!(message.source, ProcessIdentifier::kernel());
    assert_eq!(message.destination, ProcessIdentifier::kernel());
    assert_eq!(message.message_type, MessageType::Ipc);
    assert_eq!(message.status, 0);
    assert_eq!(message.payload, [0u8; 64]);
    assert_eq!(message.to_bytes(), [0u8; 80]);
}

#[test]
fn kernel_messages() {
    let destination = ProcessIdentifier(12);
    let interrupt = Message::interrupt(destination);
    assert_eq!(
        interrupt,
        Message::new(ProcessIdentifier::kernel(), destination, MessageType::Interrupt, 0, [0; 64])
    );
    let termination = ProcessTerminationInfo::new(ProcessIdentifier(4), 3);
    let scheduling = Message::scheduling(destination, &termination);
    assert_eq!(
        scheduling,
        Message::new(
            ProcessIdentifier::kernel(),
            destination,
            MessageType::SchedulingEvent,
            0,
            termination.to_payload()
        )
    );
    let info = EventInformation {
        id: 5,
        pid: ProcessIdentifier(4),
        number: 13,
        code: 1,
        address: 2,
        instruction: 3,
    };
    let exception = Message::exception(destination, &info);
    assert_eq!(
        exception,
        Message::new(
            ProcessIdentifier::kernel(),
            destination,
            MessageType::Exception,
            0,
            info.to_payload()
        )
    );
}

#[test]
fn reserved_process_identifiers() {
    assert_eq!(ProcessIdentifier::kernel(), ProcessIdentifier(0));
    assert_eq!(ProcessIdentifier::procd(), ProcessIdentifier(1));
    assert_ne!(ProcessIdentifier::kernel(), ProcessIdentifier::procd());
}

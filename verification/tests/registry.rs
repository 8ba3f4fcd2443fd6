use kernel::error::ErrorCode;
use kernel::event::manager::{init, EventManager};
use kernel::event::{Event, EventCtrlRequest, ExceptionEvent, InterruptEvent, SchedulingEvent};
use kernel::pm::process::capability::Capabilities;
use kernel::pm::{Capability, ProcessIdentifier};

fn manager(interrupt_capable: bool) -> EventManager {
    let mut manager = EventManager::new();
    let lines: Option<&[u8]> = if interrupt_capable { Some(&[0, 1, 2]) } else { None };
    init(&mut manager, lines).unwrap();
    manager
}

fn holding(capability: Capability) -> Capabilities {
    let mut capabilities = Capabilities::default();
    capabilities.set(capability);
    capabilities
}

#[test]
fn second_registration_is_refused_until_the_first_owner_unregisters() {
    let mut manager = manager(true);
    let capabilities = holding(Capability::ExceptionControl);
    let first = ProcessIdentifier(10);
    let second = ProcessIdentifier(11);
    let event = Event::Exception(ExceptionEvent(14));

    let handle = manager.evctrl(first, Ok(capabilities), event, EventCtrlRequest::Register).unwrap();
    assert!(handle.is_some());
    assert_eq!(manager.owner(&event), Some(first));

    let refused = manager.evctrl(second, Ok(capabilities), event, EventCtrlRequest::Register);
    assert_eq!(refused.unwrap_err().code, ErrorCode::ResourceBusy);
    assert_eq!(manager.owner(&event), Some(first));

    let given_up = manager.evctrl(first, Ok(capabilities), event, EventCtrlRequest::Unregister);
    assert_eq!(given_up.unwrap(), None);
    assert_eq!(manager.owner(&event), None);

    let retried = manager.evctrl(second, Ok(capabilities), event, EventCtrlRequest::Register);
    assert!(retried.unwrap().is_some());
    assert_eq!(manager.owner(&event), Some(second));
}

#[test]
fn registration_by_the_owner_itself_is_refused_as_busy() {
    let mut manager = manager(true);
    let capabilities = holding(Capability::ProcessManagement);
    let owner = ProcessIdentifier(5);
    let event = Event::Scheduling(SchedulingEvent::ProcessTermination);
    manager.evctrl(owner, Ok(capabilities), event, EventCtrlRequest::Register).unwrap();
    let again = manager.evctrl(owner, Ok(capabilities), event, EventCtrlRequest::Register);
    assert_eq!(again.unwrap_err().code, ErrorCode::ResourceBusy);
}

#[test]
fn two_processes_compete_for_interrupt_one() {
    let mut manager = manager(true);
    let capabilities = holding(Capability::InterruptControl);
    let a = ProcessIdentifier(20);
    let b = ProcessIdentifier(21);
    let event = Event::Interrupt(InterruptEvent(1));

    let handle = manager
        .evctrl(a, Ok(capabilities), event, EventCtrlRequest::Register)
        .unwrap()
        .unwrap();
    assert_eq!(*handle.event(), event);
    assert_eq!(handle.owner(), a);
    let busy = manager.evctrl(b, Ok(capabilities), event, EventCtrlRequest::Register);
    assert_eq!(busy.unwrap_err().code, ErrorCode::ResourceBusy);

    manager.release(handle).unwrap();
    assert_eq!(manager.owner(&event), None);
    let retried = manager.evctrl(b, Ok(capabilities), event, EventCtrlRequest::Register);
    assert!(retried.unwrap().is_some());
    assert_eq!(manager.owner(&event), Some(b));
}

#[test]
fn registration_without_interrupt_control_is_denied() {
    let mut manager = manager(true);
    let mut capabilities = Capabilities::default();
    capabilities.set(Capability::ExceptionControl);
    capabilities.set(Capability::ProcessManagement);
    capabilities.set(Capability::IoManagement);
    capabilities.set(Capability::MemoryManagement);
    let event = Event::Interrupt(InterruptEvent(7));
    let denied =
        manager.evctrl(ProcessIdentifier(3), Ok(capabilities), event, EventCtrlRequest::Register);
    assert_eq!(denied.unwrap_err().code, ErrorCode::PermissionDenied);
    assert_eq!(manager.owner(&event), None);
}

#[test]
fn each_class_asks_for_its_own_capability() {
    let pid = ProcessIdentifier(3);
    let cases = [
        (Event::Interrupt(InterruptEvent(0)), Capability::InterruptControl),
        (Event::Exception(ExceptionEvent(0)), Capability::ExceptionControl),
        (Event::Scheduling(SchedulingEvent::ProcessTermination), Capability::ProcessManagement),
    ];
    let all = [
        Capability::IoManagement,
        Capability::InterruptControl,
        Capability::ExceptionControl,
        Capability::MemoryManagement,
        Capability::ProcessManagement,
    ];
    for (event, needed) in cases {
        for held in all {
            let mut manager = manager(true);
            let result =
                manager.evctrl(pid, Ok(holding(held)), event, EventCtrlRequest::Register);
            if held == needed {
                assert!(result.unwrap().is_some());
                assert_eq!(manager.owner(&event), Some(pid));
            } else {
                assert_eq!(result.unwrap_err().code, ErrorCode::PermissionDenied);
                assert_eq!(manager.owner(&event), None);
            }
        }
    }
}

#[test]
fn interrupts_are_not_supported_without_a_controller() {
    let mut manager = manager(false);
    let capabilities = holding(Capability::InterruptControl);
    let event = Event::Interrupt(InterruptEvent(2));
    let pid = ProcessIdentifier(4);
    let register = manager.evctrl(pid, Ok(capabilities), event, EventCtrlRequest::Register);
    assert_eq!(register.unwrap_err().code, ErrorCode::OperationNotSupported);
    let unregister = manager.evctrl(pid, Ok(capabilities), event, EventCtrlRequest::Unregister);
    assert_eq!(unregister.unwrap_err().code, ErrorCode::OperationNotSupported);
    let none = Capabilities::default();
    let precedence = manager.evctrl(pid, Ok(none), event, EventCtrlRequest::Register);
    assert_eq!(precedence.unwrap_err().code, ErrorCode::OperationNotSupported);
}

#[test]
fn exceptions_can_be_registered_without_a_controller() {
    let mut manager = manager(false);
    let capabilities = holding(Capability::ExceptionControl);
    let event = Event::Exception(ExceptionEvent(3));
    let handle =
        manager.evctrl(ProcessIdentifier(4), Ok(capabilities), event, EventCtrlRequest::Register);
    assert!(handle.unwrap().is_some());
}

#[test]
fn unregistration_by_another_process_is_denied() {
    let mut manager = manager(true);
    let capabilities = holding(Capability::InterruptControl);
    let owner = ProcessIdentifier(30);
    let other = ProcessIdentifier(31);
    let event = Event::Interrupt(InterruptEvent(9));
    manager.evctrl(owner, Ok(capabilities), event, EventCtrlRequest::Register).unwrap();
    let denied = manager.evctrl(other, Ok(capabilities), event, EventCtrlRequest::Unregister);
    assert_eq!(denied.unwrap_err().code, ErrorCode::PermissionDenied);
    assert_eq!(manager.owner(&event), Some(owner));
}

#[test]
fn unregistration_of_a_free_event_is_denied() {
    let mut manager = manager(true);
    let capabilities = holding(Capability::InterruptControl);
    let event = Event::Interrupt(InterruptEvent(9));
    let denied =
        manager.evctrl(ProcessIdentifier(1), Ok(capabilities), event, EventCtrlRequest::Unregister);
    assert_eq!(denied.unwrap_err().code, ErrorCode::PermissionDenied);
}

#[test]
fn unregistration_needs_no_capability() {
    let mut manager = manager(true);
    let owner = ProcessIdentifier(30);
    let event = Event::Exception(ExceptionEvent(1));
    manager
        .evctrl(owner, Ok(holding(Capability::ExceptionControl)), event, EventCtrlRequest::Register)
        .unwrap();
    let given_up =
        manager.evctrl(owner, Ok(Capabilities::default()), event, EventCtrlRequest::Unregister);
    assert_eq!(given_up.unwrap(), None);
    assert_eq!(manager.owner(&event), None);
}

#[test]
fn events_beyond_the_word_width_are_invalid() {
    let mut manager = manager(true);
    let mut capabilities = Capabilities::default();
    capabilities.set(Capability::InterruptControl);
    capabilities.set(Capability::ExceptionControl);
    let width = usize::BITS as u8;
    for event in [
        Event::Interrupt(InterruptEvent(width)),
        Event::Exception(ExceptionEvent(width)),
        Event::Interrupt(InterruptEvent(255)),
    ] {
        for request in [EventCtrlRequest::Register, EventCtrlRequest::Unregister] {
            let result = manager.evctrl(ProcessIdentifier(8), Ok(capabilities), event, request);
            assert_eq!(result.unwrap_err().code, ErrorCode::InvalidArgument);
        }
        assert_eq!(manager.owner(&event), None);
    }
    let last = Event::Interrupt(InterruptEvent(width - 1));
    assert!(manager
        .evctrl(ProcessIdentifier(8), Ok(capabilities), last, EventCtrlRequest::Register)
        .unwrap()
        .is_some());
}

#[test]
fn released_handle_frees_the_event_for_anyone_eligible() {
    let mut manager = manager(true);
    let capabilities = holding(Capability::ExceptionControl);
    let event = Event::Exception(ExceptionEvent(6));
    let handle = manager
        .evctrl(ProcessIdentifier(40), Ok(capabilities), event, EventCtrlRequest::Register)
        .unwrap()
        .unwrap();
    assert_eq!(manager.release(handle).map_err(|error| error.code), Ok(()));
    assert_eq!(manager.owner(&event), None);
    for next in [ProcessIdentifier(40), ProcessIdentifier(41)] {
        let handle = manager
            .evctrl(next, Ok(capabilities), event, EventCtrlRequest::Register)
            .unwrap()
            .unwrap();
        assert_eq!(manager.owner(&event), Some(next));
        manager.release(handle).unwrap();
    }
}

#[test]
fn stale_handle_does_not_take_the_event_from_its_new_owner() {
    let mut manager = manager(true);
    let capabilities = holding(Capability::ExceptionControl);
    let event = Event::Exception(ExceptionEvent(6));
    let first = ProcessIdentifier(40);
    let second = ProcessIdentifier(41);
    let stale = manager
        .evctrl(first, Ok(capabilities), event, EventCtrlRequest::Register)
        .unwrap()
        .unwrap();
    manager.evctrl(first, Ok(capabilities), event, EventCtrlRequest::Unregister).unwrap();
    manager.evctrl(second, Ok(capabilities), event, EventCtrlRequest::Register).unwrap();
    let result = manager.release(stale);
    assert_eq!(result.unwrap_err().code, ErrorCode::PermissionDenied);
    assert_eq!(manager.owner(&event), Some(second));
}

#[test]
fn nothing_works_before_the_manager_is_set_up() {
    let mut manager = EventManager::new();
    assert!(!manager.is_initialized());
    let capabilities = holding(Capability::ExceptionControl);
    let event = Event::Exception(ExceptionEvent(6));
    let result =
        manager.evctrl(ProcessIdentifier(1), Ok(capabilities), event, EventCtrlRequest::Register);
    assert_eq!(result.unwrap_err().code, ErrorCode::TryAgain);
    assert_eq!(manager.owner(&event), None);
    assert_eq!(manager.nevents(), None);
    assert!(manager.pending(&event).is_empty());
}

#[test]
fn the_manager_is_set_up_once() {
    let mut manager = EventManager::new();
    let routed = init(&mut manager, Some(&[0, 1, 2, 3][..]));
    assert_eq!(routed.map_err(|error| error.code), Ok(vec![1, 2, 3]));
    assert!(manager.is_initialized());
    assert_eq!(manager.nevents(), Some(0));
    let capabilities = holding(Capability::InterruptControl);
    let event = Event::Interrupt(InterruptEvent(1));
    manager.evctrl(ProcessIdentifier(2), Ok(capabilities), event, EventCtrlRequest::Register).unwrap();
    let again = init(&mut manager, None);
    assert_eq!(again.unwrap_err().code, ErrorCode::ResourceBusy);
    let capable = manager.evctrl(
        ProcessIdentifier(3),
        Ok(capabilities),
        Event::Interrupt(InterruptEvent(2)),
        EventCtrlRequest::Register,
    );
    assert!(capable.unwrap().is_some());
    assert_eq!(manager.owner(&event), Some(ProcessIdentifier(2)));
}

#[test]
fn a_fresh_manager_owns_and_holds_nothing() {
    let manager = manager(true);
    for slot in 0..usize::BITS as u8 {
        assert_eq!(manager.owner(&Event::Interrupt(InterruptEvent(slot))), None);
        assert_eq!(manager.owner(&Event::Exception(ExceptionEvent(slot))), None);
        assert!(manager.pending(&Event::Interrupt(InterruptEvent(slot))).is_empty());
        assert!(manager.pending(&Event::Exception(ExceptionEvent(slot))).is_empty());
    }
    let kind = Event::Scheduling(SchedulingEvent::ProcessTermination);
    assert_eq!(manager.owner(&kind), None);
    assert!(manager.pending(&kind).is_empty());
    assert!(manager.has_room());
}

#[test]
fn every_line_but_the_timer_is_routed() {
    let lines: Vec<u8> = (0..16).collect();
    let mut manager = EventManager::new();
    let routed = init(&mut manager, Some(&lines)).unwrap();
    assert_eq!(routed, (1..16).collect::<Vec<u8>>());

    let mut manager = EventManager::new();
    assert_eq!(init(&mut manager, Some(&[5, 0, 3, 0, 5])).unwrap(), vec![5, 3, 5]);

    let mut manager = EventManager::new();
    assert_eq!(init(&mut manager, Some(&[])).unwrap(), Vec::<u8>::new());
    let capabilities = holding(Capability::InterruptControl);
    let handle = manager.evctrl(
        ProcessIdentifier(2),
        Ok(capabilities),
        Event::Interrupt(InterruptEvent(1)),
        EventCtrlRequest::Register,
    );
    assert!(handle.unwrap().is_some());

    let mut manager = EventManager::new();
    assert_eq!(init(&mut manager, None).unwrap(), Vec::<u8>::new());
}

#[test]
fn failed_capability_lookup_fails_a_registration() {
    let mut manager = manager(true);
    let lookup = kernel::error::Error::new(ErrorCode::NoSuchProcess, "no such process");
    let event = Event::Exception(ExceptionEvent(4));
    let result = manager.evctrl(ProcessIdentifier(9), Err(lookup), event, EventCtrlRequest::Register);
    assert_eq!(result, Err(lookup));
    assert_eq!(manager.owner(&event), None);
}

#[test]
fn failed_capability_lookup_does_not_matter_for_giving_up() {
    let mut manager = manager(true);
    let owner = ProcessIdentifier(9);
    let lookup = kernel::error::Error::new(ErrorCode::NoSuchProcess, "no such process");
    let event = Event::Exception(ExceptionEvent(4));
    manager
        .evctrl(owner, Ok(holding(Capability::ExceptionControl)), event, EventCtrlRequest::Register)
        .unwrap();
    assert_eq!(manager.evctrl(owner, Err(lookup), event, EventCtrlRequest::Unregister), Ok(None));
    assert_eq!(manager.owner(&event), None);
}

#[test]
fn missing_controller_and_missing_slot_come_before_a_failed_lookup() {
    let lookup = kernel::error::Error::new(ErrorCode::NoSuchProcess, "no such process");
    let mut without = manager(false);
    let line = Event::Interrupt(InterruptEvent(1));
    let result = without.evctrl(ProcessIdentifier(9), Err(lookup), line, EventCtrlRequest::Register);
    assert_eq!(result.unwrap_err().code, ErrorCode::OperationNotSupported);
    let mut with = manager(true);
    let beyond = Event::Interrupt(InterruptEvent(usize::BITS as u8));
    let result = with.evctrl(ProcessIdentifier(9), Err(lookup), beyond, EventCtrlRequest::Register);
    assert_eq!(result.unwrap_err().code, ErrorCode::InvalidArgument);
}

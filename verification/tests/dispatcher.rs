use kernel::error::{Error, ErrorCode};
use kernel::event::manager::{init, EventManager, WaitStep};
use kernel::event::{
    Event, EventCtrlRequest, EventDescriptor, ProcessTerminationInfo, SchedulingEvent,
};
use kernel::ipc::mailbox::Mailbox;
use kernel::ipc::MessageType;
use kernel::kcall::handler::{
    kcall_handler, route, status_of, step_counts_an_event, DispatcherAction, DispatcherEvent,
    DispatcherState,
};
use kernel::kcall::number::KcallNumber;
use kernel::kcall::KcallArgs;
use kernel::pm::process::capability::Capabilities;
use kernel::pm::{Capability, ProcessIdentifier};

const OWNER: ProcessIdentifier = ProcessIdentifier(50);
const TERMINATION: Event = Event::Scheduling(SchedulingEvent::ProcessTermination);

fn manager() -> EventManager {
    let mut manager = EventManager::new();
    init(&mut manager, Some(&[0, 1, 2, 3][..])).unwrap();
    manager
}

fn manager_with_owner() -> EventManager {
    let mut manager = manager();
    let mut capabilities = Capabilities::default();
    capabilities.set(Capability::ProcessManagement);
    manager.evctrl(OWNER, Ok(capabilities), TERMINATION, EventCtrlRequest::Register).unwrap();
    manager
}

fn request(number: u32) -> KcallArgs {
    KcallArgs { number, arg0: 1, arg1: 2, arg2: 3, arg3: 4, arg4: 5 }
}

fn failure(code: ErrorCode) -> Error {
    Error::new(code, "scoreboard")
}

#[test]
fn known_kernel_calls_go_to_their_handlers() {
    let served = [
        (0, KcallNumber::Debug),
        (3, KcallNumber::GetUid),
        (4, KcallNumber::GetGid),
        (5, KcallNumber::GetEuid),
        (6, KcallNumber::GetEgid),
        (7, KcallNumber::SetUid),
        (8, KcallNumber::SetGid),
        (9, KcallNumber::SetEuid),
        (10, KcallNumber::SetEgid),
        (11, KcallNumber::CapCtl),
        (12, KcallNumber::Terminate),
        (13, KcallNumber::EventCtrl),
        (14, KcallNumber::MemoryMap),
        (15, KcallNumber::MemoryUnmap),
        (16, KcallNumber::MemoryCtrl),
        (17, KcallNumber::MemoryCopy),
        (18, KcallNumber::Send),
        (19, KcallNumber::Recv),
        (20, KcallNumber::AllocMmio),
        (21, KcallNumber::FreeMmio),
        (22, KcallNumber::AllocPmio),
        (23, KcallNumber::FreePmio),
        (24, KcallNumber::ReadPmio),
        (25, KcallNumber::WritePmio),
    ];
    for (number, kcall) in served {
        assert_eq!(KcallNumber::from_number(number), kcall);
        assert_eq!(kcall.number(), number);
        assert!(kcall.is_dispatched());
        let args = request(number);
        assert_eq!(route(args), DispatcherAction::Invoke { number: kcall, args });
    }
}

#[test]
fn fast_path_and_unknown_kernel_calls_are_invalid() {
    let invalid = ErrorCode::InvalidSysCall.into_errno();
    assert_eq!(invalid, -38);
    for number in [1, 2, 26, 27, 1000, u32::MAX] {
        assert_eq!(route(request(number)), DispatcherAction::Reply { status: invalid });
    }
    assert_eq!(KcallNumber::from_number(1), KcallNumber::GetPid);
    assert_eq!(KcallNumber::from_number(2), KcallNumber::GetTid);
    assert_eq!(KcallNumber::from_number(26), KcallNumber::Invalid);
    assert!(!KcallNumber::GetPid.is_dispatched());
    assert!(!KcallNumber::GetTid.is_dispatched());
    assert!(!KcallNumber::Invalid.is_dispatched());
    assert_eq!(KcallNumber::Invalid.number(), u32::MAX);
}

#[test]
fn a_request_is_served_and_the_harvest_follows() {
    let mut manager = manager();
    let args = request(18);
    let step =
        kcall_handler(DispatcherState::Serving, DispatcherEvent::Request(Ok(args)), &mut manager);
    assert_eq!(
        step,
        (DispatcherState::Reaping, DispatcherAction::Invoke { number: KcallNumber::Send, args })
    );
}

#[test]
fn an_interrupted_scoreboard_starts_the_shutdown() {
    let mut manager = manager();
    let event = DispatcherEvent::Request(Err(failure(ErrorCode::Interrupted)));
    let step = kcall_handler(DispatcherState::Serving, event, &mut manager);
    assert_eq!(step, (DispatcherState::Draining, DispatcherAction::Nothing));
}

#[test]
fn a_scoreboard_that_would_block_yields() {
    let mut manager = manager();
    let event = DispatcherEvent::Request(Err(failure(ErrorCode::OperationWouldBlock)));
    let step = kcall_handler(DispatcherState::Serving, event, &mut manager);
    assert_eq!(step, (DispatcherState::Reaping, DispatcherAction::Yield));
}

#[test]
fn other_scoreboard_failures_are_reported() {
    for code in [ErrorCode::TryAgain, ErrorCode::InvalidArgument, ErrorCode::OutOfMemory] {
        let mut manager = manager();
        let event = DispatcherEvent::Request(Err(failure(code)));
        let step = kcall_handler(DispatcherState::Serving, event, &mut manager);
        assert_eq!(step, (DispatcherState::Reaping, DispatcherAction::Report { code }));
    }
}

#[test]
fn harvest_without_a_zombie_goes_back_to_serving() {
    let mut manager = manager();
    let step =
        kcall_handler(DispatcherState::Reaping, DispatcherEvent::Zombie(Ok(None)), &mut manager);
    assert_eq!(step, (DispatcherState::Serving, DispatcherAction::Nothing));
    assert_eq!(manager.nevents(), Some(0));
}

#[test]
fn zombie_becomes_a_scheduling_event() {
    let mut manager = manager_with_owner();
    let zombie = ProcessIdentifier(77);
    let event = DispatcherEvent::Zombie(Ok(Some((zombie, -9))));
    let step = kcall_handler(DispatcherState::Reaping, event, &mut manager);
    assert_eq!(step, (DispatcherState::Serving, DispatcherAction::Wake { pid: OWNER }));
    assert_eq!(manager.pending(&TERMINATION), vec![EventDescriptor::new(1, TERMINATION)]);

    let mut mailbox = Mailbox::default();
    match manager.wait(OWNER, None, Ok(&mut mailbox)).unwrap() {
        WaitStep::Deliver(message) => {
            assert_eq!(message.message_type, MessageType::SchedulingEvent);
            assert_eq!(
                ProcessTerminationInfo::from_payload(&message.payload),
                ProcessTerminationInfo::new(zombie, -9)
            );
        },
        WaitStep::Suspend(_) => panic!("the termination was not delivered"),
    }
}

#[test]
fn zombie_without_an_owner_is_enqueued_and_reported() {
    let mut manager = manager();
    let event = DispatcherEvent::Zombie(Ok(Some((ProcessIdentifier(77), 0))));
    let step = kcall_handler(DispatcherState::Reaping, event, &mut manager);
    assert_eq!(
        step,
        (DispatcherState::Serving, DispatcherAction::Report { code: ErrorCode::NoSuchProcess })
    );
    assert_eq!(manager.pending(&TERMINATION).len(), 1);
}

#[test]
fn zombie_before_setup_is_reported() {
    let mut manager = EventManager::new();
    let event = DispatcherEvent::Zombie(Ok(Some((ProcessIdentifier(77), 0))));
    let step = kcall_handler(DispatcherState::Reaping, event, &mut manager);
    assert_eq!(
        step,
        (DispatcherState::Serving, DispatcherAction::Report { code: ErrorCode::TryAgain })
    );
}

#[test]
fn failed_harvest_is_reported() {
    let mut manager = manager_with_owner();
    let event = DispatcherEvent::Zombie(Err(failure(ErrorCode::NoSuchEntry)));
    let step = kcall_handler(DispatcherState::Reaping, event, &mut manager);
    assert_eq!(
        step,
        (DispatcherState::Serving, DispatcherAction::Report { code: ErrorCode::NoSuchEntry })
    );
    assert!(manager.pending(&TERMINATION).is_empty());
}

#[test]
fn process_daemon_exits_and_the_dispatcher_shuts_down() {
    let mut manager = manager_with_owner();
    let mut state = DispatcherState::Reaping;
    let mut actions = Vec::new();
    let harvests = [
        Ok(Some((ProcessIdentifier::procd(), 0))),
        Ok(Some((ProcessIdentifier(60), 1))),
        Ok(Some((ProcessIdentifier(61), 2))),
        Ok(None),
    ];
    for harvest in harvests {
        let (next, action) = kcall_handler(state, DispatcherEvent::Zombie(harvest), &mut manager);
        actions.push(action);
        state = next;
    }
    assert_eq!(state, DispatcherState::Stopped);
    assert_eq!(
        actions,
        vec![
            DispatcherAction::Nothing,
            DispatcherAction::Reaped { pid: ProcessIdentifier(60), status: 1 },
            DispatcherAction::Reaped { pid: ProcessIdentifier(61), status: 2 },
            DispatcherAction::Nothing,
        ]
    );
    assert!(manager.pending(&TERMINATION).is_empty());
    assert_eq!(manager.nevents(), Some(0));
}

#[test]
fn draining_stops_on_a_failed_harvest() {
    let mut manager = manager();
    let event = DispatcherEvent::Zombie(Err(failure(ErrorCode::TryAgain)));
    let step = kcall_handler(DispatcherState::Draining, event, &mut manager);
    assert_eq!(step, (DispatcherState::Stopped, DispatcherAction::Nothing));
}

#[test]
fn interrupted_dispatcher_drains_and_stops() {
    let mut manager = manager_with_owner();
    let interrupted = DispatcherEvent::Request(Err(failure(ErrorCode::Interrupted)));
    let (state, _) = kcall_handler(DispatcherState::Serving, interrupted, &mut manager);
    let zombie = DispatcherEvent::Zombie(Ok(Some((ProcessIdentifier(9), 4))));
    let (state, action) = kcall_handler(state, zombie, &mut manager);
    assert_eq!(state, DispatcherState::Draining);
    assert_eq!(action, DispatcherAction::Reaped { pid: ProcessIdentifier(9), status: 4 });
    let (state, action) = kcall_handler(state, DispatcherEvent::Zombie(Ok(None)), &mut manager);
    assert_eq!((state, action), (DispatcherState::Stopped, DispatcherAction::Nothing));
    assert!(manager.pending(&TERMINATION).is_empty());
}

#[test]
fn events_that_were_not_asked_for_are_ignored() {
    let mut manager = manager_with_owner();
    let zombie = DispatcherEvent::Zombie(Ok(Some((ProcessIdentifier(9), 4))));
    let request = DispatcherEvent::Request(Ok(request(0)));
    assert_eq!(
        kcall_handler(DispatcherState::Serving, zombie, &mut manager),
        (DispatcherState::Serving, DispatcherAction::Nothing)
    );
    assert_eq!(
        kcall_handler(DispatcherState::Reaping, request, &mut manager),
        (DispatcherState::Reaping, DispatcherAction::Nothing)
    );
    assert_eq!(
        kcall_handler(DispatcherState::Draining, request, &mut manager),
        (DispatcherState::Draining, DispatcherAction::Nothing)
    );
    for event in [zombie, request] {
        assert_eq!(
            kcall_handler(DispatcherState::Stopped, event, &mut manager),
            (DispatcherState::Stopped, DispatcherAction::Nothing)
        );
    }
    assert_eq!(manager.nevents(), Some(0));
}

#[test]
fn results_become_statuses() {
    assert_eq!(status_of(&Ok::<u32, Error>(7)), 0);
    assert_eq!(status_of(&Err::<u32, Error>(failure(ErrorCode::PermissionDenied))), -13);
    assert_eq!(status_of(&Err::<(), Error>(failure(ErrorCode::ResourceBusy))), -16);
}

#[test]
fn only_the_reaping_of_another_process_counts_an_event() {
    let zombie = DispatcherEvent::Zombie(Ok(Some((ProcessIdentifier(9), 4))));
    let daemon = DispatcherEvent::Zombie(Ok(Some((ProcessIdentifier::procd(), 0))));
    let nothing = DispatcherEvent::Zombie(Ok(None));
    let failed = DispatcherEvent::Zombie(Err(failure(ErrorCode::TryAgain)));
    let request = DispatcherEvent::Request(Ok(request(0)));
    assert!(step_counts_an_event(DispatcherState::Reaping, &zombie));
    for event in [daemon, nothing, failed, request] {
        assert!(!step_counts_an_event(DispatcherState::Reaping, &event));
    }
    for state in [DispatcherState::Serving, DispatcherState::Draining, DispatcherState::Stopped] {
        assert!(!step_counts_an_event(state, &zombie));
    }
}

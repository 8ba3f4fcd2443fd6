//! The decisions of the kernel-call dispatcher.
//!
//! The dispatcher is one cooperative loop. In each round it reads a request
//! from the scoreboard and serves it, then harvests one terminated process.
//! Once it has been interrupted, or the process daemon has terminated, it
//! harvests what is left and stops. What the loop does next, and what it has
//! done to the event manager, is decided here; whoever runs the loop reads
//! the scoreboard, runs the handlers and harvests.

use crate::error::{Error, ErrorCode};
use crate::event::manager::EventManager;
use crate::event::model::ManagerView;
use crate::event::{
    Event, EventDescriptor, PendingEvent, ProcessTerminationInfo, SchedulingEvent,
};
use crate::kcall::number::KcallNumber;
use crate::kcall::KcallArgs;
use crate::pm::ProcessIdentifier;
use vstd::prelude::*;

verus! {

/// Where the dispatcher stands in its loop.
#[derive(Clone, Copy, Debug, PartialEq, Eq, Structural)]
pub enum DispatcherState {
    /// About to read a request from the scoreboard.
    Serving,
    /// About to harvest a terminated process, after a request.
    Reaping,
    /// Shutting down: about to harvest what is left.
    Draining,
    /// Done.
    Stopped,
}

/// What the dispatcher is told by whoever runs its loop.
#[derive(Clone, Copy, Debug, PartialEq, Eq)]
pub enum DispatcherEvent {
    /// What the scoreboard yielded: a request, or the reason why there is
    /// none.
    Request(Result<KcallArgs, Error>),
    /// What the harvest yielded: a terminated process and its exit status,
    /// nothing, or the reason why the harvest failed.
    Zombie(Result<Option<(ProcessIdentifier, i32)>, Error>),
}

/// What whoever runs the loop does before the next round.
#[derive(Clone, Copy, Debug, PartialEq, Eq, Structural)]
pub enum DispatcherAction {
    /// Nothing.
    Nothing,
    /// Run the handler of the kernel call on the request, and hand what it
    /// returns back through the scoreboard.
    Invoke {
        /// The kernel call.
        number: KcallNumber,
        /// The request.
        args: KcallArgs,
    },
    /// Hand the status back through the scoreboard. No handler runs.
    Reply {
        /// The status.
        status: i32,
    },
    /// Let another process run.
    Yield,
    /// Wake the process: the termination was enqueued for it.
    Wake {
        /// The owner of the notification.
        pid: ProcessIdentifier,
    },
    /// Put a failure on the log and go on.
    Report {
        /// The code of the failure.
        code: ErrorCode,
    },
    /// Put a process that was harvested during shutdown on the log.
    Reaped {
        /// The process.
        pid: ProcessIdentifier,
        /// Its exit status.
        status: i32,
    },
}

/// What one step of the dispatcher comes to: where it stands next, what is
/// to be done, and the event manager after the step.
pub struct DispatcherStep {
    /// Where the dispatcher stands next.
    pub state: DispatcherState,
    /// What is to be done before the next round.
    pub action: DispatcherAction,
    /// The event manager after the step.
    pub manager: Option<ManagerView>,
}

/// How a request is served: the two calls that the trap entry answers by
/// itself and unknown calls are refused as invalid kernel calls, and every
/// other call goes to its handler.
pub open spec fn spec_route(args: KcallArgs) -> DispatcherAction {
    let number = KcallNumber::spec_from_number(args.number);
    if number.spec_is_dispatched() {
        DispatcherAction::Invoke { number, args }
    } else {
        DispatcherAction::Reply { status: -ErrorCode::InvalidSysCall.spec_errno() as i32 }
    }
}

/// What the dispatcher makes of what the scoreboard yielded: a request is
/// served and the harvest follows; an interruption starts the shutdown; a
/// scoreboard that would block lets another process run; any other failure
/// is put on the log.
pub open spec fn spec_serve(request: Result<KcallArgs, Error>) -> (
    DispatcherState,
    DispatcherAction,
) {
    match request {
        Ok(args) => (DispatcherState::Reaping, spec_route(args)),
        Err(error) => if error.code == ErrorCode::Interrupted {
            (DispatcherState::Draining, DispatcherAction::Nothing)
        } else if error.code == ErrorCode::OperationWouldBlock {
            (DispatcherState::Reaping, DispatcherAction::Yield)
        } else {
            (DispatcherState::Reaping, DispatcherAction::Report { code: error.code })
        },
    }
}

/// What the dispatcher makes of what the harvest yielded after a request:
/// the termination of the process daemon starts the shutdown, and produces
/// no event; the termination of any other process is handed to the event
/// manager, whose owner of the notification is woken; a failure is put on
/// the log.
pub open spec fn spec_reap(
    zombie: Result<Option<(ProcessIdentifier, i32)>, Error>,
    manager: Option<ManagerView>,
) -> DispatcherStep {
    match zombie {
        Ok(None) => DispatcherStep {
            state: DispatcherState::Serving,
            action: DispatcherAction::Nothing,
            manager,
        },
        Ok(Some((pid, status))) => if pid == ProcessIdentifier::spec_procd() {
            DispatcherStep {
                state: DispatcherState::Draining,
                action: DispatcherAction::Nothing,
                manager,
            }
        } else {
            match manager {
                None => DispatcherStep {
                    state: DispatcherState::Serving,
                    action: DispatcherAction::Report { code: ErrorCode::TryAgain },
                    manager,
                },
                Some(state) => {
                    let notified = state.notify_process_termination(
                        ProcessTerminationInfo { pid, status },
                    );
                    DispatcherStep {
                        state: DispatcherState::Serving,
                        action: match notified.0 {
                            Ok(owner) => DispatcherAction::Wake { pid: owner },
                            Err(code) => DispatcherAction::Report { code },
                        },
                        manager: Some(notified.1),
                    }
                },
            }
        },
        Err(error) => DispatcherStep {
            state: DispatcherState::Serving,
            action: DispatcherAction::Report { code: error.code },
            manager,
        },
    }
}

/// What the dispatcher makes of what the harvest yielded during shutdown:
/// a terminated process is put on the log, and anything else ends the loop.
pub open spec fn spec_drain(zombie: Result<Option<(ProcessIdentifier, i32)>, Error>) -> (
    DispatcherState,
    DispatcherAction,
) {
    match zombie {
        Ok(Some((pid, status))) => (
            DispatcherState::Draining,
            DispatcherAction::Reaped { pid, status },
        ),
        _ => (DispatcherState::Stopped, DispatcherAction::Nothing),
    }
}

/// One step of the dispatcher. An event that the state did not ask for is
/// ignored.
pub open spec fn spec_kcall_handler(
    state: DispatcherState,
    event: DispatcherEvent,
    manager: Option<ManagerView>,
) -> DispatcherStep {
    match (state, event) {
        (DispatcherState::Serving, DispatcherEvent::Request(request)) => DispatcherStep {
            state: spec_serve(request).0,
            action: spec_serve(request).1,
            manager,
        },
        (DispatcherState::Reaping, DispatcherEvent::Zombie(zombie)) => spec_reap(zombie, manager),
        (DispatcherState::Draining, DispatcherEvent::Zombie(zombie)) => DispatcherStep {
            state: spec_drain(zombie).0,
            action: spec_drain(zombie).1,
            manager,
        },
        _ => DispatcherStep { state, action: DispatcherAction::Nothing, manager },
    }
}

/// The status that reports how a kernel call ended to user space: zero
/// where it succeeded, the negated number of the error code where it failed.
pub open spec fn spec_status_of<T>(result: Result<T, Error>) -> int {
    match result {
        Ok(_) => 0,
        Err(error) => -error.code.spec_errno(),
    }
}

/// Returns the status that reports how a kernel call ended to user space.
pub fn status_of<T>(result: &Result<T, Error>) -> (status: i32)
    ensures
        status == spec_status_of(*result),
        status == 0 <==> result is Ok,
{
    match result {
        Ok(_) => 0,
        Err(error) => error.code.into_errno(),
    }
}

/// The step hands a termination to the event manager, which counts it: the
/// dispatcher reaps, and the harvest yielded a process that is not the
/// process daemon.
pub open spec fn counts_an_event(state: DispatcherState, event: DispatcherEvent) -> bool {
    &&& state == DispatcherState::Reaping
    &&& event matches DispatcherEvent::Zombie(Ok(Some(zombie)))
    &&& zombie.0 != ProcessIdentifier::spec_procd()
}

/// Says whether the step hands a termination to the event manager, which
/// counts it. Before such a step the count must have room for one more.
pub fn step_counts_an_event(state: DispatcherState, event: &DispatcherEvent) -> (counts: bool)
    ensures
        counts == counts_an_event(state, *event),
{
    match state {
        DispatcherState::Reaping => match event {
            DispatcherEvent::Zombie(Ok(Some((pid, _)))) => pid.0 != ProcessIdentifier::procd().0,
            _ => false,
        },
        _ => false,
    }
}

/// Decides how a request is served.
pub fn route(args: KcallArgs) -> (action: DispatcherAction)
    ensures
        action == spec_route(args),
{
    let number = KcallNumber::from_number(args.number);
    if number.is_dispatched() {
        DispatcherAction::Invoke { number, args }
    } else {
        DispatcherAction::Reply { status: ErrorCode::InvalidSysCall.into_errno() }
    }
}

/// Takes one step of the dispatcher: given where it stands and what it was
/// told, says where it stands next and what is to be done, and hands the
/// termination of a process to the event manager.
pub fn kcall_handler(
    state: DispatcherState,
    event: DispatcherEvent,
    manager: &mut EventManager,
) -> (next: (DispatcherState, DispatcherAction))
    requires
        old(manager).wf(),
        counts_an_event(state, event) ==> old(manager).has_room(),
    ensures
        final(manager).wf(),
        next.0 == spec_kcall_handler(state, event, old(manager)@).state,
        next.1 == spec_kcall_handler(state, event, old(manager)@).action,
        final(manager)@ == spec_kcall_handler(state, event, old(manager)@).manager,
{
    match state {
        DispatcherState::Serving => match event {
            DispatcherEvent::Request(request) => match request {
                Ok(args) => (DispatcherState::Reaping, route(args)),
                Err(error) => match error.code {
                    ErrorCode::Interrupted => (DispatcherState::Draining, DispatcherAction::Nothing),
                    ErrorCode::OperationWouldBlock => (
                        DispatcherState::Reaping,
                        DispatcherAction::Yield,
                    ),
                    _ => (DispatcherState::Reaping, DispatcherAction::Report { code: error.code }),
                },
            },
            DispatcherEvent::Zombie(_) => (state, DispatcherAction::Nothing),
        },
        DispatcherState::Reaping => match event {
            DispatcherEvent::Zombie(zombie) => match zombie {
                Ok(None) => (DispatcherState::Serving, DispatcherAction::Nothing),
                Ok(Some((pid, status))) => {
                    if pid == ProcessIdentifier::procd() {
                        (DispatcherState::Draining, DispatcherAction::Nothing)
                    } else {
                        match manager.notify_process_termination(
                            ProcessTerminationInfo::new(pid, status),
                        ) {
                            Ok(owner) => (
                                DispatcherState::Serving,
                                DispatcherAction::Wake { pid: owner },
                            ),
                            Err(error) => (
                                DispatcherState::Serving,
                                DispatcherAction::Report { code: error.code },
                            ),
                        }
                    }
                },
                Err(error) => (
                    DispatcherState::Serving,
                    DispatcherAction::Report { code: error.code },
                ),
            },
            DispatcherEvent::Request(_) => (state, DispatcherAction::Nothing),
        },
        DispatcherState::Draining => match event {
            DispatcherEvent::Zombie(zombie) => match zombie {
                Ok(Some((pid, status))) => (
                    DispatcherState::Draining,
                    DispatcherAction::Reaped { pid, status },
                ),
                _ => (DispatcherState::Stopped, DispatcherAction::Nothing),
            },
            DispatcherEvent::Request(_) => (state, DispatcherAction::Nothing),
        },
        DispatcherState::Stopped => (state, DispatcherAction::Nothing),
    }
}

/// A terminated process becomes a scheduling event, unless it is the process
/// daemon.
///
/// While the dispatcher reaps, the termination of any process but the
/// process daemon is counted and enqueued with its identifier and exit
/// status, and the dispatcher goes on serving. The termination of the
/// process daemon changes nothing in the event manager and starts the
/// shutdown, in which every further harvest is only put on the log, until
/// nothing is left and the dispatcher stops.
pub proof fn law_terminations_become_events(
    manager: ManagerView,
    pid: ProcessIdentifier,
    status: i32,
    left: Result<Option<(ProcessIdentifier, i32)>, Error>,
)
    requires
        manager.wf(),
        manager.has_room(),
    ensures
        ({
            let step = spec_kcall_handler(
                DispatcherState::Reaping,
                DispatcherEvent::Zombie(Ok(Some((pid, status)))),
                Some(manager),
            );
            let kind = Event::Scheduling(
                SchedulingEvent::ProcessTermination,
            );
            if pid == ProcessIdentifier::spec_procd() {
                &&& step.state == DispatcherState::Draining
                &&& step.action == DispatcherAction::Nothing
                &&& step.manager == Some(manager)
            } else {
                &&& step.state == DispatcherState::Serving
                &&& step.manager matches Some(after) && after.scheduling.pending[0]
                    == manager.scheduling.pending[0].push(
                    PendingEvent {
                        descriptor: EventDescriptor {
                            sequence: (manager.nevents + 1) as u64,
                            event: kind,
                        },
                        payload: ProcessTerminationInfo { pid, status },
                    },
                )
            }
        }),
        ({
            let step = spec_kcall_handler(
                DispatcherState::Draining,
                DispatcherEvent::Zombie(left),
                Some(manager),
            );
            &&& step.manager == Some(manager)
            &&& left matches Ok(Some(zombie)) ==> step.state == DispatcherState::Draining
                && step.action == (DispatcherAction::Reaped { pid: zombie.0, status: zombie.1 })
            &&& !(left matches Ok(Some(_))) ==> step.state == DispatcherState::Stopped
        }),
{
}

} // verus!

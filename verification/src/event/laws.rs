//! What holds of the event manager in every state and for every caller.

use crate::error::ErrorCode;
use crate::event::mask::lowest_bit;
use crate::event::model::{
    capability_for, ExceptionAction, ManagerView, ResumeAction, WaitSetView,
};
use crate::scan::{
    lemma_first_from, lemma_first_from_agrees, lemma_first_from_is, lemma_first_from_none,
};
use crate::event::table::TableView;
use crate::event::{
    event_at, slots_of, Event, EventClass, EventCtrlRequest, EventDescriptor, EventInformation,
    ExceptionEvent, ExceptionEventInformation, ExceptionInformation, InterruptEvent, PendingEvent,
    ProcessTerminationInfo, SchedulingEvent,
};
use crate::ipc::{MessageType, MessageView};
use crate::pm::{Capability, ProcessIdentifier};
use vstd::prelude::*;

verus! {

/// An event has one owner at a time.
///
/// Once a process has registered an event, a registration by any process
/// that holds the capability fails because the event is busy, and changes
/// nothing. Once the owner has given the event up, the same registration
/// succeeds and makes the second process the owner.
pub proof fn law_ownership_is_exclusive(
    state: ManagerView,
    first: ProcessIdentifier,
    first_capabilities: Set<Capability>,
    second: ProcessIdentifier,
    second_capabilities: Set<Capability>,
    event: Event,
)
    requires
        state.wf(),
        state.evctrl(first, Ok(first_capabilities), event, EventCtrlRequest::Register).0 is Ok,
        second_capabilities.contains(capability_for(event.spec_class())),
    ensures
        ({
            let owned = state.evctrl(first, Ok(first_capabilities), event, EventCtrlRequest::Register).1;
            let refused = owned.evctrl(
                second,
                Ok(second_capabilities),
                event,
                EventCtrlRequest::Register,
            );
            let given_up = owned.evctrl(
                first,
                Ok(first_capabilities),
                event,
                EventCtrlRequest::Unregister,
            );
            let retried = given_up.1.evctrl(
                second,
                Ok(second_capabilities),
                event,
                EventCtrlRequest::Register,
            );
            &&& owned.owner(event) == Some(first)
            &&& refused == (Err::<(), ErrorCode>(ErrorCode::ResourceBusy), owned)
            &&& given_up.0 is Ok
            &&& given_up.1.owner(event) is None
            &&& retried.0 is Ok
            &&& retried.1.owner(event) == Some(second)
        }),
{
}

/// Without the capability of its class an event cannot be registered, and
/// the attempt changes nothing.
///
/// This is said of events that exist, and of interrupts only where an
/// interrupt controller is present: elsewhere the request fails earlier, for
/// another reason.
pub proof fn law_capability_gates_registration(
    state: ManagerView,
    pid: ProcessIdentifier,
    capabilities: Set<Capability>,
    event: Event,
)
    requires
        state.wf(),
        event.spec_is_valid(),
        event is Interrupt ==> state.interrupt_capable,
        !capabilities.contains(capability_for(event.spec_class())),
    ensures
        state.evctrl(pid, Ok(capabilities), event, EventCtrlRequest::Register) == (
            Err::<(), ErrorCode>(ErrorCode::PermissionDenied),
            state,
        ),
{
}

/// Giving an event up on behalf of its owner clears the slot, and whoever
/// holds the capability can register the event next.
pub proof fn law_release_frees_the_event(
    state: ManagerView,
    owner: ProcessIdentifier,
    next: ProcessIdentifier,
    next_capabilities: Set<Capability>,
    event: Event,
)
    requires
        state.wf(),
        event.spec_is_valid(),
        state.owner(event) == Some(owner),
        event is Interrupt ==> state.interrupt_capable,
        next_capabilities.contains(capability_for(event.spec_class())),
    ensures
        ({
            let released = state.do_evctrl(
                Some(owner),
                Ok(Set::empty()),
                event,
                EventCtrlRequest::Unregister,
            );
            let registered = released.1.evctrl(
                next,
                Ok(next_capabilities),
                event,
                EventCtrlRequest::Register,
            );
            &&& released.0 is Ok
            &&& released.1.owner(event) is None
            &&& registered.0 is Ok
            &&& registered.1.owner(event) == Some(next)
        }),
{
}

/// Every pending occurrence carries a sequence number that was handed out:
/// at least one, and at most the number of occurrences injected so far.
pub proof fn law_pending_sequences_are_handed_out(state: ManagerView, event: Event, at: int)
    requires
        state.wf(),
        event.spec_is_valid(),
        0 <= at < state.pending(event).len(),
    ensures
        1 <= state.pending(event)[at].sequence <= state.nevents,
        state.pending(event)[at].event == event,
{
    match event {
        Event::Interrupt(line) => {
            assert(state.interrupts.pending[event.spec_index()][at].descriptor.event == event);
        },
        Event::Exception(vector) => {
            assert(state.exceptions.pending[event.spec_index()][at].descriptor.event == event);
        },
        Event::Scheduling(kind) => {
            assert(state.scheduling.pending[event.spec_index()][at].descriptor.event == event);
        },
    }
}

/// Sequence numbers grow with every injection, whatever the class.
///
/// An injection that is taken in counts one more occurrence, and what it
/// enqueues carries the new count, which is larger than every sequence
/// number that is pending. No injection ever lowers the count.
pub proof fn law_sequences_grow_with_injections(
    state: ManagerView,
    mask: usize,
    pid: ProcessIdentifier,
    info: ExceptionInformation,
    termination: ProcessTerminationInfo,
)
    requires
        state.wf(),
        state.has_room(),
    ensures
        ({
            let after = state.wakeup_interrupt(mask);
            &&& state.nevents <= after.1.nevents <= state.nevents + 1
            &&& after.0 matches Ok(_) ==> {
                let line = Event::Interrupt(
                    InterruptEvent(lowest_bit(mask)->Some_0 as u8),
                );
                &&& after.1.nevents == state.nevents + 1
                &&& after.1.pending(line) == state.pending(line).push(
                    EventDescriptor { sequence: after.1.nevents, event: line },
                )
            }
        }),
        ({
            let after = state.wakeup_exception(mask, pid, info);
            &&& after.1.nevents == state.nevents + 1
            &&& after.0 matches Ok(ExceptionAction::Park { resume, owner }) ==> {
                let vector = Event::Exception(
                    ExceptionEvent(lowest_bit(mask)->Some_0 as u8),
                );
                after.1.pending(vector) == state.pending(vector).push(
                    EventDescriptor { sequence: after.1.nevents, event: vector },
                )
            }
        }),
        ({
            let after = state.notify_process_termination(termination);
            let kind = Event::Scheduling(SchedulingEvent::ProcessTermination);
            &&& after.1.nevents == state.nevents + 1
            &&& after.1.pending(kind) == state.pending(kind).push(
                EventDescriptor { sequence: after.1.nevents, event: kind },
            )
        }),
{
    ManagerView::lemma_lowest_bit(mask);
    if state.wakeup_interrupt(mask).0 is Ok {
        let slot = lowest_bit(mask)->Some_0;
        let line = Event::Interrupt(InterruptEvent(slot as u8));
        let after = state.wakeup_interrupt(mask).1;
        assert(after.pending(line) =~= state.pending(line).push(
            EventDescriptor { sequence: after.nevents, event: line },
        ));
    }
    if state.wakeup_exception(mask, pid, info).0 matches Ok(ExceptionAction::Park { .. }) {
        let slot = lowest_bit(mask)->Some_0;
        let vector = Event::Exception(ExceptionEvent(slot as u8));
        let after = state.wakeup_exception(mask, pid, info).1;
        assert(after.pending(vector) =~= state.pending(vector).push(
            EventDescriptor { sequence: after.nevents, event: vector },
        ));
    }
    let kind = Event::Scheduling(SchedulingEvent::ProcessTermination);
    let after = state.notify_process_termination(termination).1;
    assert(after.pending(kind) =~= state.pending(kind).push(
        EventDescriptor { sequence: after.nevents, event: kind },
    ));
}

/// An interrupt on a line that nobody owns is dropped: the injector is told
/// that there is no such process, and nothing is enqueued. An exception on a
/// vector that nobody owns has the faulting process terminated, and nothing
/// is enqueued either.
pub proof fn law_orphans_are_not_enqueued(
    state: ManagerView,
    mask: usize,
    pid: ProcessIdentifier,
    info: ExceptionInformation,
)
    requires
        state.wf(),
        lowest_bit(mask) is Some,
    ensures
        state.interrupt_capable && state.interrupts.owners[lowest_bit(mask)->Some_0] is None ==> {
            &&& state.wakeup_interrupt(mask).0 == Err::<ProcessIdentifier, ErrorCode>(
                ErrorCode::NoSuchProcess,
            )
            &&& state.wakeup_interrupt(mask).1.interrupts == state.interrupts
        },
        state.exceptions.owners[lowest_bit(mask)->Some_0] is None ==> {
            &&& state.wakeup_exception(mask, pid, info).0 == Ok::<ExceptionAction, ErrorCode>(
                ExceptionAction::Terminate { pid },
            )
            &&& state.wakeup_exception(mask, pid, info).1.exceptions == state.exceptions
        },
{
}

/// Events come before messages.
///
/// While an event is ready for a process, a poll delivers an event and
/// leaves the mailbox as it is. Where no event is ready, a poll leaves the
/// event manager as it is and delivers the oldest message of the mailbox, or
/// nothing where the mailbox is empty.
pub proof fn law_events_come_before_messages(
    state: ManagerView,
    pid: ProcessIdentifier,
    waited: WaitSetView,
    mailbox: Seq<MessageView>,
)
    requires
        state.wf(),
    ensures
        state.select(waited) is Some ==> {
            let after = state.try_wait(pid, waited, mailbox);
            &&& after.mailbox == mailbox
            &&& after.message matches Some(message) && message.message_type != MessageType::Ipc
                && message.source == ProcessIdentifier::spec_kernel() && message.destination
                == pid
        },
        state.select(waited) is None ==> {
            let after = state.try_wait(pid, waited, mailbox);
            &&& after.state == state
            &&& after.message == if mailbox.len() > 0 {
                Some(mailbox[0])
            } else {
                None
            }
            &&& after.mailbox == if mailbox.len() > 0 {
                mailbox.drop_first()
            } else {
                mailbox
            }
        },
{
}

/// Nothing is pending on any slot of the set but the given one.
pub open spec fn only_slot_pending<P>(table: TableView<P>, waited: Set<int>, slot: int) -> bool {
    &&& 0 <= slot < table.pending.len()
    &&& waited.contains(slot)
    &&& forall|other: int|
        0 <= other < table.pending.len() && other != slot && waited.contains(other) ==> (
        #[trigger] table.pending[other]).len() == 0
}

/// Where nothing is pending on any slot of the set but one, that slot is the
/// first ready one as soon as something is pending on it, and none is ready
/// as long as nothing is.
pub proof fn lemma_only_slot_pending<P>(table: TableView<P>, waited: Set<int>, slot: int)
    requires
        only_slot_pending(table, waited, slot),
    ensures
        table.first_ready(waited) == if table.pending[slot].len() > 0 {
            Some(slot)
        } else {
            None
        },
{
    let ready = table.ready(waited);
    if table.pending[slot].len() > 0 {
        assert(ready(slot));
        assert forall|lower: int| 0 <= lower < slot implies !#[trigger] ready(lower) by {
            if waited.contains(lower) {
                assert(table.pending[lower].len() == 0);
            }
        }
        lemma_first_from_is(ready, 0, table.pending.len() as int, slot);
    } else {
        assert forall|other: int| 0 <= other < table.pending.len() implies !#[trigger] ready(
            other,
        ) by {
            if waited.contains(other) && other != slot {
                assert(table.pending[other].len() == 0);
            }
        }
        lemma_first_from_none(ready, 0, table.pending.len() as int);
    }
}

/// Where no slot of the set is ready, nothing is pending on any of them.
pub proof fn lemma_none_ready<P>(table: TableView<P>, waited: Set<int>, slot: int)
    requires
        table.first_ready(waited) is None,
        0 <= slot < table.pending.len(),
        waited.contains(slot),
    ensures
        only_slot_pending(table, waited, slot),
        table.pending[slot].len() == 0,
{
    let ready = table.ready(waited);
    lemma_first_from(ready, 0, table.pending.len() as int);
    assert(!ready(slot));
    assert forall|other: int|
        0 <= other < table.pending.len() && other != slot && waited.contains(other) implies (
    #[trigger] table.pending[other]).len() == 0 by {
        assert(!ready(other));
    }
}

/// Whether a slot is ready depends on nothing but whether something is
/// pending on it: two tables that agree on that have the same first ready
/// slot.
pub proof fn lemma_first_ready_agrees<P>(first: TableView<P>, second: TableView<P>, waited: Set<int>)
    requires
        first.pending.len() == second.pending.len(),
        forall|slot: int|
            0 <= slot < first.pending.len() ==> ((#[trigger] first.pending[slot]).len() > 0) == (
            second.pending[slot].len() > 0),
    ensures
        first.first_ready(waited) == second.first_ready(waited),
{
    let ready_first = first.ready(waited);
    let ready_second = second.ready(waited);
    assert forall|slot: int| 0 <= slot < first.pending.len() implies #[trigger] ready_first(slot)
        == ready_second(slot) by {
        assert((first.pending[slot].len() > 0) == (second.pending[slot].len() > 0));
    }
    lemma_first_from_agrees(ready_first, ready_second, 0, first.pending.len() as int);
}

/// Where one class alone has a ready slot, a poll finds its event there,
/// wherever the rotation stands.
pub proof fn lemma_select_single_class(
    state: ManagerView,
    waited: WaitSetView,
    class: EventClass,
    slot: int,
)
    requires
        state.ready_in(class, waited) == Some(slot),
        forall|other: EventClass| other != class ==> state.ready_in(other, waited) is None,
    ensures
        state.select(waited) == Some((class, slot)),
{
    assert(state.turn(0) != class ==> state.ready_in(state.turn(0), waited) is None);
    assert(state.turn(1) != class ==> state.ready_in(state.turn(1), waited) is None);
    assert(state.turn(2) != class ==> state.ready_in(state.turn(2), waited) is None);
}

/// Where no class has a ready slot, a poll finds no event.
pub proof fn lemma_select_none(state: ManagerView, waited: WaitSetView)
    ensures
        state.select(waited) is None <==> forall|class: EventClass|
            state.ready_in(class, waited) is None,
{
    if state.select(waited) is None {
        assert forall|class: EventClass| state.ready_in(class, waited) is None by {
            assert(class == state.turn(0) || class == state.turn(1) || class == state.turn(2));
        }
    }
}

/// An exception that has been told stays pending until it is acknowledged,
/// and is told again.
///
/// After a poll has delivered an exception, the occurrence is the last of
/// its queue, and the next poll of the same process takes its event from the
/// same queue. Where the occurrence is alone in its queue, the next poll
/// delivers it again, with the same message.
pub proof fn law_unacknowledged_exception_is_told_again(
    state: ManagerView,
    pid: ProcessIdentifier,
    waited: WaitSetView,
    mailbox: Seq<MessageView>,
    slot: int,
)
    requires
        state.wf(),
        state.select(waited) == Some((EventClass::Exception, slot)),
    ensures
        ({
            let told = state.delivered(waited)->Some_0;
            let first = state.try_wait(pid, waited, mailbox);
            let second = first.state.try_wait(pid, waited, first.mailbox);
            &&& first.state.wf()
            &&& first.state.pending(told.event).len() > 0
            &&& first.state.pending(told.event).last() == told
            &&& first.state.select(waited) == Some((EventClass::Exception, slot))
            &&& state.exceptions.pending[slot].len() == 1 ==> {
                &&& first.state.delivered(waited) == Some(told)
                &&& second.message == first.message
                &&& second.state == first.state
            }
        }),
{
    let first = state.try_wait(pid, waited, mailbox);
    let told = state.delivered(waited)->Some_0;
    state.lemma_select(waited);
    state.lemma_try_wait_wf(pid, waited, mailbox);
    assert(state.exceptions.pending[slot][0].descriptor.event == event_at(
        EventClass::Exception,
        slot,
    ));
    assert(told.event.spec_index() == slot);
    lemma_first_ready_agrees(state.exceptions, first.state.exceptions, waited.exceptions);
    if state.exceptions.pending[slot].len() == 1 {
        assert(first.state.exceptions.pending[slot] =~= state.exceptions.pending[slot]);
        assert(first.state.exceptions.pending =~= state.exceptions.pending);
        assert(first.state == state);
    }
}

/// An exception that has been acknowledged is not told again.
///
/// After a poll has delivered an exception whose vector has an owner, the
/// acknowledgement of the occurrence unparks the faulting process on the
/// handle it was parked on, and takes the occurrence out of its queue: no
/// later poll, of any process and for any set, delivers it.
pub proof fn law_acknowledged_exception_is_not_told_again(
    state: ManagerView,
    pid: ProcessIdentifier,
    waited: WaitSetView,
    mailbox: Seq<MessageView>,
    slot: int,
    later: WaitSetView,
)
    requires
        state.wf(),
        state.select(waited) == Some((EventClass::Exception, slot)),
        state.exceptions.owners[slot] is Some,
    ensures
        ({
            let entry = state.exceptions.pending[slot][0];
            let told = state.delivered(waited)->Some_0;
            let polled = state.try_wait(pid, waited, mailbox).state;
            let acknowledged = polled.resume(told);
            &&& acknowledged.0 == Ok::<ResumeAction, ErrorCode>(
                ResumeAction::Unpark {
                    resume: entry.payload.resume,
                    owner: state.exceptions.owners[slot]->Some_0,
                },
            )
            &&& acknowledged.1.wf()
            &&& !acknowledged.1.pending(told.event).contains(told)
            &&& acknowledged.1.delivered(later) != Some(told)
        }),
{
    let entry = state.exceptions.pending[slot][0];
    let told = state.delivered(waited)->Some_0;
    let polled = state.try_wait(pid, waited, mailbox).state;
    state.lemma_select(waited);
    state.lemma_try_wait_wf(pid, waited, mailbox);
    assert(entry.descriptor.event == event_at(EventClass::Exception, slot));
    let queue = polled.exceptions.pending[slot];
    let last = queue.len() - 1;
    assert(queue[last] == entry);
    polled.exceptions.lemma_position_unique(
        EventClass::Exception,
        polled.nevents,
        slot,
        told,
        last,
    );
    polled.lemma_resume_wf(told);
    let after = polled.resume(told).1;
    assert(after.exceptions.pending[slot] == queue.remove(last));
    assert forall|at: int| 0 <= at < after.pending(told.event).len() implies after.pending(
        told.event,
    )[at] != told by {
        assert(after.exceptions.pending[slot][at] == queue[at]);
    }
    after.lemma_select(later);
    match after.select(later) {
        Some((EventClass::Interrupt, ready)) => {
            assert(after.interrupts.pending[ready][0].descriptor.event == event_at(
                EventClass::Interrupt,
                ready,
            ));
        },
        Some((EventClass::Exception, ready)) => {
            assert(after.exceptions.pending[ready][0].descriptor.event == event_at(
                EventClass::Exception,
                ready,
            ));
            if ready == slot {
                assert(after.pending(told.event)[0] != told);
            }
        },
        Some((EventClass::Scheduling, ready)) => {
            assert(after.scheduling.pending[ready][0].descriptor.event == event_at(
                EventClass::Scheduling,
                ready,
            ));
        },
        None => {},
    }
}

/// The rotation lets the classes take turns.
///
/// Where one interrupt and an exception are pending for a process, and
/// nothing else is, two polls in a row deliver one of each as long as the
/// rotation does not stand at the exceptions: the interrupt first, then the
/// exception.
pub proof fn law_classes_take_turns(
    state: ManagerView,
    pid: ProcessIdentifier,
    waited: WaitSetView,
    mailbox: Seq<MessageView>,
    line: int,
)
    requires
        state.wf(),
        state.turn(0) != EventClass::Exception,
        only_slot_pending(state.interrupts, waited.interrupts, line),
        state.interrupts.pending[line].len() == 1,
        state.ready_in(EventClass::Exception, waited) is Some,
        state.ready_in(EventClass::Scheduling, waited) is None,
    ensures
        ({
            let first = state.try_wait(pid, waited, mailbox);
            let second = first.state.try_wait(pid, waited, first.mailbox);
            &&& first.message matches Some(message) && message.message_type
                == MessageType::Interrupt
            &&& second.message matches Some(message) && message.message_type
                == MessageType::Exception
        }),
{
    lemma_only_slot_pending(state.interrupts, waited.interrupts, line);
    assert(state.select(waited) == Some((EventClass::Interrupt, line)));
    let first = state.try_wait(pid, waited, mailbox);
    assert(first.state.interrupts.pending[line].len() == 0);
    assert(only_slot_pending(first.state.interrupts, waited.interrupts, line)) by {
        assert forall|other: int|
            0 <= other < first.state.interrupts.pending.len() && other != line
                && waited.interrupts.contains(other) implies (
        #[trigger] first.state.interrupts.pending[other]).len() == 0 by {
            assert(first.state.interrupts.pending[other] == state.interrupts.pending[other]);
        }
    }
    lemma_only_slot_pending(first.state.interrupts, waited.interrupts, line);
    assert(first.state.ready_in(EventClass::Interrupt, waited) is None);
    assert(first.state.ready_in(EventClass::Exception, waited) is Some);
    assert(first.state.ready_in(EventClass::Scheduling, waited) is None);
}

/// Interrupts on one line are delivered in the order of their injection.
///
/// Where nothing is ready for a process, three interrupts on a line that it
/// owns and waits for are delivered by its next three polls, the first one
/// first, each with the sequence number it was given; after that nothing is
/// ready again.
pub proof fn law_interrupts_are_delivered_in_order(
    state: ManagerView,
    pid: ProcessIdentifier,
    waited: WaitSetView,
    mailbox: Seq<MessageView>,
    mask: usize,
    line: int,
)
    requires
        state.wf(),
        state.nevents + 3 <= u64::MAX,
        state.interrupt_capable,
        lowest_bit(mask) == Some(line),
        state.interrupts.owners[line] is Some,
        waited.interrupts.contains(line),
        state.select(waited) is None,
    ensures
        ({
            let injected = state.wakeup_interrupt(mask).1.wakeup_interrupt(mask).1.wakeup_interrupt(
                mask,
            ).1;
            let first = injected.try_wait(pid, waited, mailbox);
            let second = first.state.try_wait(pid, waited, mailbox);
            let third = second.state.try_wait(pid, waited, mailbox);
            let event = event_at(EventClass::Interrupt, line);
            &&& injected.delivered(waited) == Some(
                EventDescriptor { sequence: (state.nevents + 1) as u64, event },
            )
            &&& first.state.delivered(waited) == Some(
                EventDescriptor { sequence: (state.nevents + 2) as u64, event },
            )
            &&& second.state.delivered(waited) == Some(
                EventDescriptor { sequence: (state.nevents + 3) as u64, event },
            )
            &&& first.message == Some(MessageView::interrupt(pid))
            &&& second.message == Some(MessageView::interrupt(pid))
            &&& third.message == Some(MessageView::interrupt(pid))
            &&& third.state.select(waited) is None
        }),
{
    ManagerView::lemma_lowest_bit(mask);
    lemma_select_none(state, waited);
    assert(state.ready_in(EventClass::Interrupt, waited) is None);
    assert(state.ready_in(EventClass::Exception, waited) is None);
    assert(state.ready_in(EventClass::Scheduling, waited) is None);
    lemma_none_ready(state.interrupts, waited.interrupts, line);
    let one = state.wakeup_interrupt(mask).1;
    state.lemma_wakeup_interrupt_wf(mask);
    let two = one.wakeup_interrupt(mask).1;
    one.lemma_wakeup_interrupt_wf(mask);
    let three = two.wakeup_interrupt(mask).1;
    two.lemma_wakeup_interrupt_wf(mask);
    assert(three.interrupts.pending[line].len() == 3);
    lemma_quiet_but_one(state, three, waited, EventClass::Interrupt, line);
    let first = three.try_wait(pid, waited, mailbox);
    assert(first.state.interrupts.pending[line].len() == 2);
    lemma_quiet_but_one(state, first.state, waited, EventClass::Interrupt, line);
    let second = first.state.try_wait(pid, waited, mailbox);
    assert(second.state.interrupts.pending[line].len() == 1);
    lemma_quiet_but_one(state, second.state, waited, EventClass::Interrupt, line);
    let third = second.state.try_wait(pid, waited, mailbox);
    assert(third.state.interrupts.pending[line].len() == 0);
    lemma_quiet_but_one(state, third.state, waited, EventClass::Interrupt, line);
    lemma_select_none(third.state, waited);
}

/// Exceptions on one vector are told in the order of their injection.
///
/// Where nothing is ready for a process, three exceptions on a vector that
/// it owns and waits for are told by its next three polls, the first one
/// first, each message carrying the sequence number that the occurrence was
/// given and what was reported of it. All three stay pending.
pub proof fn law_exceptions_are_told_in_order(
    state: ManagerView,
    pid: ProcessIdentifier,
    waited: WaitSetView,
    mailbox: Seq<MessageView>,
    mask: usize,
    vector: int,
    faults: Seq<(ProcessIdentifier, ExceptionInformation)>,
)
    requires
        state.wf(),
        state.nevents + 3 <= u64::MAX,
        lowest_bit(mask) == Some(vector),
        state.exceptions.owners[vector] is Some,
        waited.exceptions.contains(vector),
        state.select(waited) is None,
        faults.len() == 3,
    ensures
        ({
            let injected = state.wakeup_exception(mask, faults[0].0, faults[0].1).1.wakeup_exception(
                mask,
                faults[1].0,
                faults[1].1,
            ).1.wakeup_exception(mask, faults[2].0, faults[2].1).1;
            let first = injected.try_wait(pid, waited, mailbox);
            let second = first.state.try_wait(pid, waited, mailbox);
            let third = second.state.try_wait(pid, waited, mailbox);
            &&& first.message == Some(
                MessageView::exception(
                    pid,
                    told_of((state.nevents + 1) as u64, faults[0].0, faults[0].1),
                ),
            )
            &&& second.message == Some(
                MessageView::exception(
                    pid,
                    told_of((state.nevents + 2) as u64, faults[1].0, faults[1].1),
                ),
            )
            &&& third.message == Some(
                MessageView::exception(
                    pid,
                    told_of((state.nevents + 3) as u64, faults[2].0, faults[2].1),
                ),
            )
            &&& third.state == injected
        }),
{
    ManagerView::lemma_lowest_bit(mask);
    lemma_select_none(state, waited);
    assert(state.ready_in(EventClass::Interrupt, waited) is None);
    assert(state.ready_in(EventClass::Exception, waited) is None);
    assert(state.ready_in(EventClass::Scheduling, waited) is None);
    lemma_none_ready(state.exceptions, waited.exceptions, vector);
    let one = state.wakeup_exception(mask, faults[0].0, faults[0].1).1;
    state.lemma_wakeup_exception_wf(mask, faults[0].0, faults[0].1);
    let two = one.wakeup_exception(mask, faults[1].0, faults[1].1).1;
    one.lemma_wakeup_exception_wf(mask, faults[1].0, faults[1].1);
    let three = two.wakeup_exception(mask, faults[2].0, faults[2].1).1;
    two.lemma_wakeup_exception_wf(mask, faults[2].0, faults[2].1);
    assert(three.exceptions.pending[vector].len() == 3);
    lemma_quiet_but_one(state, three, waited, EventClass::Exception, vector);
    let first = three.try_wait(pid, waited, mailbox);
    assert(first.state.exceptions.pending[vector].len() == 3);
    lemma_quiet_but_one(state, first.state, waited, EventClass::Exception, vector);
    let second = first.state.try_wait(pid, waited, mailbox);
    assert(second.state.exceptions.pending[vector].len() == 3);
    lemma_quiet_but_one(state, second.state, waited, EventClass::Exception, vector);
    let third = second.state.try_wait(pid, waited, mailbox);
    assert(third.state.exceptions.pending[vector] =~= three.exceptions.pending[vector]);
    assert(third.state.exceptions.pending =~= three.exceptions.pending);
}

/// Terminations are reported in the order of their notification.
///
/// Where nothing is ready for a process that owns and waits for the
/// notification, three terminations are reported by its next three polls,
/// the first one first; after that nothing is ready again.
pub proof fn law_terminations_are_reported_in_order(
    state: ManagerView,
    pid: ProcessIdentifier,
    waited: WaitSetView,
    mailbox: Seq<MessageView>,
    terminations: Seq<ProcessTerminationInfo>,
)
    requires
        state.wf(),
        state.nevents + 3 <= u64::MAX,
        waited.scheduling.contains(0),
        state.select(waited) is None,
        terminations.len() == 3,
    ensures
        ({
            let injected = state.notify_process_termination(
                terminations[0],
            ).1.notify_process_termination(terminations[1]).1.notify_process_termination(
                terminations[2],
            ).1;
            let first = injected.try_wait(pid, waited, mailbox);
            let second = first.state.try_wait(pid, waited, mailbox);
            let third = second.state.try_wait(pid, waited, mailbox);
            &&& first.message == Some(MessageView::scheduling(pid, terminations[0]))
            &&& second.message == Some(MessageView::scheduling(pid, terminations[1]))
            &&& third.message == Some(MessageView::scheduling(pid, terminations[2]))
            &&& third.state.select(waited) is None
        }),
{
    lemma_select_none(state, waited);
    assert(state.ready_in(EventClass::Interrupt, waited) is None);
    assert(state.ready_in(EventClass::Exception, waited) is None);
    assert(state.ready_in(EventClass::Scheduling, waited) is None);
    lemma_none_ready(state.scheduling, waited.scheduling, 0);
    let one = state.notify_process_termination(terminations[0]).1;
    state.lemma_notify_process_termination_wf(terminations[0]);
    let two = one.notify_process_termination(terminations[1]).1;
    one.lemma_notify_process_termination_wf(terminations[1]);
    let three = two.notify_process_termination(terminations[2]).1;
    two.lemma_notify_process_termination_wf(terminations[2]);
    assert(three.scheduling.pending[0].len() == 3);
    lemma_quiet_but_one(state, three, waited, EventClass::Scheduling, 0);
    let first = three.try_wait(pid, waited, mailbox);
    assert(first.state.scheduling.pending[0].len() == 2);
    lemma_quiet_but_one(state, first.state, waited, EventClass::Scheduling, 0);
    let second = first.state.try_wait(pid, waited, mailbox);
    assert(second.state.scheduling.pending[0].len() == 1);
    lemma_quiet_but_one(state, second.state, waited, EventClass::Scheduling, 0);
    let third = second.state.try_wait(pid, waited, mailbox);
    assert(third.state.scheduling.pending[0].len() == 0);
    lemma_quiet_but_one(state, third.state, waited, EventClass::Scheduling, 0);
    lemma_select_none(third.state, waited);
}

/// What the owner is told of an exception with the given sequence number.
pub open spec fn told_of(
    sequence: u64,
    pid: ProcessIdentifier,
    info: ExceptionInformation,
) -> EventInformation {
    EventInformation {
        id: sequence,
        pid,
        number: info.num,
        code: info.code,
        address: info.addr,
        instruction: info.instruction,
    }
}

/// The queues of a table but one are what they were in another table.
pub open spec fn same_but_slot<P>(before: TableView<P>, after: TableView<P>, slot: int) -> bool {
    &&& before.pending.len() == after.pending.len()
    &&& forall|other: int|
        0 <= other < before.pending.len() && other != slot ==> #[trigger] after.pending[other]
            == before.pending[other]
}

/// Where nothing was ready for a set, and since then the queues of one slot
/// of the set alone have changed, a poll finds its event on that slot as
/// long as something is pending there, and no event once nothing is.
pub proof fn lemma_quiet_but_one(
    quiet: ManagerView,
    now: ManagerView,
    waited: WaitSetView,
    class: EventClass,
    slot: int,
)
    requires
        quiet.select(waited) is None,
        0 <= slot < slots_of(class),
        quiet.interrupts.pending.len() == slots_of(EventClass::Interrupt),
        quiet.exceptions.pending.len() == slots_of(EventClass::Exception),
        quiet.scheduling.pending.len() == slots_of(EventClass::Scheduling),
        match class {
            EventClass::Interrupt => waited.interrupts.contains(slot),
            EventClass::Exception => waited.exceptions.contains(slot),
            EventClass::Scheduling => waited.scheduling.contains(slot),
        },
        same_but_slot(
            quiet.interrupts,
            now.interrupts,
            if class == EventClass::Interrupt {
                slot
            } else {
                -1
            },
        ),
        same_but_slot(
            quiet.exceptions,
            now.exceptions,
            if class == EventClass::Exception {
                slot
            } else {
                -1
            },
        ),
        same_but_slot(
            quiet.scheduling,
            now.scheduling,
            if class == EventClass::Scheduling {
                slot
            } else {
                -1
            },
        ),
    ensures
        now.select(waited) == if (match class {
            EventClass::Interrupt => now.interrupts.pending[slot].len() > 0,
            EventClass::Exception => now.exceptions.pending[slot].len() > 0,
            EventClass::Scheduling => now.scheduling.pending[slot].len() > 0,
        }) {
            Some((class, slot))
        } else {
            None
        },
{
    lemma_select_none(quiet, waited);
    assert(quiet.ready_in(EventClass::Interrupt, waited) is None);
    assert(quiet.ready_in(EventClass::Exception, waited) is None);
    assert(quiet.ready_in(EventClass::Scheduling, waited) is None);
    lemma_quiet_table(quiet.interrupts, now.interrupts, waited.interrupts, slot, class == EventClass::Interrupt);
    lemma_quiet_table(quiet.exceptions, now.exceptions, waited.exceptions, slot, class == EventClass::Exception);
    lemma_quiet_table(quiet.scheduling, now.scheduling, waited.scheduling, slot, class == EventClass::Scheduling);
    let pending = match class {
        EventClass::Interrupt => now.interrupts.pending[slot].len() > 0,
        EventClass::Exception => now.exceptions.pending[slot].len() > 0,
        EventClass::Scheduling => now.scheduling.pending[slot].len() > 0,
    };
    if pending {
        assert(now.ready_in(class, waited) == Some(slot));
        assert forall|other: EventClass| other != class implies now.ready_in(other, waited)
            is None by {}
        lemma_select_single_class(now, waited, class, slot);
    } else {
        assert forall|other: EventClass| now.ready_in(other, waited) is None by {}
        lemma_select_none(now, waited);
    }
}

/// One table of `lemma_quiet_but_one`: where no slot of the set was ready
/// and the queue of at most one slot has changed, that slot is the first
/// ready one if something is pending on it, and none is otherwise.
pub proof fn lemma_quiet_table<P>(
    quiet: TableView<P>,
    now: TableView<P>,
    waited: Set<int>,
    slot: int,
    changed: bool,
)
    requires
        quiet.first_ready(waited) is None,
        same_but_slot(
            quiet,
            now,
            if changed {
                slot
            } else {
                -1
            },
        ),
        changed ==> 0 <= slot < quiet.pending.len() && waited.contains(slot),
    ensures
        now.first_ready(waited) == if changed && now.pending[slot].len() > 0 {
            Some(slot)
        } else {
            None
        },
{
    let was_ready = quiet.ready(waited);
    lemma_first_from(was_ready, 0, quiet.pending.len() as int);
    if changed {
        assert forall|other: int|
            0 <= other < now.pending.len() && other != slot && waited.contains(other) implies (
        #[trigger] now.pending[other]).len() == 0 by {
            assert(!was_ready(other));
        }
        lemma_only_slot_pending(now, waited, slot);
    } else {
        let ready = now.ready(waited);
        assert forall|other: int| 0 <= other < now.pending.len() implies !#[trigger] ready(
            other,
        ) by {
            assert(!was_ready(other));
            assert(now.pending[other] == quiet.pending[other]);
        }
        lemma_first_from_none(ready, 0, now.pending.len() as int);
    }
}

/// One injection of an event.
pub enum Injection {
    /// An interrupt on the lowest line of the mask.
    Interrupt {
        /// The lines that are raised.
        mask: usize,
    },
    /// An exception on the lowest vector of the mask.
    Exception {
        /// The vectors that are raised.
        mask: usize,
        /// The faulting process.
        pid: ProcessIdentifier,
        /// What the CPU reported.
        info: ExceptionInformation,
    },
    /// The termination of a process.
    Termination {
        /// What is kept of the terminated process.
        termination: ProcessTerminationInfo,
    },
}

impl Injection {
    /// The event manager after the injection.
    pub open spec fn apply(self, state: ManagerView) -> ManagerView {
        match self {
            Injection::Interrupt { mask } => state.wakeup_interrupt(mask).1,
            Injection::Exception { mask, pid, info } => state.wakeup_exception(mask, pid, info).1,
            Injection::Termination { termination } => state.notify_process_termination(termination).1,
        }
    }

    /// The sequence number of the occurrence that the injection enqueues, if
    /// it enqueues one.
    pub open spec fn enqueued(self, state: ManagerView) -> Option<u64> {
        match self {
            Injection::Interrupt { mask } => if state.wakeup_interrupt(mask).0 is Ok {
                Some((state.nevents + 1) as u64)
            } else {
                None
            },
            Injection::Exception { mask, pid, info } => if state.wakeup_exception(
                mask,
                pid,
                info,
            ).0 matches Ok(ExceptionAction::Park { .. }) {
                Some((state.nevents + 1) as u64)
            } else {
                None
            },
            Injection::Termination { .. } => Some((state.nevents + 1) as u64),
        }
    }
}

/// The event manager after a series of injections.
pub open spec fn after_injections(state: ManagerView, injections: Seq<Injection>) -> ManagerView
    decreases injections.len(),
{
    if injections.len() == 0 {
        state
    } else {
        injections.last().apply(after_injections(state, injections.drop_last()))
    }
}

/// A series of injections leaves the event manager well formed, and counts
/// at most one occurrence for each injection and never fewer than before.
pub proof fn lemma_after_injections(state: ManagerView, injections: Seq<Injection>)
    requires
        state.wf(),
        state.nevents + injections.len() <= u64::MAX,
    ensures
        after_injections(state, injections).wf(),
        state.nevents <= after_injections(state, injections).nevents <= state.nevents
            + injections.len(),
    decreases injections.len(),
{
    if injections.len() > 0 {
        lemma_after_injections(state, injections.drop_last());
        let before = after_injections(state, injections.drop_last());
        match injections.last() {
            Injection::Interrupt { mask } => {
                before.lemma_wakeup_interrupt_wf(mask);
            },
            Injection::Exception { mask, pid, info } => {
                before.lemma_wakeup_exception_wf(mask, pid, info);
            },
            Injection::Termination { termination } => {
                before.lemma_notify_process_termination_wf(termination);
            },
        }
    }
}

/// A series of injections is a longer series cut short: the state after the
/// first injections of a series is passed on the way to the state after more
/// of them, and the count never falls on the way.
pub proof fn lemma_count_grows_along_injections(
    state: ManagerView,
    injections: Seq<Injection>,
    first: int,
    second: int,
)
    requires
        state.wf(),
        state.nevents + injections.len() <= u64::MAX,
        0 <= first <= second <= injections.len(),
    ensures
        after_injections(state, injections.take(first)).nevents <= after_injections(
            state,
            injections.take(second),
        ).nevents,
    decreases second - first,
{
    if first < second {
        lemma_count_grows_along_injections(state, injections, first, second - 1);
        let shorter = injections.take(second - 1);
        let longer = injections.take(second);
        assert(longer.drop_last() =~= shorter);
        lemma_after_injections(state, shorter);
        let before = after_injections(state, shorter);
        assert(before.nevents <= longer.last().apply(before).nevents);
    }
}

/// Sequence numbers are handed out in the order of injection, whatever the
/// classes of the events.
///
/// In any series of injections, an occurrence that is enqueued later
/// carries a larger sequence number than one that is enqueued earlier.
pub proof fn law_sequences_follow_the_order_of_injection(
    state: ManagerView,
    injections: Seq<Injection>,
    earlier: int,
    later: int,
)
    requires
        state.wf(),
        state.nevents + injections.len() <= u64::MAX,
        0 <= earlier < later < injections.len(),
        injections[earlier].enqueued(after_injections(state, injections.take(earlier))) is Some,
        injections[later].enqueued(after_injections(state, injections.take(later))) is Some,
    ensures
        injections[earlier].enqueued(after_injections(state, injections.take(earlier)))->Some_0
            < injections[later].enqueued(
            after_injections(state, injections.take(later)),
        )->Some_0,
{
    let before_earlier = after_injections(state, injections.take(earlier));
    let after_earlier = after_injections(state, injections.take(earlier + 1));
    let before_later = after_injections(state, injections.take(later));
    assert(injections.take(earlier + 1).drop_last() =~= injections.take(earlier));
    assert(injections.take(earlier + 1).last() == injections[earlier]);
    lemma_after_injections(state, injections.take(earlier));
    lemma_after_injections(state, injections.take(later));
    assert(after_earlier.nevents == before_earlier.nevents + 1);
    lemma_count_grows_along_injections(state, injections, earlier + 1, later);
}

/// A process that owns nothing is handed no event: every poll for the slots
/// that it owns falls through to its mailbox, and suspends it where the
/// mailbox is empty.
pub proof fn law_nothing_owned_nothing_delivered(
    state: ManagerView,
    pid: ProcessIdentifier,
    mailbox: Seq<MessageView>,
)
    requires
        state.wf(),
        forall|event: Event| event.spec_is_valid() ==> #[trigger] state.owner(event) != Some(pid),
    ensures
        state.select(state.owned_by(pid)) is None,
        state.try_wait(pid, state.owned_by(pid), Seq::empty()).message is None,
        state.try_wait(pid, state.owned_by(pid), mailbox).state == state,
{
    let waited = state.owned_by(pid);
    assert forall|slot: int| 0 <= slot < state.interrupts.pending.len() implies !#[trigger] (
    state.interrupts.ready(waited.interrupts))(slot) by {
        assert(state.owner(Event::Interrupt(InterruptEvent(slot as u8))) != Some(pid));
    }
    lemma_first_from_none(
        state.interrupts.ready(waited.interrupts),
        0,
        state.interrupts.pending.len() as int,
    );
    assert forall|slot: int| 0 <= slot < state.exceptions.pending.len() implies !#[trigger] (
    state.exceptions.ready(waited.exceptions))(slot) by {
        assert(state.owner(Event::Exception(ExceptionEvent(slot as u8))) != Some(pid));
    }
    lemma_first_from_none(
        state.exceptions.ready(waited.exceptions),
        0,
        state.exceptions.pending.len() as int,
    );
    assert forall|slot: int| 0 <= slot < state.scheduling.pending.len() implies !#[trigger] (
    state.scheduling.ready(waited.scheduling))(slot) by {
        assert(state.owner(Event::Scheduling(SchedulingEvent::ProcessTermination)) != Some(pid));
    }
    lemma_first_from_none(
        state.scheduling.ready(waited.scheduling),
        0,
        state.scheduling.pending.len() as int,
    );
    lemma_select_none(state, waited);
}

/// The handle on which a faulting process parks is fresh.
///
/// The handle that is made for an exception is carried by no exception that
/// was pending before, and afterwards by the new occurrence alone, which
/// stands last in the queue of its vector together with what was reported.
pub proof fn law_resume_handles_are_fresh(
    state: ManagerView,
    mask: usize,
    pid: ProcessIdentifier,
    info: ExceptionInformation,
)
    requires
        state.wf(),
        state.has_room(),
        state.wakeup_exception(mask, pid, info).0 matches Ok(ExceptionAction::Park { .. }),
    ensures
        ({
            let after = state.wakeup_exception(mask, pid, info).1;
            let resume = state.wakeup_exception(mask, pid, info).0->Ok_0->resume;
            let vector = lowest_bit(mask)->Some_0;
            &&& forall|slot: int, at: int|
                0 <= slot < state.exceptions.pending.len() && 0 <= at
                    < state.exceptions.pending[slot].len() ==> (
                #[trigger] state.exceptions.pending[slot][at]).payload.resume != resume
            &&& after.exceptions.pending[vector].len() == state.exceptions.pending[vector].len() + 1
            &&& after.exceptions.pending[vector].last() == (PendingEvent {
                descriptor: EventDescriptor {
                    sequence: (state.nevents + 1) as u64,
                    event: event_at(EventClass::Exception, vector),
                },
                payload: ExceptionEventInformation { pid, info, resume },
            })
            &&& forall|slot: int, at: int|
                0 <= slot < after.exceptions.pending.len() && 0 <= at
                    < after.exceptions.pending[slot].len() && (
                #[trigger] after.exceptions.pending[slot][at]).payload.resume == resume ==> slot
                    == vector && at == after.exceptions.pending[vector].len() - 1
        }),
{
    ManagerView::lemma_lowest_bit(mask);
    let after = state.wakeup_exception(mask, pid, info).1;
    let resume = state.wakeup_exception(mask, pid, info).0->Ok_0->resume;
    let vector = lowest_bit(mask)->Some_0;
    assert forall|slot: int, at: int|
        0 <= slot < state.exceptions.pending.len() && 0 <= at
            < state.exceptions.pending[slot].len() implies (
    #[trigger] state.exceptions.pending[slot][at]).payload.resume != resume by {
        assert(state.exceptions.pending[slot][at].descriptor.sequence <= state.nevents);
    }
    assert forall|slot: int, at: int|
        0 <= slot < after.exceptions.pending.len() && 0 <= at
            < after.exceptions.pending[slot].len() && (
        #[trigger] after.exceptions.pending[slot][at]).payload.resume == resume implies slot
        == vector && at == after.exceptions.pending[vector].len() - 1 by {
        if slot != vector {
            assert(after.exceptions.pending[slot][at] == state.exceptions.pending[slot][at]);
        } else if at < state.exceptions.pending[vector].len() {
            assert(after.exceptions.pending[slot][at] == state.exceptions.pending[vector][at]);
        }
    }
}

} // verus!

//! The event manager as a mathematical value, and what each of its
//! operations does to it.

use crate::error::ErrorCode;
use crate::event::mask::{lowest_bit, mask_has};
use crate::scan::lemma_first_from;
use crate::event::table::TableView;
use crate::event::{
    event_at, slots_of, Event, EventClass, EventCtrlRequest, EventDescriptor, EventInformation,
    ExceptionEventInformation, ExceptionInformation, PendingEvent, ProcessTerminationInfo,
    ResumeHandle,
};
use crate::ipc::MessageView;
use crate::pm::{Capability, ProcessIdentifier};
use vstd::prelude::*;

verus! {

/// What the trap handler of a faulting process does once its exception has
/// been taken in.
#[derive(Clone, Copy, Debug, PartialEq, Eq, Structural)]
pub enum ExceptionAction {
    /// Wake the owner of the exception, then park the faulting process on
    /// the handle until the owner acknowledges the exception.
    Park {
        /// Where the faulting process parks.
        resume: ResumeHandle,
        /// The owner to wake.
        owner: ProcessIdentifier,
    },
    /// Nobody owns the exception: terminate the faulting process.
    Terminate {
        /// The faulting process.
        pid: ProcessIdentifier,
    },
}

/// What follows from the acknowledgement of an event.
#[derive(Clone, Copy, Debug, PartialEq, Eq, Structural)]
pub enum ResumeAction {
    /// Nothing: the event needs no acknowledgement, or it is not pending.
    Nothing,
    /// Notify the handle, so that the faulting process runs again.
    Unpark {
        /// Where the faulting process is parked.
        resume: ResumeHandle,
        /// The owner that acknowledged the exception.
        owner: ProcessIdentifier,
    },
    /// The exception has no owner any more: terminate the faulting process.
    Terminate {
        /// The faulting process.
        pid: ProcessIdentifier,
        /// Where the faulting process is parked.
        resume: ResumeHandle,
    },
}

/// The slots that a process waits for, class by class.
pub struct WaitSetView {
    /// The interrupt lines.
    pub interrupts: Set<int>,
    /// The exception vectors.
    pub exceptions: Set<int>,
    /// The kinds of scheduling notifications.
    pub scheduling: Set<int>,
}

/// What one poll for a deliverable leaves behind and hands out.
pub struct WaitView {
    /// The event manager after the poll.
    pub state: ManagerView,
    /// The mailbox of the process after the poll.
    pub mailbox: Seq<MessageView>,
    /// The message that the poll hands out, if it found one.
    pub message: Option<MessageView>,
}

/// The class whose turn comes at the given count of the rotation.
pub open spec fn class_of_turn(count: int) -> EventClass {
    if count % 3 == 0 {
        EventClass::Interrupt
    } else if count % 3 == 1 {
        EventClass::Exception
    } else {
        EventClass::Scheduling
    }
}

/// The capability that a process needs to own events of a class.
pub open spec fn capability_for(class: EventClass) -> Capability {
    match class {
        EventClass::Interrupt => Capability::InterruptControl,
        EventClass::Exception => Capability::ExceptionControl,
        EventClass::Scheduling => Capability::ProcessManagement,
    }
}

/// What the question whether a process holds a capability comes to, given
/// what the look-up of its capabilities came to.
pub open spec fn holds(
    capabilities: Result<Set<Capability>, ErrorCode>,
    capability: Capability,
) -> Result<bool, ErrorCode> {
    match capabilities {
        Ok(held) => Ok(held.contains(capability)),
        Err(code) => Err(code),
    }
}

/// Every pending exception carries the handle that was made for it: the
/// handle bears the sequence number of the occurrence.
pub open spec fn handles_match(exceptions: TableView<ExceptionEventInformation>) -> bool {
    forall|slot: int, at: int|
        0 <= slot < exceptions.pending.len() && 0 <= at < exceptions.pending[slot].len() ==> (
        #[trigger] exceptions.pending[slot][at]).payload.resume.0
            == exceptions.pending[slot][at].descriptor.sequence
}

/// The event manager as a mathematical value.
pub struct ManagerView {
    /// An interrupt controller is present.
    pub interrupt_capable: bool,
    /// The number of occurrences injected so far. The last one carries this
    /// number as its sequence number.
    pub nevents: u64,
    /// Owners and pending occurrences of interrupts.
    pub interrupts: TableView<()>,
    /// Owners and pending occurrences of exceptions.
    pub exceptions: TableView<ExceptionEventInformation>,
    /// Owners and pending occurrences of scheduling notifications.
    pub scheduling: TableView<ProcessTerminationInfo>,
}

impl ManagerView {
    /// The event manager right after it was set up: nothing owned, nothing
    /// pending, nothing injected.
    pub open spec fn init(interrupt_capable: bool) -> ManagerView {
        ManagerView {
            interrupt_capable,
            nevents: 0,
            interrupts: TableView::empty(slots_of(EventClass::Interrupt)),
            exceptions: TableView::empty(slots_of(EventClass::Exception)),
            scheduling: TableView::empty(slots_of(EventClass::Scheduling)),
        }
    }

    /// The tables are those of their classes, every pending occurrence
    /// carries a sequence number that was handed out, interrupts and
    /// scheduling notifications wait in the order of their injection, and
    /// every pending exception carries the handle that was made for it.
    pub open spec fn wf(self) -> bool {
        &&& self.interrupts.wf(EventClass::Interrupt, self.nevents)
        &&& self.interrupts.in_order()
        &&& self.exceptions.wf(EventClass::Exception, self.nevents)
        &&& handles_match(self.exceptions)
        &&& self.scheduling.wf(EventClass::Scheduling, self.nevents)
        &&& self.scheduling.in_order()
    }

    /// One more occurrence can be counted.
    pub open spec fn has_room(self) -> bool {
        self.nevents < u64::MAX
    }

    /// The owner of an event, if it has one.
    pub open spec fn owner(self, event: Event) -> Option<ProcessIdentifier> {
        match event {
            Event::Interrupt(_) => self.interrupts.owners[event.spec_index()],
            Event::Exception(_) => self.exceptions.owners[event.spec_index()],
            Event::Scheduling(_) => self.scheduling.owners[event.spec_index()],
        }
    }

    /// The descriptors of the occurrences that are pending on an event,
    /// in the order of delivery.
    pub open spec fn pending(self, event: Event) -> Seq<EventDescriptor> {
        match event {
            Event::Interrupt(_) => self.interrupts.pending[event.spec_index()].map_values(
                |entry: PendingEvent<()>| entry.descriptor,
            ),
            Event::Exception(_) => self.exceptions.pending[event.spec_index()].map_values(
                |entry: PendingEvent<ExceptionEventInformation>| entry.descriptor,
            ),
            Event::Scheduling(_) => self.scheduling.pending[event.spec_index()].map_values(
                |entry: PendingEvent<ProcessTerminationInfo>| entry.descriptor,
            ),
        }
    }

    /// What a registry request on the tables of the event's class does, and
    /// how it ends. `capabilities` is what the look-up of the capabilities of
    /// the process came to; it matters for a registration alone.
    pub open spec fn do_evctrl(
        self,
        pid: Option<ProcessIdentifier>,
        capabilities: Result<Set<Capability>, ErrorCode>,
        event: Event,
        request: EventCtrlRequest,
    ) -> (Result<(), ErrorCode>, ManagerView) {
        let capable = holds(capabilities, capability_for(event.spec_class()));
        let slot = event.spec_index();
        match event {
            Event::Interrupt(_) => {
                let (result, interrupts) = self.interrupts.evctrl(pid, capable, slot, request);
                (result, ManagerView { interrupts, ..self })
            },
            Event::Exception(_) => {
                let (result, exceptions) = self.exceptions.evctrl(pid, capable, slot, request);
                (result, ManagerView { exceptions, ..self })
            },
            Event::Scheduling(_) => {
                let (result, scheduling) = self.scheduling.evctrl(pid, capable, slot, request);
                (result, ManagerView { scheduling, ..self })
            },
        }
    }

    /// What a registry request of a process does, and how it ends. Requests
    /// on interrupts are not supported where no interrupt controller is
    /// present.
    pub open spec fn evctrl(
        self,
        pid: ProcessIdentifier,
        capabilities: Result<Set<Capability>, ErrorCode>,
        event: Event,
        request: EventCtrlRequest,
    ) -> (Result<(), ErrorCode>, ManagerView) {
        if event is Interrupt && !self.interrupt_capable {
            (Err(ErrorCode::OperationNotSupported), self)
        } else {
            self.do_evctrl(Some(pid), capabilities, event, request)
        }
    }

    /// The slots that a process owns, class by class.
    pub open spec fn owned_by(self, pid: ProcessIdentifier) -> WaitSetView {
        WaitSetView {
            interrupts: self.interrupts.owned_by(pid),
            exceptions: self.exceptions.owned_by(pid),
            scheduling: self.scheduling.owned_by(pid),
        }
    }

    /// The class that a poll looks at in its first, second or third step.
    pub open spec fn turn(self, step: int) -> EventClass {
        class_of_turn(self.nevents + step)
    }

    /// The lowest slot of a class that is waited for and has something
    /// pending.
    pub open spec fn ready_in(self, class: EventClass, waited: WaitSetView) -> Option<int> {
        match class {
            EventClass::Interrupt => self.interrupts.first_ready(waited.interrupts),
            EventClass::Exception => self.exceptions.first_ready(waited.exceptions),
            EventClass::Scheduling => self.scheduling.first_ready(waited.scheduling),
        }
    }

    /// Where a poll finds its event: the first class in the order of the
    /// rotation that has a ready slot, and the lowest such slot.
    pub open spec fn select(self, waited: WaitSetView) -> Option<(EventClass, int)> {
        if self.ready_in(self.turn(0), waited) is Some {
            Some((self.turn(0), self.ready_in(self.turn(0), waited)->Some_0))
        } else if self.ready_in(self.turn(1), waited) is Some {
            Some((self.turn(1), self.ready_in(self.turn(1), waited)->Some_0))
        } else if self.ready_in(self.turn(2), waited) is Some {
            Some((self.turn(2), self.ready_in(self.turn(2), waited)->Some_0))
        } else {
            None
        }
    }

    /// The occurrence that a poll delivers: the head of the queue that
    /// `select` finds.
    pub open spec fn delivered(self, waited: WaitSetView) -> Option<EventDescriptor> {
        match self.select(waited) {
            Some((EventClass::Interrupt, slot)) => Some(self.interrupts.pending[slot][0].descriptor),
            Some((EventClass::Exception, slot)) => Some(self.exceptions.pending[slot][0].descriptor),
            Some((EventClass::Scheduling, slot)) => Some(
                self.scheduling.pending[slot][0].descriptor,
            ),
            None => None,
        }
    }

    /// What one poll of a process for a deliverable does.
    ///
    /// An interrupt or a scheduling notification leaves its queue. An
    /// exception is told and moves to the tail of its queue, where it stays
    /// until it is acknowledged. Where no event is ready, the oldest message
    /// of the mailbox is delivered, if there is one.
    pub open spec fn try_wait(
        self,
        pid: ProcessIdentifier,
        waited: WaitSetView,
        mailbox: Seq<MessageView>,
    ) -> WaitView {
        match self.select(waited) {
            Some((EventClass::Interrupt, slot)) => WaitView {
                state: ManagerView { interrupts: self.interrupts.pop(slot), ..self },
                mailbox,
                message: Some(MessageView::interrupt(pid)),
            },
            Some((EventClass::Exception, slot)) => {
                let entry = self.exceptions.pending[slot][0];
                WaitView {
                    state: ManagerView { exceptions: self.exceptions.rotate(slot), ..self },
                    mailbox,
                    message: Some(
                        MessageView::exception(
                            pid,
                            EventInformation::spec_of(entry.descriptor.sequence, entry.payload),
                        ),
                    ),
                }
            },
            Some((EventClass::Scheduling, slot)) => {
                let entry = self.scheduling.pending[slot][0];
                WaitView {
                    state: ManagerView { scheduling: self.scheduling.pop(slot), ..self },
                    mailbox,
                    message: Some(MessageView::scheduling(pid, entry.payload)),
                }
            },
            None => if mailbox.len() > 0 {
                WaitView { state: self, mailbox: mailbox.drop_first(), message: Some(mailbox[0]) }
            } else {
                WaitView { state: self, mailbox, message: None }
            },
        }
    }

    /// The event manager with one more occurrence counted.
    pub open spec fn counted(self) -> ManagerView {
        ManagerView { nevents: (self.nevents + 1) as u64, ..self }
    }

    /// The descriptor of the next occurrence of an event.
    pub open spec fn next_descriptor(self, class: EventClass, slot: int) -> EventDescriptor {
        EventDescriptor { sequence: (self.nevents + 1) as u64, event: event_at(class, slot) }
    }

    /// What the injection of an interrupt does, and whom to wake.
    ///
    /// Without an interrupt controller the injection is not supported and
    /// nothing changes. Otherwise the occurrence is counted, and the lowest
    /// line of the mask is taken. No line is an invalid argument. A line
    /// without an owner drops the interrupt. Otherwise the occurrence is
    /// enqueued and the owner is to be woken.
    pub open spec fn wakeup_interrupt(self, mask: usize) -> (
        Result<ProcessIdentifier, ErrorCode>,
        ManagerView,
    ) {
        if !self.interrupt_capable {
            (Err(ErrorCode::OperationNotSupported), self)
        } else {
            match lowest_bit(mask) {
                None => (Err(ErrorCode::InvalidArgument), self.counted()),
                Some(slot) => match self.interrupts.owners[slot] {
                    None => (Err(ErrorCode::NoSuchProcess), self.counted()),
                    Some(owner) => (
                        Ok(owner),
                        ManagerView {
                            interrupts: self.interrupts.push(
                                slot,
                                PendingEvent {
                                    descriptor: self.next_descriptor(EventClass::Interrupt, slot),
                                    payload: (),
                                },
                            ),
                            ..self.counted()
                        },
                    ),
                },
            }
        }
    }

    /// What the injection of an exception does, and what becomes of the
    /// faulting process.
    ///
    /// The occurrence is counted, and the lowest vector of the mask is taken.
    /// No vector is an invalid argument. A vector without an owner has the
    /// faulting process terminated, and nothing is enqueued. Otherwise the
    /// occurrence is enqueued with a fresh handle, the owner is to be woken,
    /// and the faulting process parks on the handle.
    pub open spec fn wakeup_exception(
        self,
        mask: usize,
        pid: ProcessIdentifier,
        info: ExceptionInformation,
    ) -> (Result<ExceptionAction, ErrorCode>, ManagerView) {
        match lowest_bit(mask) {
            None => (Err(ErrorCode::InvalidArgument), self.counted()),
            Some(slot) => match self.exceptions.owners[slot] {
                None => (Ok(ExceptionAction::Terminate { pid }), self.counted()),
                Some(owner) => {
                    let resume = ResumeHandle((self.nevents + 1) as u64);
                    (
                        Ok(ExceptionAction::Park { resume, owner }),
                        ManagerView {
                            exceptions: self.exceptions.push(
                                slot,
                                PendingEvent {
                                    descriptor: self.next_descriptor(EventClass::Exception, slot),
                                    payload: ExceptionEventInformation { pid, info, resume },
                                },
                            ),
                            ..self.counted()
                        },
                    )
                },
            },
        }
    }

    /// What the notification of a termination does, and whom to wake.
    ///
    /// The occurrence is counted and enqueued. Where nobody owns the
    /// notification there is no process to wake, and the occurrence waits for
    /// whoever registers next.
    pub open spec fn notify_process_termination(self, info: ProcessTerminationInfo) -> (
        Result<ProcessIdentifier, ErrorCode>,
        ManagerView,
    ) {
        let after = ManagerView {
            scheduling: self.scheduling.push(
                0,
                PendingEvent {
                    descriptor: self.next_descriptor(EventClass::Scheduling, 0),
                    payload: info,
                },
            ),
            ..self.counted()
        };
        match self.scheduling.owners[0] {
            None => (Err(ErrorCode::NoSuchProcess), after),
            Some(owner) => (Ok(owner), after),
        }
    }

    /// What the acknowledgement of an occurrence does, and what follows
    /// from it.
    ///
    /// Interrupts and scheduling notifications need no acknowledgement. An
    /// exception on a vector that does not exist is an invalid argument. The
    /// pending exception that the descriptor names leaves its queue: the
    /// faulting process runs again where the vector has an owner, and is
    /// terminated where it has none. A descriptor that names nothing pending
    /// changes nothing.
    pub open spec fn resume(self, descriptor: EventDescriptor) -> (
        Result<ResumeAction, ErrorCode>,
        ManagerView,
    ) {
        match descriptor.event {
            Event::Interrupt(_) => (Ok(ResumeAction::Nothing), self),
            Event::Scheduling(_) => (Ok(ResumeAction::Nothing), self),
            Event::Exception(vector) => {
                let slot = vector.0 as int;
                if slot >= self.exceptions.pending.len() {
                    (Err(ErrorCode::InvalidArgument), self)
                } else {
                    match self.exceptions.position(slot, descriptor) {
                        None => (Ok(ResumeAction::Nothing), self),
                        Some(at) => {
                            let entry = self.exceptions.pending[slot][at];
                            let after = ManagerView {
                                exceptions: self.exceptions.remove(slot, at),
                                ..self
                            };
                            match self.exceptions.owners[slot] {
                                Some(owner) => (
                                    Ok(
                                        ResumeAction::Unpark {
                                            resume: entry.payload.resume,
                                            owner,
                                        },
                                    ),
                                    after,
                                ),
                                None => (
                                    Ok(
                                        ResumeAction::Terminate {
                                            pid: entry.payload.pid,
                                            resume: entry.payload.resume,
                                        },
                                    ),
                                    after,
                                ),
                            }
                        },
                    }
                }
            },
        }
    }
}

impl ManagerView {
    /// A fresh event manager is well formed.
    pub proof fn lemma_init_wf(interrupt_capable: bool)
        ensures
            ManagerView::init(interrupt_capable).wf(),
    {
        TableView::<()>::lemma_empty_wf(EventClass::Interrupt, 0);
        TableView::<ExceptionEventInformation>::lemma_empty_wf(EventClass::Exception, 0);
        TableView::<ProcessTerminationInfo>::lemma_empty_wf(EventClass::Scheduling, 0);
    }

    /// Counting an occurrence leaves the event manager well formed.
    pub proof fn lemma_counted_wf(self)
        requires
            self.wf(),
            self.has_room(),
        ensures
            self.counted().wf(),
    {
        let later = (self.nevents + 1) as u64;
        self.interrupts.lemma_later_wf(EventClass::Interrupt, self.nevents, later);
        self.exceptions.lemma_later_wf(EventClass::Exception, self.nevents, later);
        self.scheduling.lemma_later_wf(EventClass::Scheduling, self.nevents, later);
    }

    /// A registry request leaves the event manager well formed, whatever its
    /// arguments, and changes nothing that is pending nor the count of
    /// occurrences.
    pub proof fn lemma_do_evctrl_wf(
        self,
        pid: Option<ProcessIdentifier>,
        capabilities: Result<Set<Capability>, ErrorCode>,
        event: Event,
        request: EventCtrlRequest,
    )
        requires
            self.wf(),
        ensures
            self.do_evctrl(pid, capabilities, event, request).1.wf(),
            self.do_evctrl(pid, capabilities, event, request).1.nevents == self.nevents,
            self.do_evctrl(pid, capabilities, event, request).1.interrupts.pending
                == self.interrupts.pending,
            self.do_evctrl(pid, capabilities, event, request).1.exceptions.pending
                == self.exceptions.pending,
            self.do_evctrl(pid, capabilities, event, request).1.scheduling.pending
                == self.scheduling.pending,
    {
        let capable = holds(capabilities, capability_for(event.spec_class()));
        let slot = event.spec_index();
        self.interrupts.lemma_evctrl_wf(
            EventClass::Interrupt,
            self.nevents,
            pid,
            capable,
            slot,
            request,
        );
        self.exceptions.lemma_evctrl_wf(
            EventClass::Exception,
            self.nevents,
            pid,
            capable,
            slot,
            request,
        );
        self.scheduling.lemma_evctrl_wf(
            EventClass::Scheduling,
            self.nevents,
            pid,
            capable,
            slot,
            request,
        );
    }

    /// What `select` finds is a slot of its class with something pending.
    pub proof fn lemma_select(self, waited: WaitSetView)
        requires
            self.wf(),
        ensures
            match self.select(waited) {
                Some((EventClass::Interrupt, slot)) => 0 <= slot < self.interrupts.pending.len()
                    && self.interrupts.pending[slot].len() > 0 && waited.interrupts.contains(slot),
                Some((EventClass::Exception, slot)) => 0 <= slot < self.exceptions.pending.len()
                    && self.exceptions.pending[slot].len() > 0 && waited.exceptions.contains(slot),
                Some((EventClass::Scheduling, slot)) => 0 <= slot < self.scheduling.pending.len()
                    && self.scheduling.pending[slot].len() > 0 && waited.scheduling.contains(slot),
                None => true,
            },
    {
        lemma_first_from(
            self.interrupts.ready(waited.interrupts),
            0,
            self.interrupts.pending.len() as int,
        );
        lemma_first_from(
            self.exceptions.ready(waited.exceptions),
            0,
            self.exceptions.pending.len() as int,
        );
        lemma_first_from(
            self.scheduling.ready(waited.scheduling),
            0,
            self.scheduling.pending.len() as int,
        );
    }

    /// A poll leaves the event manager well formed.
    pub proof fn lemma_try_wait_wf(
        self,
        pid: ProcessIdentifier,
        waited: WaitSetView,
        mailbox: Seq<MessageView>,
    )
        requires
            self.wf(),
        ensures
            self.try_wait(pid, waited, mailbox).state.wf(),
            self.try_wait(pid, waited, mailbox).state.nevents == self.nevents,
    {
        self.lemma_select(waited);
        match self.select(waited) {
            Some((EventClass::Interrupt, slot)) => {
                self.interrupts.lemma_pop_wf(EventClass::Interrupt, self.nevents, slot);
            },
            Some((EventClass::Exception, slot)) => {
                self.exceptions.lemma_rotate_wf(EventClass::Exception, self.nevents, slot);
                let after = self.exceptions.rotate(slot);
                let count = self.exceptions.pending[slot].len() as int;
                assert forall|other: int, at: int|
                    0 <= other < after.pending.len() && 0 <= at < after.pending[other].len()
                    implies (#[trigger] after.pending[other][at]).payload.resume.0
                    == after.pending[other][at].descriptor.sequence by {
                    if other == slot {
                        let from = if at + 1 < count {
                            at + 1
                        } else {
                            0
                        };
                        assert(after.pending[other][at] == self.exceptions.pending[slot][from]);
                    } else {
                        assert(after.pending[other][at] == self.exceptions.pending[other][at]);
                    }
                }
            },
            Some((EventClass::Scheduling, slot)) => {
                self.scheduling.lemma_pop_wf(EventClass::Scheduling, self.nevents, slot);
            },
            None => {},
        }
    }

    /// The lowest bit of a mask names a slot of a word-wide table.
    pub proof fn lemma_lowest_bit(mask: usize)
        ensures
            lowest_bit(mask) matches Some(slot) ==> 0 <= slot < usize::BITS && mask_has(
                mask,
                slot,
            ),
    {
        lemma_first_from(|bit: int| mask_has(mask, bit), 0, usize::BITS as int);
    }

    /// The injection of an interrupt leaves the event manager well formed.
    pub proof fn lemma_wakeup_interrupt_wf(self, mask: usize)
        requires
            self.wf(),
            self.has_room(),
        ensures
            self.wakeup_interrupt(mask).1.wf(),
    {
        self.lemma_counted_wf();
        ManagerView::lemma_lowest_bit(mask);
        if let Some(slot) = lowest_bit(mask) {
            self.interrupts.lemma_push_wf(EventClass::Interrupt, self.nevents, slot, ());
        }
    }

    /// The injection of an exception leaves the event manager well formed.
    pub proof fn lemma_wakeup_exception_wf(
        self,
        mask: usize,
        pid: ProcessIdentifier,
        info: ExceptionInformation,
    )
        requires
            self.wf(),
            self.has_room(),
        ensures
            self.wakeup_exception(mask, pid, info).1.wf(),
    {
        self.lemma_counted_wf();
        ManagerView::lemma_lowest_bit(mask);
        if let Some(slot) = lowest_bit(mask) {
            self.exceptions.lemma_push_wf(
                EventClass::Exception,
                self.nevents,
                slot,
                ExceptionEventInformation {
                    pid,
                    info,
                    resume: ResumeHandle((self.nevents + 1) as u64),
                },
            );
            let after = self.wakeup_exception(mask, pid, info).1.exceptions;
            assert forall|other: int, at: int|
                0 <= other < after.pending.len() && 0 <= at < after.pending[other].len() implies (
            #[trigger] after.pending[other][at]).payload.resume.0
                == after.pending[other][at].descriptor.sequence by {
                if other == slot && at < self.exceptions.pending[slot].len() {
                    assert(after.pending[other][at] == self.exceptions.pending[slot][at]);
                } else if other != slot {
                    assert(after.pending[other][at] == self.exceptions.pending[other][at]);
                }
            }
        }
    }

    /// The notification of a termination leaves the event manager well
    /// formed.
    pub proof fn lemma_notify_process_termination_wf(self, info: ProcessTerminationInfo)
        requires
            self.wf(),
            self.has_room(),
        ensures
            self.notify_process_termination(info).1.wf(),
    {
        self.lemma_counted_wf();
        self.scheduling.lemma_push_wf(EventClass::Scheduling, self.nevents, 0, info);
    }

    /// An acknowledgement leaves the event manager well formed.
    pub proof fn lemma_resume_wf(self, descriptor: EventDescriptor)
        requires
            self.wf(),
        ensures
            self.resume(descriptor).1.wf(),
            self.resume(descriptor).1.nevents == self.nevents,
    {
        if let Event::Exception(vector) = descriptor.event {
            let slot = vector.0 as int;
            if slot < self.exceptions.pending.len() {
                let named = |at: int| self.exceptions.pending[slot][at].descriptor == descriptor;
                lemma_first_from(named, 0, self.exceptions.pending[slot].len() as int);
                if let Some(at) = self.exceptions.position(slot, descriptor) {
                    self.exceptions.lemma_remove_wf(EventClass::Exception, self.nevents, slot, at);
                    let after = self.exceptions.remove(slot, at);
                    assert forall|other: int, place: int|
                        0 <= other < after.pending.len() && 0 <= place
                            < after.pending[other].len() implies (
                    #[trigger] after.pending[other][place]).payload.resume.0
                        == after.pending[other][place].descriptor.sequence by {
                        if other == slot {
                            let from = if place < at {
                                place
                            } else {
                                place + 1
                            };
                            assert(after.pending[other][place]
                                == self.exceptions.pending[slot][from]);
                        } else {
                            assert(after.pending[other][place]
                                == self.exceptions.pending[other][place]);
                        }
                    }
                }
            }
        }
    }
}

} // verus!

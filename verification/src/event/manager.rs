//! The event manager: who owns which event, what is pending for whom, and
//! what a waiting process is handed next.

use crate::error::{failed, outcome, Error, ErrorCode};
use crate::event::mask::{mask_lowest, mask_of, mask_set, single_bit};
use crate::event::model::{
    class_of_turn, holds, ExceptionAction, ManagerView, ResumeAction, WaitSetView,
};
use crate::event::table::EventTable;
use crate::event::{
    Event, EventClass, EventCtrlRequest, EventDescriptor, EventInformation, ExceptionEvent,
    ExceptionEventInformation, ExceptionInformation, InterruptEvent, PendingEvent,
    ProcessTerminationInfo, ResumeHandle, SchedulingEvent,
};
use crate::ipc::mailbox::Mailbox;
use crate::ipc::Message;
use crate::pm::process::capability::Capabilities;
use crate::pm::{Capability, ProcessIdentifier};
use vstd::prelude::*;

verus! {

/// The slots that a process waits for, class by class, each class as the
/// bits of a word.
#[derive(Clone, Copy, Debug, PartialEq, Eq, Structural)]
pub struct WaitSet {
    /// The interrupt lines.
    pub interrupts: usize,
    /// The exception vectors.
    pub exceptions: usize,
    /// The kinds of scheduling notifications.
    pub scheduling: usize,
}

impl View for WaitSet {
    type V = WaitSetView;

    open spec fn view(&self) -> WaitSetView {
        WaitSetView {
            interrupts: mask_set(self.interrupts),
            exceptions: mask_set(self.exceptions),
            scheduling: mask_set(self.scheduling),
        }
    }
}

/// How one step of a wait ends.
#[derive(Clone, Copy, Debug, PartialEq, Eq)]
pub enum WaitStep {
    /// A message is ready: the wait is over.
    Deliver(Message),
    /// Nothing is ready: suspend the process until it is woken, then take
    /// the next step with the same set.
    Suspend(WaitSet),
}

/// What the look-up of the capabilities of a process came to, as a
/// mathematical value: the set of its capabilities, or the code of the
/// failure.
pub open spec fn held(capabilities: Result<Capabilities, Error>) -> Result<
    Set<Capability>,
    ErrorCode,
> {
    match capabilities {
        Ok(looked_up) => Ok(looked_up@),
        Err(error) => Err(error.code),
    }
}

/// Answers the question whether a process holds a capability from what the
/// look-up of its capabilities came to.
pub fn has_capability(capabilities: Result<Capabilities, Error>, capability: Capability) -> (answer:
    Result<bool, Error>)
    ensures
        outcome(answer) == holds(held(capabilities), capability),
        capabilities matches Err(error) ==> answer == Err::<bool, Error>(error),
{
    match capabilities {
        Ok(looked_up) => Ok(looked_up.has(capability)),
        Err(error) => Err(error),
    }
}

/// The state of the event manager.
#[derive(Debug)]
pub struct EventManagerInner {
    interrupt_capable: bool,
    nevents: u64,
    interrupts: EventTable<()>,
    exceptions: EventTable<ExceptionEventInformation>,
    scheduling: EventTable<ProcessTerminationInfo>,
}

impl View for EventManagerInner {
    type V = ManagerView;

    closed spec fn view(&self) -> ManagerView {
        ManagerView {
            interrupt_capable: self.interrupt_capable,
            nevents: self.nevents,
            interrupts: self.interrupts@,
            exceptions: self.exceptions@,
            scheduling: self.scheduling@,
        }
    }
}

impl EventManagerInner {
    /// Sets the event manager up: nothing owned, nothing pending.
    pub fn new(interrupt_capable: bool) -> (inner: EventManagerInner)
        ensures
            inner@ == ManagerView::init(interrupt_capable),
            inner@.wf(),
    {
        proof {
            ManagerView::lemma_init_wf(interrupt_capable);
        }
        EventManagerInner {
            interrupt_capable,
            nevents: 0,
            interrupts: EventTable::new(usize::BITS as usize),
            exceptions: EventTable::new(usize::BITS as usize),
            scheduling: EventTable::new(SchedulingEvent::NUMBER_EVENTS),
        }
    }

    /// Says whether an interrupt controller is present.
    pub fn is_interrupt_capable(&self) -> (capable: bool)
        ensures
            capable == self@.interrupt_capable,
    {
        self.interrupt_capable
    }

    /// Returns the number of occurrences injected so far.
    pub fn nevents(&self) -> (nevents: u64)
        ensures
            nevents == self@.nevents,
    {
        self.nevents
    }

    /// Returns the owner of an event, if the event exists and has one.
    pub fn owner(&self, event: &Event) -> (owner: Option<ProcessIdentifier>)
        requires
            self@.wf(),
        ensures
            event.spec_is_valid() ==> owner == self@.owner(*event),
            !event.spec_is_valid() ==> owner is None,
    {
        if !event.is_valid() {
            return None;
        }
        match event {
            Event::Interrupt(_) => self.interrupts.owner(event.index()),
            Event::Exception(_) => self.exceptions.owner(event.index()),
            Event::Scheduling(_) => self.scheduling.owner(event.index()),
        }
    }

    /// Returns the descriptors of the occurrences that are pending on an
    /// event, in the order of delivery. Nothing is pending on an event that
    /// does not exist.
    pub fn pending(&self, event: &Event) -> (pending: Vec<EventDescriptor>)
        requires
            self@.wf(),
        ensures
            event.spec_is_valid() ==> pending@ == self@.pending(*event),
            !event.spec_is_valid() ==> pending@.len() == 0,
    {
        if !event.is_valid() {
            return Vec::new();
        }
        match event {
            Event::Interrupt(_) => self.interrupts.descriptors(event.index()),
            Event::Exception(_) => self.exceptions.descriptors(event.index()),
            Event::Scheduling(_) => self.scheduling.descriptors(event.index()),
        }
    }

    /// Carries out a registry request on an interrupt.
    pub fn do_evctrl_interrupt(
        &mut self,
        pid: Option<ProcessIdentifier>,
        capabilities: Result<Capabilities, Error>,
        ev: InterruptEvent,
        req: EventCtrlRequest,
    ) -> (result: Result<(), Error>)
        requires
            old(self)@.wf(),
        ensures
            final(self)@.wf(),
            outcome(result) == old(self)@.do_evctrl(pid, held(capabilities), Event::Interrupt(ev), req).0,
            final(self)@ == old(self)@.do_evctrl(pid, held(capabilities), Event::Interrupt(ev), req).1,
    {
        proof {
            old(self)@.lemma_do_evctrl_wf(pid, held(capabilities), Event::Interrupt(ev), req);
        }
        let capable = has_capability(capabilities, Capability::InterruptControl);
        self.interrupts.evctrl(pid, capable, ev.0 as usize, req)
    }

    /// Carries out a registry request on an exception.
    pub fn do_evctrl_exception(
        &mut self,
        pid: Option<ProcessIdentifier>,
        capabilities: Result<Capabilities, Error>,
        ev: ExceptionEvent,
        req: EventCtrlRequest,
    ) -> (result: Result<(), Error>)
        requires
            old(self)@.wf(),
        ensures
            final(self)@.wf(),
            outcome(result) == old(self)@.do_evctrl(pid, held(capabilities), Event::Exception(ev), req).0,
            final(self)@ == old(self)@.do_evctrl(pid, held(capabilities), Event::Exception(ev), req).1,
    {
        proof {
            old(self)@.lemma_do_evctrl_wf(pid, held(capabilities), Event::Exception(ev), req);
        }
        let capable = has_capability(capabilities, Capability::ExceptionControl);
        self.exceptions.evctrl(pid, capable, ev.0 as usize, req)
    }

    /// Carries out a registry request on a scheduling notification.
    pub fn do_evctrl_scheduling(
        &mut self,
        pid: Option<ProcessIdentifier>,
        capabilities: Result<Capabilities, Error>,
        ev: SchedulingEvent,
        req: EventCtrlRequest,
    ) -> (result: Result<(), Error>)
        requires
            old(self)@.wf(),
        ensures
            final(self)@.wf(),
            outcome(result) == old(self)@.do_evctrl(pid, held(capabilities), Event::Scheduling(ev), req).0,
            final(self)@ == old(self)@.do_evctrl(pid, held(capabilities), Event::Scheduling(ev), req).1,
    {
        proof {
            old(self)@.lemma_do_evctrl_wf(pid, held(capabilities), Event::Scheduling(ev), req);
        }
        let capable = has_capability(capabilities, Capability::ProcessManagement);
        self.scheduling.evctrl(pid, capable, ev.index(), req)
    }

    /// Carries out a registry request on an event of any class.
    pub fn do_evctrl(
        &mut self,
        pid: Option<ProcessIdentifier>,
        capabilities: Result<Capabilities, Error>,
        ev: Event,
        req: EventCtrlRequest,
    ) -> (result: Result<(), Error>)
        requires
            old(self)@.wf(),
        ensures
            final(self)@.wf(),
            outcome(result) == old(self)@.do_evctrl(pid, held(capabilities), ev, req).0,
            final(self)@ == old(self)@.do_evctrl(pid, held(capabilities), ev, req).1,
    {
        match ev {
            Event::Interrupt(line) => self.do_evctrl_interrupt(pid, capabilities, line, req),
            Event::Exception(vector) => self.do_evctrl_exception(pid, capabilities, vector, req),
            Event::Scheduling(kind) => self.do_evctrl_scheduling(pid, capabilities, kind, req),
        }
    }

    /// Returns the slots that a process owns.
    pub fn owned_by(&self, pid: ProcessIdentifier) -> (owned: WaitSet)
        requires
            self@.wf(),
        ensures
            owned@ == self@.owned_by(pid),
    {
        WaitSet {
            interrupts: self.interrupts.owned_mask(pid),
            exceptions: self.exceptions.owned_mask(pid),
            scheduling: self.scheduling.owned_mask(pid),
        }
    }

    /// Polls once for an event to deliver to a process that waits for the
    /// given slots: the next event in the order of the rotation, if one is
    /// ready.
    pub fn try_wait_event(
        &mut self,
        pid: ProcessIdentifier,
        interrupts: usize,
        exceptions: usize,
        scheduling: usize,
    ) -> (message: Option<Message>)
        requires
            old(self)@.wf(),
        ensures
            final(self)@.wf(),
            ({
                let waited = (WaitSet { interrupts, exceptions, scheduling })@;
                let after = old(self)@.try_wait(pid, waited, Seq::empty());
                &&& final(self)@ == after.state
                &&& match message {
                    Some(message) => after.message == Some(message@),
                    None => after.message is None,
                }
                &&& message is Some <==> old(self)@.select(waited) is Some
            }),
    {
        let ghost waited = (WaitSet { interrupts, exceptions, scheduling })@;
        proof {
            old(self)@.lemma_try_wait_wf(pid, waited, Seq::empty());
        }
        let turn: u8 = (self.nevents % 3) as u8;
        let mut step: u8 = 0;
        while step < 3
            invariant
                step <= 3,
                turn == self.nevents % 3,
                self == old(self),
                waited == (WaitSet { interrupts, exceptions, scheduling })@,
                self@.wf(),
                forall|before: int|
                    0 <= before < step ==> self@.ready_in(#[trigger] self@.turn(before), waited)
                        is None,
            decreases 3 - step,
        {
            let class = (turn + step) % 3;
            assert(class_of_turn(self.nevents + step) == class_of_turn(class as int));
            if class == 0 {
                if let Some(slot) = self.interrupts.first_ready(interrupts) {
                    assert(self@.select(waited) == Some((EventClass::Interrupt, slot as int)));
                    let _ = self.interrupts.pop(slot);
                    return Some(Message::interrupt(pid));
                }
            } else if class == 1 {
                if let Some(slot) = self.exceptions.first_ready(exceptions) {
                    assert(self@.select(waited) == Some((EventClass::Exception, slot as int)));
                    let entry = self.exceptions.pop(slot);
                    let info = EventInformation::of(entry.descriptor.sequence, &entry.payload);
                    let message = Message::exception(pid, &info);
                    self.exceptions.push(slot, entry);
                    assert(self.exceptions@.pending =~= old(self).exceptions@.rotate(
                        slot as int,
                    ).pending);
                    return Some(message);
                }
            } else {
                if let Some(slot) = self.scheduling.first_ready(scheduling) {
                    assert(self@.select(waited) == Some((EventClass::Scheduling, slot as int)));
                    let entry = self.scheduling.pop(slot);
                    return Some(Message::scheduling(pid, &entry.payload));
                }
            }
            step = step + 1;
        }
        assert(self@.select(waited) is None);
        None
    }

    /// Polls once for something to deliver to a process that waits for the
    /// given slots: the next event in the order of the rotation, or else the
    /// oldest message of its mailbox.
    ///
    /// `mailbox` is what the look-up of the mailbox of the process came to.
    /// It is looked at only where no event is ready: there, a look-up that
    /// failed is the failure of the poll.
    pub fn try_wait(
        &mut self,
        pid: ProcessIdentifier,
        interrupts: usize,
        exceptions: usize,
        scheduling: usize,
        mailbox: Result<&mut Mailbox, Error>,
    ) -> (result: Result<Option<Message>, Error>)
        requires
            old(self)@.wf(),
        ensures
            final(self)@.wf(),
            ({
                let waited = (WaitSet { interrupts, exceptions, scheduling })@;
                match mailbox {
                    Ok(messages) => {
                        let after = old(self)@.try_wait(pid, waited, messages@);
                        &&& final(self)@ == after.state
                        &&& final(messages)@ == after.mailbox
                        &&& match result {
                            Ok(Some(message)) => after.message == Some(message@),
                            Ok(None) => after.message is None,
                            Err(_) => false,
                        }
                    },
                    Err(error) => {
                        let after = old(self)@.try_wait(pid, waited, Seq::empty());
                        &&& final(self)@ == after.state
                        &&& match after.message {
                            Some(event) => result matches Ok(Some(message)) && message@ == event,
                            None => result == Err::<Option<Message>, Error>(error),
                        }
                    },
                }
            }),
    {
        match self.try_wait_event(pid, interrupts, exceptions, scheduling) {
            Some(message) => Ok(Some(message)),
            None => match mailbox {
                Ok(messages) => Ok(messages.receive()),
                Err(error) => Err(error),
            },
        }
    }

    /// Acknowledges a pending exception.
    pub fn resume_exception(&mut self, descriptor: &EventDescriptor) -> (result: Result<
        ResumeAction,
        Error,
    >)
        requires
            old(self)@.wf(),
            descriptor.event is Exception,
        ensures
            final(self)@.wf(),
            outcome(result) == old(self)@.resume(*descriptor).0,
            final(self)@ == old(self)@.resume(*descriptor).1,
    {
        proof {
            old(self)@.lemma_resume_wf(*descriptor);
        }
        let slot = descriptor.event.index();
        if slot >= self.exceptions.slots() {
            return Err(Error::new(ErrorCode::InvalidArgument, "no such exception"));
        }
        let owner = self.exceptions.owner(slot);
        match self.exceptions.take(slot, descriptor) {
            None => Ok(ResumeAction::Nothing),
            Some(entry) => match owner {
                Some(owner) => Ok(ResumeAction::Unpark { resume: entry.payload.resume, owner }),
                None => Ok(
                    ResumeAction::Terminate { pid: entry.payload.pid, resume: entry.payload.resume },
                ),
            },
        }
    }

    /// Acknowledges an occurrence.
    pub fn resume(&mut self, descriptor: &EventDescriptor) -> (result: Result<ResumeAction, Error>)
        requires
            old(self)@.wf(),
        ensures
            final(self)@.wf(),
            outcome(result) == old(self)@.resume(*descriptor).0,
            final(self)@ == old(self)@.resume(*descriptor).1,
    {
        match descriptor.event {
            Event::Interrupt(_) => Ok(ResumeAction::Nothing),
            Event::Exception(_) => self.resume_exception(descriptor),
            Event::Scheduling(_) => Ok(ResumeAction::Nothing),
        }
    }

    /// Takes an interrupt in: counts it, enqueues it on the lowest line of
    /// the mask, and returns the owner to wake.
    pub fn wakeup_interrupt(&mut self, interrupts: usize) -> (result: Result<
        ProcessIdentifier,
        Error,
    >)
        requires
            old(self)@.wf(),
            old(self)@.has_room(),
        ensures
            final(self)@.wf(),
            outcome(result) == old(self)@.wakeup_interrupt(interrupts).0,
            final(self)@ == old(self)@.wakeup_interrupt(interrupts).1,
    {
        proof {
            old(self)@.lemma_wakeup_interrupt_wf(interrupts);
        }
        if !self.interrupt_capable {
            return Err(
                Error::new(ErrorCode::OperationNotSupported, "no interrupt controller is present"),
            );
        }
        self.nevents = self.nevents + 1;
        let slot = match mask_lowest(interrupts) {
            Some(slot) => slot,
            None => {
                return Err(Error::new(ErrorCode::InvalidArgument, "no interrupt line is named"));
            },
        };
        let owner = match self.interrupts.owner(slot) {
            Some(owner) => owner,
            None => {
                return Err(Error::new(ErrorCode::NoSuchProcess, "no owner for interrupt"));
            },
        };
        let descriptor = EventDescriptor::new(
            self.nevents,
            Event::Interrupt(InterruptEvent(slot as u8)),
        );
        self.interrupts.push(slot, PendingEvent { descriptor, payload: () });
        Ok(owner)
    }

    /// Takes an exception in: counts it, enqueues it on the lowest vector of
    /// the mask, and returns what becomes of the faulting process.
    pub fn wakeup_exception(
        &mut self,
        exceptions: usize,
        pid: ProcessIdentifier,
        info: &ExceptionInformation,
    ) -> (result: Result<ExceptionAction, Error>)
        requires
            old(self)@.wf(),
            old(self)@.has_room(),
        ensures
            final(self)@.wf(),
            outcome(result) == old(self)@.wakeup_exception(exceptions, pid, *info).0,
            final(self)@ == old(self)@.wakeup_exception(exceptions, pid, *info).1,
    {
        proof {
            old(self)@.lemma_wakeup_exception_wf(exceptions, pid, *info);
        }
        self.nevents = self.nevents + 1;
        let slot = match mask_lowest(exceptions) {
            Some(slot) => slot,
            None => {
                return Err(Error::new(ErrorCode::InvalidArgument, "no exception vector is named"));
            },
        };
        let owner = match self.exceptions.owner(slot) {
            Some(owner) => owner,
            None => {
                return Ok(ExceptionAction::Terminate { pid });
            },
        };
        let descriptor = EventDescriptor::new(
            self.nevents,
            Event::Exception(ExceptionEvent(slot as u8)),
        );
        let resume = ResumeHandle(self.nevents);
        self.exceptions.push(
            slot,
            PendingEvent {
                descriptor,
                payload: ExceptionEventInformation { pid, info: *info, resume },
            },
        );
        Ok(ExceptionAction::Park { resume, owner })
    }

    /// Puts a message into the mailbox of its destination and returns the
    /// process to wake.
    pub fn post_message(
        &mut self,
        mailbox: &mut Mailbox,
        pid: ProcessIdentifier,
        message: Message,
    ) -> (result: Result<ProcessIdentifier, Error>)
        ensures
            final(self)@ == old(self)@,
            final(mailbox)@ == old(mailbox)@.push(message@),
            result == Ok::<ProcessIdentifier, Error>(pid),
    {
        mailbox.send(message);
        Ok(pid)
    }

    /// Takes the termination of a process in: counts it, enqueues it, and
    /// returns the owner to wake.
    pub fn notify_process_termination(&mut self, info: ProcessTerminationInfo) -> (result: Result<
        ProcessIdentifier,
        Error,
    >)
        requires
            old(self)@.wf(),
            old(self)@.has_room(),
        ensures
            final(self)@.wf(),
            outcome(result) == old(self)@.notify_process_termination(info).0,
            final(self)@ == old(self)@.notify_process_termination(info).1,
    {
        proof {
            old(self)@.lemma_notify_process_termination_wf(info);
        }
        self.nevents = self.nevents + 1;
        let slot = SchedulingEvent::ProcessTermination.index();
        let descriptor = EventDescriptor::new(
            self.nevents,
            Event::Scheduling(SchedulingEvent::ProcessTermination),
        );
        self.scheduling.push(slot, PendingEvent { descriptor, payload: info });
        match self.scheduling.owner(slot) {
            Some(owner) => Ok(owner),
            None => Err(Error::new(ErrorCode::NoSuchProcess, "no owner for scheduling event")),
        }
    }
}

/// The token of an ownership. Whoever holds it has registered the event;
/// handing it back to the event manager gives the event up.
#[derive(Debug, PartialEq, Eq)]
pub struct EventOwnership {
    ev: Event,
    pid: ProcessIdentifier,
}

impl EventOwnership {
    /// The event that is owned.
    pub closed spec fn spec_event(&self) -> Event {
        self.ev
    }

    /// The process that registered the event.
    pub closed spec fn spec_owner(&self) -> ProcessIdentifier {
        self.pid
    }

    /// Returns the event that is owned.
    pub fn event(&self) -> (event: &Event)
        ensures
            *event == self.spec_event(),
    {
        &self.ev
    }

    /// Returns the process that registered the event.
    pub fn owner(&self) -> (owner: ProcessIdentifier)
        ensures
            owner == self.spec_owner(),
    {
        self.pid
    }
}

/// The event manager of the kernel: set up once, used ever after.
#[derive(Debug)]
pub struct EventManager {
    inner: Option<EventManagerInner>,
}

impl View for EventManager {
    type V = Option<ManagerView>;

    /// The state of the event manager, once it has been set up.
    closed spec fn view(&self) -> Option<ManagerView> {
        match self.inner {
            Some(inner) => Some(inner@),
            None => None,
        }
    }
}

impl EventManager {
    /// The state of the event manager, if it has been set up, is well
    /// formed.
    pub open spec fn wf(&self) -> bool {
        self@ matches Some(state) ==> state.wf()
    }

    /// One more occurrence can be counted.
    pub open spec fn spec_has_room(&self) -> bool {
        self@ matches Some(state) ==> state.has_room()
    }

    /// Makes an event manager that has not been set up yet. Every operation
    /// on it asks to try again until `init` has run.
    pub fn new() -> (manager: EventManager)
        ensures
            manager@ is None,
            manager.wf(),
    {
        EventManager { inner: None }
    }

    /// Says whether the event manager has been set up.
    pub fn is_initialized(&self) -> (initialized: bool)
        ensures
            initialized == (self@ is Some),
    {
        self.inner.is_some()
    }

    /// Says whether one more occurrence can be counted. The operations that
    /// inject an event ask for this.
    #[verifier::when_used_as_spec(spec_has_room)]
    pub fn has_room(&self) -> (room: bool)
        ensures
            room == self.spec_has_room(),
    {
        match &self.inner {
            Some(inner) => inner.nevents < u64::MAX,
            None => true,
        }
    }

    /// Returns the owner of an event, if the event manager has been set up
    /// and the event exists and has an owner.
    pub fn owner(&self, event: &Event) -> (owner: Option<ProcessIdentifier>)
        requires
            self.wf(),
        ensures
            owner == match self@ {
                Some(state) => if event.spec_is_valid() {
                    state.owner(*event)
                } else {
                    None
                },
                None => None,
            },
    {
        match &self.inner {
            Some(inner) => inner.owner(event),
            None => None,
        }
    }

    /// Returns the descriptors of the occurrences that are pending on an
    /// event, in the order of delivery. Nothing is pending before the event
    /// manager has been set up, nor on an event that does not exist.
    pub fn pending(&self, event: &Event) -> (pending: Vec<EventDescriptor>)
        requires
            self.wf(),
        ensures
            pending@ == match self@ {
                Some(state) => if event.spec_is_valid() {
                    state.pending(*event)
                } else {
                    Seq::empty()
                },
                None => Seq::empty(),
            },
    {
        match &self.inner {
            Some(inner) => {
                let pending = inner.pending(event);
                assert(!event.spec_is_valid() ==> pending@ =~= Seq::empty());
                pending
            },
            None => Vec::new(),
        }
    }

    /// Returns the number of occurrences injected so far, or nothing before
    /// the event manager has been set up.
    pub fn nevents(&self) -> (nevents: Option<u64>)
        ensures
            nevents == match self@ {
                Some(state) => Some(state.nevents),
                None => None,
            },
    {
        match &self.inner {
            Some(inner) => Some(inner.nevents),
            None => None,
        }
    }

    /// Acknowledges an occurrence, and returns what follows from it.
    ///
    /// Interrupts and scheduling notifications need no acknowledgement:
    /// nothing follows, whether the event manager has been set up or not.
    pub fn resume(&mut self, evdesc: EventDescriptor) -> (result: Result<ResumeAction, Error>)
        requires
            old(self).wf(),
        ensures
            final(self).wf(),
            !(evdesc.event is Exception) ==> result == Ok::<ResumeAction, Error>(
                ResumeAction::Nothing,
            ) && final(self)@ == old(self)@,
            evdesc.event is Exception && old(self)@ is None ==> failed(result, ErrorCode::TryAgain)
                && final(self)@ is None,
            evdesc.event is Exception ==> (old(self)@ matches Some(before) ==> outcome(result)
                == before.resume(evdesc).0 && final(self)@ == Some(before.resume(evdesc).1)),
    {
        match evdesc.event {
            Event::Interrupt(_) => Ok(ResumeAction::Nothing),
            Event::Scheduling(_) => Ok(ResumeAction::Nothing),
            Event::Exception(_) => match &mut self.inner {
                Some(inner) => inner.resume_exception(&evdesc),
                None => Err(Error::new(ErrorCode::TryAgain, "event manager is not initialized")),
            },
        }
    }

    /// Takes one step of the wait of a process.
    ///
    /// On entry (`parked` is `None`) the set of slots that the process owns
    /// is computed; a process that was suspended and woken comes back with
    /// the set it was suspended with. The step polls once: it ends the wait
    /// with a message, or suspends the process with its set.
    ///
    /// `mailbox` is what the look-up of the mailbox of the process came to.
    /// It is looked at only where no event is ready: there, a look-up that
    /// failed is the failure of the step.
    pub fn wait(
        &mut self,
        pid: ProcessIdentifier,
        parked: Option<WaitSet>,
        mailbox: Result<&mut Mailbox, Error>,
    ) -> (result: Result<WaitStep, Error>)
        requires
            old(self).wf(),
        ensures
            final(self).wf(),
            old(self)@ is None ==> failed(result, ErrorCode::TryAgain) && final(self)@ is None && (
            mailbox matches Ok(messages) ==> final(messages)@ == messages@),
            old(self)@ matches Some(before) ==> ({
                let waited = match parked {
                    Some(set) => set@,
                    None => before.owned_by(pid),
                };
                match mailbox {
                    Ok(messages) => {
                        let after = before.try_wait(pid, waited, messages@);
                        &&& final(self)@ == Some(after.state)
                        &&& final(messages)@ == after.mailbox
                        &&& match result {
                            Ok(WaitStep::Deliver(message)) => after.message == Some(message@),
                            Ok(WaitStep::Suspend(set)) => after.message is None && set@ == waited,
                            Err(_) => false,
                        }
                    },
                    Err(error) => {
                        let after = before.try_wait(pid, waited, Seq::empty());
                        &&& final(self)@ == Some(after.state)
                        &&& match after.message {
                            Some(event) => result matches Ok(WaitStep::Deliver(message))
                                && message@ == event,
                            None => result == Err::<WaitStep, Error>(error),
                        }
                    },
                }
            }),
    {
        match &mut self.inner {
            Some(inner) => {
                let set = match parked {
                    Some(set) => set,
                    None => inner.owned_by(pid),
                };
                match inner.try_wait(pid, set.interrupts, set.exceptions, set.scheduling, mailbox) {
                    Ok(Some(message)) => Ok(WaitStep::Deliver(message)),
                    Ok(None) => Ok(WaitStep::Suspend(set)),
                    Err(error) => Err(error),
                }
            },
            None => Err(Error::new(ErrorCode::TryAgain, "event manager is not initialized")),
        }
    }

    /// Registers a process as the owner of an event, or gives the event up.
    /// A registration hands out the token of the ownership.
    pub fn evctrl(
        &mut self,
        pid: ProcessIdentifier,
        capabilities: Result<Capabilities, Error>,
        ev: Event,
        req: EventCtrlRequest,
    ) -> (result: Result<Option<EventOwnership>, Error>)
        requires
            old(self).wf(),
        ensures
            final(self).wf(),
            old(self)@ is None ==> failed(result, ErrorCode::TryAgain) && final(self)@ is None,
            old(self)@ matches Some(before) ==> ({
                &&& final(self)@ == Some(before.evctrl(pid, held(capabilities), ev, req).1)
                &&& match before.evctrl(pid, held(capabilities), ev, req).0 {
                    Ok(_) => match req {
                        EventCtrlRequest::Register => result matches Ok(Some(ownership))
                            && ownership.spec_event() == ev && ownership.spec_owner() == pid,
                        EventCtrlRequest::Unregister => result matches Ok(None),
                    },
                    Err(code) => failed(result, code),
                }
            }),
    {
        match &mut self.inner {
            Some(inner) => {
                if let Event::Interrupt(_) = ev {
                    if !inner.interrupt_capable {
                        return Err(
                            Error::new(
                                ErrorCode::OperationNotSupported,
                                "no interrupt controller is present",
                            ),
                        );
                    }
                }
                match inner.do_evctrl(Some(pid), capabilities, ev, req) {
                    Ok(_) => match req {
                        EventCtrlRequest::Register => Ok(Some(EventOwnership { ev, pid })),
                        EventCtrlRequest::Unregister => Ok(None),
                    },
                    Err(error) => Err(error),
                }
            },
            None => Err(Error::new(ErrorCode::TryAgain, "event manager is not initialized")),
        }
    }

    /// Takes the token of an ownership back: the event is given up on behalf
    /// of the process that registered it. Where that process does not own the
    /// event any more, permission is denied and nothing changes.
    pub fn release(&mut self, ownership: EventOwnership) -> (result: Result<(), Error>)
        requires
            old(self).wf(),
        ensures
            final(self).wf(),
            old(self)@ is None ==> failed(result, ErrorCode::TryAgain) && final(self)@ is None,
            old(self)@ matches Some(before) ==> ({
                let released = before.do_evctrl(
                    Some(ownership.spec_owner()),
                    Ok(Set::empty()),
                    ownership.spec_event(),
                    EventCtrlRequest::Unregister,
                );
                outcome(result) == released.0 && final(self)@ == Some(released.1)
            }),
    {
        match &mut self.inner {
            Some(inner) => {
                let none = Capabilities::default();
                inner.do_evctrl(
                    Some(ownership.pid),
                    Ok(none),
                    ownership.ev,
                    EventCtrlRequest::Unregister,
                )
            },
            None => Err(Error::new(ErrorCode::TryAgain, "event manager is not initialized")),
        }
    }

    /// Puts a message into the mailbox of its destination, and returns the
    /// process to wake.
    pub fn post_message(
        &mut self,
        mailbox: &mut Mailbox,
        pid: ProcessIdentifier,
        message: Message,
    ) -> (result: Result<ProcessIdentifier, Error>)
        ensures
            final(self)@ == old(self)@,
            old(self)@ is None ==> failed(result, ErrorCode::TryAgain) && final(mailbox)@ == old(mailbox)@,
            old(self)@ is Some ==> result == Ok::<ProcessIdentifier, Error>(pid) && final(mailbox)@
                == old(mailbox)@.push(message@),
    {
        match &mut self.inner {
            Some(inner) => inner.post_message(mailbox, pid, message),
            None => Err(Error::new(ErrorCode::TryAgain, "event manager is not initialized")),
        }
    }

    /// Takes the termination of a process in, and returns the owner to wake.
    pub fn notify_process_termination(&mut self, info: ProcessTerminationInfo) -> (result: Result<
        ProcessIdentifier,
        Error,
    >)
        requires
            old(self).wf(),
            old(self).has_room(),
        ensures
            final(self).wf(),
            old(self)@ is None ==> failed(result, ErrorCode::TryAgain) && final(self)@ is None,
            old(self)@ matches Some(before) ==> outcome(result)
                == before.notify_process_termination(info).0 && final(self)@ == Some(
                before.notify_process_termination(info).1,
            ),
    {
        match &mut self.inner {
            Some(inner) => inner.notify_process_termination(info),
            None => Err(Error::new(ErrorCode::TryAgain, "event manager is not initialized")),
        }
    }
}

/// The interrupt line of the timer. The scheduler keeps it for itself.
pub const TIMER_LINE: u8 = 0;

/// Interrupts on the line are routed to the event manager: every line is,
/// but that of the timer.
pub open spec fn is_routed(line: u8) -> bool {
    line != TIMER_LINE
}

/// The lines that are routed to the event manager among the lines of the
/// interrupt controller: all of them in their order, but that of the timer,
/// and none where no controller is present.
pub open spec fn routed_lines(lines: Option<Seq<u8>>) -> Seq<u8> {
    match lines {
        Some(lines) => lines.filter(|line: u8| is_routed(line)),
        None => Seq::empty(),
    }
}

/// Sets the event manager up, once.
///
/// `lines` holds the lines of the interrupt controller, or nothing where no
/// controller is present; without one, interrupts are not supported. The
/// lines that come back are those whose interrupts are to be routed to
/// `interrupt_handler` and unmasked. A second call finds the event manager
/// busy and changes nothing.
pub fn init(manager: &mut EventManager, lines: Option<&[u8]>) -> (result: Result<Vec<u8>, Error>)
    requires
        old(manager).wf(),
    ensures
        final(manager).wf(),
        old(manager)@ is None ==> (result matches Ok(routed) && routed@ == routed_lines(
            match lines {
                Some(lines) => Some(lines@),
                None => None,
            },
        )) && final(manager)@ == Some(ManagerView::init(lines is Some)),
        old(manager)@ is Some ==> failed(result, ErrorCode::ResourceBusy) && final(manager)@ == old(manager)@,
{
    if manager.inner.is_some() {
        return Err(Error::new(ErrorCode::ResourceBusy, "event manager is already initialized"));
    }
    let mut routed: Vec<u8> = Vec::new();
    let interrupt_capable = match lines {
        Some(lines) => {
            let ghost wanted = |line: u8| is_routed(line);
            let mut at: usize = 0;
            assert(lines@.take(0) =~= Seq::<u8>::empty());
            while at < lines.len()
                invariant
                    at <= lines.len(),
                    wanted == (|line: u8| is_routed(line)),
                    routed@ == lines@.take(at as int).filter(wanted),
                decreases lines.len() - at,
            {
                proof {
                    reveal(Seq::filter);
                    assert(lines@.take(at + 1).drop_last() =~= lines@.take(at as int));
                }
                if lines[at] != TIMER_LINE {
                    routed.push(lines[at]);
                }
                at = at + 1;
            }
            assert(lines@.take(at as int) =~= lines@);
            true
        },
        None => false,
    };
    manager.inner = Some(EventManagerInner::new(interrupt_capable));
    Ok(routed)
}

/// Handles an interrupt on the given line: takes it in and returns the owner
/// to wake. A line beyond the width of a word is an invalid argument.
pub fn interrupt_handler(manager: &mut EventManager, intnum: u8) -> (result: Result<
    ProcessIdentifier,
    Error,
>)
    requires
        old(manager).wf(),
        old(manager).has_room(),
    ensures
        final(manager).wf(),
        old(manager)@ is None ==> failed(result, ErrorCode::TryAgain) && final(manager)@ is None,
        old(manager)@ matches Some(before) ==> if intnum < usize::BITS {
            outcome(result) == before.wakeup_interrupt(single_bit(intnum as int)).0 && final(manager)@ == Some(before.wakeup_interrupt(single_bit(intnum as int)).1)
        } else {
            failed(result, ErrorCode::InvalidArgument) && final(manager)@ == old(manager)@
        },
{
    match &mut manager.inner {
        Some(inner) => {
            if (intnum as u32) < usize::BITS {
                inner.wakeup_interrupt(mask_of(intnum as usize))
            } else {
                Err(Error::new(ErrorCode::InvalidArgument, "no such interrupt line"))
            }
        },
        None => Err(Error::new(ErrorCode::TryAgain, "event manager is not initialized")),
    }
}

/// Handles an exception of a process: takes it in and returns what becomes
/// of the process. A vector beyond the width of a word is an invalid
/// argument.
pub fn exception_handler(
    manager: &mut EventManager,
    pid: ProcessIdentifier,
    info: &ExceptionInformation,
) -> (result: Result<ExceptionAction, Error>)
    requires
        old(manager).wf(),
        old(manager).has_room(),
    ensures
        final(manager).wf(),
        old(manager)@ is None ==> failed(result, ErrorCode::TryAgain) && final(manager)@ is None,
        old(manager)@ matches Some(before) ==> if info.num < usize::BITS {
            outcome(result) == before.wakeup_exception(single_bit(info.num as int), pid, *info).0
                && final(manager)@ == Some(
                before.wakeup_exception(single_bit(info.num as int), pid, *info).1,
            )
        } else {
            failed(result, ErrorCode::InvalidArgument) && final(manager)@ == old(manager)@
        },
{
    match &mut manager.inner {
        Some(inner) => {
            if info.num < usize::BITS {
                inner.wakeup_exception(mask_of(info.num as usize), pid, info)
            } else {
                Err(Error::new(ErrorCode::InvalidArgument, "no such exception vector"))
            }
        },
        None => Err(Error::new(ErrorCode::TryAgain, "event manager is not initialized")),
    }
}

/// Says how a faulting process goes on once its park has ended: it runs
/// again where the park ended well, and is terminated with a negative exit
/// status where the park failed.
pub fn exception_resumed(parked: Result<(), Error>) -> (exit: Option<i32>)
    ensures
        exit == if parked is Ok {
            None
        } else {
            Some(-1i32)
        },
{
    match parked {
        Ok(_) => None,
        Err(_) => Some(-1),
    }
}

} // verus!

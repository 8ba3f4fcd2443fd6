//! The tables of one event class: who owns each slot, and what is pending
//! on it.

use crate::error::{outcome, Error, ErrorCode};
use crate::event::mask::{lemma_mask_empty, mask_set, mask_test, mask_with};
use crate::scan::{first_from, lemma_first_from_is, lemma_first_from_none};
use crate::event::{event_at, slots_of, EventClass, EventCtrlRequest, EventDescriptor, PendingEvent};
use crate::pm::ProcessIdentifier;
use std::collections::VecDeque;
use vstd::prelude::*;

verus! {

/// The tables of one event class as a mathematical value: for each slot its
/// owner, if it has one, and its pending occurrences, oldest first.
pub struct TableView<P> {
    /// The owner of each slot.
    pub owners: Seq<Option<ProcessIdentifier>>,
    /// The pending occurrences of each slot, in the order of delivery.
    pub pending: Seq<Seq<PendingEvent<P>>>,
}

impl<P> TableView<P> {
    /// Tables with the given number of slots, none of them owned and nothing
    /// pending.
    pub open spec fn empty(slots: int) -> TableView<P> {
        TableView {
            owners: Seq::new(slots as nat, |slot: int| None::<ProcessIdentifier>),
            pending: Seq::new(slots as nat, |slot: int| Seq::<PendingEvent<P>>::empty()),
        }
    }

    /// The tables have the given number of slots.
    pub open spec fn shaped(self, slots: int) -> bool {
        self.owners.len() == slots && self.pending.len() == slots
    }

    /// The tables are those of the given class at a time when `nevents`
    /// occurrences have been injected: every pending occurrence names the
    /// slot it stands in and carries a sequence number that was handed out,
    /// and no two occurrences of a slot carry the same one.
    pub open spec fn wf(self, class: EventClass, nevents: u64) -> bool {
        &&& self.shaped(slots_of(class))
        &&& forall|slot: int, at: int|
            0 <= slot < self.pending.len() && 0 <= at < self.pending[slot].len() ==> {
                &&& (#[trigger] self.pending[slot][at]).descriptor.event == event_at(class, slot)
                &&& 1 <= self.pending[slot][at].descriptor.sequence <= nevents
            }
        &&& forall|slot: int, first: int, second: int|
            0 <= slot < self.pending.len() && 0 <= first < second < self.pending[slot].len()
                ==> (#[trigger] self.pending[slot][first]).descriptor.sequence != (
            #[trigger] self.pending[slot][second]).descriptor.sequence
    }

    /// In every slot the sequence numbers grow from the head of the queue to
    /// its tail: what was enqueued first leaves first.
    pub open spec fn in_order(self) -> bool {
        forall|slot: int, first: int, second: int|
            0 <= slot < self.pending.len() && 0 <= first < second < self.pending[slot].len()
                ==> (#[trigger] self.pending[slot][first]).descriptor.sequence < (
            #[trigger] self.pending[slot][second]).descriptor.sequence
    }

    /// The slots that the process owns.
    pub open spec fn owned_by(self, pid: ProcessIdentifier) -> Set<int> {
        Set::new(|slot: int| 0 <= slot < self.owners.len() && self.owners[slot] == Some(pid))
    }

    /// The slot is waited for and something is pending on it.
    pub open spec fn ready(self, waited: Set<int>) -> spec_fn(int) -> bool {
        |slot: int| waited.contains(slot) && self.pending[slot].len() > 0
    }

    /// The lowest slot that is waited for and has something pending.
    pub open spec fn first_ready(self, waited: Set<int>) -> Option<int> {
        first_from(self.ready(waited), 0, self.pending.len() as int)
    }

    /// The tables with the owner of one slot replaced.
    pub open spec fn with_owner(self, slot: int, owner: Option<ProcessIdentifier>) -> TableView<P> {
        TableView { owners: self.owners.update(slot, owner), pending: self.pending }
    }

    /// The tables with the queue of one slot replaced.
    pub open spec fn with_queue(self, slot: int, queue: Seq<PendingEvent<P>>) -> TableView<P> {
        TableView { owners: self.owners, pending: self.pending.update(slot, queue) }
    }

    /// The tables with one more occurrence at the tail of a slot.
    pub open spec fn push(self, slot: int, entry: PendingEvent<P>) -> TableView<P> {
        self.with_queue(slot, self.pending[slot].push(entry))
    }

    /// The tables without the head of a slot.
    pub open spec fn pop(self, slot: int) -> TableView<P> {
        self.with_queue(slot, self.pending[slot].drop_first())
    }

    /// The tables with the head of a slot moved to its tail.
    pub open spec fn rotate(self, slot: int) -> TableView<P> {
        self.with_queue(slot, self.pending[slot].drop_first().push(self.pending[slot][0]))
    }

    /// The place in the queue of a slot of the first occurrence that the
    /// descriptor names.
    pub open spec fn position(self, slot: int, descriptor: EventDescriptor) -> Option<int> {
        first_from(
            |at: int| self.pending[slot][at].descriptor == descriptor,
            0,
            self.pending[slot].len() as int,
        )
    }

    /// The tables without the occurrence at the given place of a slot.
    pub open spec fn remove(self, slot: int, at: int) -> TableView<P> {
        self.with_queue(slot, self.pending[slot].remove(at))
    }

    /// What a registry request does to the tables, and how it ends.
    ///
    /// A slot that does not exist is an invalid argument. To register, a
    /// process must be named, must hold the capability of the class, and must
    /// find the slot free. `capable` is what the question whether the process
    /// holds the capability came to: it is looked at for a registration
    /// alone, and where the question failed, its failure is that of the
    /// request. To unregister, a process that is named must be the owner;
    /// where none is named the slot is cleared whoever owns it.
    pub open spec fn evctrl(
        self,
        pid: Option<ProcessIdentifier>,
        capable: Result<bool, ErrorCode>,
        slot: int,
        request: EventCtrlRequest,
    ) -> (Result<(), ErrorCode>, TableView<P>) {
        if !(0 <= slot < self.owners.len()) {
            (Err(ErrorCode::InvalidArgument), self)
        } else {
            match request {
                EventCtrlRequest::Register => match pid {
                    None => (Err(ErrorCode::InvalidArgument), self),
                    Some(process) => match capable {
                        Err(code) => (Err(code), self),
                        Ok(held) => if !held {
                            (Err(ErrorCode::PermissionDenied), self)
                        } else if self.owners[slot] is Some {
                            (Err(ErrorCode::ResourceBusy), self)
                        } else {
                            (Ok(()), self.with_owner(slot, Some(process)))
                        },
                    },
                },
                EventCtrlRequest::Unregister => if pid is Some && self.owners[slot] != pid {
                    (Err(ErrorCode::PermissionDenied), self)
                } else {
                    (Ok(()), self.with_owner(slot, None))
                },
            }
        }
    }
}

impl<P> TableView<P> {
    /// Empty tables are well formed at any time.
    pub proof fn lemma_empty_wf(class: EventClass, nevents: u64)
        ensures
            TableView::<P>::empty(slots_of(class)).wf(class, nevents),
            TableView::<P>::empty(slots_of(class)).in_order(),
    {
    }

    /// Tables that are well formed stay so as more occurrences are counted.
    pub proof fn lemma_later_wf(self, class: EventClass, nevents: u64, later: u64)
        requires
            self.wf(class, nevents),
            nevents <= later,
        ensures
            self.wf(class, later),
    {
    }

    /// A change of owner leaves the tables well formed.
    pub proof fn lemma_with_owner_wf(
        self,
        class: EventClass,
        nevents: u64,
        slot: int,
        owner: Option<ProcessIdentifier>,
    )
        requires
            self.wf(class, nevents),
            0 <= slot < self.owners.len(),
        ensures
            self.with_owner(slot, owner).wf(class, nevents),
            self.in_order() ==> self.with_owner(slot, owner).in_order(),
    {
    }

    /// A registry request leaves the tables well formed, and touches nothing
    /// that is pending.
    pub proof fn lemma_evctrl_wf(
        self,
        class: EventClass,
        nevents: u64,
        pid: Option<ProcessIdentifier>,
        capable: Result<bool, ErrorCode>,
        slot: int,
        request: EventCtrlRequest,
    )
        requires
            self.wf(class, nevents),
        ensures
            self.evctrl(pid, capable, slot, request).1.wf(class, nevents),
            self.evctrl(pid, capable, slot, request).1.pending == self.pending,
            self.in_order() ==> self.evctrl(pid, capable, slot, request).1.in_order(),
    {
        if 0 <= slot < self.owners.len() {
            self.lemma_with_owner_wf(class, nevents, slot, pid);
            self.lemma_with_owner_wf(class, nevents, slot, None);
        }
    }

    /// The next occurrence, enqueued with the next sequence number, leaves
    /// the tables well formed and in order.
    pub proof fn lemma_push_wf(self, class: EventClass, nevents: u64, slot: int, payload: P)
        requires
            self.wf(class, nevents),
            nevents < u64::MAX,
            0 <= slot < self.pending.len(),
        ensures
            self.push(
                slot,
                PendingEvent {
                    descriptor: EventDescriptor {
                        sequence: (nevents + 1) as u64,
                        event: event_at(class, slot),
                    },
                    payload,
                },
            ).wf(class, (nevents + 1) as u64),
            self.in_order() ==> self.push(
                slot,
                PendingEvent {
                    descriptor: EventDescriptor {
                        sequence: (nevents + 1) as u64,
                        event: event_at(class, slot),
                    },
                    payload,
                },
            ).in_order(),
    {
        let entry = PendingEvent {
            descriptor: EventDescriptor {
                sequence: (nevents + 1) as u64,
                event: event_at(class, slot),
            },
            payload,
        };
        let after = self.push(slot, entry);
        assert forall|other: int, at: int|
            0 <= other < after.pending.len() && 0 <= at < after.pending[other].len() implies {
            &&& (#[trigger] after.pending[other][at]).descriptor.event == event_at(class, other)
            &&& 1 <= after.pending[other][at].descriptor.sequence <= (nevents + 1) as u64
        } by {
            if other == slot && at < self.pending[slot].len() {
                assert(after.pending[other][at] == self.pending[slot][at]);
            } else if other != slot {
                assert(after.pending[other][at] == self.pending[other][at]);
            }
        }
        assert forall|other: int, first: int, second: int|
            0 <= other < after.pending.len() && 0 <= first < second < after.pending[other].len()
            implies (#[trigger] after.pending[other][first]).descriptor.sequence != (
        #[trigger] after.pending[other][second]).descriptor.sequence by {
            if other == slot {
                assert(after.pending[other][first] == self.pending[slot][first]);
                if second < self.pending[slot].len() {
                    assert(after.pending[other][second] == self.pending[slot][second]);
                }
            } else {
                assert(after.pending[other][first] == self.pending[other][first]);
                assert(after.pending[other][second] == self.pending[other][second]);
            }
        }
        if self.in_order() {
            assert forall|other: int, first: int, second: int|
                0 <= other < after.pending.len() && 0 <= first < second
                    < after.pending[other].len() implies (
            #[trigger] after.pending[other][first]).descriptor.sequence < (
            #[trigger] after.pending[other][second]).descriptor.sequence by {
                if other == slot {
                    assert(after.pending[other][first] == self.pending[slot][first]);
                    if second < self.pending[slot].len() {
                        assert(after.pending[other][second] == self.pending[slot][second]);
                    }
                } else {
                    assert(after.pending[other][first] == self.pending[other][first]);
                    assert(after.pending[other][second] == self.pending[other][second]);
                }
            }
        }
    }

    /// Taking the head of a queue out leaves the tables well formed and in
    /// order.
    pub proof fn lemma_pop_wf(self, class: EventClass, nevents: u64, slot: int)
        requires
            self.wf(class, nevents),
            0 <= slot < self.pending.len(),
            self.pending[slot].len() > 0,
        ensures
            self.pop(slot).wf(class, nevents),
            self.in_order() ==> self.pop(slot).in_order(),
    {
        self.lemma_remove_wf(class, nevents, slot, 0);
        assert(self.pending[slot].remove(0) =~= self.pending[slot].drop_first());
    }

    /// Taking an occurrence out of a queue leaves the tables well formed and
    /// in order.
    pub proof fn lemma_remove_wf(self, class: EventClass, nevents: u64, slot: int, at: int)
        requires
            self.wf(class, nevents),
            0 <= slot < self.pending.len(),
            0 <= at < self.pending[slot].len(),
        ensures
            self.remove(slot, at).wf(class, nevents),
            self.in_order() ==> self.remove(slot, at).in_order(),
    {
        let after = self.remove(slot, at);
        let shifted = |place: int| if place < at { place } else { place + 1 };
        assert forall|other: int, place: int|
            0 <= other < after.pending.len() && 0 <= place < after.pending[other].len() implies {
            &&& (#[trigger] after.pending[other][place]).descriptor.event == event_at(class, other)
            &&& 1 <= after.pending[other][place].descriptor.sequence <= nevents
        } by {
            if other == slot {
                assert(after.pending[other][place] == self.pending[slot][shifted(place)]);
            } else {
                assert(after.pending[other][place] == self.pending[other][place]);
            }
        }
        assert forall|other: int, first: int, second: int|
            0 <= other < after.pending.len() && 0 <= first < second < after.pending[other].len()
            implies (#[trigger] after.pending[other][first]).descriptor.sequence != (
        #[trigger] after.pending[other][second]).descriptor.sequence by {
            if other == slot {
                assert(after.pending[other][first] == self.pending[slot][shifted(first)]);
                assert(after.pending[other][second] == self.pending[slot][shifted(second)]);
            } else {
                assert(after.pending[other][first] == self.pending[other][first]);
                assert(after.pending[other][second] == self.pending[other][second]);
            }
        }
        if self.in_order() {
            assert forall|other: int, first: int, second: int|
                0 <= other < after.pending.len() && 0 <= first < second
                    < after.pending[other].len() implies (
            #[trigger] after.pending[other][first]).descriptor.sequence < (
            #[trigger] after.pending[other][second]).descriptor.sequence by {
                if other == slot {
                    assert(after.pending[other][first] == self.pending[slot][shifted(first)]);
                    assert(after.pending[other][second] == self.pending[slot][shifted(second)]);
                } else {
                    assert(after.pending[other][first] == self.pending[other][first]);
                    assert(after.pending[other][second] == self.pending[other][second]);
                }
            }
        }
    }

    /// Moving the head of a queue to its tail leaves the tables well formed.
    pub proof fn lemma_rotate_wf(self, class: EventClass, nevents: u64, slot: int)
        requires
            self.wf(class, nevents),
            0 <= slot < self.pending.len(),
            self.pending[slot].len() > 0,
        ensures
            self.rotate(slot).wf(class, nevents),
    {
        let after = self.rotate(slot);
        let count = self.pending[slot].len() as int;
        let turned = |place: int| if place + 1 < count { place + 1 } else { 0 };
        assert forall|other: int, place: int|
            0 <= other < after.pending.len() && 0 <= place < after.pending[other].len() implies {
            &&& (#[trigger] after.pending[other][place]).descriptor.event == event_at(class, other)
            &&& 1 <= after.pending[other][place].descriptor.sequence <= nevents
        } by {
            if other == slot {
                assert(after.pending[other][place] == self.pending[slot][turned(place)]);
            } else {
                assert(after.pending[other][place] == self.pending[other][place]);
            }
        }
        assert forall|other: int, first: int, second: int|
            0 <= other < after.pending.len() && 0 <= first < second < after.pending[other].len()
            implies (#[trigger] after.pending[other][first]).descriptor.sequence != (
        #[trigger] after.pending[other][second]).descriptor.sequence by {
            if other == slot {
                assert(after.pending[other][first] == self.pending[slot][turned(first)]);
                assert(after.pending[other][second] == self.pending[slot][turned(second)]);
            } else {
                assert(after.pending[other][first] == self.pending[other][first]);
                assert(after.pending[other][second] == self.pending[other][second]);
            }
        }
    }

    /// In well-formed tables a descriptor names at most one pending
    /// occurrence of a slot: the place that `position` finds is the only one.
    pub proof fn lemma_position_unique(
        self,
        class: EventClass,
        nevents: u64,
        slot: int,
        descriptor: EventDescriptor,
        at: int,
    )
        requires
            self.wf(class, nevents),
            0 <= slot < self.pending.len(),
            0 <= at < self.pending[slot].len(),
            self.pending[slot][at].descriptor == descriptor,
        ensures
            self.position(slot, descriptor) == Some(at),
            forall|other: int|
                0 <= other < self.pending[slot].len() && other != at ==> (
                #[trigger] self.pending[slot][other]).descriptor != descriptor,
    {
        assert forall|other: int|
            0 <= other < self.pending[slot].len() && other != at implies (
        #[trigger] self.pending[slot][other]).descriptor != descriptor by {
            if other < at {
                assert(self.pending[slot][other].descriptor.sequence
                    != self.pending[slot][at].descriptor.sequence);
            } else {
                assert(self.pending[slot][at].descriptor.sequence
                    != self.pending[slot][other].descriptor.sequence);
            }
        }
        let named = |place: int| self.pending[slot][place].descriptor == descriptor;
        assert forall|lower: int| 0 <= lower < at implies !#[trigger] named(lower) by {
            assert(self.pending[slot][lower].descriptor != descriptor);
        }
        assert(named(at));
        lemma_first_from_is(named, 0, self.pending[slot].len() as int, at);
    }
}

/// The tables of one event class.
#[derive(Debug)]
pub struct EventTable<P> {
    owners: Vec<Option<ProcessIdentifier>>,
    pending: Vec<VecDeque<PendingEvent<P>>>,
}

impl<P> View for EventTable<P> {
    type V = TableView<P>;

    closed spec fn view(&self) -> TableView<P> {
        TableView {
            owners: self.owners@,
            pending: Seq::new(self.pending.len() as nat, |slot: int| self.pending[slot]@),
        }
    }
}

impl<P> EventTable<P> {
    /// Builds tables with the given number of slots, none of them owned and
    /// nothing pending.
    pub fn new(slots: usize) -> (table: EventTable<P>)
        ensures
            table@ == TableView::<P>::empty(slots as int),
    {
        let mut owners: Vec<Option<ProcessIdentifier>> = Vec::new();
        let mut pending: Vec<VecDeque<PendingEvent<P>>> = Vec::new();
        let mut slot: usize = 0;
        while slot < slots
            invariant
                slot <= slots,
                owners.len() == slot,
                pending.len() == slot,
                forall|at: int| 0 <= at < slot ==> owners[at] is None,
                forall|at: int| 0 <= at < slot ==> (#[trigger] pending[at])@.len() == 0,
            decreases slots - slot,
        {
            owners.push(None);
            pending.push(VecDeque::new());
            slot = slot + 1;
        }
        let table = EventTable { owners, pending };
        assert(table@.owners =~= TableView::<P>::empty(slots as int).owners);
        assert(table@.pending =~~= TableView::<P>::empty(slots as int).pending);
        table
    }

    /// Returns the number of slots.
    pub fn slots(&self) -> (slots: usize)
        requires
            self@.owners.len() == self@.pending.len(),
        ensures
            self@.shaped(slots as int),
    {
        self.owners.len()
    }

    /// Returns the owner of a slot, if it has one.
    pub fn owner(&self, slot: usize) -> (owner: Option<ProcessIdentifier>)
        requires
            slot < self@.owners.len(),
        ensures
            owner == self@.owners[slot as int],
    {
        self.owners[slot]
    }

    /// Returns the number of occurrences that are pending on a slot.
    pub fn pending_on(&self, slot: usize) -> (count: usize)
        requires
            slot < self@.pending.len(),
        ensures
            count == self@.pending[slot as int].len(),
    {
        self.pending[slot].len()
    }

    /// Returns the descriptors of the occurrences that are pending on a
    /// slot, in the order of delivery.
    pub fn descriptors(&self, slot: usize) -> (descriptors: Vec<EventDescriptor>)
        requires
            slot < self@.pending.len(),
        ensures
            descriptors@ == self@.pending[slot as int].map_values(
                |entry: PendingEvent<P>| entry.descriptor,
            ),
    {
        let mut descriptors: Vec<EventDescriptor> = Vec::new();
        let count = self.pending[slot].len();
        let mut at: usize = 0;
        while at < count
            invariant
                at <= count,
                slot < self.pending.len(),
                count == self.pending[slot as int]@.len(),
                descriptors.len() == at,
                forall|before: int|
                    0 <= before < at ==> descriptors[before]
                        == self.pending[slot as int]@[before].descriptor,
            decreases count - at,
        {
            descriptors.push(self.pending[slot][at].descriptor);
            at = at + 1;
        }
        assert(descriptors@ =~= self@.pending[slot as int].map_values(
            |entry: PendingEvent<P>| entry.descriptor,
        ));
        descriptors
    }

    /// Carries out a registry request on a slot.
    pub fn evctrl(
        &mut self,
        pid: Option<ProcessIdentifier>,
        capable: Result<bool, Error>,
        slot: usize,
        request: EventCtrlRequest,
    ) -> (result: Result<(), Error>)
        ensures
            outcome(result) == old(self)@.evctrl(pid, outcome(capable), slot as int, request).0,
            final(self)@ == old(self)@.evctrl(pid, outcome(capable), slot as int, request).1,
    {
        if slot >= self.owners.len() {
            return Err(Error::new(ErrorCode::InvalidArgument, "no such event"));
        }
        match request {
            EventCtrlRequest::Register => {
                match pid {
                    None => Err(Error::new(ErrorCode::InvalidArgument, "invalid process identifier")),
                    Some(process) => {
                        let held = match capable {
                            Ok(held) => held,
                            Err(error) => {
                                return Err(error);
                            },
                        };
                        if !held {
                            Err(
                                Error::new(
                                    ErrorCode::PermissionDenied,
                                    "process does not hold the capability to control the event",
                                ),
                            )
                        } else if self.owners[slot].is_some() {
                            Err(
                                Error::new(
                                    ErrorCode::ResourceBusy,
                                    "event is already owned by another process",
                                ),
                            )
                        } else {
                            self.owners[slot] = Some(process);
                            assert(self@ == old(self)@.with_owner(slot as int, Some(process)));
                            Ok(())
                        }
                    },
                }
            },
            EventCtrlRequest::Unregister => {
                let owner = self.owners[slot];
                let mismatch = match pid {
                    Some(process) => match owner {
                        Some(current) => current != process,
                        None => true,
                    },
                    None => false,
                };
                if mismatch {
                    Err(Error::new(ErrorCode::PermissionDenied, "process does not own the event"))
                } else {
                    self.owners[slot] = None;
                    assert(self@ == old(self)@.with_owner(slot as int, None));
                    Ok(())
                }
            },
        }
    }

    /// Returns the slots that a process owns, as the bits of a word.
    pub fn owned_mask(&self, pid: ProcessIdentifier) -> (mask: usize)
        requires
            self@.owners.len() <= usize::BITS,
        ensures
            mask_set(mask) == self@.owned_by(pid),
    {
        let mut mask: usize = 0;
        let mut slot: usize = 0;
        proof {
            lemma_mask_empty();
        }
        while slot < self.owners.len()
            invariant
                slot <= self.owners.len() <= usize::BITS,
                forall|at: int|
                    mask_set(mask).contains(at) == (0 <= at < slot && self.owners[at] == Some(
                        pid,
                    )),
            decreases self.owners.len() - slot,
        {
            let owned = match self.owners[slot] {
                Some(owner) => owner == pid,
                None => false,
            };
            if owned {
                mask = mask_with(mask, slot);
            }
            slot = slot + 1;
        }
        assert(mask_set(mask) =~= self@.owned_by(pid));
        mask
    }

    /// Returns the lowest slot among the bits of the mask on which something
    /// is pending.
    pub fn first_ready(&self, mask: usize) -> (found: Option<usize>)
        ensures
            match found {
                Some(slot) => self@.first_ready(mask_set(mask)) == Some(slot as int) && slot
                    < self@.pending.len() && self@.pending[slot as int].len() > 0,
                None => self@.first_ready(mask_set(mask)) is None,
            },
    {
        let ghost ready = self@.ready(mask_set(mask));
        let mut slot: usize = 0;
        while slot < self.pending.len()
            invariant
                slot <= self.pending.len(),
                ready == self@.ready(mask_set(mask)),
                forall|lower: int| 0 <= lower < slot ==> !#[trigger] ready(lower),
            decreases self.pending.len() - slot,
        {
            if mask_test(mask, slot) && self.pending[slot].len() > 0 {
                proof {
                    lemma_first_from_is(ready, 0, self.pending.len() as int, slot as int);
                }
                return Some(slot);
            }
            slot = slot + 1;
        }
        proof {
            lemma_first_from_none(ready, 0, self.pending.len() as int);
        }
        None
    }

    /// Puts an occurrence at the tail of the queue of a slot.
    pub fn push(&mut self, slot: usize, entry: PendingEvent<P>)
        requires
            slot < old(self)@.pending.len(),
        ensures
            final(self)@ == old(self)@.push(slot as int, entry),
    {
        self.pending[slot].push_back(entry);
        assert(self@.pending =~~= old(self)@.push(slot as int, entry).pending);
    }

    /// Takes the head of the queue of a slot out.
    pub fn pop(&mut self, slot: usize) -> (entry: PendingEvent<P>)
        requires
            slot < old(self)@.pending.len(),
            old(self)@.pending[slot as int].len() > 0,
        ensures
            entry == old(self)@.pending[slot as int][0],
            final(self)@ == old(self)@.pop(slot as int),
    {
        let popped = self.pending[slot].pop_front();
        assert(self@.pending =~~= old(self)@.pop(slot as int).pending);
        popped.unwrap()
    }

    /// Takes the first occurrence that the descriptor names out of the queue
    /// of a slot, if there is one.
    pub fn take(&mut self, slot: usize, descriptor: &EventDescriptor) -> (taken: Option<
        PendingEvent<P>,
    >)
        requires
            slot < old(self)@.pending.len(),
        ensures
            match old(self)@.position(slot as int, *descriptor) {
                Some(at) => taken == Some(old(self)@.pending[slot as int][at]) && final(self)@
                    == old(self)@.remove(slot as int, at),
                None => taken is None && final(self)@ == old(self)@,
            },
    {
        let ghost named = |at: int| self@.pending[slot as int][at].descriptor == *descriptor;
        let count = self.pending[slot].len();
        let mut at: usize = 0;
        while at < count
            invariant
                at <= count,
                slot < self.pending.len(),
                count == self.pending[slot as int]@.len(),
                self == old(self),
                named == (|at: int| self@.pending[slot as int][at].descriptor == *descriptor),
                forall|before: int| 0 <= before < at ==> !#[trigger] named(before),
            decreases count - at,
        {
            let found = {
                let entry = &self.pending[slot][at];
                entry.descriptor.sequence == descriptor.sequence && entry.descriptor.event
                    == descriptor.event
            };
            if found {
                proof {
                    lemma_first_from_is(named, 0, count as int, at as int);
                }
                let taken = self.pending[slot].remove(at);
                assert(self@.pending =~~= old(self)@.remove(slot as int, at as int).pending);
                return taken;
            }
            at = at + 1;
        }
        proof {
            lemma_first_from_none(named, 0, count as int);
        }
        None
    }
}

} // verus!

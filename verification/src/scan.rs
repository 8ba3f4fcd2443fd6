//! The lowest slot of a range that meets a condition.

use vstd::prelude::*;

verus! {

/// The lowest slot from `start` up to, and not including, `end` that meets
/// the condition, if there is one.
pub open spec fn first_from(condition: spec_fn(int) -> bool, start: int, end: int) -> Option<int>
    decreases end - start,
{
    if start >= end {
        None
    } else if condition(start) {
        Some(start)
    } else {
        first_from(condition, start + 1, end)
    }
}

/// What `first_from` finds meets the condition, lies in the range, and has
/// no slot below it in the range that meets the condition; it finds nothing
/// only where no slot of the range meets the condition.
pub proof fn lemma_first_from(condition: spec_fn(int) -> bool, start: int, end: int)
    ensures
        match first_from(condition, start, end) {
            Some(slot) => {
                &&& start <= slot < end
                &&& condition(slot)
                &&& forall|lower: int| start <= lower < slot ==> !#[trigger] condition(lower)
            },
            None => forall|slot: int| start <= slot < end ==> !#[trigger] condition(slot),
        },
    decreases end - start,
{
    if start < end && !condition(start) {
        lemma_first_from(condition, start + 1, end);
    }
}

/// A slot that meets the condition, with none below it that does, is what
/// `first_from` finds.
pub proof fn lemma_first_from_is(condition: spec_fn(int) -> bool, start: int, end: int, slot: int)
    requires
        start <= slot < end,
        condition(slot),
        forall|lower: int| start <= lower < slot ==> !#[trigger] condition(lower),
    ensures
        first_from(condition, start, end) == Some(slot),
    decreases end - start,
{
    if start < slot {
        lemma_first_from_is(condition, start + 1, end, slot);
    }
}

/// Where no slot of the range meets the condition, `first_from` finds
/// nothing.
pub proof fn lemma_first_from_none(condition: spec_fn(int) -> bool, start: int, end: int)
    requires
        forall|slot: int| start <= slot < end ==> !#[trigger] condition(slot),
    ensures
        first_from(condition, start, end) is None,
    decreases end - start,
{
    if start < end {
        lemma_first_from_none(condition, start + 1, end);
    }
}

/// Two conditions that agree on the range have the same first slot.
pub proof fn lemma_first_from_agrees(
    first: spec_fn(int) -> bool,
    second: spec_fn(int) -> bool,
    start: int,
    end: int,
)
    requires
        forall|slot: int| start <= slot < end ==> #[trigger] first(slot) == second(slot),
    ensures
        first_from(first, start, end) == first_from(second, start, end),
    decreases end - start,
{
    if start < end {
        lemma_first_from_agrees(first, second, start + 1, end);
    }
}

} // verus!

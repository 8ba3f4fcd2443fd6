//! Sets of slots held in the bits of a machine word.

use crate::scan::{first_from, lemma_first_from_is, lemma_first_from_none};
use vstd::prelude::*;

verus! {

/// The mask holds the given bit.
pub open spec fn mask_has(mask: usize, bit: int) -> bool {
    0 <= bit < usize::BITS && mask & (1usize << (bit as usize)) != 0
}

/// The bits that the mask holds, as a set.
pub open spec fn mask_set(mask: usize) -> Set<int> {
    Set::new(|bit: int| mask_has(mask, bit))
}

/// The empty mask holds no bit.
pub proof fn lemma_mask_empty()
    ensures
        forall|bit: int| !mask_has(0usize, bit),
        mask_set(0usize) == Set::<int>::empty(),
{
    assert(forall|bit: usize| bit < usize::BITS ==> 0usize & (1usize << bit) == 0)
        by (bit_vector);
    assert(mask_set(0usize) =~= Set::<int>::empty());
}

/// A mask with one more bit set holds that bit and what it held before.
pub proof fn lemma_mask_insert(mask: usize, bit: usize)
    requires
        bit < usize::BITS,
    ensures
        forall|other: int|
            mask_has((mask | (1usize << bit)), other) == (mask_has(mask, other) || other == bit),
        mask_set((mask | (1usize << bit))) == mask_set(mask).insert(bit as int),
{
    assert(forall|other: usize|
        bit < usize::BITS && other < usize::BITS ==> (((mask | (1usize << bit)) & (1usize
            << other)) != 0) == ((mask & (1usize << other)) != 0 || other == bit))
        by (bit_vector);
    assert forall|other: int|
        mask_has((mask | (1usize << bit)), other) == (mask_has(mask, other) || other == bit) by {
        if 0 <= other < usize::BITS {
            let narrowed = other as usize;
            assert((((mask | (1usize << bit)) & (1usize << narrowed)) != 0) == ((mask & (1usize
                << narrowed)) != 0 || narrowed == bit));
        }
    }
    assert(mask_set((mask | (1usize << bit))) =~= mask_set(mask).insert(bit as int));
}

/// Says whether the mask holds the given bit.
pub fn mask_test(mask: usize, bit: usize) -> (held: bool)
    ensures
        held == mask_has(mask, bit as int),
{
    if bit < usize::BITS as usize {
        (mask & (1usize << bit)) != 0
    } else {
        false
    }
}

/// Returns the mask with the given bit added.
pub fn mask_with(mask: usize, bit: usize) -> (grown: usize)
    requires
        bit < usize::BITS,
    ensures
        mask_set(grown) == mask_set(mask).insert(bit as int),
        forall|other: int| mask_has(grown, other) == (mask_has(mask, other) || other == bit),
{
    proof {
        lemma_mask_insert(mask, bit);
    }
    mask | (1usize << bit)
}

/// The mask that holds the given bit and no other.
pub open spec fn single_bit(bit: int) -> usize {
    1usize << (bit as usize)
}

/// A mask of one bit holds that bit and no other, so that bit is its lowest.
pub proof fn law_single_bit_is_lowest(bit: int)
    requires
        0 <= bit < usize::BITS,
    ensures
        forall|other: int| mask_has(single_bit(bit), other) == (other == bit),
        mask_set(single_bit(bit)) == set![bit],
        lowest_bit(single_bit(bit)) == Some(bit),
{
    let narrowed = bit as usize;
    assert(forall|other: usize|
        narrowed < usize::BITS && other < usize::BITS ==> (((1usize << narrowed) & (1usize
            << other)) != 0) == (other == narrowed)) by (bit_vector);
    assert forall|other: int| mask_has(single_bit(bit), other) == (other == bit) by {
        if 0 <= other < usize::BITS {
            let place = other as usize;
            assert((((1usize << narrowed) & (1usize << place)) != 0) == (place == narrowed));
        }
    }
    assert(mask_set(single_bit(bit)) =~= set![bit]);
    let held = |at: int| mask_has(single_bit(bit), at);
    assert(held(bit));
    assert forall|lower: int| 0 <= lower < bit implies !#[trigger] held(lower) by {
        assert(mask_has(single_bit(bit), lower) == (lower == bit));
    }
    lemma_first_from_is(held, 0, usize::BITS as int, bit);
}

/// Returns the mask that holds the given bit and no other.
pub fn mask_of(bit: usize) -> (mask: usize)
    requires
        bit < usize::BITS,
    ensures
        mask == single_bit(bit as int),
{
    1usize << bit
}

/// The lowest bit that the mask holds, if it holds any.
pub open spec fn lowest_bit(mask: usize) -> Option<int> {
    first_from(|bit: int| mask_has(mask, bit), 0, usize::BITS as int)
}

/// Returns the lowest bit that the mask holds, if it holds any.
pub fn mask_lowest(mask: usize) -> (lowest: Option<usize>)
    ensures
        match lowest {
            Some(bit) => lowest_bit(mask) == Some(bit as int) && bit < usize::BITS,
            None => lowest_bit(mask) is None,
        },
{
    let ghost held = |bit: int| mask_has(mask, bit);
    let mut bit: usize = 0;
    while bit < usize::BITS as usize
        invariant
            bit <= usize::BITS,
            held == (|bit: int| mask_has(mask, bit)),
            forall|lower: int| 0 <= lower < bit ==> !#[trigger] held(lower),
        decreases usize::BITS - bit,
    {
        if mask_test(mask, bit) {
            proof {
                lemma_first_from_is(held, 0, usize::BITS as int, bit as int);
            }
            return Some(bit);
        }
        bit = bit + 1;
    }
    proof {
        lemma_first_from_none(held, 0, usize::BITS as int);
    }
    None
}

} // verus!

//! The set of capabilities that a process holds.

use crate::pm::Capability;
use vstd::prelude::*;

verus! {

/// A set of capabilities, one bit for each.
#[derive(Clone, Copy, Debug, PartialEq, Eq, Structural)]
pub struct Capabilities(u8);

impl View for Capabilities {
    type V = Set<Capability>;

    /// The capabilities that the set holds.
    closed spec fn view(&self) -> Set<Capability> {
        Set::new(|capability: Capability| self.0 & (1u8 << capability.spec_bit()) != 0)
    }
}

impl Default for Capabilities {
    /// The empty set.
    fn default() -> (capabilities: Capabilities)
        ensures
            capabilities@ == Set::<Capability>::empty(),
    {
        proof {
            assert(forall|bit: u8| bit < 8 ==> 0u8 & (1u8 << bit) == 0) by (bit_vector);
        }
        let capabilities = Capabilities(0);
        assert(capabilities@ =~= Set::<Capability>::empty());
        capabilities
    }
}

impl Capabilities {
    /// Adds a capability to the set.
    pub fn set(&mut self, capability: Capability)
        ensures
            final(self)@ == old(self)@.insert(capability),
    {
        let bit = capability.bit();
        proof {
            let bits = self.0;
            assert(forall|other: u8|
                other < 8 && bit < 8 ==> (((bits | (1u8 << bit)) & (1u8 << other)) != 0) == ((bits & (
                1u8 << other)) != 0 || other == bit)) by (bit_vector);
        }
        self.0 |= 1u8 << bit;
        assert(self@ =~= old(self)@.insert(capability));
    }

    /// Takes a capability out of the set.
    pub fn clear(&mut self, capability: Capability)
        ensures
            final(self)@ == old(self)@.remove(capability),
    {
        let bit = capability.bit();
        proof {
            let bits = self.0;
            assert(forall|other: u8|
                other < 8 && bit < 8 ==> (((bits & !(1u8 << bit)) & (1u8 << other)) != 0) == ((bits
                    & (1u8 << other)) != 0 && other != bit)) by (bit_vector);
        }
        self.0 &= !(1u8 << bit);
        assert(self@ =~= old(self)@.remove(capability));
    }

    /// Says whether the set holds a capability.
    pub fn has(&self, capability: Capability) -> (held: bool)
        ensures
            held == self@.contains(capability),
    {
        (self.0 & (1u8 << capability.bit())) != 0
    }
}

} // verus!

//! The counting admission gate that bounds how many validation fetches are
//! in flight at once.
//!
//! A fetch may only be dispatched after `try_acquire` succeeds, and must
//! `release` its slot when it completes; well-formedness — the number of
//! slots out never exceeds the bound — is established by the constructor
//! and preserved by every operation.

use vstd::prelude::*;

verus! {

/// A counting admission gate: at most `bound` slots can be held at once.
pub struct Gate {
    bound: usize,
    in_flight: usize,
}

impl Gate {
    /// The number of slots this admission bound was created with.
    pub closed spec fn bound(&self) -> nat {
        self.bound as nat
    }

    /// The number of slots currently held.
    pub closed spec fn in_flight(&self) -> nat {
        self.in_flight as nat
    }

    /// Never more slots out than the bound.
    pub open spec fn wf(&self) -> bool {
        self.in_flight() <= self.bound()
    }

    /// A gate admitting at most `bound` concurrent holders.
    pub fn new(bound: usize) -> (g: Gate)
        requires
            bound >= 1,
        ensures
            g.wf(),
            g.bound() == bound,
            g.in_flight() == 0,
    {
        Gate { bound, in_flight: 0 }
    }

    /// Takes a slot if one is free. On success the number of holders grows
    /// by one and stays within the bound; on refusal every slot was taken
    /// and nothing changes.
    pub fn try_acquire(&mut self) -> (r: bool)
        requires
            old(self).wf(),
        ensures
            final(self).wf(),
            final(self).bound() == old(self).bound(),
            r ==> old(self).in_flight() < old(self).bound() && final(self).in_flight() == old(
                self,
            ).in_flight() + 1,
            !r ==> old(self).in_flight() == old(self).bound() && *final(self) == *old(self),
    {
        if self.in_flight < self.bound {
            self.in_flight = self.in_flight + 1;
            true
        } else {
            false
        }
    }

    /// Gives a slot back.
    pub fn release(&mut self)
        requires
            old(self).wf(),
            old(self).in_flight() >= 1,
        ensures
            final(self).wf(),
            final(self).bound() == old(self).bound(),
            final(self).in_flight() == old(self).in_flight() - 1,
    {
        self.in_flight = self.in_flight - 1;
    }
}

} // verus!

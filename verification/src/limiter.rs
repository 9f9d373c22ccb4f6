//! The concurrency limiter: admits at most the configured number of
//! simultaneously in-flight invocations. A freed slot is reusable at once,
//! and admission never blocks: a refused caller simply asks again after a
//! completion hands its slot back.
use vstd::prelude::*;

verus! {

/// Counts the invocations in flight against the configured bound. Every
/// value of this type keeps the count at or below the bound, so for any
/// bound of at least one, no interleaving of admissions and releases ever
/// holds more invocations in flight than the bound allows.
pub struct Limiter {
    active: usize,
    bound: usize,
}

impl Limiter {
    /// At most `limit` invocations in flight, and the bound is positive.
    #[verifier::type_invariant]
    spec fn bounded(self) -> bool {
        self.active <= self.bound && self.bound >= 1
    }

    /// How many invocations are in flight now.
    pub closed spec fn in_flight(self) -> nat {
        self.active as nat
    }

    /// The configured bound.
    pub closed spec fn limit(self) -> nat {
        self.bound as nat
    }

    /// A fresh limiter with the given positive bound and nothing in
    /// flight.
    pub fn new(bound: usize) -> (r: Limiter)
        requires
            bound >= 1,
        ensures
            r.in_flight() == 0,
            r.limit() == bound,
    {
        Limiter { active: 0, bound }
    }

    /// Asks for a slot. Admission succeeds exactly when a slot is free,
    /// and an admitted invocation is counted at once; either way the count
    /// stays within the bound.
    pub fn try_admit(&mut self) -> (admitted: bool)
        ensures
            admitted == (old(self).in_flight() < old(self).limit()),
            final(self).limit() == old(self).limit(),
            admitted ==> final(self).in_flight() == old(self).in_flight() + 1,
            !admitted ==> final(self).in_flight() == old(self).in_flight(),
            final(self).in_flight() <= final(self).limit(),
    {
        proof {
            use_type_invariant(&*self);
        }
        if self.active < self.bound {
            self.active = self.active + 1;
            true
        } else {
            false
        }
    }

    /// Hands one slot back; the freed slot is reusable immediately.
    pub fn release(&mut self)
        requires
            old(self).in_flight() >= 1,
        ensures
            final(self).limit() == old(self).limit(),
            final(self).in_flight() == old(self).in_flight() - 1,
            final(self).in_flight() <= final(self).limit(),
    {
        proof {
            use_type_invariant(&*self);
        }
        self.active = self.active - 1;
    }

    /// How many invocations are in flight now; never more than the bound.
    pub fn active_count(&self) -> (r: usize)
        ensures
            r == self.in_flight(),
            r <= self.limit(),
    {
        proof {
            use_type_invariant(&*self);
        }
        self.active
    }
}

} // verus!

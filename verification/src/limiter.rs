use vstd::prelude::*;

verus! {

/// Bounds the number of concurrently outstanding delivery attempts.
///
/// A slot must be held for every batch handed to the transport and released
/// on every exit path. `try_acquire` refuses a slot whenever `capacity`
/// attempts are already outstanding, so the number of concurrently held
/// slots can never exceed the capacity the limiter was created with.
pub struct AdmissionLimiter {
    capacity: usize,
    outstanding: usize,
}

impl AdmissionLimiter {
    /// Number of admission units this limiter was created with.
    pub closed spec fn capacity(self) -> usize {
        self.capacity
    }

    /// Number of admission units currently held.
    pub closed spec fn outstanding(self) -> usize {
        self.outstanding
    }

    pub closed spec fn wf(self) -> bool {
        self.outstanding <= self.capacity
    }

    pub fn new(capacity: usize) -> (l: AdmissionLimiter)
        ensures
            l.wf(),
            l.capacity() == capacity,
            l.outstanding() == 0,
    {
        AdmissionLimiter { capacity, outstanding: 0 }
    }

    /// Claims one admission unit if fewer than `capacity` are outstanding.
    ///
    /// A caller that is refused must wait for another holder to release its
    /// slot and ask again; no batch may be sent without a granted slot.
    pub fn try_acquire(&mut self) -> (granted: bool)
        requires
            old(self).wf(),
        ensures
            final(self).wf(),
            final(self).capacity() == old(self).capacity(),
            granted <==> old(self).outstanding() < old(self).capacity(),
            granted ==> final(self).outstanding() == old(self).outstanding() + 1,
            !granted ==> final(self).outstanding() == old(self).outstanding(),
    {
        if self.outstanding < self.capacity {
            self.outstanding = self.outstanding + 1;
            true
        } else {
            false
        }
    }

    /// Number of admission units currently held.
    pub fn outstanding_count(&self) -> (n: usize)
        ensures
            n == self.outstanding(),
    {
        self.outstanding
    }

    /// Returns one admission unit; callers must pair this with a successful
    /// `try_acquire` on every exit path of a delivery attempt.
    pub fn release(&mut self)
        requires
            old(self).wf(),
            old(self).outstanding() > 0,
        ensures
            final(self).wf(),
            final(self).capacity() == old(self).capacity(),
            final(self).outstanding() == old(self).outstanding() - 1,
    {
        self.outstanding = self.outstanding - 1;
    }
}

/// Law: a well-formed limiter never has more slots outstanding than its
/// capacity, so at most `capacity` send attempts are in flight at any
/// instant. `try_acquire` and `release` preserve well-formedness, so this
/// bound holds in every reachable state.
pub proof fn lemma_admission_bound(l: AdmissionLimiter)
    requires
        l.wf(),
    ensures
        l.outstanding() <= l.capacity(),
{
}

} // verus!

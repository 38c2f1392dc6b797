//! A counting semaphore: how many permits are free.
use vstd::prelude::*;

verus! {

/// A permit of a semaphore. It is given back with [`Semaphore::release`].
#[derive(Debug)]
pub struct Permit {
    _private: (),
}

/// A counting semaphore.
#[derive(Debug)]
pub struct Semaphore {
    free: usize,
    max: usize,
}

#[verifier::ext_equal]
pub struct SemaphoreView {
    pub free: usize,
    pub max: usize,
}

impl View for Semaphore {
    type V = SemaphoreView;

    closed spec fn view(&self) -> SemaphoreView {
        SemaphoreView { free: self.free, max: self.max }
    }
}

impl Semaphore {
    #[verifier::type_invariant]
    spec fn within_bounds(self) -> bool {
        self.free <= self.max
    }

    /// A semaphore with `max` permits, all of them free.
    pub fn new(max: usize) -> (r: Semaphore)
        ensures
            r@ == (SemaphoreView { free: max, max }),
    {
        Semaphore { free: max, max }
    }

    /// Takes a permit if one is free.
    pub fn try_acquire(&mut self) -> (r: Option<Permit>)
        ensures
            r is Some <==> old(self)@.free > 0,
            final(self)@ == (SemaphoreView {
                free: if old(self)@.free > 0 {
                    (old(self)@.free - 1) as usize
                } else {
                    0
                },
                ..old(self)@
            }),
    {
        proof {
            use_type_invariant(&*self);
        }
        if self.free > 0 {
            self.free = self.free - 1;
            Some(Permit { _private: () })
        } else {
            None
        }
    }

    /// Gives a permit back. One more than there are is ignored.
    pub fn release(&mut self, permit: Permit)
        ensures
            final(self)@ == (SemaphoreView {
                free: if old(self)@.free < old(self)@.max {
                    (old(self)@.free + 1) as usize
                } else {
                    old(self)@.free
                },
                ..old(self)@
            }),
    {
        proof {
            use_type_invariant(&*self);
        }
        if self.free < self.max {
            self.free = self.free + 1;
        }
    }

    /// How many permits are free.
    pub fn available(&self) -> (r: usize)
        ensures
            r == self@.free,
            r <= self@.max,
    {
        proof {
            use_type_invariant(self);
        }
        self.free
    }
}

/// A permit that is taken and given back leaves the semaphore as it was.
pub proof fn law_release_undoes_acquire(s: SemaphoreView)
    requires
        0 < s.free <= s.max,
    ensures
        ({
            let taken = SemaphoreView { free: (s.free - 1) as usize, ..s };
            taken.free < taken.max && SemaphoreView { free: (taken.free + 1) as usize, ..taken } == s
        }),
{
}

} // verus!

//! A counted budget.
use vstd::prelude::*;

verus! {

/// So many units, some of them taken.
#[derive(Clone, Copy, Debug, PartialEq, Eq, Structural)]
pub struct ByteBudget {
    pub limit: usize,
    pub used: usize,
}

impl ByteBudget {
    /// No more is taken than there is.
    pub open spec fn valid(self) -> bool {
        self.used <= self.limit
    }

    /// Whether so much is left.
    pub open spec fn spec_fits(self, amount: int) -> bool {
        self.used + amount <= self.limit
    }

    pub fn new(limit: usize) -> (r: Self)
        ensures
            r == (ByteBudget { limit, used: 0 }),
            r.valid(),
    {
        ByteBudget { limit, used: 0 }
    }

    pub fn used(&self) -> (r: usize)
        ensures
            r == self.used,
    {
        self.used
    }

    pub fn limit(&self) -> (r: usize)
        ensures
            r == self.limit,
    {
        self.limit
    }

    pub fn fits(&self, amount: usize) -> (r: bool)
        requires
            self.valid(),
        ensures
            r == self.spec_fits(amount as int),
    {
        amount <= self.limit - self.used
    }

    /// Takes so much, or nothing where it is not left.
    pub fn try_acquire(&mut self, amount: usize) -> (r: bool)
        requires
            old(self).valid(),
        ensures
            final(self).valid(),
            r == old(self).spec_fits(amount as int),
            *final(self) == (if r {
                ByteBudget { used: (old(self).used + amount) as usize, ..*old(self) }
            } else {
                *old(self)
            }),
    {
        if amount <= self.limit - self.used {
            self.used = self.used + amount;
            true
        } else {
            false
        }
    }

    /// Gives so much back.
    pub fn release(&mut self, amount: usize)
        requires
            old(self).valid(),
            amount <= old(self).used,
        ensures
            final(self).valid(),
            *final(self) == (ByteBudget { used: (old(self).used - amount) as usize, ..*old(self) }),
    {
        self.used = self.used - amount;
    }
}

} // verus!

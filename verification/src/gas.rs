//! Gas ledger: checked accounting of the gas budget of one frame.

use vstd::prelude::*;

verus! {

/// Divisor of the refund cap: at finalization at most `used / REFUND_QUOTIENT`
/// gas is handed back out of the refund accumulator.
pub const REFUND_QUOTIENT: u64 = 5;

/// Tracks the gas budget of one interpreter frame.
///
/// Invariant: `remaining <= limit` at all times. Consumption is a checked
/// subtraction that fails closed instead of wrapping; refunds accumulate
/// separately and are applied only by [`Gas::finalize`].
pub struct Gas {
    /// The gas limit the frame was created with. Never changes.
    pub limit: u64,
    /// Gas still available to the frame.
    pub remaining: u64,
    /// Refund accumulator; applied, capped, only at finalization.
    pub refunded: u64,
}

/// What a charge does: on success the amount leaves the remaining balance,
/// on failure the ledger is untouched.
pub open spec fn spec_charge(g: Gas, amount: u64) -> (Gas, bool) {
    if amount <= g.remaining {
        (Gas { limit: g.limit, remaining: (g.remaining - amount) as u64, refunded: g.refunded }, true)
    } else {
        (g, false)
    }
}

impl Gas {
    /// The ledger invariant.
    pub open spec fn wf(&self) -> bool {
        self.remaining <= self.limit
    }

    /// Gas consumed so far.
    pub open spec fn spec_spent(&self) -> int {
        self.limit - self.remaining
    }

    /// A fresh ledger with the whole budget available.
    pub fn new(limit: u64) -> (r: Gas)
        ensures
            r.wf(),
            r.limit == limit,
            r.remaining == limit,
            r.refunded == 0,
    {
        Gas { limit, remaining: limit, refunded: 0 }
    }

    /// Gas consumed so far.
    pub fn spent(&self) -> (r: u64)
        requires
            self.wf(),
        ensures
            r == self.spec_spent(),
    {
        self.limit - self.remaining
    }

    /// Consume `amount` gas. Fails closed: when `amount` exceeds the
    /// remaining balance nothing is mutated and `false` is returned, which
    /// the caller must turn into an `OutOfGas` fault.
    pub fn charge(&mut self, amount: u64) -> (ok: bool)
        ensures
            (*final(self), ok) == spec_charge(*old(self), amount),
            old(self).wf() ==> final(self).wf(),
    {
        if amount <= self.remaining {
            self.remaining = self.remaining - amount;
            true
        } else {
            false
        }
    }

    /// Hand back gas that was previously charged (for example the unused
    /// part of the budget forwarded to a nested call).
    pub fn erase_cost(&mut self, amount: u64)
        requires
            old(self).wf(),
            amount <= old(self).spec_spent(),
        ensures
            final(self).limit == old(self).limit,
            final(self).remaining == old(self).remaining + amount,
            final(self).refunded == old(self).refunded,
            final(self).wf(),
    {
        self.remaining = self.remaining + amount;
    }

    /// Add to the refund accumulator. Unbounded until finalization; the
    /// cap is applied by [`Gas::finalize`] alone.
    pub fn refund(&mut self, amount: u64)
        requires
            old(self).refunded + amount <= u64::MAX,
        ensures
            final(self).limit == old(self).limit,
            final(self).remaining == old(self).remaining,
            final(self).refunded == old(self).refunded + amount,
    {
        self.refunded = self.refunded + amount;
    }

    /// The refund that finalization will actually apply: the accumulator,
    /// capped at a fraction of the gas used.
    pub open spec fn spec_capped_refund(&self) -> int {
        if self.refunded <= self.spec_spent() / (REFUND_QUOTIENT as int) {
            self.refunded as int
        } else {
            self.spec_spent() / (REFUND_QUOTIENT as int)
        }
    }

    /// Net gas left after applying the capped refund. The result never
    /// exceeds the original limit.
    pub fn finalize(&self) -> (r: u64)
        requires
            self.wf(),
        ensures
            r == self.remaining + self.spec_capped_refund(),
            r <= self.limit,
    {
        let used = self.limit - self.remaining;
        let cap = used / REFUND_QUOTIENT;
        let applied = if self.refunded <= cap { self.refunded } else { cap };
        self.remaining + applied
    }
}

/// Charging is monotone and fails closed: a charge of one unit more than
/// the remaining balance fails and leaves the ledger exactly as it was,
/// while any affordable charge removes exactly the amount charged.
pub proof fn lemma_charge_fails_closed(g: Gas, amount: u64)
    requires
        g.wf(),
    ensures
        amount > g.remaining ==> spec_charge(g, amount) == (g, false),
        amount <= g.remaining ==> {
            let (g2, ok) = spec_charge(g, amount);
            ok && g2.remaining == g.remaining - amount && g2.limit == g.limit
                && g2.refunded == g.refunded
        },
{
}

} // verus!

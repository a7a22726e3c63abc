//! Two-layer commitment accounting: what was placed but not yet seen by a
//! reconciliation (inflight) and what a reconciliation saw resting (live).
//!
//! Quote amounts are in 1e-4 quote; base amounts in size steps (0.01 base).
use vstd::prelude::*;

verus! {

/// Share of a balance held back from placements, in percent.
pub const SAFETY_BUFFER_PCT: u128 = 2;

/// Balances of the two currencies as of the last successful reconciliation.
#[derive(Clone, Copy, Debug, PartialEq, Eq)]
pub struct Balances {
    /// Base currency, in size steps.
    pub base: u128,
    /// Quote currency, in 1e-4.
    pub quote: u128,
}

/// The part of a balance kept out of reach of new orders (2%, rounded down).
pub open spec fn safety_buffer(balance: int) -> int {
    balance * (SAFETY_BUFFER_PCT as int) / 100
}

/// Whether committing `total` leaves the safety buffer of `balance` untouched.
pub open spec fn within(total: int, balance: int) -> bool {
    total + safety_buffer(balance) <= balance
}

#[derive(Clone, Copy, Debug, PartialEq, Eq)]
pub struct CommitmentTracker {
    pub inflight_quote: u128,
    pub inflight_base: u128,
    pub live_quote: u128,
    pub live_base: u128,
}

impl CommitmentTracker {
    pub open spec fn spec_total_quote(&self) -> int {
        self.inflight_quote + self.live_quote
    }

    pub open spec fn spec_total_base(&self) -> int {
        self.inflight_base + self.live_base
    }

    /// Inflight plus live never exceed the balances less their safety buffers.
    pub open spec fn within_budget(&self, b: Balances) -> bool {
        within(self.spec_total_quote(), b.quote as int) && within(
            self.spec_total_base(),
            b.base as int,
        )
    }

    /// Nothing committed.
    pub fn new() -> (r: CommitmentTracker)
        ensures
            r.inflight_quote == 0 && r.inflight_base == 0 && r.live_quote == 0 && r.live_base == 0,
    {
        CommitmentTracker { inflight_quote: 0, inflight_base: 0, live_quote: 0, live_base: 0 }
    }

    pub fn total_quote(&self) -> (r: u128)
        requires
            self.spec_total_quote() <= u128::MAX,
        ensures
            r == self.spec_total_quote(),
    {
        self.inflight_quote + self.live_quote
    }

    pub fn total_base(&self) -> (r: u128)
        requires
            self.spec_total_base() <= u128::MAX,
        ensures
            r == self.spec_total_base(),
    {
        self.inflight_base + self.live_base
    }

    /// Charge a bid placement of `notional` (1e-4 quote).
    pub fn add_inflight_bid(&mut self, notional: u128)
        requires
            old(self).inflight_quote + notional <= u128::MAX,
        ensures
            *final(self) == (CommitmentTracker {
                inflight_quote: (old(self).inflight_quote + notional) as u128,
                ..*old(self)
            }),
    {
        self.inflight_quote = self.inflight_quote + notional;
    }

    /// Charge an ask placement of `size` (size steps).
    pub fn add_inflight_ask(&mut self, size: u128)
        requires
            old(self).inflight_base + size <= u128::MAX,
        ensures
            *final(self) == (CommitmentTracker {
                inflight_base: (old(self).inflight_base + size) as u128,
                ..*old(self)
            }),
    {
        self.inflight_base = self.inflight_base + size;
    }

    /// Forget the inflight layer (a reconciliation has seen what stands).
    pub fn reset_inflight(&mut self)
        ensures
            final(self).inflight_quote == 0,
            final(self).inflight_base == 0,
            final(self).live_quote == old(self).live_quote,
            final(self).live_base == old(self).live_base,
    {
        self.inflight_quote = 0;
        self.inflight_base = 0;
    }
}

/// The quote still available for a new bid: balance less commitments less the buffer.
pub open spec fn available(balance: int, total: int) -> int {
    balance - total - safety_buffer(balance)
}

/// Whether a new order costing `cost` fits what is available.
pub fn fits(balance: u128, total: u128, cost: u128) -> (r: bool)
    ensures
        r == (cost <= available(balance as int, total as int)),
{
    let buffer = balance / 100 * SAFETY_BUFFER_PCT + (balance % 100) * SAFETY_BUFFER_PCT / 100;
    assert(buffer == safety_buffer(balance as int)) by (nonlinear_arith)
        requires
            buffer == balance / 100 * 2 + (balance % 100) * 2 / 100,
            balance >= 0,
    ;
    if total > balance || balance - total < buffer {
        false
    } else {
        cost <= balance - total - buffer
    }
}

/// No silent double-spend: a placement is charged only when it fits what is
/// available, and then the commitments stay within the balance less its
/// safety buffer.
pub proof fn lemma_charge_within_budget(balance: int, total: int, cost: int)
    requires
        0 <= cost,
        cost <= available(balance, total),
    ensures
        within(total + cost, balance),
{
}

} // verus!

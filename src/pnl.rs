//! Realized spread P&L by FIFO matching of fills, and rebate accrual.
//!
//! Prices are in ticks, sizes in size steps, so a notional (price x size) is
//! in 1e-4 quote and exact; rebates are in 1e-8 quote.
use vstd::prelude::*;
use std::collections::VecDeque;
use crate::quote::{lemma_mul_bound, wide_mul};
use crate::reconcile::{MAX_PRICE_TICKS, MAX_SIZE_STEPS};

verus! {

/// Maker rebate in basis points.
pub const REBATE_BPS: u128 = 1;

/// The maker rebate on a fill of `sz` at `px`, in 1e-8 quote:
/// notional x `REBATE_BPS` / 10^4, exact in these units.
pub fn rebate_for(px: u64, sz: u64) -> (r: u128)
    ensures
        r == px as int * sz as int * REBATE_BPS as int,
{
    wide_mul(px, sz) * REBATE_BPS
}

/// Bound on the cumulative traded notional (bought plus sold), in 1e-4 quote.
pub const VOLUME_CAP: u128 = 0x1_0000_0000_0000_0000_0000_0000_0000;

/// Bound on the cumulative traded size (bought plus sold), in size steps.
pub const SIZE_CAP: u128 = 0x1000_0000_0000_0000;

/// An open lot: what is left of one fill, at its price.
#[derive(Clone, Copy, Debug, PartialEq, Eq)]
pub struct FifoLot {
    pub price: u64,
    pub size: u64,
}

pub open spec fn lots_value(s: Seq<FifoLot>) -> int
    decreases s.len(),
{
    if s.len() == 0 {
        0
    } else {
        s[0].price as int * s[0].size as int + lots_value(s.skip(1))
    }
}

pub open spec fn lots_size(s: Seq<FifoLot>) -> int
    decreases s.len(),
{
    if s.len() == 0 {
        0
    } else {
        s[0].size as int + lots_size(s.skip(1))
    }
}

pub open spec fn lots_ok(s: Seq<FifoLot>) -> bool {
    forall|i: int|
        0 <= i < s.len() ==> (#[trigger] s[i]).size > 0 && s[i].size <= MAX_SIZE_STEPS && s[i].price
            <= MAX_PRICE_TICKS
}

pub proof fn lemma_lots_push(s: Seq<FifoLot>, x: FifoLot)
    ensures
        lots_value(s.push(x)) == lots_value(s) + x.price * x.size,
        lots_size(s.push(x)) == lots_size(s) + x.size,
    decreases s.len(),
{
    if s.len() > 0 {
        assert(s.push(x).skip(1) =~= s.skip(1).push(x));
        assert(s.push(x)[0] == s[0]);
        lemma_lots_push(s.skip(1), x);
    } else {
        assert(s.push(x).skip(1) =~= Seq::<FifoLot>::empty());
        assert(s.push(x)[0] == x);
        assert(lots_value(Seq::<FifoLot>::empty()) == 0);
        assert(lots_size(Seq::<FifoLot>::empty()) == 0);
    }
}

pub proof fn lemma_lots_nonneg(s: Seq<FifoLot>)
    ensures
        lots_value(s) >= 0,
        lots_size(s) >= 0,
        s.len() > 0 && lots_ok(s) ==> lots_size(s) > 0,
    decreases s.len(),
{
    if s.len() > 0 {
        lemma_mul_bound(s[0].price as int, s[0].size as int, s[0].price as int, s[0].size as int);
        lemma_lots_nonneg(s.skip(1));
    }
}

/// FIFO matching of a fill of `rem` at `px` against the lots `q`, front
/// first: (lots left, size left unmatched, realized P&L, lots matched, of
/// which gains, and of which non-gains). A buy closes short lots and gains
/// (entry - px) per unit; a sell closes long lots and gains (px - entry). A
/// lot matched in part stays at the front with what is left of it.
pub open spec fn fifo_match(q: Seq<FifoLot>, px: u64, rem: int, buy: bool) -> (Seq<FifoLot>, int, int, nat, nat, nat)
    decreases q.len(),
{
    if rem <= 0 || q.len() == 0 {
        (q, rem, 0, 0, 0, 0)
    } else {
        let e = q[0];
        let m: int = if rem < e.size {
            rem
        } else {
            e.size as int
        };
        let gain: int = if buy {
            m * (e.price - px)
        } else {
            m * (px - e.price)
        };
        let w: nat = if gain > 0 {
            1
        } else {
            0
        };
        let l: nat = if gain > 0 {
            0
        } else {
            1
        };
        if e.size > m {
            (seq![FifoLot { price: e.price, size: (e.size - m) as u64 }] + q.skip(1), 0, gain, 1, w, l)
        } else {
            let r = fifo_match(q.skip(1), px, rem - m, buy);
            (r.0, r.1, gain + r.2, r.3 + 1, r.4 + w, r.5 + l)
        }
    }
}

/// `a + b`, saturated to `u64`.
pub open spec fn sat64(a: int, b: int) -> int {
    if a + b > u64::MAX {
        u64::MAX as int
    } else {
        a + b
    }
}

/// `a + b`, saturated to `u128`.
pub open spec fn sat128(a: int, b: int) -> int {
    if a + b > u128::MAX {
        u128::MAX as int
    } else {
        a + b
    }
}

pub proof fn lemma_lots_len(s: Seq<FifoLot>)
    requires
        lots_ok(s),
    ensures
        s.len() <= lots_size(s),
    decreases s.len(),
{
    if s.len() > 0 {
        assert forall|i: int| 0 <= i < s.skip(1).len() implies (#[trigger] s.skip(1)[i]).size > 0
            && s.skip(1)[i].size <= MAX_SIZE_STEPS && s.skip(1)[i].price <= MAX_PRICE_TICKS by {
            assert(s.skip(1)[i] == s[i + 1]);
        }
        lemma_lots_len(s.skip(1));
    }
}

/// The outcome of matching a fill against the opposite queue.
struct MatchOutcome {
    rem: u64,
    realized: i128,
    matched: u64,
    wins: u64,
    losses: u64,
}

/// Match `sz` at `px` against `q` from the front. A buy (`buy`) closes short
/// lots and gains (entry - px) per unit, a sell closes long lots and gains
/// (px - entry) per unit.
fn match_fill(q: &mut VecDeque<FifoLot>, px: u64, sz: u64, buy: bool) -> (r: MatchOutcome)
    requires
        lots_ok(old(q)@),
        px <= MAX_PRICE_TICKS,
        sz <= MAX_SIZE_STEPS,
        lots_value(old(q)@) <= VOLUME_CAP,
        old(q)@.len() <= SIZE_CAP,
    ensures
        lots_ok(final(q)@),
        final(q)@ == fifo_match(old(q)@, px, sz as int, buy).0,
        r.rem == fifo_match(old(q)@, px, sz as int, buy).1,
        r.realized == fifo_match(old(q)@, px, sz as int, buy).2,
        r.matched == fifo_match(old(q)@, px, sz as int, buy).3,
        r.wins == fifo_match(old(q)@, px, sz as int, buy).4,
        r.losses == fifo_match(old(q)@, px, sz as int, buy).5,
        r.rem <= sz,
        r.rem > 0 ==> final(q)@.len() == 0,
        lots_size(final(q)@) == lots_size(old(q)@) - (sz - r.rem),
        lots_value(final(q)@) <= lots_value(old(q)@),
        r.realized == (if buy {
            (lots_value(old(q)@) - lots_value(final(q)@)) - px * (sz - r.rem)
        } else {
            px * (sz - r.rem) - (lots_value(old(q)@) - lots_value(final(q)@))
        }),
{
    let mut rem = sz;
    let mut realized: i128 = 0;
    let mut matched: u64 = 0;
    let mut wins: u64 = 0;
    let mut losses: u64 = 0;
    proof {
        lemma_lots_nonneg(q@);
        lemma_mul_bound(px as int, sz as int, MAX_PRICE_TICKS as int, MAX_SIZE_STEPS as int);
    }
    let ghost target = fifo_match(q@, px, sz as int, buy);
    while rem > 0 && q.len() > 0
        invariant
            target == fifo_match(old(q)@, px, sz as int, buy),
            fifo_match(q@, px, rem as int, buy) == (
                target.0,
                target.1,
                target.2 - realized,
                (target.3 - matched) as nat,
                (target.4 - wins) as nat,
                (target.5 - losses) as nat,
            ),
            matched <= target.3,
            wins + losses == matched,
            wins <= target.4,
            losses <= target.5,
            matched + q@.len() <= old(q)@.len() + (if rem == 0 { 1int } else { 0 }),
            old(q)@.len() <= SIZE_CAP,
            lots_ok(q@),
            rem <= sz,
            px <= MAX_PRICE_TICKS,
            sz <= MAX_SIZE_STEPS,
            lots_value(old(q)@) <= VOLUME_CAP,
            0 <= lots_value(q@) <= lots_value(old(q)@),
            lots_size(q@) == lots_size(old(q)@) - (sz - rem),
            realized == (if buy {
                (lots_value(old(q)@) - lots_value(q@)) - px * (sz - rem)
            } else {
                px * (sz - rem) - (lots_value(old(q)@) - lots_value(q@))
            }),
        decreases rem,
    {
        let ghost q0 = q@;
        let e = q[0];
        q.pop_front();
        let m: u64 = if rem < e.size {
            rem
        } else {
            e.size
        };
        proof {
            assert(q@ =~= q0.skip(1));
            assert(lots_value(q0) == e.price * e.size + lots_value(q0.skip(1)));
            assert(lots_size(q0) == e.size + lots_size(q0.skip(1)));
            lemma_lots_nonneg(q0.skip(1));
            lemma_mul_bound(e.price as int, m as int, e.price as int, e.size as int);
            lemma_mul_bound(px as int, (sz - rem + m) as int, MAX_PRICE_TICKS as int, MAX_SIZE_STEPS as int);
            lemma_mul_bound(e.price as int, e.size as int, MAX_PRICE_TICKS as int, MAX_SIZE_STEPS as int);
            lemma_mul_bound(m as int, e.price as int, MAX_SIZE_STEPS as int, MAX_PRICE_TICKS as int);
            lemma_mul_bound(m as int, px as int, MAX_SIZE_STEPS as int, MAX_PRICE_TICKS as int);
        }
        let entry_val = wide_mul(m, e.price);
        let exit_val = wide_mul(m, px);
        let gain: i128 = if buy {
            entry_val as i128 - exit_val as i128
        } else {
            exit_val as i128 - entry_val as i128
        };
        proof {
            assert(q0[0] == e);
            assert(m * e.price - m * px == m * (e.price - px)) by (nonlinear_arith);
            assert(m * px - m * e.price == m * (px - e.price)) by (nonlinear_arith);
            assert(px * (sz - rem + m) == px * (sz - rem) + px * m) by (nonlinear_arith);
            assert(e.price * e.size == e.price * m + e.price * (e.size - m)) by (nonlinear_arith);
            assert(m * e.price == e.price * m) by (nonlinear_arith);
            assert(m * px == px * m) by (nonlinear_arith);
        }
        realized = realized + gain;
        matched = matched + 1;
        if gain > 0 {
            wins = wins + 1;
        } else {
            losses = losses + 1;
        }
        rem = rem - m;
        if e.size > m {
            let ghost q1 = q@;
            let left = FifoLot { price: e.price, size: e.size - m };
            q.push_front(left);
            proof {
                assert(q@.skip(1) =~= q1);
                assert(q@[0] == left);
                assert(q@ =~= seq![left] + q0.skip(1));
            }
        }
    }
    MatchOutcome { rem, realized, matched, wins, losses }
}

pub struct PnL {
    pub longs: VecDeque<FifoLot>,
    pub shorts: VecDeque<FifoLot>,
    pub buys: u64,
    pub sells: u64,
    /// Realized spread P&L, in 1e-4 quote.
    pub spread: i128,
    /// Accrued rebates, in 1e-8 quote.
    pub rebates: u128,
    pub matched: u64,
    pub wins: u64,
    pub losses: u64,
    /// Cumulative bought notional, in 1e-4 quote.
    pub bought: u128,
    /// Cumulative sold notional, in 1e-4 quote.
    pub sold: u128,
    /// Cumulative bought size, in size steps.
    pub bought_size: u128,
    /// Cumulative sold size, in size steps.
    pub sold_size: u128,
}

impl PnL {
    /// Net inventory in size steps: long lots minus short lots.
    pub open spec fn position(&self) -> int {
        lots_size(self.longs@) - lots_size(self.shorts@)
    }

    pub open spec fn wf(&self) -> bool {
        &&& lots_ok(self.longs@)
        &&& lots_ok(self.shorts@)
        &&& self.longs@.len() == 0 || self.shorts@.len() == 0
        &&& self.spread == self.sold - self.bought + lots_value(self.longs@) - lots_value(self.shorts@)
        &&& lots_value(self.longs@) <= self.bought
        &&& lots_value(self.shorts@) <= self.sold
        &&& self.bought + self.sold <= VOLUME_CAP
        &&& self.position() == self.bought_size - self.sold_size
        &&& self.bought_size + self.sold_size <= SIZE_CAP
    }

    /// What a buy fill of `sz` at `px` with rebate `rebate` does: FIFO
    /// matching against the short lots (see `fifo_match`), the unmatched rest
    /// opening a long lot at `px` at the back, the realized P&L added to the
    /// spread, counters and rebates accrued (saturating).
    pub open spec fn buy_step(a: PnL, b: PnL, px: u64, sz: u64, rebate: u128) -> bool {
        let f = fifo_match(a.shorts@, px, sz as int, true);
        &&& b.shorts@ == f.0
        &&& b.longs@ == (if f.1 > 0 {
            a.longs@.push(FifoLot { price: px, size: f.1 as u64 })
        } else {
            a.longs@
        })
        &&& b.spread == a.spread + f.2
        &&& b.matched == sat64(a.matched as int, f.3 as int)
        &&& b.wins == sat64(a.wins as int, f.4 as int)
        &&& b.losses == sat64(a.losses as int, f.5 as int)
        &&& b.rebates == sat128(a.rebates as int, rebate as int)
        &&& b.buys == sat64(a.buys as int, 1)
        &&& b.sells == a.sells
        &&& b.bought == a.bought + px * sz
        &&& b.sold == a.sold
        &&& b.bought_size == a.bought_size + sz
        &&& b.sold_size == a.sold_size
    }

    /// What a sell fill does: the mirror of `buy_step` against the long lots.
    pub open spec fn sell_step(a: PnL, b: PnL, px: u64, sz: u64, rebate: u128) -> bool {
        let f = fifo_match(a.longs@, px, sz as int, false);
        &&& b.longs@ == f.0
        &&& b.shorts@ == (if f.1 > 0 {
            a.shorts@.push(FifoLot { price: px, size: f.1 as u64 })
        } else {
            a.shorts@
        })
        &&& b.spread == a.spread + f.2
        &&& b.matched == sat64(a.matched as int, f.3 as int)
        &&& b.wins == sat64(a.wins as int, f.4 as int)
        &&& b.losses == sat64(a.losses as int, f.5 as int)
        &&& b.rebates == sat128(a.rebates as int, rebate as int)
        &&& b.sells == sat64(a.sells as int, 1)
        &&& b.buys == a.buys
        &&& b.sold == a.sold + px * sz
        &&& b.bought == a.bought
        &&& b.sold_size == a.sold_size + sz
        &&& b.bought_size == a.bought_size
    }

    pub fn new() -> (r: PnL)
        ensures
            r.wf(),
            r.longs@.len() == 0 && r.shorts@.len() == 0,
            r.spread == 0 && r.rebates == 0 && r.bought == 0 && r.sold == 0,
            r.buys == 0 && r.sells == 0 && r.matched == 0 && r.wins == 0 && r.losses == 0,
            r.bought_size == 0 && r.sold_size == 0,
    {
        PnL {
            longs: VecDeque::new(),
            shorts: VecDeque::new(),
            buys: 0,
            sells: 0,
            spread: 0,
            rebates: 0,
            matched: 0,
            wins: 0,
            losses: 0,
            bought: 0,
            sold: 0,
            bought_size: 0,
            sold_size: 0,
        }
    }

    /// Whether a fill of `sz` at `px` can be recorded: within the price and
    /// size bounds and the cumulative notional and size caps.
    pub fn can_record(&self, px: u64, sz: u64) -> (r: bool)
        requires
            self.wf(),
        ensures
            r == (px <= MAX_PRICE_TICKS && sz <= MAX_SIZE_STEPS && self.bought + self.sold + px * sz
                <= VOLUME_CAP && self.bought_size + self.sold_size + sz <= SIZE_CAP),
    {
        if px > MAX_PRICE_TICKS || sz > MAX_SIZE_STEPS {
            return false;
        }
        let v = wide_mul(px, sz);
        v <= VOLUME_CAP - self.bought - self.sold && (sz as u128) <= SIZE_CAP - self.bought_size
            - self.sold_size
    }

    /// A buy fill of `sz` at `px` earning `rebate` (1e-8 quote): it closes
    /// short lots first in, realizing (entry - px) per unit; any rest opens a
    /// long lot at `px`.
    pub fn buy(&mut self, px: u64, sz: u64, rebate: u128)
        requires
            old(self).wf(),
            px <= MAX_PRICE_TICKS,
            sz <= MAX_SIZE_STEPS,
            old(self).bought + old(self).sold + px * sz <= VOLUME_CAP,
            old(self).bought_size + old(self).sold_size + sz <= SIZE_CAP,
        ensures
            final(self).wf(),
            final(self).bought == old(self).bought + px * sz,
            final(self).sold == old(self).sold,
            final(self).bought_size == old(self).bought_size + sz,
            final(self).sold_size == old(self).sold_size,
            final(self).position() == old(self).position() + sz,
            final(self).buys == (if old(self).buys < u64::MAX { old(self).buys + 1 } else { u64::MAX as int }),
            Self::buy_step(*old(self), *final(self), px, sz, rebate),
            final(self).sells == old(self).sells,
    {
        proof {
            lemma_mul_bound(px as int, sz as int, MAX_PRICE_TICKS as int, MAX_SIZE_STEPS as int);
            lemma_lots_nonneg(self.longs@);
            lemma_lots_nonneg(self.shorts@);
        }
        let ghost l0 = self.longs@;
        let ghost s0 = self.shorts@;
        proof {
            lemma_lots_len(self.shorts@);
            lemma_lots_nonneg(self.longs@);
            if self.shorts@.len() > 0 {
                assert(self.longs@.len() == 0);
                assert(lots_size(self.longs@) == 0);
            }
        }
        let out = match_fill(&mut self.shorts, px, sz, true);
        let notional = wide_mul(px, sz);
        self.buys = self.buys.saturating_add(1);
        self.bought = self.bought + notional;
        self.rebates = self.rebates.saturating_add(rebate);
        proof {
            lemma_lots_nonneg(self.shorts@);
            lemma_mul_bound(px as int, out.rem as int, px as int, sz as int);
            assert(self.spread + out.realized == self.sold - self.bought + lots_value(l0) + px * out.rem
                - lots_value(self.shorts@)) by (nonlinear_arith)
                requires
                    self.spread == self.sold - (self.bought - px * sz) + lots_value(l0) - lots_value(s0),
                    out.realized == (lots_value(s0) - lots_value(self.shorts@)) - px * (sz - out.rem),
            ;
        }
        self.spread = self.spread + out.realized;
        self.matched = self.matched.saturating_add(out.matched);
        self.wins = self.wins.saturating_add(out.wins);
        self.losses = self.losses.saturating_add(out.losses);
        self.bought_size = self.bought_size + sz as u128;
        proof {
            lemma_lots_nonneg(self.shorts@);
        }
        if out.rem > 0 {
            let lot = FifoLot { price: px, size: out.rem };
            proof {
                lemma_lots_push(self.longs@, lot);
                if s0.len() > 0 {
                    assert(l0.len() == 0);
                }
                lemma_mul_bound(px as int, out.rem as int, px as int, sz as int);
            }
            self.longs.push_back(lot);
        }
    }

    /// A sell fill of `sz` at `px` earning `rebate` (1e-8 quote): it closes
    /// long lots first in, realizing (px - entry) per unit; any rest opens a
    /// short lot at `px`.
    pub fn sell(&mut self, px: u64, sz: u64, rebate: u128)
        requires
            old(self).wf(),
            px <= MAX_PRICE_TICKS,
            sz <= MAX_SIZE_STEPS,
            old(self).bought + old(self).sold + px * sz <= VOLUME_CAP,
            old(self).bought_size + old(self).sold_size + sz <= SIZE_CAP,
        ensures
            final(self).wf(),
            final(self).sold == old(self).sold + px * sz,
            final(self).bought == old(self).bought,
            final(self).sold_size == old(self).sold_size + sz,
            final(self).bought_size == old(self).bought_size,
            final(self).position() == old(self).position() - sz,
            final(self).sells == (if old(self).sells < u64::MAX { old(self).sells + 1 } else { u64::MAX as int }),
            Self::sell_step(*old(self), *final(self), px, sz, rebate),
            final(self).buys == old(self).buys,
    {
        proof {
            lemma_mul_bound(px as int, sz as int, MAX_PRICE_TICKS as int, MAX_SIZE_STEPS as int);
            lemma_lots_nonneg(self.longs@);
            lemma_lots_nonneg(self.shorts@);
        }
        let ghost l0 = self.longs@;
        let ghost s0 = self.shorts@;
        proof {
            lemma_lots_len(self.longs@);
            lemma_lots_nonneg(self.shorts@);
            if self.longs@.len() > 0 {
                assert(self.shorts@.len() == 0);
                assert(lots_size(self.shorts@) == 0);
            }
        }
        let out = match_fill(&mut self.longs, px, sz, false);
        let notional = wide_mul(px, sz);
        self.sells = self.sells.saturating_add(1);
        self.sold = self.sold + notional;
        self.rebates = self.rebates.saturating_add(rebate);
        proof {
            lemma_lots_nonneg(self.longs@);
            lemma_mul_bound(px as int, out.rem as int, px as int, sz as int);
            assert(self.spread + out.realized == self.sold - self.bought - px * out.rem + lots_value(
                self.longs@,
            ) - lots_value(s0)) by (nonlinear_arith)
                requires
                    self.spread == (self.sold - px * sz) - self.bought + lots_value(l0) - lots_value(s0),
                    out.realized == px * (sz - out.rem) - (lots_value(l0) - lots_value(self.longs@)),
            ;
        }
        self.spread = self.spread + out.realized;
        self.matched = self.matched.saturating_add(out.matched);
        self.wins = self.wins.saturating_add(out.wins);
        self.losses = self.losses.saturating_add(out.losses);
        self.sold_size = self.sold_size + sz as u128;
        proof {
            lemma_lots_nonneg(self.longs@);
        }
        if out.rem > 0 {
            let lot = FifoLot { price: px, size: out.rem };
            proof {
                lemma_lots_push(self.shorts@, lot);
                if l0.len() > 0 {
                    assert(s0.len() == 0);
                }
                lemma_mul_bound(px as int, out.rem as int, px as int, sz as int);
            }
            self.shorts.push_back(lot);
        }
    }

    /// Net inventory in size steps.
    pub fn inv(&self) -> (r: i128)
        requires
            self.wf(),
        ensures
            r == self.position(),
    {
        self.bought_size as i128 - self.sold_size as i128
    }

    /// Realized spread plus rebates, in 1e-8 quote.
    pub open spec fn net_spec(&self) -> int {
        self.spread * 10_000 + self.rebates
    }
}

/// The net position is bounded by the cumulative traded size.
pub proof fn lemma_position_bound(p: PnL)
    requires
        p.wf(),
    ensures
        -(SIZE_CAP as int) <= p.position() <= SIZE_CAP as int,
{
}

/// Matching `a + b` in one fill realizes the same P&L, leaves the same lots
/// and the same unmatched size as matching `a` and then `b`.
pub proof fn lemma_fifo_split(q: Seq<FifoLot>, px: u64, a: int, b: int, buy: bool)
    requires
        a >= 0,
        b >= 0,
        lots_ok(q),
    ensures
        ({
            let f1 = fifo_match(q, px, a, buy);
            let f2 = fifo_match(f1.0, px, b, buy);
            let f = fifo_match(q, px, a + b, buy);
            &&& f.0 == f2.0
            &&& f.1 == f1.1 + f2.1
            &&& f.2 == f1.2 + f2.2
        }),
    decreases q.len(),
{
    if a == 0 || q.len() == 0 {
        if q.len() == 0 {
            assert(fifo_match(q, px, a, buy).0 == q);
        }
    } else {
        let e = q[0];
        let d: int = if buy {
            e.price - px
        } else {
            px - e.price
        };
        assert forall|i: int| 0 <= i < q.skip(1).len() implies (#[trigger] q.skip(1)[i]).size > 0
            && q.skip(1)[i].size <= MAX_SIZE_STEPS && q.skip(1)[i].price <= MAX_PRICE_TICKS by {
            assert(q.skip(1)[i] == q[i + 1]);
        }
        if a < e.size {
            let left = FifoLot { price: e.price, size: (e.size - a) as u64 };
            let q1 = seq![left] + q.skip(1);
            assert(q1[0] == left);
            assert(q1.skip(1) =~= q.skip(1));
            assert(a * d == (if buy { a * (e.price - px) } else { a * (px - e.price) }));
            if b == 0 {
            } else if a + b < e.size {
                let left2 = FifoLot { price: e.price, size: (e.size - a - b) as u64 };
                assert(seq![left2] + q1.skip(1) =~= seq![left2] + q.skip(1));
                assert((a + b) * d == a * d + b * d) by (nonlinear_arith);
                assert((a + b) * (if buy { e.price - px } else { px - e.price }) == (a + b) * d);
                assert(b * (if buy { left.price - px } else { px - left.price }) == b * d);
            } else {
                assert(e.size * d == a * d + (e.size - a) * d) by (nonlinear_arith);
                assert(e.size * (if buy { e.price - px } else { px - e.price }) == e.size * d);
                assert((e.size - a) * (if buy { left.price - px } else { px - left.price }) == (e.size - a) * d);
                assert(a + b - e.size == b - (e.size - a));
            }
        } else {
            lemma_fifo_split(q.skip(1), px, a - e.size, b, buy);
            assert(a + b - e.size == (a - e.size) + b);
        }
    }
}

/// Splitting a buy into two partial fills at the same price realizes the
/// same spread P&L and leaves the same short lots as the whole fill.
pub proof fn lemma_split_buy(p0: PnL, whole: PnL, part: PnL, both: PnL, px: u64, a: u64, b: u64, r0: u128, r1: u128, r2: u128)
    requires
        p0.wf(),
        a + b <= u64::MAX,
        PnL::buy_step(p0, whole, px, (a + b) as u64, r0),
        PnL::buy_step(p0, part, px, a, r1),
        PnL::buy_step(part, both, px, b, r2),
    ensures
        both.spread == whole.spread,
        both.shorts@ == whole.shorts@,
        both.bought == whole.bought,
        both.bought_size == whole.bought_size,
{
    lemma_fifo_split(p0.shorts@, px, a as int, b as int, true);
    assert(px * (a + b) == px * a + px * b) by (nonlinear_arith);
    let f1 = fifo_match(p0.shorts@, px, a as int, true);
    if f1.1 > 0 {
        lemma_fifo_empty_rest(p0.shorts@, px, a as int, true);
    }
}

/// Matching leaves size unmatched only once the queue is used up.
pub proof fn lemma_fifo_empty_rest(q: Seq<FifoLot>, px: u64, a: int, buy: bool)
    ensures
        fifo_match(q, px, a, buy).1 > 0 ==> fifo_match(q, px, a, buy).0.len() == 0,
    decreases q.len(),
{
    if a > 0 && q.len() > 0 && !(q[0].size > (if a < q[0].size { a } else { q[0].size as int })) {
        lemma_fifo_empty_rest(q.skip(1), px, a - q[0].size, buy);
    }
}

/// The realized spread is bounded by the cumulative traded notional.
pub proof fn lemma_spread_bound(p: PnL)
    requires
        p.wf(),
    ensures
        -(VOLUME_CAP as int) <= p.spread <= VOLUME_CAP as int,
{
    lemma_lots_nonneg(p.longs@);
    lemma_lots_nonneg(p.shorts@);
}

/// FIFO round trip: once the fills recorded total a zero net position, the
/// realized spread P&L is what was sold less what was bought, whatever the
/// order of the fills and however they were sliced.
pub proof fn lemma_flat_round_trip(p: PnL)
    requires
        p.wf(),
        p.bought_size == p.sold_size,
    ensures
        p.longs@.len() == 0,
        p.shorts@.len() == 0,
        p.spread == p.sold - p.bought,
{
    lemma_lots_nonneg(p.longs@);
    lemma_lots_nonneg(p.shorts@);
    assert(p.longs@.skip(0) =~= p.longs@);
    if p.longs@.len() > 0 {
        assert(p.shorts@.len() == 0);
    }
    if p.shorts@.len() > 0 {
        assert(p.longs@.len() == 0);
    }
}

} // verus!

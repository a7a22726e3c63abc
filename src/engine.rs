//! The ladder engine: the cell table, the commitments and the quoting controller.
//!
//! The controller is driven tick by tick by its caller, which performs the
//! network round trips: `begin_tick` reads the market and gates, then for each
//! level `level_targets`, `refresh_cancel` (and `on_cancel_reply` with its
//! outcome), then `next_action` (and `on_place_reply` or `on_cancel_reply`).
use vstd::prelude::*;
use crate::cell::LevelOrderState;
use crate::cell::permitted;
use crate::commitments::{available, fits, Balances, CommitmentTracker};
use crate::exchange::order_book::BookSide;
use crate::gates::{next_paused, ofi_gate, trend_gate, Trend, TrendGate, DOWNTREND_MIN_INV};
use crate::quote::{
    ask_fits_spec, ask_mbps_spec, ask_ticks_spec, base_size, base_size_spec, bid_fits_spec,
    bid_mbps_spec, bid_ticks_spec, can_place_ask, can_place_bid, capped_skew, capped_skew_spec,
    drifted, drifted_spec, level_prices, needs_cancel_ask, needs_cancel_bid, order_sizes,
    sizes_spec, wide_mul, Level, PPM_ONE,
};
use crate::reconcile::{ActiveOrder, RestCancel};

verus! {

/// Cap on the non-empty cells of one side.
pub const MAX_ORDERS_PER_SIDE: usize = 25;

/// Largest ladder accepted.
pub const MAX_LEVELS: usize = 1000;

/// Order notional, 10 quote, in 1e-4 quote.
pub const ORDER_NOTIONAL: u64 = 100_000;

/// A placement the controller decided on and awaits the reply of.
#[derive(Clone, Copy, Debug, PartialEq, Eq)]
pub struct Placement {
    pub side: BookSide,
    pub level: usize,
    pub price: u64,
    pub size: u64,
}

/// What the controller read and decided at the start of a tick.
#[derive(Clone, Copy, Debug, PartialEq, Eq)]
pub struct TickPlan {
    pub mid: u64,
    pub inventory: i64,
    pub sigma2: u64,
    pub skip_bids: bool,
    pub skip_asks: bool,
    pub widen_asks: bool,
    pub bid_size: u64,
    pub ask_size: u64,
    pub bid_count: usize,
    pub ask_count: usize,
}

/// The second step for one cell in a tick.
#[derive(Debug)]
pub enum SideAction {
    Nothing,
    Place { price: u64, size: u64 },
    Cancel { order_id: String },
}

pub struct Engine {
    pub levels: Vec<Level>,
    pub bids: Vec<LevelOrderState>,
    pub asks: Vec<LevelOrderState>,
    pub commitments: CommitmentTracker,
    pub balances: Balances,
    pub ofi_paused: bool,
    pub order_notional: u64,
    pub intent: Option<Placement>,
    pub active: Vec<ActiveOrder>,
    pub claimed: Vec<String>,
    pub rest_queue: Vec<RestCancel>,
    pub recently_cancelled: Vec<(String, u64)>,
}

/// Number of non-empty cells.
pub open spec fn count_nonempty(cells: Seq<LevelOrderState>) -> nat
    decreases cells.len(),
{
    if cells.len() == 0 {
        0
    } else {
        count_nonempty(cells.drop_last()) + if cells.last() is Empty {
            0nat
        } else {
            1nat
        }
    }
}

/// The tick plan for the given readings (when the tick is not skipped).
pub open spec fn plan_spec(
    paused: bool,
    notional: u64,
    bids: Seq<LevelOrderState>,
    asks: Seq<LevelOrderState>,
    mid: u64,
    ofi: i64,
    sigma2: u64,
    trend: Trend,
    inventory: i64,
    factor_ppm: u64,
) -> TickPlan {
    let p = next_paused(paused, ofi as int);
    let base = base_size_spec(notional as int, mid as int);
    let sizes = sizes_spec(base, inventory as int, factor_ppm as int);
    TickPlan {
        mid,
        inventory,
        sigma2,
        skip_bids: (p && ofi < 0) || trend == Trend::Down,
        skip_asks: p && ofi > 0,
        widen_asks: trend == Trend::Up,
        bid_size: sizes.0 as u64,
        ask_size: sizes.1 as u64,
        bid_count: count_nonempty(bids) as usize,
        ask_count: count_nonempty(asks) as usize,
    }
}

/// Target (bid, ask) prices in ticks of a level under a plan.
pub open spec fn targets_spec(l: Level, p: TickPlan) -> (int, int) {
    let sk = capped_skew_spec(p.inventory as int, p.sigma2 as int, l.offset_mbps as int);
    (
        bid_ticks_spec(p.mid as int, bid_mbps_spec(l.offset_mbps as int, sk)),
        ask_ticks_spec(p.mid as int, ask_mbps_spec(l.offset_mbps as int, sk, p.widen_asks)),
    )
}

/// The quote (bids) or base (asks) that a placement commits.
pub open spec fn cost_spec(side: BookSide, price: u64, size: u64) -> int {
    match side {
        BookSide::Bid => price as int * size as int,
        BookSide::Ask => size as int,
    }
}

/// The 25 default levels: (offset, refresh) in milli-bps.
pub open spec fn default_level_pairs() -> Seq<(u64, u64)> {
    seq![
        (550, 340), (1230, 740), (1910, 1150), (2590, 1560), (3270, 1970),
        (3950, 2380), (4630, 2780), (5310, 3190), (5990, 3600), (6670, 4010),
        (7350, 4800), (8030, 5400), (8710, 6000), (9390, 6600), (10070, 7200),
        (10750, 12900), (11430, 13720), (12110, 14530), (12790, 15350), (13470, 16160),
        (14150, 16980), (14830, 17800), (15510, 18610), (16190, 19430), (16870, 20240)
    ]
}

/// The default ladder of 25 levels, from 0.55 bps to 16.87 bps from mid.
pub fn default_levels() -> (r: Vec<Level>)
    ensures
        r@.len() == 25,
        forall|i: int|
            0 <= i < 25 ==> (#[trigger] r@[i]).offset_mbps == default_level_pairs()[i].0
                && r@[i].refresh_mbps == default_level_pairs()[i].1,
{
    let pairs: [(u64, u64); 25] = [
        (550, 340), (1230, 740), (1910, 1150), (2590, 1560), (3270, 1970),
        (3950, 2380), (4630, 2780), (5310, 3190), (5990, 3600), (6670, 4010),
        (7350, 4800), (8030, 5400), (8710, 6000), (9390, 6600), (10070, 7200),
        (10750, 12900), (11430, 13720), (12110, 14530), (12790, 15350), (13470, 16160),
        (14150, 16980), (14830, 17800), (15510, 18610), (16190, 19430), (16870, 20240),
    ];
    assert(pairs@ =~= default_level_pairs());
    let mut r: Vec<Level> = Vec::new();
    let mut i: usize = 0;
    while i < 25
        invariant
            0 <= i <= 25,
            pairs@ == default_level_pairs(),
            r@.len() == i,
            forall|k: int|
                0 <= k < i ==> (#[trigger] r@[k]).offset_mbps == default_level_pairs()[k].0
                    && r@[k].refresh_mbps == default_level_pairs()[k].1,
        decreases 25 - i,
    {
        let (o, f) = pairs[i];
        r.push(Level { offset_mbps: o, refresh_mbps: f });
        i = i + 1;
    }
    r
}

pub open spec fn other_side(side: BookSide) -> BookSide {
    match side {
        BookSide::Bid => BookSide::Ask,
        BookSide::Ask => BookSide::Bid,
    }
}

/// The commitments after charging placement `p` to the inflight layer.
pub open spec fn charged(c: CommitmentTracker, p: Placement) -> CommitmentTracker {
    match p.side {
        BookSide::Bid => CommitmentTracker {
            inflight_quote: (c.inflight_quote + p.price * p.size) as u128,
            ..c
        },
        BookSide::Ask => CommitmentTracker { inflight_base: (c.inflight_base + p.size) as u128, ..c },
    }
}

impl Engine {
    /// Every cell of `next` is reached from the same cell of `self` along a
    /// permitted edge of the cell state machine (or is unchanged).
    pub open spec fn steps_permitted(&self, next: &Engine) -> bool {
        &&& next.bids@.len() == self.bids@.len()
        &&& next.asks@.len() == self.asks@.len()
        &&& forall|i: int| 0 <= i < self.bids@.len() ==> permitted(#[trigger] self.bids@[i], next.bids@[i])
        &&& forall|i: int| 0 <= i < self.asks@.len() ==> permitted(#[trigger] self.asks@[i], next.asks@[i])
    }

    /// No cell of `next` left `Empty`: only a place acknowledgement fills a cell.
    pub open spec fn none_leave_empty(&self, next: &Engine) -> bool {
        &&& forall|i: int|
            0 <= i < self.bids@.len() && (#[trigger] self.bids@[i]) is Empty ==> next.bids@[i] is Empty
        &&& forall|i: int|
            0 <= i < self.asks@.len() && (#[trigger] self.asks@[i]) is Empty ==> next.asks@[i] is Empty
    }

    /// A reply carrying `order_id` fills the cell of the awaited placement.
    pub open spec fn places(&self, order_id: Option<String>) -> bool {
        &&& self.intent is Some
        &&& order_id is Some
        &&& self.intent->Some_0.level < self.levels@.len()
        &&& self.cells(self.intent->Some_0.side)[self.intent->Some_0.level as int] is Empty
    }

    pub open spec fn wf(&self) -> bool {
        &&& self.bids@.len() == self.levels@.len()
        &&& self.asks@.len() == self.levels@.len()
        &&& self.levels@.len() <= MAX_LEVELS
        &&& forall|i: int| 0 <= i < self.levels@.len() ==> (#[trigger] self.levels@[i]).wf()
        &&& forall|i: int| 0 <= i < self.active@.len() ==> (#[trigger] self.active@[i]).wf()
    }

    pub open spec fn cells(&self, side: BookSide) -> Seq<LevelOrderState> {
        match side {
            BookSide::Bid => self.bids@,
            BookSide::Ask => self.asks@,
        }
    }

    /// The commitments stay within the balances less their safety buffers.
    pub open spec fn within_budget(&self) -> bool {
        self.commitments.within_budget(self.balances)
    }

    /// The recorded placement fits what is available on its side.
    pub open spec fn intent_fits(&self) -> bool {
        match self.intent {
            Some(p) => match p.side {
                BookSide::Bid => cost_spec(p.side, p.price, p.size) <= available(
                    self.balances.quote as int,
                    self.commitments.spec_total_quote(),
                ),
                BookSide::Ask => cost_spec(p.side, p.price, p.size) <= available(
                    self.balances.base as int,
                    self.commitments.spec_total_base(),
                ),
            },
            None => true,
        }
    }

    /// An engine over `levels`, every cell empty, nothing committed and no
    /// balance known; `None` if a level is more than 10% from mid or the
    /// ladder has more than 1000 levels.
    pub fn new(levels: Vec<Level>, order_notional: u64) -> (r: Option<Engine>)
        ensures
            (levels@.len() <= MAX_LEVELS && forall|i: int|
                0 <= i < levels@.len() ==> (#[trigger] levels@[i]).wf()) <==> r is Some,
            r matches Some(e) ==> {
                &&& e.wf()
                &&& e.levels@ == levels@
                &&& forall|i: int| 0 <= i < levels@.len() ==> (#[trigger] e.bids@[i]) is Empty
                &&& forall|i: int| 0 <= i < levels@.len() ==> (#[trigger] e.asks@[i]) is Empty
                &&& e.commitments == (CommitmentTracker {
                    inflight_quote: 0,
                    inflight_base: 0,
                    live_quote: 0,
                    live_base: 0,
                })
                &&& e.balances == (Balances { base: 0, quote: 0 })
                &&& !e.ofi_paused
                &&& e.order_notional == order_notional
                &&& e.intent is None
                &&& e.within_budget()
            },
    {
        if levels.len() > MAX_LEVELS {
            return None;
        }
        let mut bids: Vec<LevelOrderState> = Vec::new();
        let mut asks: Vec<LevelOrderState> = Vec::new();
        let mut i: usize = 0;
        while i < levels.len()
            invariant
                0 <= i <= levels@.len(),
                bids@.len() == i,
                asks@.len() == i,
                forall|k: int| 0 <= k < i ==> (#[trigger] levels@[k]).wf(),
                forall|k: int| 0 <= k < i ==> (#[trigger] bids@[k]) is Empty,
                forall|k: int| 0 <= k < i ==> (#[trigger] asks@[k]) is Empty,
            decreases levels@.len() - i,
        {
            if levels[i].offset_mbps > crate::quote::MAX_OFFSET_MBPS {
                return None;
            }
            bids.push(LevelOrderState::Empty);
            asks.push(LevelOrderState::Empty);
            i = i + 1;
        }
        Some(
            Engine {
                levels,
                bids,
                asks,
                commitments: CommitmentTracker::new(),
                balances: Balances { base: 0, quote: 0 },
                ofi_paused: false,
                order_notional,
                intent: None,
                active: Vec::new(),
                claimed: Vec::new(),
                rest_queue: Vec::new(),
                recently_cancelled: Vec::new(),
            },
        )
    }

    /// The cell of `side` at level `i`.
    pub fn cell(&self, side: BookSide, i: usize) -> (r: &LevelOrderState)
        requires
            self.wf(),
            i < self.levels@.len(),
        ensures
            *r == self.cells(side)[i as int],
    {
        match side {
            BookSide::Bid => &self.bids[i],
            BookSide::Ask => &self.asks[i],
        }
    }

    fn count_nonempty_cells(cells: &Vec<LevelOrderState>) -> (r: usize)
        ensures
            r == count_nonempty(cells@),
    {
        let mut n: usize = 0;
        let mut i: usize = 0;
        while i < cells.len()
            invariant
                0 <= i <= cells@.len(),
                n == count_nonempty(cells@.subrange(0, i as int)),
                n <= i,
            decreases cells@.len() - i,
        {
            assert(cells@.subrange(0, i as int + 1).drop_last() =~= cells@.subrange(0, i as int));
            if !cells[i].is_empty() {
                n = n + 1;
            }
            i = i + 1;
        }
        assert(cells@.subrange(0, cells@.len() as int) =~= cells@);
        n
    }

    /// Start a controller tick at mid `mid` (fine units), imbalance `ofi` (1e-4),
    /// variance `sigma2` (1e-8), trend `trend`, inventory `inventory` (size
    /// steps) and size shrink factor `factor_ppm` = exp(eta |q|) in ppm.
    /// Without a mid nothing changes and the tick is skipped; otherwise the
    /// OFI gate is updated, and the tick is skipped in a downtrend with an
    /// inventory of at most 0.05 base.
    pub fn begin_tick(
        &mut self,
        mid: u64,
        ofi: i64,
        sigma2: u64,
        trend: Trend,
        inventory: i64,
        factor_ppm: u64,
    ) -> (r: Option<TickPlan>)
        requires
            old(self).wf(),
            factor_ppm <= PPM_ONE,
        ensures
            final(self).wf(),
            final(self).ofi_paused == (if mid == 0 {
                old(self).ofi_paused
            } else {
                next_paused(old(self).ofi_paused, ofi as int)
            }),
            *final(self) == (Engine { ofi_paused: final(self).ofi_paused, ..*old(self) }),
            r is Some <==> (mid > 0 && !(trend == Trend::Down && inventory <= DOWNTREND_MIN_INV)),
            r matches Some(p) ==> p == plan_spec(
                old(self).ofi_paused,
                old(self).order_notional,
                old(self).bids@,
                old(self).asks@,
                mid,
                ofi,
                sigma2,
                trend,
                inventory,
                factor_ppm,
            ),
    {
        if mid == 0 {
            return None;
        }
        let gate = ofi_gate(self.ofi_paused, ofi);
        self.ofi_paused = gate.paused;
        let (skip_trend, widen) = match trend_gate(trend, inventory) {
            TrendGate::SkipTick => {
                return None;
            },
            TrendGate::Quote { skip_bids, widen_asks } => (skip_bids, widen_asks),
        };
        let base = base_size(self.order_notional, mid);
        let (bid_size, ask_size) = order_sizes(base, inventory, factor_ppm);
        let bid_count = Self::count_nonempty_cells(&self.bids);
        let ask_count = Self::count_nonempty_cells(&self.asks);
        Some(
            TickPlan {
                mid,
                inventory,
                sigma2,
                skip_bids: gate.skip_bids || skip_trend,
                skip_asks: gate.skip_asks,
                widen_asks: widen,
                bid_size,
                ask_size,
                bid_count,
                ask_count,
            },
        )
    }

    /// Target (bid, ask) prices in ticks of level `i` under `plan`.
    pub fn level_targets(&self, plan: &TickPlan, i: usize) -> (r: (u64, u64))
        requires
            self.wf(),
            i < self.levels@.len(),
        ensures
            r.0 == targets_spec(self.levels@[i as int], *plan).0,
            r.1 == targets_spec(self.levels@[i as int], *plan).1,
    {
        let level = &self.levels[i];
        let skew = capped_skew(plan.inventory, plan.sigma2, level.offset_mbps);
        level_prices(plan.mid, level, skew, plan.widen_asks)
    }

    /// Refresh-cancel: the order id to cancel when the cell of `side` at level
    /// `i` is live at a price more than the level's refresh tolerance away from
    /// `target`.
    pub fn refresh_cancel(&self, side: BookSide, i: usize, target: u64) -> (r: Option<String>)
        requires
            self.wf(),
            i < self.levels@.len(),
        ensures
            r is Some <==> (self.cells(side)[i as int] is Live && drifted_spec(
                self.cells(side)[i as int]->Live_price as int,
                target as int,
                self.levels@[i as int].refresh_mbps as int,
            )),
            r matches Some(id) ==> Some(id@) == self.cells(side)[i as int].id_view(),
    {
        let refresh = self.levels[i].refresh_mbps;
        match self.cell(side, i) {
            LevelOrderState::Live { order_id, price } => {
                if drifted(*price, target, refresh) {
                    Some(order_id.clone())
                } else {
                    None
                }
            },
            _ => None,
        }
    }

    /// Record the reply to a cancel sent for the cell of `side` at level `i`:
    /// acknowledged -> Empty, otherwise CancelPending from `now_ms`.
    pub fn on_cancel_reply(&mut self, side: BookSide, i: usize, acked: bool, now_ms: u64)
        requires
            old(self).wf(),
            i < old(self).levels@.len(),
        ensures
            final(self).wf(),
            old(self).steps_permitted(final(self)),
            old(self).none_leave_empty(final(self)),
            permitted(old(self).cells(side)[i as int], final(self).cells(side)[i as int]),
            old(self).cells(side)[i as int] is Live && acked ==> final(self).cells(side)[i as int] is Empty,
            old(self).cells(side)[i as int] is Live && !acked ==> final(self).cells(
                side,
            )[i as int] == (LevelOrderState::CancelPending {
                order_id: old(self).cells(side)[i as int]->Live_order_id,
                price: old(self).cells(side)[i as int]->Live_price,
                sent_at_ms: now_ms,
                attempts: 1,
            }),
            !(old(self).cells(side)[i as int] is Live) ==> final(self).cells(side)[i as int]
                == old(self).cells(side)[i as int],
            final(self).cells(side) == old(self).cells(side).update(
                i as int,
                final(self).cells(side)[i as int],
            ),
            side == BookSide::Bid ==> final(self).asks == old(self).asks,
            side == BookSide::Ask ==> final(self).bids == old(self).bids,
            final(self).levels == old(self).levels,
            final(self).commitments == old(self).commitments,
            final(self).balances == old(self).balances,
            final(self).ofi_paused == old(self).ofi_paused,
            final(self).intent == old(self).intent,
            final(self).active == old(self).active,
            final(self).order_notional == old(self).order_notional,
    {
        match side {
            BookSide::Bid => self.bids[i].on_cancel_reply(acked, now_ms),
            BookSide::Ask => self.asks[i].on_cancel_reply(acked, now_ms),
        }
    }

    /// The place / inventory-cancel step for the cell of `side` at level `i`
    /// with target price `price`. A placement is decided when the cell is
    /// empty, the side is not gated, its fill keeps the inventory within
    /// bounds, the size is at least one step, the side holds fewer than 25
    /// orders, and its cost fits the balance less commitments and safety
    /// buffer; it is then recorded as the awaited placement. A live cell is
    /// cancelled when its side is gated or its fill would breach the bound.
    pub fn next_action(&mut self, side: BookSide, i: usize, plan: &TickPlan, price: u64) -> (r:
        SideAction)
        requires
            old(self).wf(),
            i < old(self).levels@.len(),
        ensures
            final(self).wf(),
            *final(self) == (Engine { intent: final(self).intent, ..*old(self) }),
            ({
                let cell = old(self).cells(side)[i as int];
                let size = match side {
                    BookSide::Bid => plan.bid_size,
                    BookSide::Ask => plan.ask_size,
                };
                let skip = match side {
                    BookSide::Bid => plan.skip_bids,
                    BookSide::Ask => plan.skip_asks,
                };
                let count = match side {
                    BookSide::Bid => plan.bid_count,
                    BookSide::Ask => plan.ask_count,
                };
                let inv_ok = match side {
                    BookSide::Bid => bid_fits_spec(plan.inventory as int, size as int),
                    BookSide::Ask => ask_fits_spec(plan.inventory as int, size as int),
                };
                let placed = Placement { side, level: i, price, size };
                let engine_with = Engine { intent: Some(placed), ..*old(self) };
                let place = cell is Empty && !skip && inv_ok && size >= 1 && count
                    < MAX_ORDERS_PER_SIDE && engine_with.intent_fits();
                &&& place ==> r == (SideAction::Place { price, size }) && final(self).intent == Some(
                    placed,
                )
                &&& !place && cell is Live && (skip || !inv_ok) ==> (r matches SideAction::Cancel {
                    order_id,
                } && Some(order_id@) == cell.id_view()) && final(self).intent == old(self).intent
                &&& !place && !(cell is Live && (skip || !inv_ok)) ==> r is Nothing
                    && final(self).intent == old(self).intent
            }),
            r is Place ==> final(self).intent_fits(),
            r matches SideAction::Place { price: p, size: s } ==> p == price && s >= 1,
    {
        let size = match side {
            BookSide::Bid => plan.bid_size,
            BookSide::Ask => plan.ask_size,
        };
        let skip = match side {
            BookSide::Bid => plan.skip_bids,
            BookSide::Ask => plan.skip_asks,
        };
        let count = match side {
            BookSide::Bid => plan.bid_count,
            BookSide::Ask => plan.ask_count,
        };
        let inv_ok = match side {
            BookSide::Bid => can_place_bid(plan.inventory, size),
            BookSide::Ask => can_place_ask(plan.inventory, size),
        };
        let cost_fits = match side {
            BookSide::Bid => fits(
                self.balances.quote,
                self.commitments.inflight_quote.saturating_add(self.commitments.live_quote),
                wide_mul(price, size),
            ),
            BookSide::Ask => fits(
                self.balances.base,
                self.commitments.inflight_base.saturating_add(self.commitments.live_base),
                size as u128,
            ),
        };
        let cell = self.cell(side, i);
        if cell.is_empty() && !skip && inv_ok && size >= 1 && count < MAX_ORDERS_PER_SIDE
            && cost_fits {
            self.intent = Some(Placement { side, level: i, price, size });
            SideAction::Place { price, size }
        } else {
            let cancel = match side {
                BookSide::Bid => needs_cancel_bid(plan.inventory, size, skip),
                BookSide::Ask => needs_cancel_ask(plan.inventory, size, skip),
            };
            match cell {
                LevelOrderState::Live { order_id, .. } => {
                    if cancel {
                        SideAction::Cancel { order_id: order_id.clone() }
                    } else {
                        SideAction::Nothing
                    }
                },
                _ => SideAction::Nothing,
            }
        }
    }

    /// The reply to the awaited placement: with an exchange order id the cell
    /// goes Live at the placement's price and its cost is charged to the
    /// inflight layer. The awaited placement is cleared either way.
    pub fn on_place_reply(&mut self, order_id: Option<String>)
        requires
            old(self).wf(),
        ensures
            final(self).wf(),
            old(self).steps_permitted(final(self)),
            final(self).intent is None,
            final(self).levels == old(self).levels,
            final(self).balances == old(self).balances,
            final(self).ofi_paused == old(self).ofi_paused,
            final(self).active == old(self).active,
            final(self).order_notional == old(self).order_notional,
            final(self).commitments.live_quote == old(self).commitments.live_quote,
            final(self).commitments.live_base == old(self).commitments.live_base,
            old(self).within_budget() && old(self).intent_fits() ==> final(self).within_budget(),
            old(self).places(order_id) ==> {
                let p = old(self).intent->Some_0;
                &&& final(self).cells(p.side) == old(self).cells(p.side).update(
                    p.level as int,
                    LevelOrderState::Live { order_id: order_id->Some_0, price: p.price },
                )
                &&& final(self).cells(other_side(p.side)) == old(self).cells(other_side(p.side))
                &&& old(self).intent_fits() ==> final(self).commitments == charged(
                    old(self).commitments,
                    p,
                )
            },
            !old(self).places(order_id) ==> final(self).bids == old(self).bids && final(self).asks
                == old(self).asks && final(self).commitments == old(self).commitments,
            forall|i: int|
                0 <= i < old(self).bids@.len() && (#[trigger] old(self).bids@[i]) is Empty && !(final(self).bids@[i] is Empty)
                    ==> old(self).places(order_id) && old(self).intent->Some_0.side == BookSide::Bid
                    && old(self).intent->Some_0.level == i,
            forall|i: int|
                0 <= i < old(self).asks@.len() && (#[trigger] old(self).asks@[i]) is Empty && !(final(self).asks@[i] is Empty)
                    ==> old(self).places(order_id) && old(self).intent->Some_0.side == BookSide::Ask
                    && old(self).intent->Some_0.level == i,
    {
        let intent = self.intent;
        self.intent = None;
        if let (Some(p), Some(id)) = (intent, order_id) {
            if p.level < self.levels.len() {
                let empty = self.cell(p.side, p.level).is_empty();
                if empty {
                    let cost = wide_mul(p.price, p.size);
                    match p.side {
                        BookSide::Bid => {
                            self.bids[p.level].on_place_ack(id, p.price);
                            if self.commitments.inflight_quote <= u128::MAX - cost {
                                self.commitments.add_inflight_bid(cost);
                            } else {
                                self.commitments.inflight_quote = u128::MAX;
                            }
                        },
                        BookSide::Ask => {
                            self.asks[p.level].on_place_ack(id, p.price);
                            if self.commitments.inflight_base <= u128::MAX - p.size as u128 {
                                self.commitments.add_inflight_ask(p.size as u128);
                            } else {
                                self.commitments.inflight_base = u128::MAX;
                            }
                        },
                    }
                }
            }
        }
    }
}

} // verus!

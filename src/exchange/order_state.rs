//! Order and fill bookkeeping of one trading session: tracked orders, FIFO
//! position and realized P&L, fees and rebates.
//!
//! Prices are in ticks (0.01), sizes in size steps (0.01), quote amounts
//! (price x size) in 1e-4 and fees in 1e-8 of the quote currency; times are
//! milliseconds of a monotonic clock.
use vstd::prelude::*;
use crate::exchange::order_state_machine::{pair_index, lemma_pair_index};
use crate::pnl::PnL;
use crate::quote::wide_mul;

verus! {

#[derive(Debug, Clone, Copy, PartialEq, Eq)]
pub enum Side {
    Buy,
    Sell,
}

#[derive(Debug, Clone, Copy, PartialEq, Eq)]
pub enum OrderStatus {
    Open,
    PartialFill,
    Filled,
    Cancelled,
    Unknown,
}

/// An order of ours resting on the exchange.
#[derive(Debug)]
pub struct TrackedOrder {
    pub order_id: String,
    pub client_oid: String,
    pub symbol: String,
    pub side: Side,
    pub price: u64,
    pub original_size: u64,
    pub filled_size: u64,
    pub remaining_size: u64,
    pub status: OrderStatus,
    pub created_at_ms: u64,
    pub last_update_ms: u64,
}

/// A fill; `fee` is positive for a fee paid, negative for a rebate.
#[derive(Debug)]
pub struct Fill {
    pub order_id: String,
    pub trade_id: String,
    pub side: Side,
    pub price: u64,
    pub size: u64,
    pub fee: i128,
    pub fee_currency: String,
    pub timestamp: u64,
}

/// Realized P&L by source, in 1e-8 quote.
#[derive(Debug, Clone, Default)]
pub struct PnLBreakdown {
    pub spread_pnl: i128,
    pub rebates: i128,
    pub taker_fees: i128,
    pub total_realized: i128,
}

/// The index of the first tracked order with exchange id `id`.
pub open spec fn tracked_index(s: Seq<TrackedOrder>, id: Seq<char>) -> Option<int>
    decreases s.len(),
{
    if s.len() == 0 {
        None
    } else if s[0].order_id@ == id {
        Some(0)
    } else {
        match tracked_index(s.skip(1), id) {
            Some(i) => Some(i + 1),
            None => None,
        }
    }
}

proof fn lemma_tracked_index(s: Seq<TrackedOrder>, id: Seq<char>, j: int)
    requires
        0 <= j <= s.len(),
        forall|k: int| 0 <= k < j ==> (#[trigger] s[k]).order_id@ != id,
        j < s.len() ==> s[j].order_id@ == id,
    ensures
        tracked_index(s, id) == (if j < s.len() { Some(j) } else { None::<int> }),
    decreases j,
{
    if j > 0 {
        assert forall|k: int| 0 <= k < j - 1 implies (#[trigger] s.skip(1)[k]).order_id@ != id by {
            assert(s.skip(1)[k] == s[k + 1]);
        }
        if j < s.len() {
            assert(s.skip(1)[j - 1] == s[j]);
        }
        lemma_tracked_index(s.skip(1), id, j - 1);
    }
}

fn find_tracked(orders: &Vec<TrackedOrder>, id: &str) -> (r: Option<usize>)
    ensures
        match r {
            Some(i) => tracked_index(orders@, id@) == Some(i as int) && i < orders@.len(),
            None => tracked_index(orders@, id@) is None,
        },
{
    let key = String::from_str(id);
    let mut j: usize = 0;
    while j < orders.len()
        invariant
            0 <= j <= orders@.len(),
            key@ == id@,
            forall|k: int| 0 <= k < j ==> (#[trigger] orders@[k]).order_id@ != id@,
        decreases orders@.len() - j,
    {
        if orders[j].order_id == key {
            proof {
                lemma_tracked_index(orders@, id@, j as int);
            }
            return Some(j);
        }
        j = j + 1;
    }
    proof {
        lemma_tracked_index(orders@, id@, j as int);
    }
    None
}

fn contains_string(v: &Vec<String>, id: &str) -> (r: bool)
    ensures
        r == exists|k: int| 0 <= k < v@.len() && (#[trigger] v@[k])@ == id@,
{
    let key = String::from_str(id);
    let mut j: usize = 0;
    while j < v.len()
        invariant
            0 <= j <= v@.len(),
            key@ == id@,
            forall|k: int| 0 <= k < j ==> (#[trigger] v@[k])@ != id@,
        decreases v@.len() - j,
    {
        if v[j] == key {
            return true;
        }
        j = j + 1;
    }
    false
}

pub open spec fn is_working(s: OrderStatus) -> bool {
    s is Open || s is PartialFill
}

/// The average entry after adding `size` at `price` to a position of
/// magnitude `held` entered at `avg` (rounded down).
pub open spec fn averaged(held: int, avg: int, size: int, price: int) -> int {
    if held + size > 0 {
        (held * avg + size * price) / (held + size)
    } else {
        avg
    }
}

pub struct OrderManager {
    pub active_orders: Vec<TrackedOrder>,
    pub client_to_order: Vec<(String, String)>,
    pub pending_cancels: Vec<String>,
    /// FIFO lots, position and spread P&L.
    pub fifo: PnL,
    /// Rebates received, in 1e-8 quote.
    pub total_rebates: u128,
    /// Fees paid, in 1e-8 quote.
    pub taker_fees: u128,
    /// Average entry price of the open position, in ticks.
    pub avg_entry_price: u64,
    pub fills_count: u64,
    pub volume_base: u128,
    pub volume_quote: u128,
    /// The maker fee rate, in millionths of the notional (negative for a rebate).
    pub maker_fee: i64,
    pub last_fill_ms: Option<u64>,
}

impl OrderManager {
    pub open spec fn wf(&self) -> bool {
        self.fifo.wf()
    }

    pub fn new(maker_fee: i64) -> (r: OrderManager)
        ensures
            r.wf(),
            r.fifo.position() == 0,
            r.fifo.spread == 0,
            r.active_orders@.len() == 0,
            r.maker_fee == maker_fee,
            r.total_rebates == 0 && r.taker_fees == 0 && r.fills_count == 0,
            r.last_fill_ms is None,
    {
        OrderManager {
            active_orders: Vec::new(),
            client_to_order: Vec::new(),
            pending_cancels: Vec::new(),
            fifo: PnL::new(),
            total_rebates: 0,
            taker_fees: 0,
            avg_entry_price: 0,
            fills_count: 0,
            volume_base: 0,
            volume_quote: 0,
            maker_fee,
            last_fill_ms: None,
        }
    }

    /// Track a new open order under its exchange id (replacing one with the
    /// same id) and index it by client id.
    pub fn register_order(
        &mut self,
        order_id: String,
        client_oid: String,
        symbol: String,
        side: Side,
        price: u64,
        size: u64,
        now_ms: u64,
    )
        requires
            old(self).wf(),
        ensures
            final(self).wf(),
            ({
                let k = tracked_index(old(self).active_orders@, order_id@);
                let n = match k {
                    Some(i) => i,
                    None => old(self).active_orders@.len() as int,
                };
                &&& final(self).active_orders@.len() == (if k is Some {
                    old(self).active_orders@.len()
                } else {
                    old(self).active_orders@.len() + 1
                })
                &&& final(self).active_orders@[n].order_id == order_id
                &&& final(self).active_orders@[n].status == OrderStatus::Open
                &&& final(self).active_orders@[n].side == side
                &&& final(self).active_orders@[n].price == price
                &&& final(self).active_orders@[n].remaining_size == size
                &&& final(self).active_orders@[n].filled_size == 0
            }),
            exists|j: int|
                0 <= j < final(self).client_to_order@.len() && (#[trigger] final(self).client_to_order@[j]).0@
                    == client_oid@ && final(self).client_to_order@[j].1@ == order_id@,
            final(self).fifo == old(self).fifo,
    {
        let entry = (client_oid.clone(), order_id.clone());
        let order = TrackedOrder {
            order_id: order_id.clone(),
            client_oid,
            symbol,
            side,
            price,
            original_size: size,
            filled_size: 0,
            remaining_size: size,
            status: OrderStatus::Open,
            created_at_ms: now_ms,
            last_update_ms: now_ms,
        };
        match find_tracked(&self.active_orders, order_id.as_str()) {
            Some(i) => self.active_orders.set(i, order),
            None => self.active_orders.push(order),
        }
        let ghost w: int;
        match crate::exchange::order_state_machine::find_pair(&self.client_to_order, entry.0.as_str()) {
            Some(k) => {
                self.client_to_order.set(k, entry);
                proof {
                    w = k as int;
                }
            },
            None => {
                self.client_to_order.push(entry);
                proof {
                    w = self.client_to_order@.len() - 1;
                }
            },
        }
        assert(self.client_to_order@[w].0@ == client_oid@);
    }

    /// Whether a fill of `size` at `price` can be recorded (see `PnL::can_record`).
    pub fn can_record(&self, price: u64, size: u64) -> (r: bool)
        requires
            self.wf(),
        ensures
            r == (price <= crate::reconcile::MAX_PRICE_TICKS && size <= crate::reconcile::MAX_SIZE_STEPS
                && self.fifo.bought + self.fifo.sold + price * size <= crate::pnl::VOLUME_CAP
                && self.fifo.bought_size + self.fifo.sold_size + size <= crate::pnl::SIZE_CAP),
    {
        self.fifo.can_record(price, size)
    }

    /// Process a fill at `now_ms`: session counters, fees, average entry of
    /// a growing position, FIFO matching (realized spread P&L: see
    /// `PnL::buy_step` / `PnL::sell_step`), and the filled order's status. A fill outside the recordable bounds changes
    /// nothing and returns `false`.
    pub fn on_fill(&mut self, fill: &Fill, now_ms: u64) -> (r: bool)
        requires
            old(self).wf(),
        ensures
            final(self).wf(),
            r == old(self).can_record_spec(fill.price, fill.size),
            !r ==> final(self).fifo == old(self).fifo && final(self).active_orders == old(self).active_orders
                && final(self).fills_count == old(self).fills_count,
            r ==> {
                let p0 = old(self).fifo.position();
                &&& fill.side == Side::Buy ==> PnL::buy_step(old(self).fifo, final(self).fifo, fill.price, fill.size, 0)
                &&& fill.side == Side::Sell ==> PnL::sell_step(old(self).fifo, final(self).fifo, fill.price, fill.size, 0)
                &&& final(self).fills_count == crate::pnl::sat64(old(self).fills_count as int, 1)
                &&& final(self).volume_base == crate::pnl::sat128(old(self).volume_base as int, fill.size as int)
                &&& final(self).volume_quote == crate::pnl::sat128(old(self).volume_quote as int, fill.price * fill.size)
                &&& fill.side == Side::Buy ==> final(self).fifo.position() == p0 + fill.size
                    && final(self).fifo.bought == old(self).fifo.bought + fill.price * fill.size
                    && final(self).fifo.sold == old(self).fifo.sold
                &&& fill.side == Side::Sell ==> final(self).fifo.position() == p0 - fill.size
                    && final(self).fifo.sold == old(self).fifo.sold + fill.price * fill.size
                    && final(self).fifo.bought == old(self).fifo.bought
                &&& final(self).avg_entry_price == (if fill.side == Side::Buy && p0 >= 0 {
                    averaged(p0, old(self).avg_entry_price as int, fill.size as int, fill.price as int)
                } else if fill.side == Side::Sell && p0 <= 0 {
                    averaged(-p0, old(self).avg_entry_price as int, fill.size as int, fill.price as int)
                } else {
                    old(self).avg_entry_price as int
                })
                &&& fill.fee > 0 ==> final(self).taker_fees == (if old(self).taker_fees + fill.fee > u128::MAX {
                    u128::MAX as int
                } else {
                    old(self).taker_fees + fill.fee
                }) && final(self).total_rebates == old(self).total_rebates
                &&& fill.fee <= 0 ==> final(self).total_rebates == (if old(self).total_rebates - fill.fee > u128::MAX {
                    u128::MAX as int
                } else {
                    old(self).total_rebates - fill.fee
                }) && final(self).taker_fees == old(self).taker_fees
                &&& final(self).last_fill_ms == Some(now_ms)
                &&& final(self).active_orders@.len() == old(self).active_orders@.len()
                &&& match tracked_index(old(self).active_orders@, fill.order_id@) {
                    Some(i) => {
                        let o = old(self).active_orders@[i];
                        let filled = if o.filled_size + fill.size > u64::MAX { u64::MAX as int } else { o.filled_size + fill.size };
                        let rem = if o.original_size >= filled { o.original_size - filled } else { 0 };
                        &&& final(self).active_orders@[i].filled_size == filled
                        &&& final(self).active_orders@[i].remaining_size == rem
                        &&& final(self).active_orders@[i].status == (if rem == 0 {
                            OrderStatus::Filled
                        } else {
                            OrderStatus::PartialFill
                        })
                        &&& final(self).active_orders@[i].last_update_ms == now_ms
                    },
                    None => final(self).active_orders == old(self).active_orders,
                }
            },
    {
        if !self.fifo.can_record(fill.price, fill.size) {
            return false;
        }
        self.fills_count = self.fills_count.saturating_add(1);
        self.volume_base = self.volume_base.saturating_add(fill.size as u128);
        self.volume_quote = self.volume_quote.saturating_add(wide_mul(fill.price, fill.size));
        self.last_fill_ms = Some(now_ms);
        if fill.fee > 0 {
            self.taker_fees = self.taker_fees.saturating_add(fill.fee as u128);
        } else {
            let magnitude: u128 = if fill.fee == 0 {
                0
            } else {
                ((-(fill.fee + 1)) as u128) + 1
            };
            self.total_rebates = self.total_rebates.saturating_add(magnitude);
        }
        let p0 = self.fifo.inv();
        let adds = match fill.side {
            Side::Buy => p0 >= 0,
            Side::Sell => p0 <= 0,
        };
        if adds {
            let held: u128 = if p0 >= 0 {
                p0 as u128
            } else {
                (-p0) as u128
            };
            proof {
                crate::pnl::lemma_position_bound(self.fifo);
                crate::quote::lemma_mul_bound(held as int, self.avg_entry_price as int, crate::pnl::SIZE_CAP as int, u64::MAX as int);
                crate::quote::lemma_mul_bound(fill.size as int, fill.price as int, u64::MAX as int, u64::MAX as int);
            }
            let total = held + fill.size as u128;
            if total > 0 {
                let num = held * (self.avg_entry_price as u128) + wide_mul(fill.size, fill.price);
                let avg = num / total;
                proof {
                    lemma_average_fits(held as int, self.avg_entry_price as int, fill.size as int, fill.price as int);
                }
                self.avg_entry_price = avg as u64;
            }
        }
        match fill.side {
            Side::Buy => self.fifo.buy(fill.price, fill.size, 0),
            Side::Sell => self.fifo.sell(fill.price, fill.size, 0),
        }
        if let Some(i) = find_tracked(&self.active_orders, fill.order_id.as_str()) {
            let filled = self.active_orders[i].filled_size.saturating_add(fill.size);
            let original = self.active_orders[i].original_size;
            let rem = if original >= filled {
                original - filled
            } else {
                0
            };
            self.active_orders[i].filled_size = filled;
            self.active_orders[i].remaining_size = rem;
            self.active_orders[i].last_update_ms = now_ms;
            self.active_orders[i].status = if rem == 0 {
                OrderStatus::Filled
            } else {
                OrderStatus::PartialFill
            };
        }
        true
    }

    pub open spec fn can_record_spec(&self, price: u64, size: u64) -> bool {
        price <= crate::reconcile::MAX_PRICE_TICKS && size <= crate::reconcile::MAX_SIZE_STEPS
            && self.fifo.bought + self.fifo.sold + price * size <= crate::pnl::VOLUME_CAP
            && self.fifo.bought_size + self.fifo.sold_size + size <= crate::pnl::SIZE_CAP
    }

    /// Mark the order `order_id` cancelled and forget its pending cancel.
    pub fn on_cancel(&mut self, order_id: &str)
        requires
            old(self).wf(),
        ensures
            final(self).wf(),
            final(self).active_orders@.len() == old(self).active_orders@.len(),
            match tracked_index(old(self).active_orders@, order_id@) {
                Some(i) => final(self).active_orders@[i].status == OrderStatus::Cancelled,
                None => final(self).active_orders == old(self).active_orders,
            },
            forall|k: int| 0 <= k < final(self).pending_cancels@.len() ==> (#[trigger] final(self).pending_cancels@[k])@ != order_id@,
            final(self).fifo == old(self).fifo,
    {
        if let Some(i) = find_tracked(&self.active_orders, order_id) {
            self.active_orders[i].status = OrderStatus::Cancelled;
        }
        let key = String::from_str(order_id);
        let mut kept: Vec<String> = Vec::new();
        let mut j: usize = 0;
        while j < self.pending_cancels.len()
            invariant
                0 <= j <= self.pending_cancels@.len(),
                key@ == order_id@,
                forall|k: int| 0 <= k < kept@.len() ==> (#[trigger] kept@[k])@ != order_id@,
            decreases self.pending_cancels@.len() - j,
        {
            if self.pending_cancels[j] != key {
                kept.push(self.pending_cancels[j].clone());
            }
            j = j + 1;
        }
        self.pending_cancels = kept;
    }

    /// Drop the orders that are no longer open or partially filled.
    pub fn cleanup_orders(&mut self)
        requires
            old(self).wf(),
        ensures
            final(self).wf(),
            forall|k: int| 0 <= k < final(self).active_orders@.len() ==> is_working(#[trigger] final(self).active_orders@[k].status),
            forall|k: int| 0 <= k < old(self).active_orders@.len() && is_working(#[trigger] old(self).active_orders@[k].status)
                ==> final(self).active_orders@.contains(old(self).active_orders@[k]),
            final(self).active_orders@.len() <= old(self).active_orders@.len(),
            final(self).fifo == old(self).fifo,
    {
        let mut kept: Vec<TrackedOrder> = Vec::new();
        let ghost old_orders = self.active_orders@;
        let n = self.active_orders.len();
        let mut i: usize = 0;
        while i < n
            invariant
                0 <= i <= n,
                n == old_orders.len(),
                old_orders == old(self).active_orders@,
                self.active_orders@.len() == n - i,
                forall|k: int| 0 <= k < n - i ==> #[trigger] self.active_orders@[k] == old_orders[k + i],
                forall|k: int| 0 <= k < i && is_working(#[trigger] old_orders[k].status) ==> kept@.contains(old_orders[k]),
                self.fifo == old(self).fifo,
                kept@.len() <= i,
                forall|k: int| 0 <= k < kept@.len() ==> is_working(#[trigger] kept@[k].status),
            decreases n - i,
        {
            let o = self.active_orders.remove(0);
            proof {
                assert(o == old_orders[i as int]);
                assert forall|k: int| 0 <= k < n - i - 1 implies #[trigger] self.active_orders@[k] == old_orders[k + i + 1] by {}
            }
            let ghost before = kept@;
            if matches!(o.status, OrderStatus::Open | OrderStatus::PartialFill) {
                kept.push(o);
            }
            proof {
                assert forall|k: int| 0 <= k < i + 1 && is_working(#[trigger] old_orders[k].status) implies kept@.contains(old_orders[k]) by {
                    if k < i {
                        let w = choose|w: int| 0 <= w < before.len() && before[w] == old_orders[k];
                        assert(kept@[w] == old_orders[k]);
                    } else {
                        assert(kept@[kept@.len() - 1] == old_orders[k]);
                    }
                }
            }
            i = i + 1;
        }
        self.active_orders = kept;
    }

    /// The exchange id of the order placed with `client_oid`.
    pub fn get_order_id(&self, client_oid: &str) -> (r: Option<&String>)
        ensures
            match pair_index(self.client_to_order@, client_oid@) {
                Some(k) => r == Some(&self.client_to_order@[k].1),
                None => r is None,
            },
    {
        match crate::exchange::order_state_machine::find_pair(&self.client_to_order, client_oid) {
            Some(k) => Some(&self.client_to_order[k].1),
            None => None,
        }
    }

    pub fn mark_pending_cancel(&mut self, order_id: &str)
        requires
            old(self).wf(),
        ensures
            final(self).wf(),
            exists|k: int| 0 <= k < final(self).pending_cancels@.len() && (#[trigger] final(self).pending_cancels@[k])@ == order_id@,
            final(self).active_orders == old(self).active_orders,
            final(self).fifo == old(self).fifo,
    {
        if !contains_string(&self.pending_cancels, order_id) {
            self.pending_cancels.push(String::from_str(order_id));
            assert(self.pending_cancels@[self.pending_cancels@.len() - 1]@ == order_id@);
        }
    }

    pub fn is_pending_cancel(&self, order_id: &str) -> (r: bool)
        ensures
            r == exists|k: int| 0 <= k < self.pending_cancels@.len() && (#[trigger] self.pending_cancels@[k])@ == order_id@,
    {
        contains_string(&self.pending_cancels, order_id)
    }

    /// Net position in size steps.
    pub fn position(&self) -> (r: i128)
        requires
            self.wf(),
        ensures
            r == self.fifo.position(),
    {
        self.fifo.inv()
    }

    /// Realized P&L, in 1e-4 quote: the FIFO spread P&L.
    pub fn realized_pnl(&self) -> (r: i128)
        ensures
            r == self.fifo.spread,
    {
        self.fifo.spread
    }

    pub fn spread_pnl(&self) -> (r: i128)
        ensures
            r == self.fifo.spread,
    {
        self.fifo.spread
    }

    pub fn rebates(&self) -> (r: u128)
        ensures
            r == self.total_rebates,
    {
        self.total_rebates
    }

    pub fn taker_fees(&self) -> (r: u128)
        ensures
            r == self.taker_fees,
    {
        self.taker_fees
    }

    /// Unrealized P&L at `current_price` ticks, in 1e-4 quote:
    /// position x (current - average entry), with the sign of the position.
    pub fn unrealized_pnl(&self, current_price: u64) -> (r: i128)
        requires
            self.wf(),
        ensures
            r == self.fifo.position() * (current_price - self.avg_entry_price),
            -0x1000_0000_0000_0000_0000_0000_0000_0000 <= r <= 0x1000_0000_0000_0000_0000_0000_0000_0000,
    {
        let p = self.fifo.inv();
        let d = current_price as i128 - self.avg_entry_price as i128;
        proof {
            crate::pnl::lemma_position_bound(self.fifo);
            assert(-0x1000_0000_0000_0000_0000_0000_0000_0000 <= p * d <= 0x1000_0000_0000_0000_0000_0000_0000_0000)
                by (nonlinear_arith)
                requires
                    -0x1000_0000_0000_0000 <= p <= 0x1000_0000_0000_0000,
                    -0x1_0000_0000_0000_0000 <= d <= 0x1_0000_0000_0000_0000,
            ;
        }
        p * d
    }

    /// Realized plus unrealized P&L at `current_price` ticks, in 1e-4 quote.
    pub fn total_pnl(&self, current_price: u64) -> (r: i128)
        requires
            self.wf(),
        ensures
            r == self.fifo.spread + self.fifo.position() * (current_price - self.avg_entry_price),
    {
        let u = self.unrealized_pnl(current_price);
        proof {
            crate::pnl::lemma_spread_bound(self.fifo);
        }
        self.fifo.spread + u
    }

    /// (fills, base volume, quote volume) of the session.
    pub fn stats(&self) -> (r: (u64, u128, u128))
        ensures
            r == (self.fills_count, self.volume_base, self.volume_quote),
    {
        (self.fills_count, self.volume_base, self.volume_quote)
    }

    /// The first open or partially filled order on `side`.
    pub fn active_order_for_side(&self, side: Side) -> (r: Option<&TrackedOrder>)
        ensures
            match r {
                Some(o) => o.side == side && is_working(o.status) && self.active_orders@.contains(*o),
                None => forall|k: int| 0 <= k < self.active_orders@.len() ==> !((#[trigger] self.active_orders@[k]).side == side
                    && is_working(self.active_orders@[k].status)),
            },
    {
        let mut j: usize = 0;
        while j < self.active_orders.len()
            invariant
                0 <= j <= self.active_orders@.len(),
                forall|k: int| 0 <= k < j ==> !((#[trigger] self.active_orders@[k]).side == side
                    && is_working(self.active_orders@[k].status)),
            decreases self.active_orders@.len() - j,
        {
            let o = &self.active_orders[j];
            let same = match (o.side, side) {
                (Side::Buy, Side::Buy) | (Side::Sell, Side::Sell) => true,
                _ => false,
            };
            if same && matches!(o.status, OrderStatus::Open | OrderStatus::PartialFill) {
                assert(self.active_orders@[j as int] == *o);
                return Some(o);
            }
            j = j + 1;
        }
        None
    }

    /// Whole seconds since the last fill at `now_ms`; the largest value before any fill.
    pub fn secs_since_last_fill(&self, now_ms: u64) -> (r: u64)
        ensures
            r == (match self.last_fill_ms {
                Some(t) => (if now_ms >= t { (now_ms - t) / 1000 } else { 0 }) as int,
                None => u64::MAX as int,
            }),
    {
        match self.last_fill_ms {
            Some(t) => {
                if now_ms >= t {
                    (now_ms - t) / 1000
                } else {
                    0
                }
            },
            None => u64::MAX,
        }
    }
}

proof fn lemma_average_fits(held: int, avg: int, size: int, price: int)
    requires
        0 <= held,
        0 <= avg <= u64::MAX,
        0 <= size,
        0 <= price <= u64::MAX,
        held + size > 0,
    ensures
        0 <= (held * avg + size * price) / (held + size) <= u64::MAX,
{
    assert(held * avg + size * price <= (held + size) * (u64::MAX as int)) by (nonlinear_arith)
        requires
            0 <= held,
            0 <= avg <= u64::MAX,
            0 <= size,
            0 <= price <= u64::MAX,
    ;
    assert(0 <= held * avg + size * price) by (nonlinear_arith)
        requires
            0 <= held,
            0 <= avg,
            0 <= size,
            0 <= price,
    ;
    assert((held * avg + size * price) / (held + size) <= u64::MAX) by (nonlinear_arith)
        requires
            held * avg + size * price <= (held + size) * (u64::MAX as int),
            held + size > 0,
            0 <= held * avg + size * price,
    ;
}

} // verus!

//! A price-level order book with depth and imbalance measures.
//!
//! Prices and sizes are integers in units the caller chooses (for instance
//! fine price units of 1e-4 and size units of 1e-4); times are milliseconds.
//! Each side is kept best first: bids by descending price, asks by ascending.
use vstd::prelude::*;

verus! {

/// A side of the book (and of the ladder): bids buy, asks sell.
#[derive(Debug, Clone, Copy, PartialEq, Eq)]
pub enum BookSide {
    Bid,
    Ask,
}

#[derive(Debug, Clone, Copy, PartialEq, Eq)]
pub struct PriceLevel {
    pub price: u64,
    pub size: u64,
}

#[derive(Debug)]
pub struct OrderBook {
    pub symbol: String,
    pub bids: Vec<PriceLevel>,
    pub asks: Vec<PriceLevel>,
    pub last_update_ms: u64,
    pub sequence: u64,
}

/// `a` comes before `b` on `side`: a higher bid, a lower ask.
pub open spec fn better(side: BookSide, a: u64, b: u64) -> bool {
    match side {
        BookSide::Bid => a > b,
        BookSide::Ask => a < b,
    }
}

/// Strictly best-first.
pub open spec fn sorted(side: BookSide, s: Seq<PriceLevel>) -> bool {
    forall|i: int, j: int| 0 <= i < j < s.len() ==> better(side, #[trigger] s[i].price, #[trigger] s[j].price)
}

/// Where a new price goes: before the first level it is better than.
pub open spec fn insert_pos(side: BookSide, s: Seq<PriceLevel>, price: u64) -> int
    decreases s.len(),
{
    if s.len() == 0 {
        0
    } else if better(side, price, s[0].price) {
        0
    } else {
        1 + insert_pos(side, s.skip(1), price)
    }
}

/// The first level at `price`, by index.
pub open spec fn level_index(s: Seq<PriceLevel>, price: u64) -> Option<int>
    decreases s.len(),
{
    if s.len() == 0 {
        None
    } else if s[0].price == price {
        Some(0)
    } else {
        match level_index(s.skip(1), price) {
            Some(i) => Some(i + 1),
            None => None,
        }
    }
}

/// The side after a delta: size zero removes the price, a known price takes
/// the new size, a new price is inserted best first.
pub open spec fn delta_spec(side: BookSide, s: Seq<PriceLevel>, price: u64, size: u64) -> Seq<PriceLevel> {
    if size == 0 {
        s.filter(|l: PriceLevel| l.price != price)
    } else {
        match level_index(s, price) {
            Some(i) => s.update(i, PriceLevel { price, size }),
            None => s.insert(insert_pos(side, s, price), PriceLevel { price, size }),
        }
    }
}

/// Total size of the first `n` levels.
pub open spec fn depth(s: Seq<PriceLevel>, n: int) -> int
    decreases n,
{
    if n <= 0 || s.len() == 0 {
        0
    } else if n > s.len() {
        depth(s, s.len() as int)
    } else {
        depth(s, n - 1) + s[n - 1].size
    }
}

/// (bid - ask) / (bid + ask) in 1e-4, truncated toward zero; 0 for an empty book.
pub open spec fn imbalance_spec(bid: int, ask: int) -> int {
    if bid + ask == 0 {
        0
    } else if bid >= ask {
        (bid - ask) * 10_000 / (bid + ask)
    } else {
        -((ask - bid) * 10_000 / (bid + ask))
    }
}

fn to_levels(v: Vec<(u64, u64)>) -> (r: Vec<PriceLevel>)
    ensures
        r@.len() == v@.len(),
        forall|i: int| 0 <= i < v@.len() ==> #[trigger] r@[i] == (PriceLevel { price: v@[i].0, size: v@[i].1 }),
{
    let mut r: Vec<PriceLevel> = Vec::new();
    let mut i: usize = 0;
    while i < v.len()
        invariant
            0 <= i <= v@.len(),
            r@.len() == i,
            forall|k: int| 0 <= k < i ==> #[trigger] r@[k] == (PriceLevel { price: v@[k].0, size: v@[k].1 }),
        decreases v@.len() - i,
    {
        r.push(PriceLevel { price: v[i].0, size: v[i].1 });
        i = i + 1;
    }
    r
}

fn goes_before(side: BookSide, a: u64, b: u64) -> (r: bool)
    ensures
        r == better(side, a, b),
{
    match side {
        BookSide::Bid => a > b,
        BookSide::Ask => a < b,
    }
}

fn side_delta(side: BookSide, levels: &mut Vec<PriceLevel>, price: u64, size: u64)
    ensures
        final(levels)@ == delta_spec(side, old(levels)@, price, size),
        sorted(side, old(levels)@) ==> sorted(side, final(levels)@),
{
    let ghost s0 = levels@;
    if size == 0 {
        let mut kept: Vec<PriceLevel> = Vec::new();
        let mut i: usize = 0;
        while i < levels.len()
            invariant
                0 <= i <= levels@.len(),
                levels@ == s0,
                kept@ == s0.subrange(0, i as int).filter(|l: PriceLevel| l.price != price),
                sorted(side, s0) ==> sorted(side, kept@),
                sorted(side, s0) ==> forall|a: int, q: int|
                    0 <= a < kept@.len() && i <= q < s0.len() ==> better(side, #[trigger] kept@[a].price, #[trigger] s0[q].price),
            decreases levels@.len() - i,
        {
            proof {
                assert(s0.subrange(0, i as int + 1) =~= s0.subrange(0, i as int).push(s0[i as int]));
                s0.subrange(0, i as int).lemma_filter_push(s0[i as int], |l: PriceLevel| l.price != price);
            }
            let ghost k0 = kept@;
            if levels[i].price != price {
                kept.push(levels[i]);
                proof {
                    if sorted(side, s0) {
                        assert forall|a: int, b: int| 0 <= a < b < kept@.len() implies better(side, #[trigger] kept@[a].price, #[trigger] kept@[b].price) by {
                            if b < k0.len() {
                                assert(kept@[a] == k0[a] && kept@[b] == k0[b]);
                            } else {
                                assert(kept@[a] == k0[a]);
                                assert(kept@[b] == s0[i as int]);
                            }
                        }
                        assert forall|a: int, q: int| 0 <= a < kept@.len() && i + 1 <= q < s0.len() implies better(side, #[trigger] kept@[a].price, #[trigger] s0[q].price) by {
                            if a < k0.len() {
                                assert(kept@[a] == k0[a]);
                            } else {
                                assert(kept@[a] == s0[i as int]);
                            }
                        }
                    }
                }
            }
            i = i + 1;
        }
        proof {
            assert(s0.subrange(0, s0.len() as int) =~= s0);
        }
        *levels = kept;
        return;
    }
    let mut j: usize = 0;
    assert(s0.skip(0) =~= s0);
    while j < levels.len()
        invariant
            0 <= j <= levels@.len(),
            levels@ == s0,
            s0 == old(levels)@,
            size != 0,
            forall|k: int| 0 <= k < j ==> (#[trigger] s0[k]).price != price,
        decreases levels@.len() - j,
    {
        if levels[j].price == price {
            proof {
                lemma_level_index_first(s0, price, j as int);
            }
            levels.set(j, PriceLevel { price, size });
            proof {
                let s1 = levels@;
                assert(s1 =~= s0.update(j as int, PriceLevel { price, size }));
                assert forall|q: int| 0 <= q < s1.len() implies (#[trigger] s1[q]).price == s0[q].price by {}
            }
            return;
        }
        j = j + 1;
    }
    proof {
        lemma_level_index_none(s0, price);
    }
    let mut k: usize = 0;
    while k < levels.len() && !goes_before(side, price, levels[k].price)
        invariant
            0 <= k <= levels@.len(),
            levels@ == s0,
            s0 == old(levels)@,
            size != 0,
            forall|q: int| 0 <= q < k ==> !better(side, price, (#[trigger] s0[q]).price),
        decreases levels@.len() - k,
    {
        k = k + 1;
    }
    proof {
        lemma_insert_pos(side, s0, price, k as int);
    }
    let ghost v = PriceLevel { price, size };
    levels.insert(k, PriceLevel { price, size });
    proof {
        let s1 = levels@;
        assert(s1.len() == s0.len() + 1);
        assert(s1 =~= s0.insert(k as int, v));
        assert forall|q: int| 0 <= q < s1.len() implies #[trigger] s1[q] == (if q < k { s0[q] } else if q == k { v } else { s0[q - 1] }) by {
            assert(s1 == s0.insert(k as int, v));
        }
        if sorted(side, s0) {
            assert forall|a: int, b: int| 0 <= a < b < s1.len() implies better(side, #[trigger] s1[a].price, #[trigger] s1[b].price) by {
                if b < k {
                    assert(s1[a] == s0[a] && s1[b] == s0[b]);
                } else if a < k && b == k {
                } else if a < k && b > k {
                    assert(s1[b] == s0[b - 1]);
                    if k < s0.len() {
                        assert(better(side, price, s0[k as int].price));
                        if b - 1 > k {
                            assert(better(side, s0[k as int].price, s0[b - 1].price));
                        }
                    }
                    assert(!better(side, price, s0[a].price));
                    assert(s0[a].price != price);
                } else if a == k {
                    assert(s1[b] == s0[b - 1]);
                    assert(better(side, price, s0[k as int].price));
                    if b - 1 > k {
                        assert(better(side, s0[k as int].price, s0[b - 1].price));
                    }
                } else {
                    assert(s1[a] == s0[a - 1] && s1[b] == s0[b - 1]);
                }
            }
        }
    }
}

proof fn lemma_level_index_first(s: Seq<PriceLevel>, price: u64, j: int)
    requires
        0 <= j < s.len(),
        s[j].price == price,
        forall|k: int| 0 <= k < j ==> (#[trigger] s[k]).price != price,
    ensures
        level_index(s, price) == Some(j),
    decreases j,
{
    if j > 0 {
        assert forall|k: int| 0 <= k < j - 1 implies (#[trigger] s.skip(1)[k]).price != price by {
            assert(s.skip(1)[k] == s[k + 1]);
        }
        lemma_level_index_first(s.skip(1), price, j - 1);
    }
}

proof fn lemma_level_index_none(s: Seq<PriceLevel>, price: u64)
    requires
        forall|k: int| 0 <= k < s.len() ==> (#[trigger] s[k]).price != price,
    ensures
        level_index(s, price) is None,
    decreases s.len(),
{
    if s.len() > 0 {
        assert forall|k: int| 0 <= k < s.len() - 1 implies (#[trigger] s.skip(1)[k]).price != price by {
            assert(s.skip(1)[k] == s[k + 1]);
        }
        lemma_level_index_none(s.skip(1), price);
    }
}

proof fn lemma_insert_pos(side: BookSide, s: Seq<PriceLevel>, price: u64, k: int)
    requires
        0 <= k <= s.len(),
        forall|q: int| 0 <= q < k ==> !better(side, price, (#[trigger] s[q]).price),
        k < s.len() ==> better(side, price, s[k].price),
    ensures
        insert_pos(side, s, price) == k,
    decreases k,
{
    if k > 0 {
        assert forall|q: int| 0 <= q < k - 1 implies !better(side, price, (#[trigger] s.skip(1)[q]).price) by {
            assert(s.skip(1)[q] == s[q + 1]);
        }
        if k < s.len() {
            assert(s.skip(1)[k - 1] == s[k]);
        }
        assert(!better(side, price, s[0].price));
        lemma_insert_pos(side, s.skip(1), price, k - 1);
    }
}

fn level_size(levels: &Vec<PriceLevel>, price: u64) -> (r: u64)
    ensures
        r == (match level_index(levels@, price) {
            Some(i) => levels@[i].size,
            None => 0,
        }),
{
    let mut j: usize = 0;
    while j < levels.len()
        invariant
            0 <= j <= levels@.len(),
            forall|k: int| 0 <= k < j ==> (#[trigger] levels@[k]).price != price,
        decreases levels@.len() - j,
    {
        if levels[j].price == price {
            proof {
                lemma_level_index_first(levels@, price, j as int);
            }
            return levels[j].size;
        }
        j = j + 1;
    }
    proof {
        lemma_level_index_none(levels@, price);
    }
    0
}

fn side_depth(levels: &Vec<PriceLevel>, n: usize) -> (r: u128)
    ensures
        r == depth(levels@, n as int),
{
    let m: usize = if n < levels.len() {
        n
    } else {
        levels.len()
    };
    let mut total: u128 = 0;
    let mut i: usize = 0;
    while i < m
        invariant
            0 <= i <= m <= levels@.len(),
            total == depth(levels@, i as int),
            total <= i * (u64::MAX as int),
        decreases m - i,
    {
        proof {
            vstd::arithmetic::mul::lemma_mul_is_distributive_add_other_way(u64::MAX as int, i as int, 1);
            crate::quote::lemma_mul_bound(i as int + 1, u64::MAX as int, usize::MAX as int, u64::MAX as int);
        }
        total = total + levels[i].size as u128;
        i = i + 1;
    }
    proof {
        if n > levels@.len() {
            assert(depth(levels@, n as int) == depth(levels@, levels@.len() as int));
        }
    }
    total
}

impl OrderBook {
    pub open spec fn bids_view(&self) -> Seq<PriceLevel> {
        self.bids@
    }

    pub open spec fn asks_view(&self) -> Seq<PriceLevel> {
        self.asks@
    }

    pub open spec fn side_view(&self, side: BookSide) -> Seq<PriceLevel> {
        match side {
            BookSide::Bid => self.bids_view(),
            BookSide::Ask => self.asks_view(),
        }
    }

    /// An empty book for `symbol`.
    pub fn new(symbol: String, now_ms: u64) -> (r: OrderBook)
        ensures
            r.symbol == symbol,
            r.bids_view().len() == 0,
            r.asks_view().len() == 0,
            r.last_update_ms == now_ms,
            r.sequence == 0,
    {
        OrderBook { symbol, bids: Vec::new(), asks: Vec::new(), last_update_ms: now_ms, sequence: 0 }
    }

    /// Replace both sides with a snapshot of (price, size) levels, best first.
    pub fn update_snapshot(&mut self, bids: Vec<(u64, u64)>, asks: Vec<(u64, u64)>, seq: u64, now_ms: u64)
        ensures
            final(self).bids_view().len() == bids@.len(),
            final(self).asks_view().len() == asks@.len(),
            forall|i: int| 0 <= i < bids@.len() ==> #[trigger] final(self).bids_view()[i] == (PriceLevel {
                price: bids@[i].0,
                size: bids@[i].1,
            }),
            forall|i: int| 0 <= i < asks@.len() ==> #[trigger] final(self).asks_view()[i] == (PriceLevel {
                price: asks@[i].0,
                size: asks@[i].1,
            }),
            final(self).sequence == seq,
            final(self).last_update_ms == now_ms,
            final(self).symbol == old(self).symbol,
    {
        self.bids = to_levels(bids);
        self.asks = to_levels(asks);
        self.sequence = seq;
        self.last_update_ms = now_ms;
    }

    /// Apply an incremental update to one side (see `delta_spec`).
    pub fn apply_delta(&mut self, side: BookSide, price: u64, size: u64, now_ms: u64)
        ensures
            final(self).side_view(side) == delta_spec(side, old(self).side_view(side), price, size),
            sorted(side, old(self).side_view(side)) ==> sorted(side, final(self).side_view(side)),
            side == BookSide::Bid ==> final(self).asks_view() == old(self).asks_view(),
            side == BookSide::Ask ==> final(self).bids_view() == old(self).bids_view(),
            final(self).last_update_ms == now_ms,
            final(self).sequence == old(self).sequence,
            final(self).symbol == old(self).symbol,
    {
        match side {
            BookSide::Bid => side_delta(side, &mut self.bids, price, size),
            BookSide::Ask => side_delta(side, &mut self.asks, price, size),
        }
        self.last_update_ms = now_ms;
    }

    pub fn best_bid(&self) -> (r: Option<u64>)
        ensures
            r == (if self.bids_view().len() > 0 { Some(self.bids_view()[0].price) } else { None::<u64> }),
    {
        if self.bids.len() > 0 {
            Some(self.bids[0].price)
        } else {
            None
        }
    }

    pub fn best_ask(&self) -> (r: Option<u64>)
        ensures
            r == (if self.asks_view().len() > 0 { Some(self.asks_view()[0].price) } else { None::<u64> }),
    {
        if self.asks.len() > 0 {
            Some(self.asks[0].price)
        } else {
            None
        }
    }

    /// (best bid + best ask) / 2, rounded down.
    pub fn mid_price(&self) -> (r: Option<u64>)
        ensures
            r is Some <==> self.bids_view().len() > 0 && self.asks_view().len() > 0,
            r matches Some(m) ==> m == (self.bids_view()[0].price + self.asks_view()[0].price) / 2,
    {
        match (self.best_bid(), self.best_ask()) {
            (Some(b), Some(a)) => Some(((b as u128 + a as u128) / 2) as u64),
            _ => None,
        }
    }

    /// Best ask less best bid (negative when the book is crossed).
    pub fn spread(&self) -> (r: Option<i128>)
        ensures
            r is Some <==> self.bids_view().len() > 0 && self.asks_view().len() > 0,
            r matches Some(s) ==> s == self.asks_view()[0].price - self.bids_view()[0].price,
    {
        match (self.best_bid(), self.best_ask()) {
            (Some(b), Some(a)) => Some(a as i128 - b as i128),
            _ => None,
        }
    }

    /// Spread over mid in milli-basis-points, truncated toward zero.
    pub fn spread_bps(&self) -> (r: Option<i128>)
        ensures
            r is Some <==> self.bids_view().len() > 0 && self.asks_view().len() > 0
                && (self.bids_view()[0].price + self.asks_view()[0].price) / 2 > 0,
            r matches Some(v) ==> {
                let b = self.bids_view()[0].price as int;
                let a = self.asks_view()[0].price as int;
                let m = (a + b) / 2;
                v == (if a >= b { (a - b) * 10_000_000 / m } else { -((b - a) * 10_000_000 / m) })
            },
    {
        match (self.spread(), self.mid_price()) {
            (Some(s), Some(m)) => {
                if m == 0 {
                    return None;
                }
                let mag: u128 = if s >= 0 {
                    s as u128
                } else {
                    (-s) as u128
                };
                let v = mag * 10_000_000 / (m as u128);
                if s >= 0 {
                    Some(v as i128)
                } else {
                    Some(-(v as i128))
                }
            },
            _ => None,
        }
    }

    /// Total bid size in the best `levels` levels.
    pub fn bid_depth(&self, levels: usize) -> (r: u128)
        ensures
            r == depth(self.bids_view(), levels as int),
    {
        side_depth(&self.bids, levels)
    }

    /// Total ask size in the best `levels` levels.
    pub fn ask_depth(&self, levels: usize) -> (r: u128)
        ensures
            r == depth(self.asks_view(), levels as int),
    {
        side_depth(&self.asks, levels)
    }

    /// Depth imbalance over the best `levels` levels, in 1e-4 (see
    /// `imbalance_spec`). At most 2^32 levels are asked for, so that the
    /// depths fit.
    pub fn depth_imbalance(&self, levels: usize) -> (r: i64)
        requires
            levels <= u32::MAX,
        ensures
            r == imbalance_spec(depth(self.bids_view(), levels as int), depth(self.asks_view(), levels as int)),
            -10_000 <= r <= 10_000,
    {
        let b = self.bid_depth(levels);
        let a = self.ask_depth(levels);
        proof {
            lemma_depth_bound(self.bids_view(), levels as int);
            lemma_depth_bound(self.asks_view(), levels as int);
            crate::quote::lemma_mul_bound(levels as int, u64::MAX as int, u32::MAX as int, u64::MAX as int);
        }
        let total = b + a;
        if total == 0 {
            return 0;
        }
        if b >= a {
            let v = (b - a) * 10_000 / total;
            assert(v <= 10_000) by (nonlinear_arith)
                requires
                    v as int == (b as int - a as int) * 10_000 / (total as int),
                    b as int - a as int <= total as int,
                    total > 0,
            ;
            v as i64
        } else {
            let v = (a - b) * 10_000 / total;
            assert(v <= 10_000) by (nonlinear_arith)
                requires
                    v as int == (a as int - b as int) * 10_000 / (total as int),
                    a as int - b as int <= total as int,
                    total > 0,
            ;
            -(v as i64)
        }
    }

    /// The size-weighted mid of the top of book, (bid x ask size + ask x bid
    /// size) / (bid size + ask size) rounded down, leaning toward the side
    /// with less size; the plain mid when both top sizes are zero.
    pub fn weighted_mid(&self) -> (r: Option<u64>)
        ensures
            r is Some <==> self.bids_view().len() > 0 && self.asks_view().len() > 0,
            r matches Some(w) ==> {
                let b = self.bids_view()[0];
                let a = self.asks_view()[0];
                let t = b.size + a.size;
                w == (if t > 0 { (b.price * a.size + a.price * b.size) / t } else { (b.price + a.price) / 2 })
            },
    {
        if self.bids.len() == 0 || self.asks.len() == 0 {
            return None;
        }
        let b = self.bids[0];
        let a = self.asks[0];
        let t = b.size as u128 + a.size as u128;
        if t == 0 {
            return Some(((b.price as u128 + a.price as u128) / 2) as u64);
        }
        let (lo, hi, hi_weight) = if b.price <= a.price {
            (b.price, a.price, b.size)
        } else {
            (a.price, b.price, a.size)
        };
        let x = crate::quote::wide_mul(hi - lo, hi_weight);
        let q = x / t;
        proof {
            lemma_weighted(b.price as int, b.size as int, a.price as int, a.size as int);
            assert(q <= (hi - lo) as int) by (nonlinear_arith)
                requires
                    q as int == x as int / t as int,
                    x as int == (hi - lo) as int * hi_weight as int,
                    hi_weight as int <= t as int,
                    t > 0,
                    hi >= lo,
            ;
        }
        Some((lo as u128 + q) as u64)
    }

    /// The size resting at exactly `price` on `side`, or zero.
    pub fn volume_at_price(&self, price: u64, side: BookSide) -> (r: u64)
        ensures
            r == (match level_index(self.side_view(side), price) {
                Some(i) => self.side_view(side)[i].size,
                None => 0,
            }),
    {
        match side {
            BookSide::Bid => level_size(&self.bids, price),
            BookSide::Ask => level_size(&self.asks, price),
        }
    }

    /// The size ahead of an order joining the back of the queue at `price`.
    pub fn volume_ahead_at_price(&self, price: u64, side: BookSide) -> (r: u64)
        ensures
            r == (match level_index(self.side_view(side), price) {
                Some(i) => self.side_view(side)[i].size,
                None => 0,
            }),
    {
        self.volume_at_price(price, side)
    }

    pub fn bids(&self) -> (r: &Vec<PriceLevel>)
        ensures
            r@ == self.bids_view(),
    {
        &self.bids
    }

    pub fn asks(&self) -> (r: &Vec<PriceLevel>)
        ensures
            r@ == self.asks_view(),
    {
        &self.asks
    }

    /// Milliseconds since the last update (zero if `now_ms` is earlier).
    pub fn age_ms(&self, now_ms: u64) -> (r: u64)
        ensures
            r == (if now_ms >= self.last_update_ms { now_ms - self.last_update_ms } else { 0 }),
    {
        if now_ms >= self.last_update_ms {
            now_ms - self.last_update_ms
        } else {
            0
        }
    }

    /// No update for more than `max_age_ms`.
    pub fn is_stale(&self, now_ms: u64, max_age_ms: u64) -> (r: bool)
        ensures
            r == ((if now_ms >= self.last_update_ms { now_ms - self.last_update_ms } else { 0 }) > max_age_ms),
    {
        self.age_ms(now_ms) > max_age_ms
    }
}

/// The weighted mid is the lower price plus the higher price's lead
/// weighted by the size on the lower price's side.
proof fn lemma_weighted(bp: int, bs: int, ap: int, as_: int)
    requires
        bs >= 0,
        as_ >= 0,
        bs + as_ > 0,
    ensures
        bp <= ap ==> (bp * as_ + ap * bs) / (bs + as_) == bp + ((ap - bp) * bs) / (bs + as_),
        ap < bp ==> (bp * as_ + ap * bs) / (bs + as_) == ap + ((bp - ap) * as_) / (bs + as_),
{
    let t = bs + as_;
    assert(bp * as_ + ap * bs == bp * t + (ap - bp) * bs) by (nonlinear_arith)
        requires
            t == bs + as_,
    ;
    assert(bp * as_ + ap * bs == ap * t + (bp - ap) * as_) by (nonlinear_arith)
        requires
            t == bs + as_,
    ;
    if bp <= ap {
        lemma_add_multiple_div(bp, (ap - bp) * bs, t);
    } else {
        lemma_add_multiple_div(ap, (bp - ap) * as_, t);
    }
}

proof fn lemma_add_multiple_div(a: int, x: int, t: int)
    requires
        t > 0,
    ensures
        (a * t + x) / t == a + x / t,
{
    vstd::arithmetic::div_mod::lemma_fundamental_div_mod(x, t);
    let q = x / t;
    let m = x % t;
    assert(a * t + x == (a + q) * t + m) by (nonlinear_arith)
        requires
            x == t * q + m,
    ;
    vstd::arithmetic::div_mod::lemma_fundamental_div_mod_converse(a * t + x, t, a + q, m);
}

proof fn lemma_depth_bound(s: Seq<PriceLevel>, n: int)
    requires
        n >= 0,
    ensures
        0 <= depth(s, n) <= n * (u64::MAX as int),
    decreases n,
{
    if n > 0 && s.len() > 0 {
        if n > s.len() {
            lemma_depth_bound(s, s.len() as int);
            crate::quote::lemma_mul_bound(s.len() as int, u64::MAX as int, n, u64::MAX as int);
        } else {
            lemma_depth_bound(s, n - 1);
            vstd::arithmetic::mul::lemma_mul_is_distributive_add_other_way(u64::MAX as int, n - 1, 1);
        }
    }
}

} // verus!

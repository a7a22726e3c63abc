//! Order-entry request and reply shapes, and a bounded latency sample window.
use vstd::prelude::*;
use crate::exchange::types::{OrderType, Side, TimeInForce};

verus! {

/// Order-channel settings; rates per second, prices in ticks.
#[derive(Debug, Clone)]
pub struct WsOrderConfig {
    pub max_pending_requests: usize,
    pub request_timeout_ms: u64,
    pub auto_reconnect: bool,
    pub reconnect_backoff_base_ms: u64,
    pub reconnect_backoff_max_ms: u64,
    pub rate_limit_requests_per_sec: u64,
    pub min_modify_price_ticks: u64,
    pub quote_levels: usize,
    pub level_spacing_ticks: u64,
}

impl Default for WsOrderConfig {
    fn default() -> (r: WsOrderConfig)
        ensures
            r.max_pending_requests == 100,
            r.request_timeout_ms == 5000,
            r.auto_reconnect,
            r.reconnect_backoff_base_ms == 100,
            r.reconnect_backoff_max_ms == 10000,
            r.rate_limit_requests_per_sec == 50,
            r.min_modify_price_ticks == 1,
            r.quote_levels == 3,
            r.level_spacing_ticks == 1,
    {
        WsOrderConfig {
            max_pending_requests: 100,
            request_timeout_ms: 5000,
            auto_reconnect: true,
            reconnect_backoff_base_ms: 100,
            reconnect_backoff_max_ms: 10000,
            rate_limit_requests_per_sec: 50,
            min_modify_price_ticks: 1,
            quote_levels: 3,
            level_spacing_ticks: 1,
        }
    }
}

impl WsOrderConfig {
    /// A resting order is worth modifying when the new price is at least
    /// `min_modify_price_ticks` ticks away from the old one.
    pub fn should_modify(&self, old_price: u64, new_price: u64) -> (r: bool)
        ensures
            r == ((if new_price >= old_price { new_price - old_price } else { old_price - new_price })
                >= self.min_modify_price_ticks),
    {
        let diff = if new_price >= old_price {
            new_price - old_price
        } else {
            old_price - new_price
        };
        diff >= self.min_modify_price_ticks
    }
}

#[derive(Debug, Clone)]
pub struct WsOrderRequest {
    pub client_oid: String,
    pub side: Side,
    pub symbol: String,
    pub order_type: OrderType,
    pub price: String,
    pub size: String,
    pub time_in_force: Option<TimeInForce>,
    pub post_only: Option<bool>,
}

#[derive(Debug, Clone)]
pub struct WsModifyRequest {
    pub symbol: String,
    pub order_id: Option<String>,
    pub client_oid: Option<String>,
    pub new_price: Option<String>,
    pub new_size: Option<String>,
}

#[derive(Debug, Clone)]
pub struct WsCancelRequest {
    pub order_id: Option<String>,
    pub client_oid: Option<String>,
    pub symbol: String,
}

#[derive(Debug, Clone)]
pub struct WsBatchOrderRequest {
    pub symbol: String,
    pub order_list: Vec<WsOrderRequest>,
}

#[derive(Debug, Clone)]
pub struct WsOrderResponse {
    pub order_id: Option<String>,
    pub client_oid: Option<String>,
    pub success: bool,
    pub message: Option<String>,
    pub code: Option<String>,
}

#[derive(Debug, Clone)]
pub struct WsBatchOrderItem {
    pub order_id: Option<String>,
    pub client_oid: Option<String>,
    pub success: bool,
    pub fail_msg: Option<String>,
}

/// The last `max_samples` latencies (microseconds) and a count of all.
pub struct LatencyTracker {
    pub samples: Vec<u64>,
    pub max_samples: usize,
    pub total_requests: u64,
}

pub open spec fn seq_sum(s: Seq<u64>) -> int
    decreases s.len(),
{
    if s.len() == 0 {
        0
    } else {
        seq_sum(s.drop_last()) + s.last()
    }
}


/// Ascending order.
pub open spec fn ascending(s: Seq<u64>) -> bool {
    forall|i: int, j: int| 0 <= i < j < s.len() ==> #[trigger] s[i] <= #[trigger] s[j]
}

/// The samples in ascending order (a sorted permutation).
fn sorted_copy(v: &Vec<u64>) -> (r: Vec<u64>)
    ensures
        ascending(r@),
        r@.to_multiset() == v@.to_multiset(),
{
    broadcast use vstd::seq_lib::group_to_multiset_ensures, vstd::multiset::group_multiset_axioms;

    let mut r: Vec<u64> = Vec::new();
    let mut i: usize = 0;
    while i < v.len()
        invariant
            0 <= i <= v@.len(),
            ascending(r@),
            r@.to_multiset() == v@.subrange(0, i as int).to_multiset(),
        decreases v@.len() - i,
    {
        let x = v[i];
        let mut k: usize = 0;
        while k < r.len() && r[k] <= x
            invariant
                0 <= k <= r@.len(),
                forall|q: int| 0 <= q < k ==> #[trigger] r@[q] <= x,
            decreases r@.len() - k,
        {
            k = k + 1;
        }
        let ghost r0 = r@;
        r.insert(k, x);
        proof {
            let a = r0.subrange(0, k as int);
            let b = r0.subrange(k as int, r0.len() as int);
            assert(r0 =~= a + b);
            assert(r@ =~= a.push(x) + b);
            vstd::seq_lib::lemma_multiset_commutative(a, b);
            vstd::seq_lib::lemma_multiset_commutative(a.push(x), b);
            a.to_multiset_ensures();
            v@.subrange(0, i as int).to_multiset_ensures();
            assert(a.push(x).to_multiset() =~= a.to_multiset().insert(x));
            assert(a.to_multiset().insert(x).add(b.to_multiset()) =~= a.to_multiset().add(b.to_multiset()).insert(x));
            assert(v@.subrange(0, i as int + 1) =~= v@.subrange(0, i as int).push(x));
            assert(r@.to_multiset() =~= r0.to_multiset().insert(x));
            assert forall|p: int, q: int| 0 <= p < q < r@.len() implies #[trigger] r@[p] <= #[trigger] r@[q] by {
                if q < k {
                    assert(r@[p] == r0[p] && r@[q] == r0[q]);
                } else if q == k {
                    assert(r@[p] == r0[p]);
                } else if p < k {
                    assert(r@[p] == r0[p] && r@[q] == r0[q - 1]);
                    if k < r0.len() {
                        assert(r0[k as int] > x);
                        assert(r0[p] <= x);
                    }
                } else if p == k {
                    assert(r@[q] == r0[q - 1]);
                    assert(r0[k as int] > x);
                    if q - 1 > k {
                        assert(r0[k as int] <= r0[q - 1]);
                    }
                } else {
                    assert(r@[p] == r0[p - 1] && r@[q] == r0[q - 1]);
                }
            }
        }
        i = i + 1;
    }
    proof {
        assert(v@.subrange(0, v@.len() as int) =~= v@);
    }
    r
}

impl LatencyTracker {
    pub fn new(max_samples: usize) -> (r: LatencyTracker)
        ensures
            r.samples@.len() == 0,
            r.max_samples == max_samples,
            r.total_requests == 0,
    {
        LatencyTracker { samples: Vec::new(), max_samples, total_requests: 0 }
    }

    /// Record a latency: the oldest sample is dropped once the window is full.
    pub fn record(&mut self, latency_us: u64)
        ensures
            final(self).max_samples == old(self).max_samples,
            final(self).total_requests == (if old(self).total_requests < u64::MAX {
                old(self).total_requests + 1
            } else {
                u64::MAX as int
            }),
            old(self).samples@.len() >= old(self).max_samples && old(self).samples@.len() > 0
                ==> final(self).samples@ == old(self).samples@.skip(1).push(latency_us),
            !(old(self).samples@.len() >= old(self).max_samples && old(self).samples@.len() > 0)
                ==> final(self).samples@ == old(self).samples@.push(latency_us),
    {
        self.total_requests = self.total_requests.saturating_add(1);
        if self.samples.len() >= self.max_samples && self.samples.len() > 0 {
            self.samples.remove(0);
            proof {
                assert(self.samples@ =~= old(self).samples@.skip(1));
            }
        }
        self.samples.push(latency_us);
    }

    /// The mean of the samples in the window (rounded down), if any.
    pub fn mean(&self) -> (r: Option<u64>)
        ensures
            self.samples@.len() == 0 <==> r is None,
            r matches Some(m) ==> m == seq_sum(self.samples@) / (self.samples@.len() as int),
    {
        let n = self.samples.len();
        if n == 0 {
            return None;
        }
        let mut sum: u128 = 0;
        let mut i: usize = 0;
        while i < n
            invariant
                0 <= i <= n,
                n == self.samples@.len(),
                sum == seq_sum(self.samples@.subrange(0, i as int)),
                sum <= i * (u64::MAX as int),
            decreases n - i,
        {
            assert(self.samples@.subrange(0, i as int + 1).drop_last() =~= self.samples@.subrange(0, i as int));
            proof {
                vstd::arithmetic::mul::lemma_mul_is_distributive_add_other_way(u64::MAX as int, i as int, 1);
                crate::quote::lemma_mul_bound(i as int + 1, u64::MAX as int, usize::MAX as int, u64::MAX as int);
            }
            sum = sum + self.samples[i] as u128;
            i = i + 1;
        }
        assert(self.samples@.subrange(0, n as int) =~= self.samples@);
        let m = sum / (n as u128);
        assert(m <= u64::MAX) by (nonlinear_arith)
            requires
                m == sum / (n as u128),
                sum <= n * (u64::MAX as int),
                n >= 1,
        ;
        Some(m as u64)
    }

    /// The sample at `p_permille` tenths of a percent through the window
    /// (0 the smallest, 1000 the largest): the element at index
    /// p x (n - 1) / 1000 of the samples in ascending order; `None` without samples.
    pub fn percentile(&self, p_permille: u64) -> (r: Option<u64>)
        requires
            p_permille <= 1000,
        ensures
            self.samples@.len() == 0 <==> r is None,
            r matches Some(x) ==> exists|s: Seq<u64>|
                ascending(s) && s.to_multiset() == self.samples@.to_multiset()
                    && #[trigger] s[(p_permille as int * (self.samples@.len() - 1)) / 1000] == x,
    {
        let n = self.samples.len();
        if n == 0 {
            return None;
        }
        let sorted = sorted_copy(&self.samples);
        proof {
            broadcast use vstd::seq_lib::group_to_multiset_ensures;
            assert(sorted@.len() == sorted@.to_multiset().len());
            crate::quote::lemma_mul_bound(p_permille as int, (n - 1) as int, 1000, (n - 1) as int);
        }
        let idx = ((p_permille as u128) * ((n - 1) as u128) / 1000) as usize;
        proof {
            assert((p_permille as int * (n - 1)) / 1000 <= n - 1) by (nonlinear_arith)
                requires
                    p_permille as int * (n - 1) <= 1000 * (n - 1),
                    n >= 1,
            ;
        }
        Some(sorted[idx])
    }

    pub fn count(&self) -> (r: usize)
        ensures
            r == self.samples@.len(),
    {
        self.samples.len()
    }

    pub fn total(&self) -> (r: u64)
        ensures
            r == self.total_requests,
    {
        self.total_requests
    }

    /// Empty the window; the total count stays.
    pub fn reset(&mut self)
        ensures
            final(self).samples@.len() == 0,
            final(self).max_samples == old(self).max_samples,
            final(self).total_requests == old(self).total_requests,
    {
        self.samples.clear();
    }
}

/// Micro-tokens in one token.
pub const MICROS_PER_TOKEN: u64 = 1_000_000;

/// A token bucket: `refill_rate` tokens per second up to `max_tokens`.
/// Tokens are held in millionths so that a refill over any number of
/// microseconds is exact; times are microseconds of a monotonic clock.
pub struct TokenBucket {
    pub tokens: u128,
    pub max_tokens: u128,
    pub refill_rate: u64,
    pub last_refill_us: u64,
}

/// The micro-tokens after refilling `tokens` for `elapsed_us` at `rate` per second.
pub open spec fn refilled(tokens: int, max: int, rate: int, elapsed_us: int) -> int {
    let t = tokens + elapsed_us * rate;
    if t > max {
        max
    } else {
        t
    }
}

impl TokenBucket {
    pub open spec fn wf(&self) -> bool {
        &&& self.refill_rate > 0
        &&& self.tokens <= self.max_tokens
        &&& self.max_tokens <= u64::MAX as int * MICROS_PER_TOKEN as int
    }

    /// A full bucket of `max_tokens` refilled at `refill_rate` per second;
    /// `None` for a rate of zero.
    pub fn new(max_tokens: u64, refill_rate: u64, now_us: u64) -> (r: Option<TokenBucket>)
        ensures
            r is Some <==> refill_rate > 0,
            r matches Some(b) ==> b.wf() && b.tokens == max_tokens as int * MICROS_PER_TOKEN as int
                && b.max_tokens == b.tokens && b.refill_rate == refill_rate && b.last_refill_us == now_us,
    {
        if refill_rate == 0 {
            return None;
        }
        let max = crate::quote::wide_mul(max_tokens, MICROS_PER_TOKEN);
        Some(TokenBucket { tokens: max, max_tokens: max, refill_rate, last_refill_us: now_us })
    }

    /// Add what accrued since the last refill, up to the maximum.
    pub fn refill(&mut self, now_us: u64)
        requires
            old(self).wf(),
        ensures
            final(self).wf(),
            final(self).tokens == refilled(
                old(self).tokens as int,
                old(self).max_tokens as int,
                old(self).refill_rate as int,
                if now_us >= old(self).last_refill_us { now_us - old(self).last_refill_us } else { 0 },
            ),
            final(self).last_refill_us == if now_us >= old(self).last_refill_us { now_us } else { old(self).last_refill_us },
            final(self).max_tokens == old(self).max_tokens,
            final(self).refill_rate == old(self).refill_rate,
    {
        if now_us < self.last_refill_us {
            return;
        }
        let add = crate::quote::wide_mul(now_us - self.last_refill_us, self.refill_rate);
        if add >= self.max_tokens - self.tokens {
            self.tokens = self.max_tokens;
        } else {
            self.tokens = self.tokens + add;
        }
        self.last_refill_us = now_us;
    }

    /// Refill, then take `count` tokens if there are enough (`None`), or
    /// report how many microseconds until there would be (rounded up,
    /// saturated), taking nothing.
    pub fn try_consume(&mut self, count: u64, now_us: u64) -> (r: Option<u64>)
        requires
            old(self).wf(),
        ensures
            final(self).wf(),
            ({
                let elapsed = if now_us >= old(self).last_refill_us { now_us - old(self).last_refill_us } else { 0 };
                let t = refilled(old(self).tokens as int, old(self).max_tokens as int, old(self).refill_rate as int, elapsed);
                let need = count as int * MICROS_PER_TOKEN as int;
                let wait = (need - t + old(self).refill_rate - 1) / old(self).refill_rate as int;
                &&& t >= need ==> r is None && final(self).tokens == t - need
                &&& t < need ==> r == Some(if wait > u64::MAX { u64::MAX } else { wait as u64 })
                    && final(self).tokens == t
            }),
            final(self).max_tokens == old(self).max_tokens,
            final(self).refill_rate == old(self).refill_rate,
    {
        self.refill(now_us);
        let need = crate::quote::wide_mul(count, MICROS_PER_TOKEN);
        if self.tokens >= need {
            self.tokens = self.tokens - need;
            None
        } else {
            let missing = need - self.tokens;
            let rate = self.refill_rate as u128;
            let wait = (missing + rate - 1) / rate;
            if wait > u64::MAX as u128 {
                Some(u64::MAX)
            } else {
                Some(wait as u64)
            }
        }
    }

    /// Tokens in the bucket, in millionths.
    pub fn available(&self) -> (r: u128)
        ensures
            r == self.tokens,
    {
        self.tokens
    }
}

} // verus!

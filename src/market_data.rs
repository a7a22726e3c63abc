//! Market-data derivations: update interval, volatility and momentum.
//!
//! Mids are in fine units (1e-4 quote), times in milliseconds of a monotonic
//! clock, the per-update variance in 1e-16 and the annualised variance in 1e-8.
use vstd::prelude::*;
use std::collections::VecDeque;
use crate::gates::Trend;

verus! {

/// Momentum lookback window (300 s).
pub const MOMENTUM_WINDOW_MS: u64 = 300_000;

/// Interval assumed before any has been observed (100 ms, in microseconds).
pub const DEFAULT_INTERVAL_US: u64 = 100_000;

/// Floor of the annualised variance: sigma_floor^2 = 0.02^2, in 1e-8.
pub const SIGMA2_FLOOR: u64 = 40_000;

/// Annualisation factor from (variance in 1e-16 per update, interval in us)
/// to variance per year in 1e-8: 86400 * 10^6 us/day * 365 days * 10^-8.
pub const ANNUALISE: u64 = 315_360;

/// Momentum threshold in parts per thousand (0.003).
pub const MOMENTUM_PER_MILLE: u64 = 3;

pub struct MarketData {
    pub mid: u64,
    pub ofi: i64,
    pub last_mid: u64,
    pub ewma_var: u64,
    pub price_history: VecDeque<(u64, u64)>,
    pub last_update_ms: Option<u64>,
    pub update_interval_us: u64,
}

/// The interval EWMA after a gap of `elapsed_us`: 0.9 old + 0.1 new,
/// saturated to `u64`.
pub open spec fn next_interval(old: int, elapsed_us: int) -> int {
    let v = (9 * old + elapsed_us) / 10;
    if v > u64::MAX {
        u64::MAX as int
    } else {
        v
    }
}

/// The variance EWMA after a squared log-return `ret_sq`: 0.94 old + 0.06 new.
pub open spec fn next_var(old: int, ret_sq: int) -> int {
    (94 * old + 6 * ret_sq) / 100
}

/// Annualised variance, floored at sigma_floor^2 and saturated to `u64`.
pub open spec fn sigma2_spec(ewma_var: int, interval_us: int) -> int {
    let iv = if interval_us > 0 {
        interval_us
    } else {
        DEFAULT_INTERVAL_US as int
    };
    let v = ewma_var * ANNUALISE / iv;
    if v < SIGMA2_FLOOR {
        SIGMA2_FLOOR as int
    } else if v > u64::MAX {
        u64::MAX as int
    } else {
        v
    }
}

/// The oldest sample time kept at `now`: 300 s before it (or zero).
pub open spec fn window_start(now: u64) -> int {
    if now >= MOMENTUM_WINDOW_MS {
        now - MOMENTUM_WINDOW_MS
    } else {
        0
    }
}

/// The trend of `mid` against the head of the window `head`:
/// (mid - head) / head below -0.003 is down, above +0.003 is up.
pub open spec fn trend_spec(head: int, mid: int) -> Trend {
    if head <= 0 || mid <= 0 {
        Trend::Flat
    } else if mid * 1000 < head * (1000 - MOMENTUM_PER_MILLE) {
        Trend::Down
    } else if mid * 1000 > head * (1000 + MOMENTUM_PER_MILLE) {
        Trend::Up
    } else {
        Trend::Flat
    }
}

impl MarketData {
    pub open spec fn wf(&self) -> bool {
        forall|i: int, j: int|
            0 <= i < j < self.price_history@.len() ==> (#[trigger] self.price_history@[i]).0
                <= (#[trigger] self.price_history@[j]).0
    }

    /// An empty snapshot: nothing observed yet.
    pub fn new() -> (r: MarketData)
        ensures
            r.wf(),
            r.mid == 0 && r.ofi == 0 && r.last_mid == 0 && r.ewma_var == 0,
            r.price_history@.len() == 0,
            r.last_update_ms is None,
            r.update_interval_us == 0,
    {
        MarketData {
            mid: 0,
            ofi: 0,
            last_mid: 0,
            ewma_var: 0,
            price_history: VecDeque::new(),
            last_update_ms: None,
            update_interval_us: 0,
        }
    }

    /// Ingest a new mid sample taken at `now_ms`. `ret_sq` is the squared
    /// log-return ln(mid / last_mid)^2 in 1e-16, used only when both mids are
    /// positive. Samples older than the momentum window are dropped.
    pub fn update(&mut self, mid: u64, now_ms: u64, ret_sq: u64)
        requires
            old(self).wf(),
            old(self).price_history@.len() > 0 ==> old(self).price_history@.last().0 <= now_ms,
        ensures
            final(self).wf(),
            final(self).mid == mid,
            final(self).last_mid == mid,
            final(self).ofi == old(self).ofi,
            final(self).last_update_ms == Some(now_ms),
            final(self).update_interval_us == (match old(self).last_update_ms {
                Some(t) => next_interval(
                    old(self).update_interval_us as int,
                    (if now_ms >= t { (now_ms - t) * 1000 } else { 0 }) as int,
                ),
                None => old(self).update_interval_us as int,
            }),
            final(self).ewma_var == (if old(self).last_mid > 0 && mid > 0 {
                next_var(old(self).ewma_var as int, ret_sq as int)
            } else {
                old(self).ewma_var as int
            }),
            final(self).price_history@.len() > 0,
            final(self).price_history@.last() == (now_ms, mid),
            ({
                let h = old(self).price_history@.push((now_ms, mid));
                exists|k: int|
                    0 <= k < h.len() && final(self).price_history@ == h.subrange(k, h.len() as int)
                        && (forall|i: int| 0 <= i < k ==> (#[trigger] h[i]).0 < window_start(now_ms))
                        && (forall|i: int| k <= i < h.len() ==> (#[trigger] h[i]).0 >= window_start(now_ms))
            }),
            forall|i: int|
                0 <= i < final(self).price_history@.len() ==> final(self).price_history@[i].0
                    + MOMENTUM_WINDOW_MS >= now_ms,
    {
        if let Some(last) = self.last_update_ms {
            let elapsed_us: u128 = if now_ms >= last {
                ((now_ms - last) as u128) * 1000
            } else {
                0
            };
            let iv = (9 * (self.update_interval_us as u128) + elapsed_us) / 10;
            if iv > u64::MAX as u128 {
                self.update_interval_us = u64::MAX;
            } else {
                self.update_interval_us = iv as u64;
            }
        }
        self.last_update_ms = Some(now_ms);
        if self.last_mid > 0 && mid > 0 {
            let v = (94 * (self.ewma_var as u128) + 6 * (ret_sq as u128)) / 100;
            assert(v <= u64::MAX);
            self.ewma_var = v as u64;
        }
        self.mid = mid;
        self.last_mid = mid;
        let ghost h0 = self.price_history@;
        self.price_history.push_back((now_ms, mid));
        proof {
            let h = self.price_history@;
            assert forall|i: int, j: int| 0 <= i < j < h.len() implies (#[trigger] h[i]).0 <= (#[trigger] h[j]).0 by {
                if j == h.len() - 1 {
                    if h0.len() > 0 {
                        assert(h0[i].0 <= h0.last().0);
                    }
                } else {
                    assert(h0[i] == h[i] && h0[j] == h[j]);
                }
            }
        }
        let ghost iv0 = self.update_interval_us;
        let ghost ev0 = self.ewma_var;
        let ghost h1 = self.price_history@;
        let ghost mut k: int = 0;
        assert(h1.subrange(0, h1.len() as int) =~= h1);
        let cutoff = if now_ms >= MOMENTUM_WINDOW_MS {
            now_ms - MOMENTUM_WINDOW_MS
        } else {
            0
        };
        loop
            invariant
                self.wf(),
                self.price_history@.len() > 0,
                self.price_history@.last() == (now_ms, mid),
                self.mid == mid,
                self.last_mid == mid,
                self.ofi == old(self).ofi,
                self.last_update_ms == Some(now_ms),
                self.ewma_var == ev0,
                self.update_interval_us == iv0,
                cutoff <= now_ms,
                now_ms <= cutoff + MOMENTUM_WINDOW_MS,
                cutoff == window_start(now_ms),
                h1 == old(self).price_history@.push((now_ms, mid)),
                0 <= k < h1.len(),
                self.price_history@ == h1.subrange(k, h1.len() as int),
                forall|i: int| 0 <= i < k ==> (#[trigger] h1[i]).0 < cutoff,
            ensures
                self.price_history@.len() > 0,
                self.price_history@[0].0 >= cutoff,
                0 <= k < h1.len(),
                self.price_history@ == h1.subrange(k, h1.len() as int),
                forall|i: int| 0 <= i < k ==> (#[trigger] h1[i]).0 < cutoff,
            decreases self.price_history@.len(),
        {
            let front_t = self.price_history[0].0;
            if front_t < cutoff {
                proof {
                    let h = self.price_history@;
                    if h.len() == 1 {
                        assert(h[0] == h.last());
                    }
                }
                self.price_history.pop_front();
                proof {
                    k = k + 1;
                    assert(self.price_history@ =~= h1.subrange(k, h1.len() as int));
                }
            } else {
                break;
            }
        }
        proof {
            assert forall|i: int| k <= i < h1.len() implies (#[trigger] h1[i]).0 >= window_start(now_ms) by {
                assert(h1[i] == self.price_history@[i - k]);
                if i > k {
                    assert(self.price_history@[0].0 <= self.price_history@[i - k].0);
                }
            }
            let h = self.price_history@;
            assert forall|i: int| 0 <= i < h.len() implies (#[trigger] h[i]).0 + MOMENTUM_WINDOW_MS >= now_ms by {
                if i > 0 {
                    assert(h[0].0 <= h[i].0);
                }
            }
        }
    }

    /// Record a new order-flow imbalance reading (1e-4, in [-10000, 10000]).
    pub fn set_ofi(&mut self, ofi: i64)
        ensures
            final(self).ofi == ofi,
            final(self).mid == old(self).mid,
            final(self).last_mid == old(self).last_mid,
            final(self).ewma_var == old(self).ewma_var,
            final(self).price_history == old(self).price_history,
            final(self).last_update_ms == old(self).last_update_ms,
            final(self).update_interval_us == old(self).update_interval_us,
    {
        self.ofi = ofi;
    }

    /// Annualised variance sigma^2 in 1e-8, floored at sigma_floor^2 = 0.0004.
    pub fn sigma2(&self) -> (r: u64)
        ensures
            r == sigma2_spec(self.ewma_var as int, self.update_interval_us as int),
    {
        let iv: u64 = if self.update_interval_us > 0 {
            self.update_interval_us
        } else {
            DEFAULT_INTERVAL_US
        };
        let v = crate::quote::wide_mul(self.ewma_var, ANNUALISE) / (iv as u128);
        if v < SIGMA2_FLOOR as u128 {
            SIGMA2_FLOOR
        } else if v > u64::MAX as u128 {
            u64::MAX
        } else {
            v as u64
        }
    }

    /// The spec view of the window head: the oldest mid kept, or 0.
    pub open spec fn head_mid(&self) -> int {
        if self.price_history@.len() > 0 {
            self.price_history@[0].1 as int
        } else {
            0
        }
    }

    /// The trend of the current mid against the oldest mid of the window.
    pub fn trend(&self) -> (r: Trend)
        ensures
            r == trend_spec(self.head_mid(), self.mid as int),
    {
        if self.price_history.len() == 0 {
            return Trend::Flat;
        }
        let head = self.price_history[0].1;
        if head == 0 || self.mid == 0 {
            Trend::Flat
        } else if (self.mid as u128) * 1000 < (head as u128) * ((1000 - MOMENTUM_PER_MILLE) as u128) {
            Trend::Down
        } else if (self.mid as u128) * 1000 > (head as u128) * ((1000 + MOMENTUM_PER_MILLE) as u128) {
            Trend::Up
        } else {
            Trend::Flat
        }
    }
}

} // verus!

//! Target prices and sizes of the ladder, in fixed point.
//!
//! Units used throughout the library:
//! - a mid price is in 1e-4 of the quote currency ("fine" units);
//! - an order price is in ticks of 0.01 quote, so it is a multiple of the tick
//!   size by construction;
//! - an order size is in steps of 0.01 base, so it is a multiple of the size step;
//! - a distance from mid is in milli-basis-points (1 bps = 1000 mbps, so a
//!   relative distance of 1 is 10^7 mbps);
//! - a quote amount (price x size) is in 1e-4 quote;
//! - an inventory is in size steps, signed.
use vstd::prelude::*;

verus! {

/// Fine price units per tick (a tick is 0.01, a fine unit 0.0001).
pub const FINE_PER_TICK: u64 = 100;

/// Milli-basis-points in a relative distance of 1.
pub const MBPS_ONE: u64 = 10_000_000;

/// Largest level offset accepted, in mbps (10% from mid).
pub const MAX_OFFSET_MBPS: u64 = 1_000_000;

/// Largest inventory magnitude, in size steps (15 base units).
pub const MAX_INV_UNITS: i64 = 1500;

/// Divisor from `inventory x sigma^2` (steps x 1e-8) to a skew in mbps:
/// skew_bps = q * gamma * sigma^2 * 10^4 with gamma = 0.1.
pub const SKEW_DIVISOR: u64 = 10_000;

/// A size factor of 1, in parts per million.
pub const PPM_ONE: u64 = 1_000_000;

/// One configured level: its distance from mid and its refresh tolerance.
#[derive(Clone, Copy, Debug, PartialEq, Eq)]
pub struct Level {
    pub offset_mbps: u64,
    pub refresh_mbps: u64,
}

impl Level {
    pub open spec fn wf(&self) -> bool {
        self.offset_mbps <= MAX_OFFSET_MBPS
    }

    /// A level, if its offset is no more than 10% from mid.
    pub fn new(offset_mbps: u64, refresh_mbps: u64) -> (r: Option<Level>)
        ensures
            offset_mbps <= MAX_OFFSET_MBPS <==> r is Some,
            r matches Some(l) ==> l.wf() && l.offset_mbps == offset_mbps && l.refresh_mbps
                == refresh_mbps,
    {
        if offset_mbps <= MAX_OFFSET_MBPS {
            Some(Level { offset_mbps, refresh_mbps })
        } else {
            None
        }
    }
}

/// `n / d` rounded to the nearest integer, halves upward.
pub open spec fn round_div(n: int, d: int) -> int {
    (2 * n + d) / (2 * d)
}

/// Inventory skew before capping, in mbps, truncated toward zero.
pub open spec fn raw_skew(q: int, sigma2: int) -> int {
    if q >= 0 {
        (q * sigma2) / (SKEW_DIVISOR as int)
    } else {
        -(((-q) * sigma2) / (SKEW_DIVISOR as int))
    }
}

/// The skew capped to plus or minus half the level offset.
pub open spec fn capped_skew_spec(q: int, sigma2: int, offset: int) -> int {
    let cap = offset / 2;
    let s = raw_skew(q, sigma2);
    if s > cap {
        cap
    } else if s < -cap {
        -cap
    } else {
        s
    }
}

/// Bid distance from mid in mbps.
pub open spec fn bid_mbps_spec(offset: int, skew: int) -> int {
    offset + skew
}

/// Ask distance from mid in mbps, widened by 1.5 in an uptrend.
pub open spec fn ask_mbps_spec(offset: int, skew: int, uptrend: bool) -> int {
    if uptrend {
        ((offset - skew) * 3) / 2
    } else {
        offset - skew
    }
}

/// Bid price in ticks: mid * (1 - bps) rounded to the tick.
pub open spec fn bid_ticks_spec(mid: int, bid_mbps: int) -> int {
    round_div(mid * (MBPS_ONE - bid_mbps), MBPS_ONE * FINE_PER_TICK)
}

/// Ask price in ticks: mid * (1 + bps) rounded to the tick.
pub open spec fn ask_ticks_spec(mid: int, ask_mbps: int) -> int {
    round_div(mid * (MBPS_ONE + ask_mbps), MBPS_ONE * FINE_PER_TICK)
}

/// Base order size in size steps: notional / mid rounded to the step.
/// `notional` is in 1e-4 quote, `mid` in fine units.
pub open spec fn base_size_spec(notional: int, mid: int) -> int {
    let s = round_div(notional * 100, mid);
    if s > u64::MAX {
        u64::MAX as int
    } else {
        s
    }
}

/// The shrunk size of the side that would add to the inventory.
pub open spec fn shrunk_size_spec(base: int, factor_ppm: int) -> int {
    let s = round_div(base * factor_ppm, PPM_ONE as int);
    if s < 1 {
        1
    } else {
        s
    }
}

/// Bid and ask sizes for inventory `q`: the side that adds to a non-zero
/// inventory is shrunk by `factor_ppm` (at least one step), the other keeps
/// the base size. With a flat inventory the ask takes the shrink formula.
pub open spec fn sizes_spec(base: int, q: int, factor_ppm: int) -> (int, int) {
    if q > 0 {
        (shrunk_size_spec(base, factor_ppm), base)
    } else {
        (base, shrunk_size_spec(base, factor_ppm))
    }
}

/// Whether a resting order at `live` has drifted from `target` by more than
/// `refresh_mbps`: |live - target| / target > refresh.
pub open spec fn drifted_spec(live: int, target: int, refresh_mbps: int) -> bool {
    let d = if live >= target {
        live - target
    } else {
        target - live
    };
    d * (MBPS_ONE as int) > refresh_mbps * target
}

/// `a * b` for non-negative bounds.
pub proof fn lemma_mul_bound(a: int, b: int, c: int, d: int)
    requires
        0 <= a <= c,
        0 <= b <= d,
    ensures
        0 <= a * b <= c * d,
{
    assert(0 <= a * b <= c * d) by (nonlinear_arith)
        requires
            0 <= a <= c,
            0 <= b <= d,
    ;
}

/// The exact product of two 64-bit values.
pub fn wide_mul(a: u64, b: u64) -> (r: u128)
    ensures
        r == a as int * b as int,
        r <= u64::MAX as int * u64::MAX as int,
{
    proof {
        lemma_mul_bound(a as int, b as int, u64::MAX as int, u64::MAX as int);
    }
    (a as u128) * (b as u128)
}

fn round_div_u128(n: u128, d: u128) -> (r: u128)
    requires
        d > 0,
        n <= 0x1_0000_0000_0000_0000_0000_0000,
        d <= 0x1_0000_0000_0000_0000_0000_0000,
    ensures
        r == round_div(n as int, d as int),
{
    (2 * n + d) / (2 * d)
}

/// The inventory skew for inventory `q` (size steps) and annualised variance
/// `sigma2` (1e-8), capped to half the level offset, in mbps.
pub fn capped_skew(q: i64, sigma2: u64, offset_mbps: u64) -> (r: i64)
    requires
        offset_mbps <= MAX_OFFSET_MBPS,
    ensures
        r == capped_skew_spec(q as int, sigma2 as int, offset_mbps as int),
        -(offset_mbps as int / 2) <= r <= offset_mbps as int / 2,
{
    let cap = (offset_mbps / 2) as i64;
    let mag: u128 = if q >= 0 {
        q as u128
    } else {
        (-(q as i128)) as u128
    };
    assert(mag * sigma2 <= u128::MAX) by (nonlinear_arith)
        requires
            mag <= 0x8000_0000_0000_0000,
            sigma2 <= u64::MAX,
    ;
    let m = (mag * sigma2 as u128) / (SKEW_DIVISOR as u128);
    proof {
        if q >= 0 {
            assert(mag == q);
        } else {
            assert(mag == -q);
        }
    }
    if m > cap as u128 {
        if q >= 0 {
            cap
        } else {
            -cap
        }
    } else {
        if q >= 0 {
            m as i64
        } else {
            -(m as i64)
        }
    }
}

/// Target bid and ask prices in ticks for one level at mid `mid` (fine units),
/// for a capped skew `skew` (mbps) and the uptrend flag.
pub fn level_prices(mid: u64, level: &Level, skew: i64, uptrend: bool) -> (r: (u64, u64))
    requires
        level.wf(),
        -(level.offset_mbps as int / 2) <= skew <= level.offset_mbps as int / 2,
    ensures
        r.0 == bid_ticks_spec(mid as int, bid_mbps_spec(level.offset_mbps as int, skew as int)),
        r.1 == ask_ticks_spec(
            mid as int,
            ask_mbps_spec(level.offset_mbps as int, skew as int, uptrend),
        ),
{
    let off = level.offset_mbps as i64;
    let bid_bps = (off + skew) as u64;
    let down = off - skew;
    let ask_bps = if uptrend {
        ((down * 3) / 2) as u64
    } else {
        down as u64
    };
    assert(bid_bps <= MBPS_ONE);
    assert(ask_bps <= 2 * MBPS_ONE);
    let d: u128 = 1_000_000_000;
    let nb = wide_mul(mid, MBPS_ONE - bid_bps);
    let na = wide_mul(mid, MBPS_ONE + ask_bps);
    proof {
        lemma_mul_bound(mid as int, (MBPS_ONE - bid_bps) as int, mid as int, MBPS_ONE as int);
        lemma_mul_bound(mid as int, (MBPS_ONE + ask_bps) as int, mid as int, 3 * MBPS_ONE as int);
    }
    let b = round_div_u128(nb, d);
    let a = round_div_u128(na, d);
    assert(b <= u64::MAX) by (nonlinear_arith)
        requires
            b == (2 * nb + d) / (2 * d),
            nb <= (mid as int) * (MBPS_ONE as int),
            d == 1_000_000_000,
            mid <= u64::MAX,
    ;
    assert(a <= u64::MAX) by (nonlinear_arith)
        requires
            a == (2 * na + d) / (2 * d),
            na <= (mid as int) * (3 * MBPS_ONE as int),
            d == 1_000_000_000,
            mid <= u64::MAX,
    ;
    (b as u64, a as u64)
}

/// The base order size in steps for an order notional `notional` (1e-4 quote)
/// at mid `mid` (fine units), saturated to the largest `u64`.
pub fn base_size(notional: u64, mid: u64) -> (r: u64)
    requires
        mid > 0,
    ensures
        r == base_size_spec(notional as int, mid as int),
{
    let n = wide_mul(notional, 100);
    let r = round_div_u128(n, mid as u128);
    if r > u64::MAX as u128 {
        u64::MAX
    } else {
        r as u64
    }
}

/// Bid and ask sizes in steps for base size `base`, inventory `q` and the
/// shrink factor `factor_ppm` (exp(eta |q|), at most one, in parts per million).
pub fn order_sizes(base: u64, q: i64, factor_ppm: u64) -> (r: (u64, u64))
    requires
        factor_ppm <= PPM_ONE,
    ensures
        r.0 == sizes_spec(base as int, q as int, factor_ppm as int).0,
        r.1 == sizes_spec(base as int, q as int, factor_ppm as int).1,
        r.0 >= 1 || r.1 >= 1 || base == 0,
{
    let n = wide_mul(base, factor_ppm);
    proof {
        lemma_mul_bound(base as int, factor_ppm as int, base as int, PPM_ONE as int);
    }
    let s = round_div_u128(n, PPM_ONE as u128);
    assert(s <= base as u128 + 1) by (nonlinear_arith)
        requires
            s == (2 * n + 1_000_000) / 2_000_000,
            n <= (base as int) * 1_000_000,
    ;
    let shrunk: u64 = if s < 1 {
        1
    } else if s > base as u128 {
        base
    } else {
        s as u64
    };
    assert(s <= base) by (nonlinear_arith)
        requires
            s == (2 * n + 1_000_000) / 2_000_000,
            n <= (base as int) * 1_000_000,
            base >= 1 || n == 0,
    ;
    if q > 0 {
        (shrunk, base)
    } else {
        (base, shrunk)
    }
}

/// Whether a resting order at `live` ticks must be refreshed against the
/// target `target` ticks with tolerance `refresh_mbps`.
pub fn drifted(live: u64, target: u64, refresh_mbps: u64) -> (r: bool)
    ensures
        r == drifted_spec(live as int, target as int, refresh_mbps as int),
{
    let d = if live >= target {
        live - target
    } else {
        target - live
    };
    wide_mul(d, MBPS_ONE) > wide_mul(refresh_mbps, target)
}

/// A bid of `size` steps keeps the inventory within the bound once filled.
pub open spec fn bid_fits_spec(q: int, size: int) -> bool {
    q + size <= MAX_INV_UNITS
}

/// An ask of `size` steps keeps the inventory within the bound once filled.
pub open spec fn ask_fits_spec(q: int, size: int) -> bool {
    q - size >= -MAX_INV_UNITS
}

pub fn can_place_bid(q: i64, size: u64) -> (r: bool)
    ensures
        r == bid_fits_spec(q as int, size as int),
{
    (q as i128) + (size as i128) <= MAX_INV_UNITS as i128
}

pub fn can_place_ask(q: i64, size: u64) -> (r: bool)
    ensures
        r == ask_fits_spec(q as int, size as int),
{
    (q as i128) - (size as i128) >= -(MAX_INV_UNITS as i128)
}

/// A live bid must go when bids are gated or when its fill would breach the bound.
pub fn needs_cancel_bid(q: i64, size: u64, skip_bids: bool) -> (r: bool)
    ensures
        r == (skip_bids || !bid_fits_spec(q as int, size as int)),
{
    skip_bids || !can_place_bid(q, size)
}

/// A live ask must go when asks are gated or when its fill would breach the bound.
pub fn needs_cancel_ask(q: i64, size: u64, skip_asks: bool) -> (r: bool)
    ensures
        r == (skip_asks || !ask_fits_spec(q as int, size as int)),
{
    skip_asks || !can_place_ask(q, size)
}

} // verus!

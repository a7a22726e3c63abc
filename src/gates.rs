//! The quoting gates: the hysteretic order-flow-imbalance pause and the trend filter.
//!
//! Order-flow imbalance is in 1e-4 (so it lies in [-10000, 10000]).
use vstd::prelude::*;

verus! {

/// Above this |OFI| the engine pauses the side being pushed (0.60).
pub const OFI_PAUSE: i64 = 6000;

/// Below this |OFI| a paused engine resumes (0.35).
pub const OFI_RESUME: i64 = 3500;

/// Inventory (size steps) at or below which a downtrend skips the whole tick (0.05 base).
pub const DOWNTREND_MIN_INV: i64 = 5;

pub open spec fn abs(x: int) -> int {
    if x < 0 {
        -x
    } else {
        x
    }
}

/// Whether the engine is paused after reading `ofi` in state `paused`.
pub open spec fn next_paused(paused: bool, ofi: int) -> bool {
    if paused {
        abs(ofi) >= OFI_RESUME
    } else {
        abs(ofi) > OFI_PAUSE
    }
}

/// The outcome of the OFI gate for one tick.
#[derive(Clone, Copy, Debug, PartialEq, Eq)]
pub struct OfiGate {
    pub paused: bool,
    pub skip_bids: bool,
    pub skip_asks: bool,
}

/// The OFI gate: a paused engine resumes once |OFI| < 0.35 and otherwise keeps
/// skipping the side being pushed (bids when OFI < 0, asks when OFI > 0); a
/// running engine pauses once |OFI| > 0.60 and then skips the pushed side.
pub fn ofi_gate(paused: bool, ofi: i64) -> (r: OfiGate)
    ensures
        r.paused == next_paused(paused, ofi as int),
        r.skip_bids == (r.paused && ofi < 0),
        r.skip_asks == (r.paused && ofi > 0),
{
    let mag: i128 = if ofi < 0 {
        -(ofi as i128)
    } else {
        ofi as i128
    };
    if paused {
        if mag < OFI_RESUME as i128 {
            OfiGate { paused: false, skip_bids: false, skip_asks: false }
        } else {
            OfiGate { paused: true, skip_bids: ofi < 0, skip_asks: ofi > 0 }
        }
    } else {
        let p = mag > OFI_PAUSE as i128;
        OfiGate { paused: p, skip_bids: ofi < -OFI_PAUSE, skip_asks: ofi > OFI_PAUSE }
    }
}

/// The paused flag after a run of OFI readings.
pub open spec fn paused_after(paused: bool, readings: Seq<int>) -> bool
    decreases readings.len(),
{
    if readings.len() == 0 {
        paused
    } else {
        paused_after(next_paused(paused, readings[0]), readings.skip(1))
    }
}

/// Hysteresis: once paused, the engine stays paused through every reading with
/// |OFI| >= 0.35; once running, it stays running through every reading with
/// |OFI| <= 0.60.
pub proof fn lemma_hysteresis(paused: bool, readings: Seq<int>)
    ensures
        paused && (forall|i: int| 0 <= i < readings.len() ==> abs(#[trigger] readings[i]) >= OFI_RESUME)
            ==> paused_after(paused, readings),
        !paused && (forall|i: int| 0 <= i < readings.len() ==> abs(#[trigger] readings[i]) <= OFI_PAUSE)
            ==> !paused_after(paused, readings),
    decreases readings.len(),
{
    if readings.len() > 0 {
        let rest = readings.skip(1);
        assert forall|i: int| 0 <= i < rest.len() implies rest[i] == readings[i + 1] by {}
        if paused && (forall|i: int| 0 <= i < readings.len() ==> abs(#[trigger] readings[i]) >= OFI_RESUME) {
            assert(abs(readings[0]) >= OFI_RESUME);
            assert forall|i: int| 0 <= i < rest.len() implies abs(#[trigger] rest[i]) >= OFI_RESUME by {
                assert(abs(readings[i + 1]) >= OFI_RESUME);
            }
            lemma_hysteresis(true, rest);
        }
        if !paused && (forall|i: int| 0 <= i < readings.len() ==> abs(#[trigger] readings[i]) <= OFI_PAUSE) {
            assert(abs(readings[0]) <= OFI_PAUSE);
            assert forall|i: int| 0 <= i < rest.len() implies abs(#[trigger] rest[i]) <= OFI_PAUSE by {
                assert(abs(readings[i + 1]) <= OFI_PAUSE);
            }
            lemma_hysteresis(false, rest);
        }
    }
}

/// The direction of the short-horizon momentum.
#[derive(Clone, Copy, Debug, PartialEq, Eq)]
pub enum Trend {
    Down,
    Flat,
    Up,
}

/// The outcome of the trend gate for one tick.
#[derive(Clone, Copy, Debug, PartialEq, Eq)]
pub enum TrendGate {
    /// Skip the tick entirely.
    SkipTick,
    /// Quote, skipping bids if `skip_bids`, widening asks by 1.5 if `widen_asks`.
    Quote { skip_bids: bool, widen_asks: bool },
}

/// The trend gate: a downtrend skips bids, and the whole tick when the
/// inventory is at most 0.05 base; an uptrend widens the asks but skips nothing.
pub fn trend_gate(trend: Trend, inventory: i64) -> (r: TrendGate)
    ensures
        r == (match trend {
            Trend::Down => if inventory <= DOWNTREND_MIN_INV {
                TrendGate::SkipTick
            } else {
                TrendGate::Quote { skip_bids: true, widen_asks: false }
            },
            Trend::Flat => TrendGate::Quote { skip_bids: false, widen_asks: false },
            Trend::Up => TrendGate::Quote { skip_bids: false, widen_asks: true },
        }),
{
    match trend {
        Trend::Down => {
            if inventory <= DOWNTREND_MIN_INV {
                TrendGate::SkipTick
            } else {
                TrendGate::Quote { skip_bids: true, widen_asks: false }
            }
        },
        Trend::Flat => TrendGate::Quote { skip_bids: false, widen_asks: false },
        Trend::Up => TrendGate::Quote { skip_bids: false, widen_asks: true },
    }
}

} // verus!

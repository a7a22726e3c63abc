use ladder_mm::cell::LevelOrderState;
use ladder_mm::exchange::auth::KucoinAuth;
use ladder_mm::text::parse_fixed;
use ladder_mm::commitments::{fits, CommitmentTracker};
use ladder_mm::gates::{ofi_gate, trend_gate, Trend, TrendGate};
use ladder_mm::market_data::{MarketData, SIGMA2_FLOOR};
use ladder_mm::pnl::{rebate_for, PnL};
use ladder_mm::quote::{base_size, capped_skew, drifted, level_prices, order_sizes, Level};

#[test]
fn hysteresis_holds_between_thresholds() {
    let mut paused = false;
    let mut seen = Vec::new();
    for ofi in [4_000, 6_000, 7_000, 5_000, 3_500, 3_400, 6_000, -6_100, -3_499] {
        let g = ofi_gate(paused, ofi);
        paused = g.paused;
        seen.push((paused, g.skip_bids, g.skip_asks));
    }
    assert_eq!(
        seen,
        vec![
            (false, false, false),
            (false, false, false),
            (true, false, true),
            (true, false, true),
            (true, false, true),
            (false, false, false),
            (false, false, false),
            (true, true, false),
            (false, false, false),
        ]
    );
}

#[test]
fn trend_gate_cases() {
    assert_eq!(trend_gate(Trend::Down, 5), TrendGate::SkipTick);
    assert_eq!(trend_gate(Trend::Down, 6), TrendGate::Quote { skip_bids: true, widen_asks: false });
    assert_eq!(trend_gate(Trend::Up, -100), TrendGate::Quote { skip_bids: false, widen_asks: true });
    assert_eq!(trend_gate(Trend::Flat, 0), TrendGate::Quote { skip_bids: false, widen_asks: false });
}

#[test]
fn fifo_round_trip_ignores_slicing() {
    // buy 1.00 @ 100.00 and 1.00 @ 101.00, sell in three slices
    let mut a = PnL::new();
    a.buy(10_000, 100, rebate_for(10_000, 100));
    a.buy(10_100, 100, rebate_for(10_100, 100));
    a.sell(10_200, 50, rebate_for(10_200, 50));
    a.sell(10_300, 120, rebate_for(10_300, 120));
    a.sell(10_050, 30, rebate_for(10_050, 30));
    assert_eq!(a.inv(), 0);
    let expected = (10_200 * 50 + 10_300 * 120 + 10_050 * 30) - (10_000 * 100 + 10_100 * 100);
    assert_eq!(a.spread, expected as i128);
    // pairs: 50@(102-100) + 50@(103-100) + 70@(103-101) + 30@(100.5-101)
    assert_eq!(a.spread, (50 * 200 + 50 * 300 + 70 * 200 - 30 * 50) as i128);

    // the same fills, sliced otherwise
    let mut b = PnL::new();
    b.buy(10_000, 60, rebate_for(10_000, 60));
    b.buy(10_000, 40, rebate_for(10_000, 40));
    b.sell(10_200, 50, rebate_for(10_200, 50));
    b.buy(10_100, 100, rebate_for(10_100, 100));
    b.sell(10_300, 120, rebate_for(10_300, 120));
    b.sell(10_050, 30, rebate_for(10_050, 30));
    assert_eq!(b.inv(), 0);
    assert_eq!(b.spread, a.spread);
    assert_eq!(b.rebates, a.rebates);
}

#[test]
fn fifo_short_side_and_counts() {
    let mut p = PnL::new();
    p.sell(20_000, 10, rebate_for(20_000, 10));
    p.sell(20_100, 10, rebate_for(20_100, 10));
    assert_eq!(p.inv(), -20);
    p.buy(19_900, 15, rebate_for(19_900, 15));
    assert_eq!(p.inv(), -5);
    assert_eq!(p.spread, (10 * 100 + 5 * 200) as i128 + (0 - 0));
    assert_eq!(p.matched, 2);
    assert_eq!(p.wins, 2);
    assert_eq!(p.losses, 0);
    assert_eq!(p.buys, 1);
    assert_eq!(p.sells, 2);
    // rebate of 1 bps on every notional, in 1e-8 quote
    assert_eq!(p.rebates, (20_000 * 10 + 20_100 * 10 + 19_900 * 15) as u128);
    assert!(p.can_record(19_900, 15));
    assert!(!p.can_record(u64::MAX, 1));
}

#[test]
fn prices_are_whole_ticks_and_sizes_whole_steps() {
    let lv = Level::new(1_230, 740).unwrap();
    let (b, a) = level_prices(2_000_000, &lv, 0, false);
    assert_eq!((b, a), (19_998, 20_002));
    assert_eq!(base_size(100_000, 2_000_000), 5);
    assert_eq!(base_size(100_000, 3_000_000), 3);
    assert_eq!(order_sizes(5, 100, 900_000), (5, 5));
    assert_eq!(order_sizes(5, 100, 500_000), (3, 5));
    assert_eq!(order_sizes(5, -100, 100_000), (5, 1));
    assert_eq!(order_sizes(0, 0, 1_000_000), (0, 1));
}

#[test]
fn skew_is_capped_at_half_offset() {
    // 10 base long at sigma floor: 10 * 0.1 * 0.0004 * 10^4 = 4 bps
    assert_eq!(capped_skew(1_000, SIGMA2_FLOOR, 10_000), 4_000);
    assert_eq!(capped_skew(1_000, SIGMA2_FLOOR, 550), 275);
    assert_eq!(capped_skew(-1_000, SIGMA2_FLOOR, 550), -275);
    assert_eq!(capped_skew(0, u64::MAX, 550), 0);
}

#[test]
fn drift_against_tolerance() {
    assert!(drifted(19_975, 20_008, 740));
    assert!(!drifted(20_008, 20_008, 0));
    assert!(!drifted(20_009, 20_008, 5_000));
}

#[test]
fn budget_fit_with_buffer() {
    assert!(fits(10_000, 0, 9_800));
    assert!(!fits(10_000, 0, 9_801));
    assert!(!fits(10_000, 10_001, 0));
    let mut c = CommitmentTracker::new();
    c.add_inflight_bid(500);
    c.add_inflight_ask(7);
    assert_eq!(c.total_quote(), 500);
    assert_eq!(c.total_base(), 7);
    c.reset_inflight();
    assert_eq!((c.inflight_quote, c.inflight_base), (0, 0));
}

#[test]
fn cell_transitions_follow_the_table() {
    let mut c = LevelOrderState::Empty;
    c.on_cancel_reply(true, 5);
    assert!(c.is_empty());
    c.on_place_ack("A".to_string(), 100);
    assert_eq!(c.order_id(), Some("A"));
    // a second ack cannot replace the live order
    c.on_place_ack("B".to_string(), 101);
    assert_eq!(c.order_id(), Some("A"));
    c.on_cancel_reply(false, 9);
    assert!(c.is_cancel_pending());
    assert_eq!(c.order_id(), Some("A"));
    // a pending cancel is left to the reconciler
    c.on_cancel_reply(true, 10);
    assert!(c.is_cancel_pending());
}

#[test]
fn market_data_ewmas_and_window() {
    let mut md = MarketData::new();
    assert_eq!(md.sigma2(), SIGMA2_FLOOR);
    assert_eq!(md.trend(), Trend::Flat);
    md.update(2_000_000, 0, 0);
    assert_eq!(md.update_interval_us, 0);
    md.update(2_000_000, 100, 0);
    // 0.9 * 0 + 0.1 * 100 ms
    assert_eq!(md.update_interval_us, 10_000);
    md.update(2_010_000, 200, 1_000_000_000);
    // 0.94 * 0 + 0.06 * 1e9
    assert_eq!(md.ewma_var, 60_000_000);
    // 6e7 * 315360 / 19000 us
    assert_eq!(md.sigma2(), 60_000_000 * 315_360 / 19_000);
    // +0.5% against the window head: uptrend
    assert_eq!(md.trend(), Trend::Up);
    md.update(1_990_000, 400_000, 0);
    // the older samples left the 300 s window; head is now the last sample
    assert_eq!(md.price_history.len(), 1);
    assert_eq!(md.trend(), Trend::Flat);
    md.set_ofi(-1234);
    assert_eq!(md.ofi, -1234);
}

#[test]
fn fixed_point_parsing() {
    assert_eq!(parse_fixed("199.7540", 4), Some(1_997_540));
    assert_eq!(parse_fixed("199.75", 2), Some(19_975));
    assert_eq!(parse_fixed("10.12345678", 2), Some(1_012));
    assert_eq!(parse_fixed("2000", 4), Some(20_000_000));
    assert_eq!(parse_fixed("0.05", 2), Some(5));
    assert_eq!(parse_fixed("7.", 2), Some(700));
    assert_eq!(parse_fixed(".5", 2), None);
    assert_eq!(parse_fixed("", 2), None);
    assert_eq!(parse_fixed("1.2.3", 2), None);
    assert_eq!(parse_fixed("-1", 2), None);
    assert_eq!(parse_fixed("12a", 2), None);
    assert_eq!(parse_fixed("184467440737095516.16", 2), None);
    assert_eq!(parse_fixed("184467440737095516.15", 2), Some(u64::MAX));
}

#[test]
fn session_message_signature() {
    let auth = KucoinAuth::new("k".to_string(), "key".to_string(), "p".to_string(), true);
    assert_eq!(
        auth.sign_message("The quick brown fox jumps over the lazy dog"),
        "97yD9DBThCSxMpjmqm+xQ+9NWaFJRhdZl0edvC0aPNg="
    );
}

#[test]
fn fifo_partial_closes_and_counters() {
    // buy 1.00 @ 100.00, sell 0.40 @ 101.00, sell 0.60 @ 102.00, no rebates
    let mut p = PnL::new();
    p.buy(10_000, 100, 0);
    p.sell(10_100, 40, 0);
    assert_eq!(p.longs.len(), 1);
    assert_eq!(p.longs[0].size, 60);
    p.sell(10_200, 60, 0);
    assert_eq!(p.spread, 40 * 100 + 60 * 200);
    assert!(p.longs.is_empty() && p.shorts.is_empty());
    assert_eq!((p.matched, p.wins, p.losses, p.buys, p.sells), (2, 2, 0, 1, 2));
    assert_eq!(p.rebates, 0);
}

#[test]
fn window_keeps_recent_samples() {
    let mut md = MarketData::new();
    md.update(2_000_000, 1_000, 0);
    md.update(2_010_000, 2_000, 0);
    assert_eq!(md.price_history.len(), 2);
    assert_eq!(md.trend(), Trend::Up);
}

#[test]
fn transition_errors_are_named() {
    use_machine();
}

fn use_machine() {
    let mut m = ladder_mm::exchange::order_state_machine::OrderStateMachine::new();
    assert_eq!(m.transition("x", ladder_mm::exchange::order_state_machine::StateTransition::Fill, 0), Err("Order not found"));
}

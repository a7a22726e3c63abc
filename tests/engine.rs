use ladder_mm::cell::LevelOrderState;
use ladder_mm::commitments::Balances;
use ladder_mm::engine::{default_levels, Engine, SideAction, TickPlan, ORDER_NOTIONAL};
use ladder_mm::exchange::order_book::BookSide;
use ladder_mm::gates::Trend;
use ladder_mm::market_data::SIGMA2_FLOOR;
use ladder_mm::quote::{Level, PPM_ONE};
use ladder_mm::reconcile::ActiveOrder;

fn engine() -> Engine {
    Engine::new(default_levels(), ORDER_NOTIONAL).unwrap()
}

/// 10.0 base (in 0.01 steps) and 2000 quote (in 1e-4).
fn cold_balances() -> Balances {
    Balances { base: 1000, quote: 20_000_000 }
}

fn order(id: &str, side: BookSide, price: u64, size: u64) -> ActiveOrder {
    ActiveOrder::new(id.to_string(), side, price, size).unwrap()
}

/// One controller tick against an exchange that acknowledges everything.
fn run_tick(e: &mut Engine, plan: &TickPlan, next_id: &mut u64, now: u64) -> (usize, usize) {
    let mut placed = 0;
    let mut cancelled = 0;
    for i in 0..e.levels.len() {
        let (bp, ap) = e.level_targets(plan, i);
        for (side, target) in [(BookSide::Bid, bp), (BookSide::Ask, ap)] {
            if e.refresh_cancel(side, i, target).is_some() {
                e.on_cancel_reply(side, i, true, now);
                cancelled += 1;
            }
        }
        for (side, target) in [(BookSide::Bid, bp), (BookSide::Ask, ap)] {
            match e.next_action(side, i, plan, target) {
                SideAction::Place { .. } => {
                    *next_id += 1;
                    e.on_place_reply(Some(format!("o{}", next_id)));
                    placed += 1;
                }
                SideAction::Cancel { .. } => {
                    e.on_cancel_reply(side, i, true, now);
                    cancelled += 1;
                }
                SideAction::Nothing => {}
            }
        }
    }
    (placed, cancelled)
}

#[test]
fn cold_start_places_full_ladder() {
    let mut e = engine();
    e.reconcile_begin(Vec::new(), cold_balances(), 0);
    assert!(e.select_orphans(0).is_empty());
    assert!(e.bids.iter().chain(e.asks.iter()).all(|c| c.is_empty()));

    let plan = e.begin_tick(2_000_000, 0, SIGMA2_FLOOR, Trend::Flat, 0, PPM_ONE).unwrap();
    assert_eq!(plan.bid_size, 5);
    assert_eq!(plan.ask_size, 5);
    let mut id = 0;
    let (placed, cancelled) = run_tick(&mut e, &plan, &mut id, 0);
    assert_eq!(placed, 50);
    assert_eq!(cancelled, 0);
    assert!(e.bids.iter().chain(e.asks.iter()).all(|c| c.is_live()));
    // 25 bids of 0.05 at about 199.8: about 249.7 quote
    assert!(e.commitments.inflight_quote > 2_490_000 && e.commitments.inflight_quote < 2_500_000);
    assert_eq!(e.commitments.inflight_base, 125);
    // nearest level: 200 * (1 - 0.55 bps) = 199.989 -> 199.99
    assert!(matches!(e.bids[0], LevelOrderState::Live { price: 19_999, .. }));
    assert!(matches!(e.asks[0], LevelOrderState::Live { price: 20_001, .. }));
}

#[test]
fn second_tick_at_same_mid_is_idle() {
    let mut e = engine();
    e.reconcile_begin(Vec::new(), cold_balances(), 0);
    let plan = e.begin_tick(2_000_000, 0, SIGMA2_FLOOR, Trend::Flat, 0, PPM_ONE).unwrap();
    let mut id = 0;
    run_tick(&mut e, &plan, &mut id, 0);
    let plan2 = e.begin_tick(2_000_000, 0, SIGMA2_FLOOR, Trend::Flat, 0, PPM_ONE).unwrap();
    assert_eq!(plan2.bid_count, 25);
    assert_eq!(run_tick(&mut e, &plan2, &mut id, 500), (0, 0));
}

#[test]
fn refresh_cancel_after_mid_moves() {
    let mut e = engine();
    e.reconcile_begin(Vec::new(), cold_balances(), 0);
    e.bids[1] = LevelOrderState::Live { order_id: "X".to_string(), price: 19_975 };
    let plan = e.begin_tick(2_001_000, 0, SIGMA2_FLOOR, Trend::Flat, 0, PPM_ONE).unwrap();
    let (bp, _) = e.level_targets(&plan, 1);
    // 200.10 * (1 - 1.23 bps) = 200.0754 -> 200.08
    assert_eq!(bp, 20_008);
    assert_eq!(e.refresh_cancel(BookSide::Bid, 1, bp), Some("X".to_string()));
    // a target within the 0.74 bps tolerance keeps the order
    assert_eq!(e.refresh_cancel(BookSide::Bid, 1, 19_976), None);

    let mut unacked = engine();
    unacked.bids[1] = LevelOrderState::Live { order_id: "X".to_string(), price: 19_975 };
    unacked.on_cancel_reply(BookSide::Bid, 1, false, 42);
    assert!(matches!(
        &unacked.bids[1],
        LevelOrderState::CancelPending { order_id, price: 19_975, sent_at_ms: 42, attempts: 1 } if order_id == "X"
    ));

    e.on_cancel_reply(BookSide::Bid, 1, true, 42);
    assert!(e.bids[1].is_empty());
}

#[test]
fn stuck_cancel_recovers_through_rest() {
    let mut e = engine();
    e.bids[0] = LevelOrderState::CancelPending {
        order_id: "X".to_string(),
        price: 19_999,
        sent_at_ms: 0,
        attempts: 1,
    };
    // within the 5 s timeout: still pending, claimed, no REST
    e.reconcile_begin(vec![order("X", BookSide::Bid, 19_999, 5)], cold_balances(), 4_000);
    assert!(e.rest_queue.is_empty());
    assert!(e.bids[0].is_cancel_pending());
    assert!(e.select_orphans(4_000).is_empty());

    // past the timeout: a REST cancel is queued; it fails -> stuck
    e.reconcile_begin(vec![order("X", BookSide::Bid, 19_999, 5)], cold_balances(), 6_000);
    assert_eq!(e.rest_queue.len(), 1);
    assert_eq!(e.rest_queue[0].order_id, "X");
    e.apply_rest_result(0, false);
    assert!(e.bids[0].is_cancel_stuck());

    // next tick the stuck cancel is retried; it fails again and stays claimed
    e.reconcile_begin(vec![order("X", BookSide::Bid, 19_999, 5)], cold_balances(), 7_000);
    assert_eq!(e.rest_queue.len(), 1);
    e.apply_rest_result(0, false);
    assert!(e.bids[0].is_cancel_stuck());
    assert!(e.select_orphans(7_000).is_empty());

    // the order disappears from the book: the cell empties
    e.reconcile_begin(Vec::new(), cold_balances(), 8_000);
    assert!(e.bids[0].is_empty());
}

#[test]
fn stuck_cancel_rest_success_empties() {
    let mut e = engine();
    e.asks[3] = LevelOrderState::CancelStuck { order_id: "Y".to_string(), price: 20_050 };
    e.reconcile_begin(vec![order("Y", BookSide::Ask, 20_050, 5)], cold_balances(), 1);
    assert_eq!(e.rest_queue.len(), 1);
    e.apply_rest_result(0, true);
    assert!(e.asks[3].is_empty());
}

#[test]
fn pending_cancel_out_of_attempts_becomes_stuck() {
    let mut e = engine();
    e.bids[2] = LevelOrderState::CancelPending {
        order_id: "Z".to_string(),
        price: 19_990,
        sent_at_ms: 0,
        attempts: 3,
    };
    e.reconcile_begin(vec![order("Z", BookSide::Bid, 19_990, 5)], cold_balances(), 10_000);
    assert!(e.rest_queue.is_empty());
    assert!(e.bids[2].is_cancel_stuck());
}

#[test]
fn ofi_pause_skips_and_cancels_asks() {
    let mut e = engine();
    e.reconcile_begin(Vec::new(), cold_balances(), 0);
    let mut id = 0;
    let p = e.begin_tick(2_000_000, 4_000, SIGMA2_FLOOR, Trend::Flat, 0, PPM_ONE).unwrap();
    assert!(!e.ofi_paused && !p.skip_asks);
    run_tick(&mut e, &p, &mut id, 0);
    assert!(e.asks.iter().all(|c| c.is_live()));

    let p = e.begin_tick(2_000_000, 7_000, SIGMA2_FLOOR, Trend::Flat, 0, PPM_ONE).unwrap();
    assert!(e.ofi_paused && p.skip_asks && !p.skip_bids);
    let (placed, cancelled) = run_tick(&mut e, &p, &mut id, 500);
    assert_eq!((placed, cancelled), (0, 25));
    assert!(e.asks.iter().all(|c| c.is_empty()));
    assert!(e.bids.iter().all(|c| c.is_live()));

    let p = e.begin_tick(2_000_000, 5_000, SIGMA2_FLOOR, Trend::Flat, 0, PPM_ONE).unwrap();
    assert!(e.ofi_paused && p.skip_asks);
    assert_eq!(run_tick(&mut e, &p, &mut id, 1_000), (0, 0));

    let p = e.begin_tick(2_000_000, 3_000, SIGMA2_FLOOR, Trend::Flat, 0, PPM_ONE).unwrap();
    assert!(!e.ofi_paused && !p.skip_asks);
    e.reconcile_begin(Vec::new(), Balances { base: 1000, quote: 20_000_000 }, 1_500);
    let p = e.begin_tick(2_000_000, 3_000, SIGMA2_FLOOR, Trend::Flat, 0, PPM_ONE).unwrap();
    let (placed, _) = run_tick(&mut e, &p, &mut id, 1_500);
    assert_eq!(placed, 50);
}

#[test]
fn uptrend_widens_asks_only() {
    let mut e = Engine::new(vec![Level::new(10_070, 7_200).unwrap()], ORDER_NOTIONAL).unwrap();
    let flat = e.begin_tick(2_000_000, 0, SIGMA2_FLOOR, Trend::Flat, 0, PPM_ONE).unwrap();
    let up = e.begin_tick(2_000_000, 0, SIGMA2_FLOOR, Trend::Up, 0, PPM_ONE).unwrap();
    assert!(up.widen_asks && !up.skip_bids && !up.skip_asks);
    let (fb, fa) = e.level_targets(&flat, 0);
    let (ub, ua) = e.level_targets(&up, 0);
    // 10.07 bps -> 15.105 bps: 200 * (1 + 0.0015105) = 200.3021
    assert_eq!(fa, 20_020);
    assert_eq!(ua, 20_030);
    assert_eq!(fb, ub);
    assert_eq!(fb, 19_980);
}

#[test]
fn downtrend_skips_bids_or_tick() {
    let mut e = engine();
    assert!(e.begin_tick(2_000_000, 0, SIGMA2_FLOOR, Trend::Down, 5, PPM_ONE).is_none());
    let p = e.begin_tick(2_000_000, 0, SIGMA2_FLOOR, Trend::Down, 6, PPM_ONE).unwrap();
    assert!(p.skip_bids && !p.skip_asks);
    assert!(e.begin_tick(0, 0, SIGMA2_FLOOR, Trend::Flat, 0, PPM_ONE).is_none());
}

#[test]
fn orphan_cancels_are_throttled() {
    let mut e = engine();
    let book: Vec<String> = (0..12).map(|i| format!("orphan{}", i)).collect();
    let active = |book: &Vec<String>| -> Vec<ActiveOrder> {
        book.iter().map(|id| order(id, BookSide::Bid, 19_000, 5)).collect()
    };
    e.reconcile_begin(active(&book), cold_balances(), 0);
    let first = e.select_orphans(0);
    assert_eq!(first, book[0..5].to_vec());

    e.reconcile_begin(active(&book), cold_balances(), 1_000);
    let second = e.select_orphans(1_000);
    assert_eq!(second, book[5..10].to_vec());

    e.reconcile_begin(active(&book), cold_balances(), 2_000);
    let third = e.select_orphans(2_000);
    assert_eq!(third, book[10..12].to_vec());

    e.reconcile_begin(active(&book), cold_balances(), 3_000);
    assert!(e.select_orphans(3_000).is_empty());

    // eleven seconds after the first batch it is eligible again
    e.reconcile_begin(active(&book), cold_balances(), 11_000);
    assert_eq!(e.select_orphans(11_000), book[0..5].to_vec());
}

#[test]
fn reconciliation_rebuilds_commitments() {
    let mut e = engine();
    e.reconcile_begin(Vec::new(), cold_balances(), 0);
    let plan = e.begin_tick(2_000_000, 0, SIGMA2_FLOOR, Trend::Flat, 0, PPM_ONE).unwrap();
    let mut id = 0;
    run_tick(&mut e, &plan, &mut id, 0);
    assert!(e.commitments.inflight_quote > 0);
    // the exchange shows only the first bid (o1) and the first ask (o2)
    let active = vec![order("o1", BookSide::Bid, 19_999, 5), order("o2", BookSide::Ask, 20_001, 5), order("stray", BookSide::Ask, 21_000, 7)];
    e.reconcile_begin(active, cold_balances(), 1_000);
    assert_eq!(e.commitments.inflight_quote, 0);
    assert_eq!(e.commitments.inflight_base, 0);
    assert_eq!(e.commitments.live_quote, 19_999 * 5);
    assert_eq!(e.commitments.live_base, 5);
    assert!(e.bids[0].is_live() && e.asks[0].is_live());
    assert!(e.bids[1..].iter().all(|c| c.is_empty()));
    assert!(e.asks[1..].iter().all(|c| c.is_empty()));
    assert_eq!(e.select_orphans(1_000), vec!["stray".to_string()]);
}

#[test]
fn placements_stop_at_the_budget() {
    let mut e = engine();
    // 60 quote: the buffer keeps 1.2, so five 0.05 bids at ~199.9 (~10 each) fit
    e.reconcile_begin(Vec::new(), Balances { base: 1000, quote: 600_000 }, 0);
    let plan = e.begin_tick(2_000_000, 0, SIGMA2_FLOOR, Trend::Flat, 0, PPM_ONE).unwrap();
    let mut id = 0;
    run_tick(&mut e, &plan, &mut id, 0);
    let bids = e.bids.iter().filter(|c| c.is_live()).count();
    assert_eq!(bids, 5);
    assert!(e.commitments.inflight_quote + 600_000 * 2 / 100 <= 600_000);
}

#[test]
fn inventory_bound_blocks_bids() {
    let mut e = engine();
    e.reconcile_begin(Vec::new(), cold_balances(), 0);
    // 14.97 base long: a 0.05 bid would breach 15
    let plan = e.begin_tick(2_000_000, 0, SIGMA2_FLOOR, Trend::Flat, 1_497, 992_000).unwrap();
    assert_eq!(plan.bid_size, 5);
    assert_eq!(plan.ask_size, 5);
    let mut id = 0;
    run_tick(&mut e, &plan, &mut id, 0);
    assert!(e.bids.iter().all(|c| c.is_empty()));
    assert!(e.asks.iter().all(|c| c.is_live()));
}

#[test]
fn rejected_place_leaves_cell_empty() {
    let mut e = engine();
    e.reconcile_begin(Vec::new(), cold_balances(), 0);
    let plan = e.begin_tick(2_000_000, 0, SIGMA2_FLOOR, Trend::Flat, 0, PPM_ONE).unwrap();
    let (bp, _) = e.level_targets(&plan, 0);
    assert!(matches!(e.next_action(BookSide::Bid, 0, &plan, bp), SideAction::Place { size: 5, .. }));
    e.on_place_reply(None);
    assert!(e.bids[0].is_empty());
    assert_eq!(e.commitments.inflight_quote, 0);
}

#[test]
fn engine_rejects_far_levels() {
    assert!(Engine::new(vec![Level { offset_mbps: 1_000_001, refresh_mbps: 1 }], ORDER_NOTIONAL).is_none());
    assert!(Level::new(1_000_001, 1).is_none());
    assert_eq!(default_levels().len(), 25);
    assert_eq!(default_levels()[1], Level { offset_mbps: 1_230, refresh_mbps: 740 });
}

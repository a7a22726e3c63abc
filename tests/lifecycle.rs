use ladder_mm::exchange::order_state::{Fill, OrderManager, OrderStatus, Side};
use ladder_mm::exchange::order_state_machine::{OrderInfo, OrderState, OrderStateMachine, StateTransition};

fn machine_with(oid: &str) -> OrderStateMachine {
    let mut m = OrderStateMachine::new();
    m.register_order(oid.to_string(), "SOL-USDT".to_string(), "buy".to_string(), 19_990, 10, 0);
    m
}

#[test]
fn lifecycle_follows_the_table() {
    let mut m = machine_with("c1");
    assert_eq!(m.transition("c1", StateTransition::Acknowledge, 5), Ok(OrderState::Open));
    assert_eq!(m.transition("c1", StateTransition::Acknowledge, 6), Err("Invalid state transition"));
    assert_eq!(m.transition("zz", StateTransition::Acknowledge, 6), Err("Order not found"));
    assert_eq!(m.transition("c1", StateTransition::CancelRequest, 7), Ok(OrderState::PendingCancel));
    assert_eq!(m.transition("c1", StateTransition::CancelAck, 8), Ok(OrderState::Cancelled));
    let o = m.get_order("c1").unwrap();
    assert_eq!(o.state_history.len(), 4);
    assert_eq!(o.last_update_ms, 8);
    assert!(o.state.is_terminal());
    assert_eq!(OrderState::Filled.apply(StateTransition::Fill), None);
}

#[test]
fn fills_move_open_orders() {
    let mut m = machine_with("c2");
    m.transition("c2", StateTransition::Acknowledge, 1).unwrap();
    m.record_fill("c2", 4, 2);
    assert_eq!(m.get_order("c2").unwrap().state, OrderState::PartiallyFilled);
    assert_eq!(m.get_order("c2").unwrap().remaining_size(), 6);
    assert_eq!(m.get_order("c2").unwrap().fill_pct(), 4_000);
    m.record_fill("c2", 6, 3);
    assert_eq!(m.get_order("c2").unwrap().state, OrderState::Filled);
    assert_eq!(m.stats().filled, 1);
    assert_eq!(m.stats().total, 1);
}

#[test]
fn exchange_ids_and_duplicates() {
    let mut m = machine_with("c3");
    m.set_order_id("c3", "X9".to_string());
    assert_eq!(m.get_by_order_id("X9").unwrap().client_oid, "c3");
    assert!(m.get_by_order_id("nope").is_none());
    assert!(!m.is_duplicate("bid_3", 100, 1_000));
    assert!(m.is_duplicate("bid_3", 100, 1_050));
    assert!(!m.is_duplicate("bid_3", 100, 1_200));
}

#[test]
fn cleanup_drops_old_terminal_orders() {
    let mut m = machine_with("a");
    m.register_order("b".to_string(), "SOL-USDT".to_string(), "sell".to_string(), 20_010, 10, 0);
    m.transition("a", StateTransition::Reject, 10).unwrap();
    m.is_duplicate("k", 1, 0);
    m.cleanup(1_000, 5_000);
    assert!(m.get_order("a").is_none());
    assert!(m.get_order("b").is_some());
    assert_eq!(m.pending_dedup.len(), 0);
    let s = m.stats();
    assert_eq!((s.total, s.pending_new, s.rejected), (1, 1, 0));
    let info = OrderInfo::new("z".to_string(), "S".to_string(), "buy".to_string(), 1, 0, 7);
    assert_eq!(info.fill_pct(), 0);
    assert_eq!(info.age_ms(10), 3);
}

fn fill(order_id: &str, side: Side, price: u64, size: u64, fee: i128) -> Fill {
    Fill {
        order_id: order_id.to_string(),
        trade_id: format!("t-{}-{}", order_id, price),
        side,
        price,
        size,
        fee,
        fee_currency: "USDT".to_string(),
        timestamp: 0,
    }
}

#[test]
fn order_manager_tracks_position_and_pnl() {
    let mut m = OrderManager::new(-100);
    m.register_order("X1".to_string(), "b1".to_string(), "SOL-USDT".to_string(), Side::Buy, 10_000, 100, 0);
    assert_eq!(m.get_order_id("b1").map(|s| s.as_str()), Some("X1"));
    assert!(m.on_fill(&fill("X1", Side::Buy, 10_000, 40, -5), 10));
    assert_eq!(m.active_orders[0].status, OrderStatus::PartialFill);
    assert!(m.on_fill(&fill("X1", Side::Buy, 10_200, 60, -5), 20));
    assert_eq!(m.active_orders[0].status, OrderStatus::Filled);
    assert_eq!(m.position(), 100);
    // (40 * 100.00 + 60 * 102.00) / 100 = 101.20
    assert_eq!(m.avg_entry_price, 10_120);
    assert_eq!(m.unrealized_pnl(10_300), 100 * 180);
    assert_eq!(m.rebates(), 10);
    assert!(m.on_fill(&fill("other", Side::Sell, 10_300, 100, 7), 30));
    assert_eq!(m.position(), 0);
    assert_eq!(m.realized_pnl(), (40 * 300 + 60 * 100) as i128);
    assert_eq!(m.spread_pnl(), m.realized_pnl());
    assert_eq!(m.taker_fees(), 7);
    assert_eq!(m.stats(), (3, 200, (40 * 10_000 + 60 * 10_200 + 100 * 10_300) as u128));
    assert_eq!(m.secs_since_last_fill(2_030), 2);
    assert!(!m.on_fill(&fill("X1", Side::Buy, u64::MAX, 1, 0), 40));
}

#[test]
fn order_manager_cancels_and_cleans_up() {
    let mut m = OrderManager::new(0);
    assert_eq!(m.secs_since_last_fill(5), u64::MAX);
    m.register_order("A".to_string(), "a".to_string(), "S".to_string(), Side::Sell, 20_000, 10, 0);
    m.register_order("B".to_string(), "b".to_string(), "S".to_string(), Side::Buy, 19_000, 10, 0);
    m.mark_pending_cancel("A");
    assert!(m.is_pending_cancel("A"));
    assert!(m.active_order_for_side(Side::Sell).is_some());
    m.on_cancel("A");
    assert!(!m.is_pending_cancel("A"));
    assert!(m.active_order_for_side(Side::Sell).is_none());
    m.cleanup_orders();
    assert_eq!(m.active_orders.len(), 1);
    assert_eq!(m.active_order_for_side(Side::Buy).unwrap().order_id, "B");
}

#[test]
fn active_and_pending_views() {
    let mut m = machine_with("p1");
    m.register_order("p2".to_string(), "S".to_string(), "sell".to_string(), 1, 1, 0);
    m.transition("p2", StateTransition::Acknowledge, 1).unwrap();
    let active: Vec<&str> = m.active_orders().iter().map(|o| o.client_oid.as_str()).collect();
    let pending: Vec<&str> = m.pending_orders().iter().map(|o| o.client_oid.as_str()).collect();
    assert_eq!(active, vec!["p2"]);
    assert_eq!(pending, vec!["p1"]);
}

#[test]
fn total_pnl_adds_unrealized() {
    let mut m = OrderManager::new(0);
    assert!(m.on_fill(&fill("A", Side::Buy, 10_000, 10, 0), 0));
    assert_eq!(m.total_pnl(10_100), 10 * 100);
}

use ladder_mm::exchange::order_template::{OrderSide, OrderTemplate};
use ladder_mm::exchange::types::{KucoinEndpoints, OrderBook as SnapshotBook, OrderRequest, OrderType, Side, TimeInForce};
use ladder_mm::exchange::order_state_machine::OrderState;
use ladder_mm::exchange::traits::BookUpdate;
use ladder_mm::exchange::ws_order_client::{LatencyTracker, TokenBucket, WsOrderConfig};
use ladder_mm::exchange::rest::SeenTrades;
use ladder_mm::exchange::ws_order_client_v2::{cancel_message, order_message, reconnect_delay_secs, request_id, should_reconnect, LatencyStats};
use ladder_mm::text::fixed2_text;

#[test]
fn test_order_template() {
    let mut template = OrderTemplate::new("BTC-USDT".to_string());

    // 100.00 and 101.00 in ticks, 1.00 in size steps
    let bid1 = template.build_bid(10_000, 100);
    assert_eq!(bid1.client_oid, "bid_0");
    assert_eq!(bid1.symbol, "BTC-USDT");
    assert_eq!(bid1.side, OrderSide::Buy);

    let ask1 = template.build_ask(10_100, 100);
    assert_eq!(ask1.client_oid, "ask_1");
    assert_eq!(ask1.side, OrderSide::Sell);

    assert_eq!(template.current_count(), 2);
}

#[test]
fn template_counter_resets() {
    let mut template = OrderTemplate::new("SOL-USDT".to_string());
    assert_eq!(template.next_oid("x"), "x_0");
    assert_eq!(template.next_oid("x"), "x_1");
    template.reset_counter();
    assert_eq!(template.current_count(), 0);
    assert_eq!(template.next_oid("b12"), "b12_0");
}

#[test]
fn order_params_render_two_decimals() {
    let mut template = OrderTemplate::new("SOL-USDT".to_string());
    let bid = template.build_bid(19_975, 5);
    assert_eq!(bid.price_str(), "199.75");
    assert_eq!(bid.size_str(), "0.05");
    assert_eq!(fixed2_text(100), "1.00");
    assert_eq!(fixed2_text(0), "0.00");
    assert_eq!(fixed2_text(123_410), "1234.10");
}

#[test]
fn endpoints_and_sides() {
    let s = KucoinEndpoints::standard();
    assert_eq!(s.rest_url, "https://api.kucoin.com");
    assert_eq!(s.ws_private_url, "wss://wsapi.kucoin.com");
    let c = KucoinEndpoints::colocation();
    assert_eq!(c.ws_private_url, "wss://fgtyhceu.kucoin.com/v1/priv");
    assert_eq!(Side::Buy.as_str(), "buy");
    assert_eq!(Side::Sell.as_str(), "sell");
    assert_eq!(Side::Buy.opposite(), Side::Sell);
    assert_eq!(TimeInForce::default(), TimeInForce::GTC);
}

#[test]
fn order_state_classes() {
    assert!(OrderState::Filled.is_terminal());
    assert!(!OrderState::Open.is_terminal());
    assert!(OrderState::PendingCancel.is_pending());
    assert!(OrderState::PartiallyFilled.is_active());
    assert!(!OrderState::PendingNew.is_active());
}

#[test]
fn latency_tracker_window() {
    let mut t = LatencyTracker::new(2);
    assert_eq!(t.mean(), None);
    t.record(100);
    t.record(200);
    t.record(400);
    assert_eq!(t.count(), 2);
    assert_eq!(t.total(), 3);
    assert_eq!(t.mean(), Some(300));
    t.reset();
    assert_eq!(t.count(), 0);
    assert_eq!(t.total(), 3);
}

#[test]
fn latency_stats_track_extremes() {
    let mut s = LatencyStats::new();
    assert_eq!(s.avg_us(), 0);
    s.record(1000);
    s.record(3000);
    assert_eq!(s.avg_us(), 2000);
    assert_eq!(s.min_us, 1000);
    assert_eq!(s.max_us, 3000);
    assert_eq!(s.last_us, 3000);
}

#[test]
fn reconnect_backoff_doubles_to_cap() {
    assert_eq!(reconnect_delay_secs(0), 1);
    assert_eq!(reconnect_delay_secs(1), 2);
    assert_eq!(reconnect_delay_secs(4), 16);
    assert_eq!(reconnect_delay_secs(5), 30);
    assert_eq!(reconnect_delay_secs(40), 30);
}

#[test]
fn request_ids_carry_kind() {
    assert_eq!(request_id("place", 7), "place_ws_ord_7");
    assert_eq!(request_id("cancel", 12), "cancel_ws_ord_12");
}

#[test]
fn token_bucket_limits_and_refills() {
    assert!(TokenBucket::new(2, 0, 0).is_none());
    let mut b = TokenBucket::new(2, 50, 0).unwrap();
    assert_eq!(b.try_consume(1, 0), None);
    assert_eq!(b.try_consume(1, 0), None);
    // empty: one token takes 1/50 s = 20 ms
    assert_eq!(b.try_consume(1, 0), Some(20_000));
    assert_eq!(b.try_consume(1, 10_000), Some(10_000));
    assert_eq!(b.try_consume(1, 20_000), None);
    assert_eq!(b.available(), 0);
    // refills stop at the maximum
    b.refill(10_000_000);
    assert_eq!(b.available(), 2_000_000);
}

#[test]
fn limit_request_writes_eight_decimals() {
    let r = OrderRequest::limit("c1".to_string(), "SOL-USDT".to_string(), Side::Sell, 19_975, 5, true);
    assert_eq!(r.price, "199.75000000");
    assert_eq!(r.size, "0.05000000");
    assert_eq!(r.order_type, OrderType::Limit);
    assert_eq!(r.time_in_force, Some(TimeInForce::GTC));
    assert_eq!(r.post_only, Some(true));
}

#[test]
fn snapshot_book_prices() {
    let book = SnapshotBook {
        symbol: "SOL-USDT".to_string(),
        bids: vec![(19_990, 3)],
        asks: vec![(20_010, 4)],
        sequence: 1,
        timestamp: 0,
    };
    assert_eq!(book.best_bid(), Some((19_990, 3)));
    assert_eq!(book.mid(), Some(20_000));
    assert_eq!(book.spread(), Some(20));
    // 20 / 20000 = 10 bps
    assert_eq!(book.spread_bps(), Some(10_000));
    assert_eq!(SnapshotBook::default().mid(), None);
}

#[test]
fn order_config_defaults_and_modify_rule() {
    let c = WsOrderConfig::default();
    assert_eq!(c.rate_limit_requests_per_sec, 50);
    assert_eq!(c.request_timeout_ms, 5000);
    assert!(c.should_modify(19_990, 19_991));
    assert!(!c.should_modify(19_990, 19_990));
    assert!(c.should_modify(19_991, 19_990));
}

#[test]
fn book_update_mid() {
    let u = BookUpdate { symbol: "S".to_string(), best_bid: 2_000_000, best_ask: 2_000_100, bid_size: 1, ask_size: 1, timestamp_ms: 0 };
    assert_eq!(u.mid_price(), Some(2_000_050));
    let empty = BookUpdate { best_bid: 0, ..u };
    assert_eq!(empty.mid_price(), None);
}

#[test]
fn reconnection_gives_up_after_ten_failures() {
    assert!(should_reconnect(0));
    assert!(should_reconnect(9));
    assert!(!should_reconnect(10));
    assert!(!should_reconnect(11));
}

#[test]
fn order_channel_messages() {
    assert_eq!(
        order_message("place_ws_ord_0", "SOL-USDT", "buy", "199.75", "0.05", "bid_0").unwrap(),
        r#"{"id":"place_ws_ord_0","op":"spot.order","args":{"symbol":"SOL-USDT","side":"buy","price":"199.75","size":"0.05","clientOid":"bid_0","type":"limit","timeInForce":"GTC","postOnly":true}}"#
    );
    assert_eq!(
        cancel_message("cancel_ws_ord_1", "SOL-USDT", "X9").unwrap(),
        r#"{"id":"cancel_ws_ord_1","op":"spot.cancel","args":{"symbol":"SOL-USDT","orderId":"X9"}}"#
    );
    assert!(cancel_message("c", "SOL-USDT", "bad\"id").is_none());
}

#[test]
fn trade_ids_count_once() {
    let mut seen = SeenTrades::new();
    assert!(seen.record_new("t1"));
    assert!(seen.record_new("t2"));
    assert!(!seen.record_new("t1"));
    assert_eq!(seen.ids.len(), 2);
}

#[test]
fn latency_percentiles() {
    let mut t = LatencyTracker::new(10);
    assert_eq!(t.percentile(500), None);
    for us in [500, 100, 400, 200, 300] {
        t.record(us);
    }
    assert_eq!(t.percentile(0), Some(100));
    assert_eq!(t.percentile(500), Some(300));
    assert_eq!(t.percentile(990), Some(400));
    assert_eq!(t.percentile(1000), Some(500));
}

use ladder_mm::exchange::order_book::{BookSide, OrderBook, PriceLevel};

// prices in 0.01, sizes in 0.1
#[test]
fn test_order_book_basics() {
    let mut book = OrderBook::new("BTC-USDT".to_string(), 0);
    book.update_snapshot(
        vec![(10_000, 10), (9_900, 20), (9_800, 30)],
        vec![(10_100, 15), (10_200, 25), (10_300, 35)],
        1,
        0,
    );

    assert_eq!(book.best_bid(), Some(10_000));
    assert_eq!(book.best_ask(), Some(10_100));
    assert_eq!(book.mid_price(), Some(10_050));
    assert_eq!(book.spread(), Some(100));
    assert_eq!(book.bid_depth(3), 60);
    assert_eq!(book.ask_depth(3), 75);
}

#[test]
fn test_depth_imbalance() {
    let mut book = OrderBook::new("BTC-USDT".to_string(), 0);
    book.update_snapshot(vec![(10_000, 100)], vec![(10_100, 50)], 1, 0);

    let imbalance = book.depth_imbalance(1);
    assert!((imbalance - 3_330).abs() < 100);
    assert_eq!(imbalance, 3_333);
}

#[test]
fn book_deltas_keep_best_first() {
    let mut book = OrderBook::new("X".to_string(), 0);
    book.update_snapshot(vec![(100, 1), (98, 2)], vec![(101, 1), (103, 2)], 1, 0);
    book.apply_delta(BookSide::Bid, 99, 5, 10);
    book.apply_delta(BookSide::Ask, 102, 7, 11);
    book.apply_delta(BookSide::Ask, 104, 3, 12);
    book.apply_delta(BookSide::Bid, 100, 4, 13);
    book.apply_delta(BookSide::Bid, 98, 0, 14);
    let bids: Vec<(u64, u64)> = book.bids().iter().map(|l: &PriceLevel| (l.price, l.size)).collect();
    let asks: Vec<(u64, u64)> = book.asks().iter().map(|l: &PriceLevel| (l.price, l.size)).collect();
    assert_eq!(bids, vec![(100, 4), (99, 5)]);
    assert_eq!(asks, vec![(101, 1), (102, 7), (103, 2), (104, 3)]);
    assert_eq!(book.volume_at_price(102, BookSide::Ask), 7);
    assert_eq!(book.volume_ahead_at_price(97, BookSide::Bid), 0);
    assert_eq!(book.spread_bps(), Some(100_000));
    assert_eq!(book.age_ms(20), 6);
    assert!(book.is_stale(20, 5));
    assert!(!book.is_stale(20, 6));
    assert_eq!(book.depth_imbalance(10), (9 - 13) * 10_000 / 22);
}

#[test]
fn empty_book_has_no_prices() {
    let book = OrderBook::new("X".to_string(), 0);
    assert_eq!(book.best_bid(), None);
    assert_eq!(book.mid_price(), None);
    assert_eq!(book.spread(), None);
    assert_eq!(book.spread_bps(), None);
    assert_eq!(book.depth_imbalance(5), 0);
}

#[test]
fn weighted_mid_leans_to_thin_side() {
    let mut book = OrderBook::new("X".to_string(), 0);
    book.update_snapshot(vec![(100, 3)], vec![(104, 1)], 1, 0);
    // (100 * 1 + 104 * 3) / 4 = 103
    assert_eq!(book.weighted_mid(), Some(103));
    book.update_snapshot(vec![(100, 0)], vec![(104, 0)], 2, 0);
    assert_eq!(book.weighted_mid(), Some(102));
}

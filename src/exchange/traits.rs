//! Exchange-neutral identifiers and enumerations.
use vstd::prelude::*;

verus! {

/// An order's identifiers: the exchange's, once known, and the client's.
#[derive(Debug, Clone, PartialEq, Eq, Hash)]
pub struct OrderId {
    pub exchange_id: Option<String>,
    pub client_id: String,
}

#[derive(Debug, Clone, Copy, PartialEq, Eq)]
pub enum Side {
    Buy,
    Sell,
}

#[derive(Debug, Clone, Copy, PartialEq, Eq)]
pub enum OrderType {
    Limit,
    Market,
    PostOnly,
}

#[derive(Debug, Clone, Copy, PartialEq, Eq)]
pub enum OrderStatus {
    Pending,
    Open,
    PartiallyFilled,
    Filled,
    Cancelled,
    Rejected,
}

/// An order to place; price in ticks (none for a market order), size in steps.
#[derive(Debug, Clone)]
pub struct OrderRequest {
    pub symbol: String,
    pub side: Side,
    pub order_type: OrderType,
    pub price: Option<u64>,
    pub size: u64,
    pub client_id: String,
}

/// An order as the exchange reports it.
#[derive(Debug, Clone)]
pub struct Order {
    pub id: OrderId,
    pub symbol: String,
    pub side: Side,
    pub price: u64,
    pub size: u64,
    pub filled_size: u64,
    pub status: OrderStatus,
}

/// An execution; fee in 1e-8 of `fee_currency`.
#[derive(Debug, Clone)]
pub struct Fill {
    pub order_id: OrderId,
    pub symbol: String,
    pub side: Side,
    pub price: u64,
    pub size: u64,
    pub fee: i128,
    pub fee_currency: String,
    pub timestamp_ms: u64,
}

/// An account balance, in 1e-8 of the currency.
#[derive(Debug, Clone)]
pub struct Balance {
    pub currency: String,
    pub available: u128,
    pub locked: u128,
}

/// Top of book of a market-data feed; prices in fine units (1e-4).
#[derive(Debug, Clone)]
pub struct BookUpdate {
    pub symbol: String,
    pub best_bid: u64,
    pub best_ask: u64,
    pub bid_size: u64,
    pub ask_size: u64,
    pub timestamp_ms: u64,
}

impl BookUpdate {
    /// (best bid + best ask) / 2, rounded down, when both sides are quoted.
    pub fn mid_price(&self) -> (r: Option<u64>)
        ensures
            r is Some <==> self.best_bid > 0 && self.best_ask > 0,
            r matches Some(m) ==> m == (self.best_bid + self.best_ask) / 2,
    {
        if self.best_bid > 0 && self.best_ask > 0 {
            Some(((self.best_bid as u128 + self.best_ask as u128) / 2) as u64)
        } else {
            None
        }
    }
}

} // verus!

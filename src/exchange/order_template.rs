//! Order templates: client order ids from a counter, and order parameters.
use vstd::prelude::*;
use crate::text::{decimal, fixed2, fixed2_text, u64_text};

verus! {

/// Builds orders for one symbol, numbering their client ids.
pub struct OrderTemplate {
    pub symbol: String,
    pub counter: u64,
}

/// Order parameters: price in ticks (0.01), size in steps (0.01).
#[derive(Debug, Clone)]
pub struct OrderParams {
    pub client_oid: String,
    pub symbol: String,
    pub side: OrderSide,
    pub price: u64,
    pub size: u64,
}

#[derive(Debug, Clone, Copy, PartialEq, Eq)]
pub enum OrderSide {
    Buy,
    Sell,
}

/// The counter after one more id (it wraps around like an atomic add).
pub open spec fn next_count(n: u64) -> u64 {
    if n == u64::MAX {
        0
    } else {
        (n + 1) as u64
    }
}

impl OrderTemplate {
    pub fn new(symbol: String) -> (r: OrderTemplate)
        ensures
            r.symbol == symbol,
            r.counter == 0,
    {
        OrderTemplate { symbol, counter: 0 }
    }

    /// A fresh client order id `<prefix>_<n>`, n counting from zero.
    pub fn next_oid(&mut self, prefix: &str) -> (r: String)
        ensures
            r@ == prefix@ + seq!['_'] + decimal(old(self).counter as nat),
            final(self).counter == next_count(old(self).counter),
            final(self).symbol == old(self).symbol,
    {
        let n = self.counter;
        self.counter = if n == u64::MAX {
            0
        } else {
            n + 1
        };
        let mut s = String::from_str(prefix);
        s.append("_");
        let digits = u64_text(n);
        s.append(digits.as_str());
        proof {
            reveal_strlit("_");
            assert(s@ =~= prefix@ + seq!['_'] + decimal(n as nat));
        }
        s
    }

    /// A buy order at `price` ticks for `size` steps, with id `bid_<n>`.
    pub fn build_bid(&mut self, price: u64, size: u64) -> (r: OrderParams)
        ensures
            r.client_oid@ == "bid"@ + seq!['_'] + decimal(old(self).counter as nat),
            r.symbol == old(self).symbol,
            r.side == OrderSide::Buy,
            r.price == price,
            r.size == size,
            final(self).counter == next_count(old(self).counter),
            final(self).symbol == old(self).symbol,
    {
        let client_oid = self.next_oid("bid");
        OrderParams { client_oid, symbol: self.symbol.clone(), side: OrderSide::Buy, price, size }
    }

    /// A sell order at `price` ticks for `size` steps, with id `ask_<n>`.
    pub fn build_ask(&mut self, price: u64, size: u64) -> (r: OrderParams)
        ensures
            r.client_oid@ == "ask"@ + seq!['_'] + decimal(old(self).counter as nat),
            r.symbol == old(self).symbol,
            r.side == OrderSide::Sell,
            r.price == price,
            r.size == size,
            final(self).counter == next_count(old(self).counter),
            final(self).symbol == old(self).symbol,
    {
        let client_oid = self.next_oid("ask");
        OrderParams { client_oid, symbol: self.symbol.clone(), side: OrderSide::Sell, price, size }
    }

    pub fn reset_counter(&mut self)
        ensures
            final(self).counter == 0,
            final(self).symbol == old(self).symbol,
    {
        self.counter = 0;
    }

    pub fn current_count(&self) -> (r: u64)
        ensures
            r == self.counter,
    {
        self.counter
    }
}

impl OrderParams {
    /// The price as sent: units with two decimals.
    pub fn price_str(&self) -> (r: String)
        ensures
            r@ == fixed2(self.price as nat),
    {
        fixed2_text(self.price)
    }

    /// The size as sent: units with two decimals.
    pub fn size_str(&self) -> (r: String)
        ensures
            r@ == fixed2(self.size as nat),
    {
        fixed2_text(self.size)
    }
}

} // verus!

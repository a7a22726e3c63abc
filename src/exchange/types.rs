//! KuCoin request, reply and configuration types.
use vstd::prelude::*;

verus! {

/// REST and WebSocket base URLs.
#[derive(Debug, Clone)]
pub struct KucoinEndpoints {
    pub rest_url: String,
    pub ws_public_url: String,
    pub ws_private_url: String,
}

impl KucoinEndpoints {
    /// The public endpoints.
    pub fn standard() -> (r: KucoinEndpoints)
        ensures
            r.rest_url@ == "https://api.kucoin.com"@,
            r.ws_public_url@ == "wss://ws-api-spot.kucoin.com"@,
            r.ws_private_url@ == "wss://wsapi.kucoin.com"@,
    {
        KucoinEndpoints {
            rest_url: String::from_str("https://api.kucoin.com"),
            ws_public_url: String::from_str("wss://ws-api-spot.kucoin.com"),
            ws_private_url: String::from_str("wss://wsapi.kucoin.com"),
        }
    }

    /// The colocation endpoints.
    pub fn colocation() -> (r: KucoinEndpoints)
        ensures
            r.rest_url@ == "https://jvqklyxz.kucoin.com"@,
            r.ws_public_url@ == "wss://wzxqoklm.kucoin.com"@,
            r.ws_private_url@ == "wss://fgtyhceu.kucoin.com/v1/priv"@,
    {
        KucoinEndpoints {
            rest_url: String::from_str("https://jvqklyxz.kucoin.com"),
            ws_public_url: String::from_str("wss://wzxqoklm.kucoin.com"),
            ws_private_url: String::from_str("wss://fgtyhceu.kucoin.com/v1/priv"),
        }
    }
}

#[derive(Debug, Clone, Copy, PartialEq, Eq)]
pub enum Side {
    Buy,
    Sell,
}

impl Side {
    /// The wire name of the side.
    pub fn as_str(&self) -> (r: &'static str)
        ensures
            *self == Side::Buy ==> r@ == "buy"@,
            *self == Side::Sell ==> r@ == "sell"@,
    {
        match self {
            Side::Buy => "buy",
            Side::Sell => "sell",
        }
    }

    pub fn opposite(&self) -> (r: Side)
        ensures
            *self == Side::Buy ==> r == Side::Sell,
            *self == Side::Sell ==> r == Side::Buy,
    {
        match self {
            Side::Buy => Side::Sell,
            Side::Sell => Side::Buy,
        }
    }
}

#[derive(Debug, Clone, Copy, PartialEq, Eq)]
pub enum OrderType {
    Limit,
    Market,
}

#[derive(Debug, Clone, Copy, PartialEq, Eq)]
pub enum TimeInForce {
    GTC,
    GTT,
    IOC,
    FOK,
}

impl Default for TimeInForce {
    fn default() -> (r: TimeInForce)
        ensures
            r == TimeInForce::GTC,
    {
        TimeInForce::GTC
    }
}

#[derive(Debug, Clone)]
pub struct OrderResponse {
    pub order_id: String,
}

#[derive(Debug, Clone)]
pub struct ApiResponse<T> {
    pub code: String,
    pub data: Option<T>,
    pub msg: Option<String>,
}

#[derive(Debug, Clone)]
pub struct CancelRequest {
    pub order_id: String,
}

#[derive(Debug, Clone)]
pub struct CancelResponse {
    pub cancelled_order_ids: Vec<String>,
}

#[derive(Debug, Clone)]
pub struct Balance {
    pub currency: String,
    pub available: String,
    pub holds: String,
}

#[derive(Debug, Clone)]
pub struct WsToken {
    pub token: String,
    pub instance_servers: Vec<WsInstance>,
}

#[derive(Debug, Clone)]
pub struct WsInstance {
    pub endpoint: String,
    pub encrypt: bool,
    pub protocol: String,
    pub ping_interval: u64,
    pub ping_timeout: u64,
}

/// An order to place. Prices and sizes travel as decimal strings.
#[derive(Debug, Clone)]
pub struct OrderRequest {
    pub client_oid: String,
    pub side: Side,
    pub order_type: OrderType,
    pub symbol: String,
    pub price: String,
    pub size: String,
    pub time_in_force: Option<TimeInForce>,
    pub post_only: Option<bool>,
    pub hidden: Option<bool>,
    pub iceberg: Option<bool>,
}

/// `n / 100` with eight decimals.
pub open spec fn fixed8(n: nat) -> Seq<char> {
    crate::text::fixed2(n) + seq!['0', '0', '0', '0', '0', '0']
}

impl OrderRequest {
    /// A good-till-cancelled limit order at `price` ticks for `size` steps,
    /// both written with eight decimals.
    pub fn limit(client_oid: String, symbol: String, side: Side, price: u64, size: u64, post_only: bool) -> (r: OrderRequest)
        ensures
            r.client_oid == client_oid,
            r.symbol == symbol,
            r.side == side,
            r.order_type == OrderType::Limit,
            r.price@ == fixed8(price as nat),
            r.size@ == fixed8(size as nat),
            r.time_in_force == Some(TimeInForce::GTC),
            r.post_only == Some(post_only),
            r.hidden is None,
            r.iceberg is None,
    {
        let mut p = crate::text::fixed2_text(price);
        p.append("000000");
        let mut q = crate::text::fixed2_text(size);
        q.append("000000");
        proof {
            reveal_strlit("000000");
        }
        OrderRequest {
            client_oid,
            side,
            order_type: OrderType::Limit,
            symbol,
            price: p,
            size: q,
            time_in_force: Some(TimeInForce::GTC),
            post_only: Some(post_only),
            hidden: None,
            iceberg: None,
        }
    }
}

/// A fill as reported by the exchange; price in ticks, size in steps, fee
/// in 1e-8 of `fee_currency`.
#[derive(Debug, Clone)]
pub struct Fill {
    pub order_id: String,
    pub client_oid: String,
    pub symbol: String,
    pub side: Side,
    pub price: u64,
    pub size: u64,
    pub fee: i128,
    pub fee_currency: String,
    pub timestamp: u64,
}

/// A book snapshot: (price, size) levels best first.
#[derive(Debug, Clone, Default)]
pub struct OrderBook {
    pub symbol: String,
    pub bids: Vec<(u64, u64)>,
    pub asks: Vec<(u64, u64)>,
    pub sequence: u64,
    pub timestamp: u64,
}

impl OrderBook {
    pub fn best_bid(&self) -> (r: Option<(u64, u64)>)
        ensures
            r == (if self.bids@.len() > 0 { Some(self.bids@[0]) } else { None::<(u64, u64)> }),
    {
        if self.bids.len() > 0 {
            Some(self.bids[0])
        } else {
            None
        }
    }

    pub fn best_ask(&self) -> (r: Option<(u64, u64)>)
        ensures
            r == (if self.asks@.len() > 0 { Some(self.asks@[0]) } else { None::<(u64, u64)> }),
    {
        if self.asks.len() > 0 {
            Some(self.asks[0])
        } else {
            None
        }
    }

    /// (best bid + best ask) / 2, rounded down.
    pub fn mid(&self) -> (r: Option<u64>)
        ensures
            r is Some <==> self.bids@.len() > 0 && self.asks@.len() > 0,
            r matches Some(m) ==> m == (self.bids@[0].0 + self.asks@[0].0) / 2,
    {
        match (self.best_bid(), self.best_ask()) {
            (Some((b, _)), Some((a, _))) => Some(((b as u128 + a as u128) / 2) as u64),
            _ => None,
        }
    }

    /// Best ask less best bid.
    pub fn spread(&self) -> (r: Option<i128>)
        ensures
            r is Some <==> self.bids@.len() > 0 && self.asks@.len() > 0,
            r matches Some(s) ==> s == self.asks@[0].0 - self.bids@[0].0,
    {
        match (self.best_bid(), self.best_ask()) {
            (Some((b, _)), Some((a, _))) => Some(a as i128 - b as i128),
            _ => None,
        }
    }

    /// Spread over mid in milli-basis-points, truncated toward zero.
    pub fn spread_bps(&self) -> (r: Option<i128>)
        ensures
            r is Some <==> self.bids@.len() > 0 && self.asks@.len() > 0 && (self.bids@[0].0 + self.asks@[0].0) / 2 > 0,
            r matches Some(v) ==> {
                let b = self.bids@[0].0 as int;
                let a = self.asks@[0].0 as int;
                let m = (a + b) / 2;
                v == (if a >= b { (a - b) * 10_000_000 / m } else { -((b - a) * 10_000_000 / m) })
            },
    {
        match (self.spread(), self.mid()) {
            (Some(s), Some(m)) => {
                if m == 0 {
                    return None;
                }
                let mag: u128 = if s >= 0 {
                    s as u128
                } else {
                    (-s) as u128
                };
                let v = mag * 10_000_000 / (m as u128);
                if s >= 0 {
                    Some(v as i128)
                } else {
                    Some(-(v as i128))
                }
            },
            _ => None,
        }
    }
}

} // verus!

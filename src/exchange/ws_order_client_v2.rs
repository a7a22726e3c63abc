//! Order-entry shapes of the reconnecting order channel, its latency
//! statistics, its reconnection policy and its request ids.
use vstd::prelude::*;
use crate::text::{decimal, u64_text};

verus! {

/// Consecutive failed reconnections after which the channel gives up.
pub const MAX_RECONNECT_ATTEMPTS: u32 = 10;

/// Whether to try reconnecting after `failures` consecutive failures.
pub fn should_reconnect(failures: u32) -> (r: bool)
    ensures
        r == (failures < MAX_RECONNECT_ATTEMPTS),
{
    failures < MAX_RECONNECT_ATTEMPTS
}

/// Reconnection delay cap, in seconds.
pub const MAX_RECONNECT_DELAY_SECS: u64 = 30;

#[derive(Debug, Clone)]
pub struct WsOrderRequest {
    pub symbol: String,
    pub side: String,
    pub price: String,
    pub size: String,
    pub client_oid: String,
    pub order_type: String,
    pub time_in_force: Option<String>,
    pub post_only: Option<bool>,
}

#[derive(Debug, Clone, Default)]
pub struct WsOrderResponse {
    pub order_id: Option<String>,
    pub client_oid: Option<String>,
    pub success: bool,
    pub code: Option<String>,
    pub msg: Option<String>,
}

#[derive(Debug, Clone)]
pub struct WsCancelRequest {
    pub symbol: String,
    pub order_id: Option<String>,
    pub client_oid: Option<String>,
}

/// Latency statistics in microseconds.
#[derive(Debug)]
pub struct LatencyStats {
    pub count: u64,
    pub total_us: u64,
    pub min_us: u64,
    pub max_us: u64,
    pub last_us: u64,
}

impl LatencyStats {
    pub fn new() -> (r: LatencyStats)
        ensures
            r.count == 0 && r.total_us == 0 && r.min_us == u64::MAX && r.max_us == 0 && r.last_us == 0,
    {
        LatencyStats { count: 0, total_us: 0, min_us: u64::MAX, max_us: 0, last_us: 0 }
    }

    /// Record one latency; the count and the total saturate.
    pub fn record(&mut self, us: u64)
        ensures
            final(self).count == (if old(self).count < u64::MAX { old(self).count + 1 } else { u64::MAX as int }),
            final(self).total_us == (if old(self).total_us + us <= u64::MAX {
                old(self).total_us + us
            } else {
                u64::MAX as int
            }),
            final(self).min_us == (if us < old(self).min_us { us } else { old(self).min_us }),
            final(self).max_us == (if us > old(self).max_us { us } else { old(self).max_us }),
            final(self).last_us == us,
    {
        self.count = self.count.saturating_add(1);
        self.total_us = self.total_us.saturating_add(us);
        if us < self.min_us {
            self.min_us = us;
        }
        if us > self.max_us {
            self.max_us = us;
        }
        self.last_us = us;
    }

    /// The mean latency, rounded down; zero before any sample.
    pub fn avg_us(&self) -> (r: u64)
        ensures
            self.count == 0 ==> r == 0,
            self.count > 0 ==> r == self.total_us / self.count,
    {
        if self.count > 0 {
            self.total_us / self.count
        } else {
            0
        }
    }
}

/// Connection counters of the order channel; instants are milliseconds of a
/// monotonic clock.
#[derive(Debug, Default)]
pub struct ReconnectStats {
    pub total_connects: u32,
    pub total_disconnects: u32,
    pub consecutive_failures: u32,
    pub last_connect: Option<u64>,
    pub last_disconnect: Option<u64>,
}

/// The wait before reconnection attempt number `failures + 1`: 2^failures
/// seconds, the exponent capped at 5, the delay capped at 30 s.
pub open spec fn reconnect_delay_spec(failures: u32) -> int {
    let e: nat = if failures < 5 {
        failures as nat
    } else {
        5
    };
    let d = vstd::arithmetic::power2::pow2(e) as int;
    if d < MAX_RECONNECT_DELAY_SECS {
        d
    } else {
        MAX_RECONNECT_DELAY_SECS as int
    }
}

pub fn reconnect_delay_secs(failures: u32) -> (r: u64)
    ensures
        r == reconnect_delay_spec(failures),
{
    let e: u64 = if failures < 5 {
        failures as u64
    } else {
        5
    };
    let mut d: u64 = 1;
    let mut i: u64 = 0;
    proof {
        vstd::arithmetic::power2::lemma2_to64();
    }
    while i < e
        invariant
            0 <= i <= e <= 5,
            d == vstd::arithmetic::power2::pow2(i as nat),
        decreases e - i,
    {
        proof {
            vstd::arithmetic::power2::lemma_pow2_unfold((i + 1) as nat);
            vstd::arithmetic::power2::lemma_pow2_strictly_increases(i as nat, 5);
            vstd::arithmetic::power2::lemma2_to64();
        }
        d = d * 2;
        i = i + 1;
    }
    proof {
        vstd::arithmetic::power2::lemma2_to64();
    }
    if d < MAX_RECONNECT_DELAY_SECS {
        d
    } else {
        MAX_RECONNECT_DELAY_SECS
    }
}

/// The correlation id of the `n`-th request of kind `kind` (`place`, `cancel`):
/// `<kind>_ws_ord_<n>`.
pub fn request_id(kind: &str, n: u64) -> (r: String)
    ensures
        r@ == kind@ + "_ws_ord_"@ + decimal(n as nat),
{
    let mut s = String::from_str(kind);
    s.append("_ws_ord_");
    let digits = u64_text(n);
    s.append(digits.as_str());
    s
}

/// A character that may stand inside a JSON string without escaping: not a
/// quote (34), not a backslash (92), not a control character (below 32).
pub open spec fn json_plain(c: char) -> bool {
    c as u32 != 34 && c as u32 != 92 && c as u32 >= 32
}

pub open spec fn all_json_plain(s: Seq<char>) -> bool {
    forall|i: int| 0 <= i < s.len() ==> json_plain(#[trigger] s[i])
}

/// Whether `s` can be written between JSON quotes as it is.
pub fn is_json_plain(s: &str) -> (r: bool)
    ensures
        r == all_json_plain(s@),
{
    let n = s.unicode_len();
    let mut i: usize = 0;
    while i < n
        invariant
            0 <= i <= n,
            n == s@.len(),
            forall|k: int| 0 <= k < i ==> json_plain(#[trigger] s@[k]),
        decreases n - i,
    {
        let c = s.get_char(i);
        if c as u32 == 34 || c as u32 == 92 || (c as u32) < 32 {
            return false;
        }
        i = i + 1;
    }
    true
}

/// `"<s>"`.
pub open spec fn quoted(s: Seq<char>) -> Seq<char> {
    "\""@ + s + "\""@
}

/// The order-placement message: a post-only GTC limit order.
pub open spec fn order_message_spec(
    id: Seq<char>,
    symbol: Seq<char>,
    side: Seq<char>,
    price: Seq<char>,
    size: Seq<char>,
    client_oid: Seq<char>,
) -> Seq<char> {
    "{\"id\":"@ + quoted(id) + ",\"op\":\"spot.order\",\"args\":{\"symbol\":"@ + quoted(symbol)
        + ",\"side\":"@ + quoted(side) + ",\"price\":"@ + quoted(price) + ",\"size\":"@ + quoted(size)
        + ",\"clientOid\":"@ + quoted(client_oid)
        + ",\"type\":\"limit\",\"timeInForce\":\"GTC\",\"postOnly\":true}}"@
}

/// The cancel message for an exchange order id.
pub open spec fn cancel_message_spec(id: Seq<char>, symbol: Seq<char>, order_id: Seq<char>) -> Seq<char> {
    "{\"id\":"@ + quoted(id) + ",\"op\":\"spot.cancel\",\"args\":{\"symbol\":"@ + quoted(symbol)
        + ",\"orderId\":"@ + quoted(order_id) + "}}"@
}

fn push_quoted(out: &mut String, s: &str)
    ensures
        final(out)@ == old(out)@ + quoted(s@),
{
    out.append("\"");
    out.append(s);
    out.append("\"");
    proof {
        reveal_strlit("\"");
        assert(final(out)@ =~= old(out)@ + quoted(s@));
    }
}

/// The text of a placement request `id`; `None` when a field holds a
/// character that JSON would need escaped.
pub fn order_message(id: &str, symbol: &str, side: &str, price: &str, size: &str, client_oid: &str) -> (r: Option<String>)
    ensures
        r is Some <==> (all_json_plain(id@) && all_json_plain(symbol@) && all_json_plain(side@)
            && all_json_plain(price@) && all_json_plain(size@) && all_json_plain(client_oid@)),
        r matches Some(m) ==> m@ == order_message_spec(id@, symbol@, side@, price@, size@, client_oid@),
{
    if !(is_json_plain(id) && is_json_plain(symbol) && is_json_plain(side) && is_json_plain(price)
        && is_json_plain(size) && is_json_plain(client_oid)) {
        return None;
    }
    let mut m = String::from_str("{\"id\":");
    push_quoted(&mut m, id);
    m.append(",\"op\":\"spot.order\",\"args\":{\"symbol\":");
    push_quoted(&mut m, symbol);
    m.append(",\"side\":");
    push_quoted(&mut m, side);
    m.append(",\"price\":");
    push_quoted(&mut m, price);
    m.append(",\"size\":");
    push_quoted(&mut m, size);
    m.append(",\"clientOid\":");
    push_quoted(&mut m, client_oid);
    m.append(",\"type\":\"limit\",\"timeInForce\":\"GTC\",\"postOnly\":true}}");
    proof {
        assert(m@ =~= order_message_spec(id@, symbol@, side@, price@, size@, client_oid@));
    }
    Some(m)
}

/// The text of a cancel request `id` for the exchange order `order_id`;
/// `None` when a field holds a character that JSON would need escaped.
pub fn cancel_message(id: &str, symbol: &str, order_id: &str) -> (r: Option<String>)
    ensures
        r is Some <==> (all_json_plain(id@) && all_json_plain(symbol@) && all_json_plain(order_id@)),
        r matches Some(m) ==> m@ == cancel_message_spec(id@, symbol@, order_id@),
{
    if !(is_json_plain(id) && is_json_plain(symbol) && is_json_plain(order_id)) {
        return None;
    }
    let mut m = String::from_str("{\"id\":");
    push_quoted(&mut m, id);
    m.append(",\"op\":\"spot.cancel\",\"args\":{\"symbol\":");
    push_quoted(&mut m, symbol);
    m.append(",\"orderId\":");
    push_quoted(&mut m, order_id);
    m.append("}}");
    proof {
        assert(m@ =~= cancel_message_spec(id@, symbol@, order_id@));
    }
    Some(m)
}

} // verus!

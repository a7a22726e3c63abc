//! Fine-grained order lifecycle states.
use vstd::prelude::*;

verus! {

#[derive(Debug, Clone, Copy, PartialEq, Eq, Hash)]
pub enum OrderState {
    PendingNew,
    Open,
    PartiallyFilled,
    PendingModify,
    PendingCancel,
    Filled,
    Cancelled,
    Rejected,
    Expired,
}

impl OrderState {
    /// Filled, cancelled, rejected or expired: nothing more will happen.
    pub fn is_terminal(&self) -> (r: bool)
        ensures
            r == (*self is Filled || *self is Cancelled || *self is Rejected || *self is Expired),
    {
        match self {
            OrderState::Filled | OrderState::Cancelled | OrderState::Rejected | OrderState::Expired => true,
            _ => false,
        }
    }

    /// A request about the order is awaiting its acknowledgement.
    pub fn is_pending(&self) -> (r: bool)
        ensures
            r == (*self is PendingNew || *self is PendingModify || *self is PendingCancel),
    {
        match self {
            OrderState::PendingNew | OrderState::PendingModify | OrderState::PendingCancel => true,
            _ => false,
        }
    }

    /// The order rests on the book.
    pub fn is_active(&self) -> (r: bool)
        ensures
            r == (*self is Open || *self is PartiallyFilled),
    {
        match self {
            OrderState::Open | OrderState::PartiallyFilled => true,
            _ => false,
        }
    }
}

#[derive(Debug, Clone, Copy, PartialEq, Eq)]
pub enum StateTransition {
    Acknowledge,
    PartialFill,
    Fill,
    ModifyRequest,
    ModifyAck,
    CancelRequest,
    CancelAck,
    Reject,
    Expire,
}

/// Counts of orders by state.
#[derive(Debug, Default, Clone)]
pub struct OrderStats {
    pub total: usize,
    pub pending_new: usize,
    pub open: usize,
    pub partially_filled: usize,
    pub pending_modify: usize,
    pub pending_cancel: usize,
    pub filled: usize,
    pub cancelled: usize,
    pub rejected: usize,
    pub expired: usize,
}

/// The state an order moves to under a transition, if the transition is
/// allowed from its current state.
pub open spec fn next_state(s: OrderState, t: StateTransition) -> Option<OrderState> {
    match (s, t) {
        (OrderState::PendingNew, StateTransition::Acknowledge) => Some(OrderState::Open),
        (OrderState::PendingNew, StateTransition::Reject) => Some(OrderState::Rejected),
        (OrderState::Open, StateTransition::PartialFill) => Some(OrderState::PartiallyFilled),
        (OrderState::Open, StateTransition::Fill) => Some(OrderState::Filled),
        (OrderState::PartiallyFilled, StateTransition::Fill) => Some(OrderState::Filled),
        (OrderState::Open, StateTransition::Expire) => Some(OrderState::Expired),
        (OrderState::Open, StateTransition::ModifyRequest) => Some(OrderState::PendingModify),
        (OrderState::PartiallyFilled, StateTransition::ModifyRequest) => Some(OrderState::PendingModify),
        (OrderState::PendingModify, StateTransition::ModifyAck) => Some(OrderState::Open),
        (OrderState::Open, StateTransition::CancelRequest) => Some(OrderState::PendingCancel),
        (OrderState::PartiallyFilled, StateTransition::CancelRequest) => Some(OrderState::PendingCancel),
        (OrderState::PendingCancel, StateTransition::CancelAck) => Some(OrderState::Cancelled),
        _ => None,
    }
}

impl OrderState {
    /// The state after `t`, or `None` when `t` is not allowed here.
    pub fn apply(&self, t: StateTransition) -> (r: Option<OrderState>)
        ensures
            r == next_state(*self, t),
    {
        match (self, t) {
            (OrderState::PendingNew, StateTransition::Acknowledge) => Some(OrderState::Open),
            (OrderState::PendingNew, StateTransition::Reject) => Some(OrderState::Rejected),
            (OrderState::Open, StateTransition::PartialFill) => Some(OrderState::PartiallyFilled),
            (OrderState::Open, StateTransition::Fill) => Some(OrderState::Filled),
            (OrderState::PartiallyFilled, StateTransition::Fill) => Some(OrderState::Filled),
            (OrderState::Open, StateTransition::Expire) => Some(OrderState::Expired),
            (OrderState::Open, StateTransition::ModifyRequest) => Some(OrderState::PendingModify),
            (OrderState::PartiallyFilled, StateTransition::ModifyRequest) => Some(OrderState::PendingModify),
            (OrderState::PendingModify, StateTransition::ModifyAck) => Some(OrderState::Open),
            (OrderState::Open, StateTransition::CancelRequest) => Some(OrderState::PendingCancel),
            (OrderState::PartiallyFilled, StateTransition::CancelRequest) => Some(OrderState::PendingCancel),
            (OrderState::PendingCancel, StateTransition::CancelAck) => Some(OrderState::Cancelled),
            _ => None,
        }
    }
}

/// No transition leaves a terminal state.
pub proof fn lemma_terminal_is_final(s: OrderState, t: StateTransition)
    requires
        s is Filled || s is Cancelled || s is Rejected || s is Expired,
    ensures
        next_state(s, t) is None,
{
}

/// One tracked order; sizes in size steps, times in milliseconds.
#[derive(Debug)]
pub struct OrderInfo {
    pub order_id: Option<String>,
    pub client_oid: String,
    pub symbol: String,
    pub side: String,
    pub price: u64,
    pub original_size: u64,
    pub filled_size: u64,
    pub state: OrderState,
    pub created_at_ms: u64,
    pub last_update_ms: u64,
    pub state_history: Vec<(OrderState, u64)>,
}

impl OrderInfo {
    /// A new order awaiting its acknowledgement.
    pub fn new(client_oid: String, symbol: String, side: String, price: u64, size: u64, now_ms: u64) -> (r: OrderInfo)
        ensures
            r.order_id is None,
            r.client_oid == client_oid,
            r.symbol == symbol,
            r.side == side,
            r.price == price,
            r.original_size == size,
            r.filled_size == 0,
            r.state == OrderState::PendingNew,
            r.created_at_ms == now_ms,
            r.last_update_ms == now_ms,
            r.state_history@ == seq![(OrderState::PendingNew, now_ms)],
    {
        let mut h: Vec<(OrderState, u64)> = Vec::new();
        h.push((OrderState::PendingNew, now_ms));
        OrderInfo {
            order_id: None,
            client_oid,
            symbol,
            side,
            price,
            original_size: size,
            filled_size: 0,
            state: OrderState::PendingNew,
            created_at_ms: now_ms,
            last_update_ms: now_ms,
            state_history: h,
        }
    }

    /// Size still to fill (zero once overfilled).
    pub fn remaining_size(&self) -> (r: u64)
        ensures
            r == (if self.original_size >= self.filled_size { self.original_size - self.filled_size } else { 0 }),
    {
        if self.original_size >= self.filled_size {
            self.original_size - self.filled_size
        } else {
            0
        }
    }

    /// Filled share of the order in basis points of its size (0 for an empty order).
    pub fn fill_pct(&self) -> (r: u128)
        ensures
            self.original_size == 0 ==> r == 0,
            self.original_size > 0 ==> r == self.filled_size as int * 10_000 / self.original_size as int,
    {
        if self.original_size > 0 {
            (self.filled_size as u128) * 10_000 / (self.original_size as u128)
        } else {
            0
        }
    }

    /// Milliseconds since creation (zero if `now_ms` is earlier).
    pub fn age_ms(&self, now_ms: u64) -> (r: u64)
        ensures
            r == (if now_ms >= self.created_at_ms { now_ms - self.created_at_ms } else { 0 }),
    {
        if now_ms >= self.created_at_ms {
            now_ms - self.created_at_ms
        } else {
            0
        }
    }
}

/// The index of the first order with client id `key`.
pub open spec fn order_index(s: Seq<OrderInfo>, key: Seq<char>) -> Option<int>
    decreases s.len(),
{
    if s.len() == 0 {
        None
    } else if s[0].client_oid@ == key {
        Some(0)
    } else {
        match order_index(s.skip(1), key) {
            Some(i) => Some(i + 1),
            None => None,
        }
    }
}

/// The index of the first entry keyed `key` in a list of (key, value) pairs.
pub open spec fn pair_index<V>(s: Seq<(String, V)>, key: Seq<char>) -> Option<int>
    decreases s.len(),
{
    if s.len() == 0 {
        None
    } else if s[0].0@ == key {
        Some(0)
    } else {
        match pair_index(s.skip(1), key) {
            Some(i) => Some(i + 1),
            None => None,
        }
    }
}

proof fn lemma_order_index(s: Seq<OrderInfo>, key: Seq<char>, j: int)
    requires
        0 <= j <= s.len(),
        forall|k: int| 0 <= k < j ==> (#[trigger] s[k]).client_oid@ != key,
        j < s.len() ==> s[j].client_oid@ == key,
    ensures
        order_index(s, key) == (if j < s.len() { Some(j) } else { None::<int> }),
    decreases j,
{
    if j > 0 {
        assert forall|k: int| 0 <= k < j - 1 implies (#[trigger] s.skip(1)[k]).client_oid@ != key by {
            assert(s.skip(1)[k] == s[k + 1]);
        }
        if j < s.len() {
            assert(s.skip(1)[j - 1] == s[j]);
        }
        lemma_order_index(s.skip(1), key, j - 1);
    }
}

pub proof fn lemma_pair_index<V>(s: Seq<(String, V)>, key: Seq<char>, j: int)
    requires
        0 <= j <= s.len(),
        forall|k: int| 0 <= k < j ==> (#[trigger] s[k]).0@ != key,
        j < s.len() ==> s[j].0@ == key,
    ensures
        pair_index(s, key) == (if j < s.len() { Some(j) } else { None::<int> }),
    decreases j,
{
    if j > 0 {
        assert forall|k: int| 0 <= k < j - 1 implies (#[trigger] s.skip(1)[k]).0@ != key by {
            assert(s.skip(1)[k] == s[k + 1]);
        }
        if j < s.len() {
            assert(s.skip(1)[j - 1] == s[j]);
        }
        lemma_pair_index(s.skip(1), key, j - 1);
    }
}

fn find_order(orders: &Vec<OrderInfo>, key: &str) -> (r: Option<usize>)
    ensures
        match r {
            Some(i) => order_index(orders@, key@) == Some(i as int) && i < orders@.len(),
            None => order_index(orders@, key@) is None,
        },
{
    let key_s = String::from_str(key);
    let mut j: usize = 0;
    while j < orders.len()
        invariant
            0 <= j <= orders@.len(),
            key_s@ == key@,
            forall|k: int| 0 <= k < j ==> (#[trigger] orders@[k]).client_oid@ != key@,
        decreases orders@.len() - j,
    {
        if orders[j].client_oid == key_s {
            proof {
                lemma_order_index(orders@, key@, j as int);
            }
            return Some(j);
        }
        j = j + 1;
    }
    proof {
        lemma_order_index(orders@, key@, j as int);
    }
    None
}

pub(crate) fn find_pair<V>(pairs: &Vec<(String, V)>, key: &str) -> (r: Option<usize>)
    ensures
        match r {
            Some(i) => pair_index(pairs@, key@) == Some(i as int) && i < pairs@.len(),
            None => pair_index(pairs@, key@) is None,
        },
{
    let key_s = String::from_str(key);
    let mut j: usize = 0;
    while j < pairs.len()
        invariant
            0 <= j <= pairs@.len(),
            key_s@ == key@,
            forall|k: int| 0 <= k < j ==> (#[trigger] pairs@[k]).0@ != key@,
        decreases pairs@.len() - j,
    {
        if pairs[j].0 == key_s {
            proof {
                lemma_pair_index(pairs@, key@, j as int);
            }
            return Some(j);
        }
        j = j + 1;
    }
    proof {
        lemma_pair_index(pairs@, key@, j as int);
    }
    None
}

/// Orders by client id, the exchange-id index, and recent request keys.
pub struct OrderStateMachine {
    pub orders: Vec<OrderInfo>,
    pub order_id_map: Vec<(String, String)>,
    pub pending_dedup: Vec<(String, u64)>,
}

impl OrderStateMachine {
    pub fn new() -> (r: OrderStateMachine)
        ensures
            r.orders@.len() == 0,
            r.order_id_map@.len() == 0,
            r.pending_dedup@.len() == 0,
    {
        OrderStateMachine { orders: Vec::new(), order_id_map: Vec::new(), pending_dedup: Vec::new() }
    }

    /// Track a new order under `client_oid`, replacing one with the same id.
    pub fn register_order(&mut self, client_oid: String, symbol: String, side: String, price: u64, size: u64, now_ms: u64)
        ensures
            ({
                let k = order_index(old(self).orders@, client_oid@);
                let n = match k {
                    Some(i) => i,
                    None => old(self).orders@.len() as int,
                };
                &&& final(self).orders@.len() == (if k is Some { old(self).orders@.len() } else { old(self).orders@.len() + 1 })
                &&& final(self).orders@[n].client_oid == client_oid
                &&& final(self).orders@[n].state == OrderState::PendingNew
                &&& final(self).orders@[n].original_size == size
                &&& final(self).orders@[n].filled_size == 0
                &&& final(self).orders@[n].price == price
                &&& forall|j: int| 0 <= j < old(self).orders@.len() && j != n ==> #[trigger] final(self).orders@[j] == old(self).orders@[j]
            }),
            final(self).order_id_map == old(self).order_id_map,
            final(self).pending_dedup == old(self).pending_dedup,
    {
        let at = find_order(&self.orders, client_oid.as_str());
        let order = OrderInfo::new(client_oid, symbol, side, price, size, now_ms);
        match at {
            Some(i) => self.orders.set(i, order),
            None => self.orders.push(order),
        }
    }

    /// Whether a request keyed `key` was already made within `window_ms`;
    /// if not, the request is remembered at `now_ms`.
    pub fn is_duplicate(&mut self, key: &str, window_ms: u64, now_ms: u64) -> (r: bool)
        ensures
            r == (match pair_index(old(self).pending_dedup@, key@) {
                Some(i) => (if now_ms >= old(self).pending_dedup@[i].1 { now_ms - old(self).pending_dedup@[i].1 } else { 0 }) < window_ms,
                None => false,
            }),
            r ==> final(self).pending_dedup == old(self).pending_dedup,
            !r ==> match pair_index(old(self).pending_dedup@, key@) {
                Some(i) => final(self).pending_dedup@.len() == old(self).pending_dedup@.len()
                    && final(self).pending_dedup@[i].0@ == key@ && final(self).pending_dedup@[i].1 == now_ms,
                None => final(self).pending_dedup@.len() == old(self).pending_dedup@.len() + 1
                    && final(self).pending_dedup@.last().0@ == key@ && final(self).pending_dedup@.last().1 == now_ms,
            },
            final(self).orders == old(self).orders,
            final(self).order_id_map == old(self).order_id_map,
    {
        match find_pair(&self.pending_dedup, key) {
            Some(i) => {
                let last = self.pending_dedup[i].1;
                let age = if now_ms >= last {
                    now_ms - last
                } else {
                    0
                };
                if age < window_ms {
                    return true;
                }
                self.pending_dedup.set(i, (String::from_str(key), now_ms));
                false
            },
            None => {
                self.pending_dedup.push((String::from_str(key), now_ms));
                false
            },
        }
    }

    /// Move the order `client_oid` by `transition` at `now_ms`, recording the
    /// new state in its history. Fails when the order is unknown or the
    /// transition is not allowed from its state (the order is then unchanged).
    pub fn transition(&mut self, client_oid: &str, transition: StateTransition, now_ms: u64) -> (r: Result<OrderState, &'static str>)
        ensures
            match order_index(old(self).orders@, client_oid@) {
                None => (r matches Err(e) && e@ == "Order not found"@) && final(self).orders == old(self).orders,
                Some(i) => match next_state(old(self).orders@[i].state, transition) {
                    None => (r matches Err(e) && e@ == "Invalid state transition"@) && final(self).orders == old(self).orders,
                    Some(ns) => r == Ok::<OrderState, &'static str>(ns)
                        && final(self).orders@.len() == old(self).orders@.len()
                        && final(self).orders@[i].state == ns
                        && final(self).orders@[i].last_update_ms == now_ms
                        && final(self).orders@[i].state_history@ == old(self).orders@[i].state_history@.push((ns, now_ms))
                        && final(self).orders@[i].client_oid == old(self).orders@[i].client_oid
                        && final(self).orders@[i].filled_size == old(self).orders@[i].filled_size
                        && final(self).orders@[i].original_size == old(self).orders@[i].original_size
                        && final(self).orders@[i].order_id == old(self).orders@[i].order_id
                        && forall|j: int| 0 <= j < old(self).orders@.len() && j != i ==> #[trigger] final(self).orders@[j] == old(self).orders@[j],
                },
            },
            final(self).order_id_map == old(self).order_id_map,
            final(self).pending_dedup == old(self).pending_dedup,
    {
        let i = match find_order(&self.orders, client_oid) {
            Some(i) => i,
            None => {
                return Err("Order not found");
            },
        };
        let ns = match self.orders[i].state.apply(transition) {
            Some(ns) => ns,
            None => {
                return Err("Invalid state transition");
            },
        };
        self.orders[i].state = ns;
        self.orders[i].last_update_ms = now_ms;
        self.orders[i].state_history.push((ns, now_ms));
        Ok(ns)
    }

    /// The order `client_oid`, if tracked.
    pub fn get_order(&self, client_oid: &str) -> (r: Option<&OrderInfo>)
        ensures
            match order_index(self.orders@, client_oid@) {
                Some(i) => r == Some(&self.orders@[i]),
                None => r is None,
            },
    {
        match find_order(&self.orders, client_oid) {
            Some(i) => Some(&self.orders[i]),
            None => None,
        }
    }

    /// Index the order `client_oid` under the exchange id `order_id`.
    pub fn set_order_id(&mut self, client_oid: &str, order_id: String)
        ensures
            match order_index(old(self).orders@, client_oid@) {
                None => final(self).orders == old(self).orders && final(self).order_id_map == old(self).order_id_map,
                Some(i) => final(self).orders@.len() == old(self).orders@.len()
                    && final(self).orders@[i].order_id == Some(order_id)
                    && final(self).orders@[i].state == old(self).orders@[i].state
                    && final(self).orders@[i].client_oid == old(self).orders@[i].client_oid
                    && forall|j: int| 0 <= j < old(self).orders@.len() && j != i ==> #[trigger] final(self).orders@[j] == old(self).orders@[j],
            },
            order_index(old(self).orders@, client_oid@) is Some ==> exists|j: int|
                0 <= j < final(self).order_id_map@.len() && (#[trigger] final(self).order_id_map@[j]).0@ == order_id@
                    && final(self).order_id_map@[j].1@ == client_oid@,
            final(self).pending_dedup == old(self).pending_dedup,
    {
        let i = match find_order(&self.orders, client_oid) {
            Some(i) => i,
            None => {
                return;
            },
        };
        let entry = (order_id.clone(), String::from_str(client_oid));
        let ghost w: int;
        match find_pair(&self.order_id_map, order_id.as_str()) {
            Some(k) => {
                self.order_id_map.set(k, entry);
                proof {
                    w = k as int;
                }
            },
            None => {
                self.order_id_map.push(entry);
                proof {
                    w = self.order_id_map@.len() - 1;
                }
            },
        }
        let ghost oid = order_id@;
        assert(self.order_id_map@[w].0@ == oid && self.order_id_map@[w].1@ == client_oid@);
        self.orders[i].order_id = Some(order_id);
        assert(self.order_id_map@[w].0@ == oid && self.order_id_map@[w].1@ == client_oid@);
    }
    /// Record a fill of `fill_size` on the order `client_oid` at `now_ms`: a
    /// complete order is moved by `Fill`, an open one that is not complete by
    /// `PartialFill` (each only where the transition is allowed).
    pub fn record_fill(&mut self, client_oid: &str, fill_size: u64, now_ms: u64)
        ensures
            match order_index(old(self).orders@, client_oid@) {
                None => final(self).orders == old(self).orders,
                Some(i) => {
                    let o = old(self).orders@[i];
                    let filled = if o.filled_size + fill_size > u64::MAX { u64::MAX as int } else { o.filled_size + fill_size };
                    let t = if filled >= o.original_size {
                        Some(StateTransition::Fill)
                    } else if o.state == OrderState::Open {
                        Some(StateTransition::PartialFill)
                    } else {
                        None::<StateTransition>
                    };
                    &&& final(self).orders@.len() == old(self).orders@.len()
                    &&& final(self).orders@[i].filled_size == filled
                    &&& final(self).orders@[i].state == (match t {
                        Some(tr) => match next_state(o.state, tr) {
                            Some(ns) => ns,
                            None => o.state,
                        },
                        None => o.state,
                    })
                    &&& final(self).orders@[i].last_update_ms == now_ms
                },
            },
            final(self).order_id_map == old(self).order_id_map,
            final(self).pending_dedup == old(self).pending_dedup,
    {
        let i = match find_order(&self.orders, client_oid) {
            Some(i) => i,
            None => {
                return;
            },
        };
        let filled = self.orders[i].filled_size.saturating_add(fill_size);
        self.orders[i].filled_size = filled;
        self.orders[i].last_update_ms = now_ms;
        proof {
            assert(order_index(self.orders@, client_oid@) == Some(i as int)) by {
                lemma_order_index_same_keys(old(self).orders@, self.orders@, client_oid@);
            }
        }
        if filled >= self.orders[i].original_size {
            let _ = self.transition(client_oid, StateTransition::Fill, now_ms);
        } else if matches!(self.orders[i].state, OrderState::Open) {
            let _ = self.transition(client_oid, StateTransition::PartialFill, now_ms);
        }
    }

    /// The order indexed under the exchange id `order_id`, if any.
    pub fn get_by_order_id(&self, order_id: &str) -> (r: Option<&OrderInfo>)
        ensures
            match pair_index(self.order_id_map@, order_id@) {
                Some(k) => match order_index(self.orders@, self.order_id_map@[k].1@) {
                    Some(i) => r == Some(&self.orders@[i]),
                    None => r is None,
                },
                None => r is None,
            },
    {
        match find_pair(&self.order_id_map, order_id) {
            Some(k) => self.get_order(self.order_id_map[k].1.as_str()),
            None => None,
        }
    }

    /// Drop terminal orders not updated for `max_age_ms`, and request keys
    /// older than that.
    pub fn cleanup(&mut self, max_age_ms: u64, now_ms: u64)
        ensures
            final(self).orders@.len() <= old(self).orders@.len(),
            forall|k: int| 0 <= k < final(self).orders@.len() ==> {
                let o = #[trigger] final(self).orders@[k];
                !(o.state is Filled || o.state is Cancelled || o.state is Rejected || o.state is Expired)
                    || (if now_ms >= o.last_update_ms { now_ms - o.last_update_ms } else { 0 }) < max_age_ms
            },
            forall|k: int| 0 <= k < old(self).orders@.len() ==> {
                let o = #[trigger] old(self).orders@[k];
                !(o.state is Filled || o.state is Cancelled || o.state is Rejected || o.state is Expired)
                    ==> final(self).orders@.contains(o)
            },
            forall|k: int| 0 <= k < final(self).pending_dedup@.len() ==> {
                let e = #[trigger] final(self).pending_dedup@[k];
                (if now_ms >= e.1 { now_ms - e.1 } else { 0 }) < max_age_ms
            },
            final(self).order_id_map == old(self).order_id_map,
    {
        let mut kept: Vec<OrderInfo> = Vec::new();
        let ghost old_orders = self.orders@;
        let n = self.orders.len();
        let mut i: usize = 0;
        while i < n
            invariant
                0 <= i <= n,
                n == old_orders.len(),
                self.orders@.len() == n - i,
                forall|k: int| 0 <= k < n - i ==> #[trigger] self.orders@[k] == old_orders[k + i],
                self.order_id_map == old(self).order_id_map,
                self.pending_dedup == old(self).pending_dedup,
                old_orders == old(self).orders@,
                kept@.len() <= i,
                forall|k: int| 0 <= k < kept@.len() ==> {
                    let o = #[trigger] kept@[k];
                    !(o.state is Filled || o.state is Cancelled || o.state is Rejected || o.state is Expired)
                        || (if now_ms >= o.last_update_ms { now_ms - o.last_update_ms } else { 0 }) < max_age_ms
                },
                forall|k: int| 0 <= k < i ==> {
                    let o = #[trigger] old_orders[k];
                    !(o.state is Filled || o.state is Cancelled || o.state is Rejected || o.state is Expired)
                        ==> kept@.contains(o)
                },
            decreases n - i,
        {
            let o = self.orders.remove(0);
            proof {
                assert(o == old_orders[i as int]);
                assert forall|k: int| 0 <= k < n - i - 1 implies #[trigger] self.orders@[k] == old_orders[k + i + 1] by {}
            }
            let terminal = o.state.is_terminal();
            let age = if now_ms >= o.last_update_ms {
                now_ms - o.last_update_ms
            } else {
                0
            };
            if !terminal || age < max_age_ms {
                let ghost before = kept@;
                kept.push(o);
                proof {
                    assert forall|k: int| 0 <= k < i + 1 implies {
                        let o2 = #[trigger] old_orders[k];
                        !(o2.state is Filled || o2.state is Cancelled || o2.state is Rejected || o2.state is Expired)
                            ==> kept@.contains(o2)
                    } by {
                        if k < i {
                            let o2 = old_orders[k];
                            if !(o2.state is Filled || o2.state is Cancelled || o2.state is Rejected || o2.state is Expired) {
                                let w = choose|w: int| 0 <= w < before.len() && before[w] == o2;
                                assert(kept@[w] == o2);
                            }
                        } else {
                            assert(kept@[kept@.len() - 1] == old_orders[k]);
                        }
                    }
                }
            }
            i = i + 1;
        }
        self.orders = kept;
        let mut fresh: Vec<(String, u64)> = Vec::new();
        let mut j: usize = 0;
        while j < self.pending_dedup.len()
            invariant
                0 <= j <= self.pending_dedup@.len(),
                forall|k: int| 0 <= k < fresh@.len() ==> {
                    let e = #[trigger] fresh@[k];
                    (if now_ms >= e.1 { now_ms - e.1 } else { 0 }) < max_age_ms
                },
            decreases self.pending_dedup@.len() - j,
        {
            let t = self.pending_dedup[j].1;
            let age = if now_ms >= t {
                now_ms - t
            } else {
                0
            };
            if age < max_age_ms {
                let key = self.pending_dedup[j].0.clone();
                fresh.push((key, t));
            }
            j = j + 1;
        }
        self.pending_dedup = fresh;
    }

    /// The orders resting on the book (open or partially filled), in order.
    pub fn active_orders(&self) -> (r: Vec<&OrderInfo>)
        ensures
            r@.map_values(|o: &OrderInfo| *o) == self.orders@.filter(|o: OrderInfo| o.state is Open || o.state is PartiallyFilled),
    {
        let mut r: Vec<&OrderInfo> = Vec::new();
        let mut i: usize = 0;
        while i < self.orders.len()
            invariant
                0 <= i <= self.orders@.len(),
                r@.map_values(|o: &OrderInfo| *o) == self.orders@.subrange(0, i as int).filter(
                    |o: OrderInfo| o.state is Open || o.state is PartiallyFilled,
                ),
            decreases self.orders@.len() - i,
        {
            proof {
                assert(self.orders@.subrange(0, i as int + 1) =~= self.orders@.subrange(0, i as int).push(self.orders@[i as int]));
                self.orders@.subrange(0, i as int).lemma_filter_push(
                    self.orders@[i as int],
                    |o: OrderInfo| o.state is Open || o.state is PartiallyFilled,
                );
            }
            let ghost before = r@;
            if self.orders[i].state.is_active() {
                r.push(&self.orders[i]);
                proof {
                    assert(r@.map_values(|o: &OrderInfo| *o) =~= before.map_values(|o: &OrderInfo| *o).push(self.orders@[i as int]));
                }
            }
            i = i + 1;
        }
        proof {
            assert(self.orders@.subrange(0, self.orders@.len() as int) =~= self.orders@);
        }
        r
    }

    /// The orders awaiting an acknowledgement, in order.
    pub fn pending_orders(&self) -> (r: Vec<&OrderInfo>)
        ensures
            r@.map_values(|o: &OrderInfo| *o) == self.orders@.filter(
                |o: OrderInfo| o.state is PendingNew || o.state is PendingModify || o.state is PendingCancel,
            ),
    {
        let mut r: Vec<&OrderInfo> = Vec::new();
        let mut i: usize = 0;
        while i < self.orders.len()
            invariant
                0 <= i <= self.orders@.len(),
                r@.map_values(|o: &OrderInfo| *o) == self.orders@.subrange(0, i as int).filter(
                    |o: OrderInfo| o.state is PendingNew || o.state is PendingModify || o.state is PendingCancel,
                ),
            decreases self.orders@.len() - i,
        {
            proof {
                assert(self.orders@.subrange(0, i as int + 1) =~= self.orders@.subrange(0, i as int).push(self.orders@[i as int]));
                self.orders@.subrange(0, i as int).lemma_filter_push(
                    self.orders@[i as int],
                    |o: OrderInfo| o.state is PendingNew || o.state is PendingModify || o.state is PendingCancel,
                );
            }
            let ghost before = r@;
            if self.orders[i].state.is_pending() {
                r.push(&self.orders[i]);
                proof {
                    assert(r@.map_values(|o: &OrderInfo| *o) =~= before.map_values(|o: &OrderInfo| *o).push(self.orders@[i as int]));
                }
            }
            i = i + 1;
        }
        proof {
            assert(self.orders@.subrange(0, self.orders@.len() as int) =~= self.orders@);
        }
        r
    }

    /// Counts of the tracked orders by state.
    pub fn stats(&self) -> (r: OrderStats)
        ensures
            r.total == self.orders@.len(),
            r.pending_new == count_state(self.orders@, OrderState::PendingNew),
            r.open == count_state(self.orders@, OrderState::Open),
            r.partially_filled == count_state(self.orders@, OrderState::PartiallyFilled),
            r.pending_modify == count_state(self.orders@, OrderState::PendingModify),
            r.pending_cancel == count_state(self.orders@, OrderState::PendingCancel),
            r.filled == count_state(self.orders@, OrderState::Filled),
            r.cancelled == count_state(self.orders@, OrderState::Cancelled),
            r.rejected == count_state(self.orders@, OrderState::Rejected),
            r.expired == count_state(self.orders@, OrderState::Expired),
    {
        let mut st = OrderStats {
            total: 0,
            pending_new: 0,
            open: 0,
            partially_filled: 0,
            pending_modify: 0,
            pending_cancel: 0,
            filled: 0,
            cancelled: 0,
            rejected: 0,
            expired: 0,
        };
        let mut i: usize = 0;
        while i < self.orders.len()
            invariant
                0 <= i <= self.orders@.len(),
                st.total == 0,
                ({
                    let pre = self.orders@.subrange(0, i as int);
                    &&& st.pending_new == count_state(pre, OrderState::PendingNew)
                    &&& st.open == count_state(pre, OrderState::Open)
                    &&& st.partially_filled == count_state(pre, OrderState::PartiallyFilled)
                    &&& st.pending_modify == count_state(pre, OrderState::PendingModify)
                    &&& st.pending_cancel == count_state(pre, OrderState::PendingCancel)
                    &&& st.filled == count_state(pre, OrderState::Filled)
                    &&& st.cancelled == count_state(pre, OrderState::Cancelled)
                    &&& st.rejected == count_state(pre, OrderState::Rejected)
                    &&& st.expired == count_state(pre, OrderState::Expired)
                }),
                st.pending_new + st.open + st.partially_filled + st.pending_modify + st.pending_cancel
                    + st.filled + st.cancelled + st.rejected + st.expired == i,
            decreases self.orders@.len() - i,
        {
            proof {
                let pre = self.orders@.subrange(0, i as int + 1);
                assert(pre.drop_last() =~= self.orders@.subrange(0, i as int));
            }
            match self.orders[i].state {
                OrderState::PendingNew => st.pending_new = st.pending_new + 1,
                OrderState::Open => st.open = st.open + 1,
                OrderState::PartiallyFilled => st.partially_filled = st.partially_filled + 1,
                OrderState::PendingModify => st.pending_modify = st.pending_modify + 1,
                OrderState::PendingCancel => st.pending_cancel = st.pending_cancel + 1,
                OrderState::Filled => st.filled = st.filled + 1,
                OrderState::Cancelled => st.cancelled = st.cancelled + 1,
                OrderState::Rejected => st.rejected = st.rejected + 1,
                OrderState::Expired => st.expired = st.expired + 1,
            }
            i = i + 1;
        }
        proof {
            assert(self.orders@.subrange(0, self.orders@.len() as int) =~= self.orders@);
        }
        st.total = self.orders.len();
        st
    }
}

/// Number of orders in state `s`.
pub open spec fn count_state(orders: Seq<OrderInfo>, s: OrderState) -> nat
    decreases orders.len(),
{
    if orders.len() == 0 {
        0
    } else {
        count_state(orders.drop_last(), s) + if orders.last().state == s {
            1nat
        } else {
            0nat
        }
    }
}

proof fn lemma_order_index_same_keys(a: Seq<OrderInfo>, b: Seq<OrderInfo>, key: Seq<char>)
    requires
        a.len() == b.len(),
        forall|k: int| 0 <= k < a.len() ==> (#[trigger] a[k]).client_oid == b[k].client_oid,
    ensures
        order_index(a, key) == order_index(b, key),
    decreases a.len(),
{
    if a.len() > 0 {
        assert forall|k: int| 0 <= k < a.len() - 1 implies (#[trigger] a.skip(1)[k]).client_oid == b.skip(1)[k].client_oid by {
            assert(a.skip(1)[k] == a[k + 1] && b.skip(1)[k] == b[k + 1]);
        }
        lemma_order_index_same_keys(a.skip(1), b.skip(1), key);
    }
}

} // verus!

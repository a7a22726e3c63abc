//! The per-level order cell: one slot of the ladder on one side.
//!
//! A cell is `Empty`, `Live`, `CancelPending` or `CancelStuck`. The quoting
//! controller moves cells Empty -> Live and Live -> {Empty, CancelPending};
//! the reconciler is the only one that closes the loop back into `Empty` from
//! the pending / stuck states.
use vstd::prelude::*;

verus! {

/// Number of REST cancel attempts after which a pending cancel is declared stuck.
pub const MAX_CANCEL_ATTEMPTS: u8 = 3;

/// Age (milliseconds) after which an unconfirmed cancel falls back to REST.
pub const CANCEL_TIMEOUT_MS: u64 = 5000;

/// State of one (level, side) slot. Prices are in ticks of the instrument.
#[derive(Clone, Debug)]
pub enum LevelOrderState {
    Empty,
    Live { order_id: String, price: u64 },
    CancelPending { order_id: String, price: u64, sent_at_ms: u64, attempts: u8 },
    CancelStuck { order_id: String, price: u64 },
}

impl LevelOrderState {
    /// The exchange order id held by the cell, if any.
    pub open spec fn id_view(&self) -> Option<Seq<char>> {
        match self {
            LevelOrderState::Empty => None,
            LevelOrderState::Live { order_id, .. } => Some(order_id@),
            LevelOrderState::CancelPending { order_id, .. } => Some(order_id@),
            LevelOrderState::CancelStuck { order_id, .. } => Some(order_id@),
        }
    }

    /// The resting price held by the cell, if any.
    pub open spec fn price_view(&self) -> Option<u64> {
        match self {
            LevelOrderState::Empty => None,
            LevelOrderState::Live { price, .. } => Some(*price),
            LevelOrderState::CancelPending { price, .. } => Some(*price),
            LevelOrderState::CancelStuck { price, .. } => Some(*price),
        }
    }

    /// Position of the state along Empty -> Live -> CancelPending -> CancelStuck.
    pub open spec fn rank(&self) -> nat {
        match self {
            LevelOrderState::Empty => 0,
            LevelOrderState::Live { .. } => 1,
            LevelOrderState::CancelPending { .. } => 2,
            LevelOrderState::CancelStuck { .. } => 3,
        }
    }

    pub open spec fn spec_is_empty(&self) -> bool {
        self is Empty
    }

    pub open spec fn spec_is_live(&self) -> bool {
        self is Live
    }

    pub fn is_empty(&self) -> (r: bool)
        ensures
            r == self.spec_is_empty(),
    {
        match self {
            LevelOrderState::Empty => true,
            _ => false,
        }
    }

    pub fn is_live(&self) -> (r: bool)
        ensures
            r == self.spec_is_live(),
    {
        match self {
            LevelOrderState::Live { .. } => true,
            _ => false,
        }
    }

    pub fn is_cancel_pending(&self) -> (r: bool)
        ensures
            r == (self is CancelPending),
    {
        match self {
            LevelOrderState::CancelPending { .. } => true,
            _ => false,
        }
    }

    pub fn is_cancel_stuck(&self) -> (r: bool)
        ensures
            r == (self is CancelStuck),
    {
        match self {
            LevelOrderState::CancelStuck { .. } => true,
            _ => false,
        }
    }

    /// The exchange order id held by the cell, if any.
    pub fn order_id(&self) -> (r: Option<&str>)
        ensures
            match r {
                Some(s) => self.id_view() == Some(s@),
                None => self.id_view() is None,
            },
    {
        match self {
            LevelOrderState::Live { order_id, .. } => Some(order_id.as_str()),
            LevelOrderState::CancelPending { order_id, .. } => Some(order_id.as_str()),
            LevelOrderState::CancelStuck { order_id, .. } => Some(order_id.as_str()),
            LevelOrderState::Empty => None,
        }
    }

    /// A place acknowledgement carrying `order_id` at `price`: Empty -> Live.
    /// Any other state is left alone (a placement is never issued there).
    pub fn on_place_ack(&mut self, order_id: String, price: u64)
        ensures
            old(self).spec_is_empty() ==> *final(self) == (LevelOrderState::Live { order_id, price }),
            !old(self).spec_is_empty() ==> *final(self) == *old(self),
    {
        if self.is_empty() {
            *self = LevelOrderState::Live { order_id, price };
        }
    }

    /// The reply to a cancel request sent for a live cell. An acknowledged
    /// cancel empties the cell; a refused, lost or timed-out one leaves it
    /// `CancelPending` from `now_ms` with one attempt. Other states are left alone.
    pub fn on_cancel_reply(&mut self, acked: bool, now_ms: u64)
        ensures
            old(self).spec_is_live() && acked ==> *final(self) is Empty,
            old(self).spec_is_live() && !acked ==> *final(self) == (LevelOrderState::CancelPending {
                order_id: old(self)->Live_order_id,
                price: old(self)->Live_price,
                sent_at_ms: now_ms,
                attempts: 1,
            }),
            !old(self).spec_is_live() ==> *final(self) == *old(self),
            permitted(*old(self), *final(self)),
    {
        let next = match &*self {
            LevelOrderState::Live { order_id, price } => {
                if acked {
                    Some(LevelOrderState::Empty)
                } else {
                    Some(
                        LevelOrderState::CancelPending {
                            order_id: order_id.clone(),
                            price: *price,
                            sent_at_ms: now_ms,
                            attempts: 1,
                        },
                    )
                }
            },
            _ => None,
        };
        if let Some(n) = next {
            *self = n;
        }
    }
}

/// The permitted edges of the cell state machine (or no change).
pub open spec fn permitted(a: LevelOrderState, b: LevelOrderState) -> bool {
    ||| a == b
    ||| (a is Empty && b is Live)
    ||| (a is Live && b is Empty)
    ||| (a is Live && b is CancelPending && b.id_view() == a.id_view() && b.price_view() == a.price_view()
        && b->CancelPending_attempts == 1)
    ||| (a is CancelPending && b is Empty)
    ||| (a is CancelPending && b is CancelStuck && b.id_view() == a.id_view() && b.price_view()
        == a.price_view())
    ||| (a is CancelStuck && b is Empty)
}

/// Along a permitted edge a cell either stays, empties, or moves strictly forward
/// along Empty -> Live -> CancelPending -> CancelStuck; and an exchange order id
/// is never replaced by another one without the cell passing through `Empty`, so
/// a cell is associated with at most one order id at any instant.
pub proof fn lemma_permitted_progress(a: LevelOrderState, b: LevelOrderState)
    requires
        permitted(a, b),
    ensures
        a == b || b is Empty || b.rank() > a.rank(),
        a.id_view() is Some && b.id_view() is Some ==> a.id_view() == b.id_view(),
        !(a is Empty) && b is Live ==> a == b,
{
}

/// Leaving `Empty` for a non-empty state is only ever a placement (to `Live`).
pub proof fn lemma_only_place_leaves_empty(a: LevelOrderState, b: LevelOrderState)
    requires
        permitted(a, b),
        a is Empty,
        !(b is Empty),
    ensures
        b is Live,
{
}

} // verus!

//! The reconciler: aligns the cell table with the exchange's authoritative
//! list of active orders, rebuilds the live commitments, falls back to REST
//! cancels for stuck cancels and throttles the cancellation of orphans.
//!
//! A reconciliation is driven by its caller, which performs the REST calls:
//! `reconcile_begin` with the fetched orders and balances, then
//! `apply_rest_result` for each queued REST cancel, then `select_orphans`.
use vstd::prelude::*;
use crate::cell::{permitted, LevelOrderState, CANCEL_TIMEOUT_MS, MAX_CANCEL_ATTEMPTS};
use crate::commitments::Balances;
use crate::engine::Engine;
use crate::exchange::order_book::BookSide;
use crate::quote::wide_mul;

verus! {

/// Orphan cancels issued per reconciliation at most.
pub const MAX_ORPHAN_CANCELS: usize = 5;

/// How long an orphan cancel is remembered (10 s).
pub const RECENT_TTL_MS: u64 = 10_000;

/// Largest order price accepted from the exchange, in ticks.
pub const MAX_PRICE_TICKS: u64 = 1_000_000_000_000;

/// Largest order size accepted from the exchange, in size steps.
pub const MAX_SIZE_STEPS: u64 = 1_000_000_000_000;

/// The ids of a list of strings.
pub open spec fn ids_view(v: Seq<String>) -> Seq<Seq<char>> {
    v.map_values(|s: String| s@)
}

/// The view of a queue of REST cancels.
pub open spec fn queue_view(v: Seq<RestCancel>) -> Seq<(BookSide, int, Seq<char>)> {
    v.map_values(|r: RestCancel| (r.side, r.level as int, r.order_id@))
}

/// The ids of the recently cancelled orphans.
pub open spec fn recent_ids(v: Seq<(String, u64)>) -> Seq<Seq<char>> {
    v.map_values(|e: (String, u64)| e.0@)
}

/// A remembered orphan cancel sent at `t` is forgotten at `now` after 10 s.
pub open spec fn expired(t: u64, now: u64) -> bool {
    now >= t && now - t >= RECENT_TTL_MS
}

/// The remembered orphan cancels that survive expiry at `now`.
pub open spec fn unexpired(v: Seq<(String, u64)>, now: u64) -> Seq<(String, u64)> {
    v.filter(|e: (String, u64)| !expired(e.1, now))
}

/// The orphans to cancel: in the order of the active list, each active order
/// whose id is neither claimed by a cell nor recently cancelled (an id picked
/// once counts as recently cancelled from then on), at most `budget` of them.
pub open spec fn orphan_picks(
    active: Seq<ActiveOrder>,
    claimed: Seq<Seq<char>>,
    recent: Seq<Seq<char>>,
    budget: nat,
) -> Seq<Seq<char>>
    decreases active.len(),
{
    if active.len() == 0 || budget == 0 {
        seq![]
    } else {
        let id = active[0].order_id@;
        if !claimed.contains(id) && !recent.contains(id) {
            seq![id] + orphan_picks(active.skip(1), claimed, recent.push(id), (budget - 1) as nat)
        } else {
            orphan_picks(active.skip(1), claimed, recent, budget)
        }
    }
}

/// An order the exchange reports as active.
#[derive(Debug)]
pub struct ActiveOrder {
    pub order_id: String,
    pub side: BookSide,
    pub price: u64,
    pub size: u64,
}

impl ActiveOrder {
    pub open spec fn wf(&self) -> bool {
        self.price <= MAX_PRICE_TICKS && self.size <= MAX_SIZE_STEPS
    }

    /// An active order, if its price and size are within the accepted bounds.
    pub fn new(order_id: String, side: BookSide, price: u64, size: u64) -> (r: Option<ActiveOrder>)
        ensures
            r is Some <==> (price <= MAX_PRICE_TICKS && size <= MAX_SIZE_STEPS),
            r matches Some(o) ==> o.wf() && o.order_id == order_id && o.side == side && o.price
                == price && o.size == size,
    {
        if price <= MAX_PRICE_TICKS && size <= MAX_SIZE_STEPS {
            Some(ActiveOrder { order_id, side, price, size })
        } else {
            None
        }
    }
}

/// A REST cancel the reconciler wants performed for the cell of `side` at `level`.
#[derive(Debug)]
pub struct RestCancel {
    pub side: BookSide,
    pub level: usize,
    pub order_id: String,
}

/// The first active order with id `id`.
pub open spec fn find_order(s: Seq<ActiveOrder>, id: Seq<char>) -> Option<ActiveOrder>
    decreases s.len(),
{
    if s.len() == 0 {
        None
    } else if s[0].order_id@ == id {
        Some(s[0])
    } else {
        find_order(s.skip(1), id)
    }
}

pub open spec fn present(s: Seq<ActiveOrder>, id: Seq<char>) -> bool {
    find_order(s, id) is Some
}

/// A cancel sent at `sent` is older than the timeout at `now`.
pub open spec fn aged(sent: u64, now: u64) -> bool {
    now >= sent && now - sent > CANCEL_TIMEOUT_MS
}

/// The cell after the first pass of a reconciliation.
pub open spec fn recon_cell(c: LevelOrderState, active: Seq<ActiveOrder>, now: u64) -> LevelOrderState {
    match c {
        LevelOrderState::Empty => c,
        LevelOrderState::Live { order_id, .. } => if present(active, order_id@) {
            c
        } else {
            LevelOrderState::Empty
        },
        LevelOrderState::CancelPending { order_id, price, sent_at_ms, attempts } => if !present(
            active,
            order_id@,
        ) {
            LevelOrderState::Empty
        } else if aged(sent_at_ms, now) && attempts >= MAX_CANCEL_ATTEMPTS {
            LevelOrderState::CancelStuck { order_id, price }
        } else {
            c
        },
        LevelOrderState::CancelStuck { order_id, .. } => if present(active, order_id@) {
            c
        } else {
            LevelOrderState::Empty
        },
    }
}

/// The cell needs a REST cancel: an aged pending cancel with attempts left,
/// or a stuck one, whose order is still active.
pub open spec fn rest_candidate(c: LevelOrderState, active: Seq<ActiveOrder>, now: u64) -> bool {
    match c {
        LevelOrderState::CancelPending { order_id, sent_at_ms, attempts, .. } => present(
            active,
            order_id@,
        ) && aged(sent_at_ms, now) && attempts < MAX_CANCEL_ATTEMPTS,
        LevelOrderState::CancelStuck { order_id, .. } => present(active, order_id@),
        _ => false,
    }
}

/// The cell's order is claimed after the first pass: a live order
/// still active, or a pending cancel still active and not yet timed out.
pub open spec fn claimed_first(c: LevelOrderState, active: Seq<ActiveOrder>, now: u64) -> bool {
    match c {
        LevelOrderState::Live { order_id, .. } => present(active, order_id@),
        LevelOrderState::CancelPending { order_id, sent_at_ms, .. } => present(active, order_id@)
            && !aged(sent_at_ms, now),
        _ => false,
    }
}

pub open spec fn id_string(c: LevelOrderState) -> String {
    match c {
        LevelOrderState::Live { order_id, .. } => order_id,
        LevelOrderState::CancelPending { order_id, .. } => order_id,
        LevelOrderState::CancelStuck { order_id, .. } => order_id,
        LevelOrderState::Empty => arbitrary(),
    }
}

/// The REST cancel queued for a cell, if any.
pub open spec fn rest_entry(side: BookSide, i: int, c: LevelOrderState, active: Seq<ActiveOrder>, now: u64) -> Seq<
    (BookSide, int, Seq<char>),
> {
    if rest_candidate(c, active, now) {
        seq![(side, i, id_string(c)@)]
    } else {
        seq![]
    }
}

/// The claimed id of a cell after the first pass, if any.
pub open spec fn claimed_entry(c: LevelOrderState, active: Seq<ActiveOrder>, now: u64) -> Seq<Seq<char>> {
    if claimed_first(c, active, now) {
        seq![id_string(c)@]
    } else {
        seq![]
    }
}

/// REST cancels queued by the first pass over the first `n` levels (bid, then ask).
pub open spec fn rest_list(
    bids: Seq<LevelOrderState>,
    asks: Seq<LevelOrderState>,
    active: Seq<ActiveOrder>,
    now: u64,
    n: int,
) -> Seq<(BookSide, int, Seq<char>)>
    decreases n,
{
    if n <= 0 {
        seq![]
    } else {
        rest_list(bids, asks, active, now, n - 1) + rest_entry(BookSide::Bid, n - 1, bids[n - 1], active, now)
            + rest_entry(BookSide::Ask, n - 1, asks[n - 1], active, now)
    }
}

/// Ids claimed by the first pass over the first `n` levels (bid, then ask).
pub open spec fn claimed_list(
    bids: Seq<LevelOrderState>,
    asks: Seq<LevelOrderState>,
    active: Seq<ActiveOrder>,
    now: u64,
    n: int,
) -> Seq<Seq<char>>
    decreases n,
{
    if n <= 0 {
        seq![]
    } else {
        claimed_list(bids, asks, active, now, n - 1) + claimed_entry(bids[n - 1], active, now)
            + claimed_entry(asks[n - 1], active, now)
    }
}

/// What a live bid cell commits: price x size of its active order.
pub open spec fn cell_quote(c: LevelOrderState, active: Seq<ActiveOrder>) -> int {
    match c {
        LevelOrderState::Live { order_id, .. } => match find_order(active, order_id@) {
            Some(o) => o.price as int * o.size as int,
            None => 0,
        },
        _ => 0,
    }
}

/// What a live ask cell commits: the size of its active order.
pub open spec fn cell_base(c: LevelOrderState, active: Seq<ActiveOrder>) -> int {
    match c {
        LevelOrderState::Live { order_id, .. } => match find_order(active, order_id@) {
            Some(o) => o.size as int,
            None => 0,
        },
        _ => 0,
    }
}

pub open spec fn sum_quote(cells: Seq<LevelOrderState>, active: Seq<ActiveOrder>) -> int
    decreases cells.len(),
{
    if cells.len() == 0 {
        0
    } else {
        sum_quote(cells.drop_last(), active) + cell_quote(cells.last(), active)
    }
}

pub open spec fn sum_base(cells: Seq<LevelOrderState>, active: Seq<ActiveOrder>) -> int
    decreases cells.len(),
{
    if cells.len() == 0 {
        0
    } else {
        sum_base(cells.drop_last(), active) + cell_base(cells.last(), active)
    }
}

/// Every non-empty cell holds the id of an active order.
pub open spec fn all_present(cells: Seq<LevelOrderState>, active: Seq<ActiveOrder>) -> bool {
    forall|i: int|
        0 <= i < cells.len() && !(#[trigger] cells[i] is Empty) ==> present(active, cells[i].id_view()->Some_0)
}

/// Changing a cell that is not live into another that is not live changes no sum.
pub proof fn lemma_sums_nonlive_update(cells: Seq<LevelOrderState>, i: int, c: LevelOrderState, active: Seq<ActiveOrder>)
    requires
        0 <= i < cells.len(),
        !(cells[i] is Live),
        !(c is Live),
    ensures
        sum_quote(cells.update(i, c), active) == sum_quote(cells, active),
        sum_base(cells.update(i, c), active) == sum_base(cells, active),
    decreases cells.len(),
{
    let u = cells.update(i, c);
    if i == cells.len() - 1 {
        assert(u.drop_last() =~= cells.drop_last());
    } else {
        assert(u.drop_last() =~= cells.drop_last().update(i, c));
        lemma_sums_nonlive_update(cells.drop_last(), i, c, active);
    }
}

fn find_active(active: &Vec<ActiveOrder>, id: &String) -> (r: Option<usize>)
    ensures
        match r {
            Some(j) => j < active@.len() && find_order(active@, id@) == Some(active@[j as int]),
            None => find_order(active@, id@) is None,
        },
{
    let mut j: usize = 0;
    assert(active@.skip(0) =~= active@);
    while j < active.len()
        invariant
            0 <= j <= active@.len(),
            find_order(active@, id@) == find_order(active@.skip(j as int), id@),
        decreases active@.len() - j,
    {
        assert(active@.skip(j as int).skip(1) =~= active@.skip(j as int + 1));
        if active[j].order_id == *id {
            return Some(j);
        }
        j = j + 1;
    }
    None
}

/// The outcome of the first pass for one cell.
struct FirstPass {
    cell: LevelOrderState,
    rest: bool,
    claimed: bool,
    commit: u128,
}

fn first_pass(c: &LevelOrderState, active: &Vec<ActiveOrder>, now_ms: u64, bid: bool) -> (r: FirstPass)
    requires
        forall|i: int| 0 <= i < active@.len() ==> (#[trigger] active@[i]).wf(),
    ensures
        r.cell == recon_cell(*c, active@, now_ms),
        r.rest == rest_candidate(*c, active@, now_ms),
        r.claimed == claimed_first(*c, active@, now_ms),
        r.commit == (if bid {
            cell_quote(recon_cell(*c, active@, now_ms), active@)
        } else {
            cell_base(recon_cell(*c, active@, now_ms), active@)
        }),
        r.commit <= MAX_PRICE_TICKS as int * MAX_SIZE_STEPS as int,
        permitted(*c, r.cell),
{
    match c {
        LevelOrderState::Empty => FirstPass { cell: LevelOrderState::Empty, rest: false, claimed: false, commit: 0 },
        LevelOrderState::Live { order_id, price } => {
            match find_active(active, order_id) {
                Some(j) => {
                    let o = &active[j];
                    let commit = if bid {
                        wide_mul(o.price, o.size)
                    } else {
                        o.size as u128
                    };
                    proof {
                        crate::quote::lemma_mul_bound(o.price as int, o.size as int, MAX_PRICE_TICKS as int, MAX_SIZE_STEPS as int);
                    }
                    FirstPass {
                        cell: LevelOrderState::Live { order_id: order_id.clone(), price: *price },
                        rest: false,
                        claimed: true,
                        commit,
                    }
                },
                None => FirstPass { cell: LevelOrderState::Empty, rest: false, claimed: false, commit: 0 },
            }
        },
        LevelOrderState::CancelPending { order_id, price, sent_at_ms, attempts } => {
            match find_active(active, order_id) {
                Some(_) => {
                    let old_enough = now_ms >= *sent_at_ms && now_ms - *sent_at_ms > CANCEL_TIMEOUT_MS;
                    if old_enough && *attempts >= MAX_CANCEL_ATTEMPTS {
                        FirstPass {
                            cell: LevelOrderState::CancelStuck { order_id: order_id.clone(), price: *price },
                            rest: false,
                            claimed: false,
                            commit: 0,
                        }
                    } else {
                        FirstPass {
                            cell: LevelOrderState::CancelPending {
                                order_id: order_id.clone(),
                                price: *price,
                                sent_at_ms: *sent_at_ms,
                                attempts: *attempts,
                            },
                            rest: old_enough,
                            claimed: !old_enough,
                            commit: 0,
                        }
                    }
                },
                None => FirstPass { cell: LevelOrderState::Empty, rest: false, claimed: false, commit: 0 },
            }
        },
        LevelOrderState::CancelStuck { order_id, price } => {
            match find_active(active, order_id) {
                Some(_) => FirstPass {
                    cell: LevelOrderState::CancelStuck { order_id: order_id.clone(), price: *price },
                    rest: true,
                    claimed: false,
                    commit: 0,
                },
                None => FirstPass { cell: LevelOrderState::Empty, rest: false, claimed: false, commit: 0 },
            }
        },
    }
}

fn id_clone(c: &LevelOrderState) -> (r: String)
    requires
        !(*c is Empty),
    ensures
        r@ == c.id_view()->Some_0,
        r == id_string(*c),
{
    match c {
        LevelOrderState::Live { order_id, .. } => order_id.clone(),
        LevelOrderState::CancelPending { order_id, .. } => order_id.clone(),
        LevelOrderState::CancelStuck { order_id, .. } => order_id.clone(),
        LevelOrderState::Empty => String::new(),
    }
}

fn contains_id(v: &Vec<String>, id: &String) -> (r: bool)
    ensures
        r == ids_view(v@).contains(id@),
{
    let mut i: usize = 0;
    while i < v.len()
        invariant
            0 <= i <= v@.len(),
            forall|k: int| 0 <= k < i ==> v@[k]@ != id@,
        decreases v@.len() - i,
    {
        if v[i] == *id {
            assert(ids_view(v@)[i as int] == id@);
            return true;
        }
        i = i + 1;
    }
    proof {
        if ids_view(v@).contains(id@) {
            let k = choose|k: int| 0 <= k < ids_view(v@).len() && ids_view(v@)[k] == id@;
            assert(v@[k]@ == id@);
        }
    }
    false
}

fn contains_recent(v: &Vec<(String, u64)>, id: &String) -> (r: bool)
    ensures
        r == recent_ids(v@).contains(id@),
{
    let mut i: usize = 0;
    while i < v.len()
        invariant
            0 <= i <= v@.len(),
            forall|k: int| 0 <= k < i ==> v@[k].0@ != id@,
        decreases v@.len() - i,
    {
        if v[i].0 == *id {
            assert(recent_ids(v@)[i as int] == id@);
            return true;
        }
        i = i + 1;
    }
    proof {
        if recent_ids(v@).contains(id@) {
            let k = choose|k: int| 0 <= k < recent_ids(v@).len() && recent_ids(v@)[k] == id@;
            assert(v@[k].0@ == id@);
        }
    }
    false
}

/// The cell after a REST cancel of `id` that succeeded (`ok`) or failed.
pub open spec fn rest_outcome(c: LevelOrderState, id: Seq<char>, ok: bool) -> LevelOrderState {
    if c.id_view() != Some(id) {
        c
    } else {
        match c {
            LevelOrderState::CancelPending { order_id, price, .. } => if ok {
                LevelOrderState::Empty
            } else {
                LevelOrderState::CancelStuck { order_id, price }
            },
            LevelOrderState::CancelStuck { .. } => if ok {
                LevelOrderState::Empty
            } else {
                c
            },
            _ => c,
        }
    }
}

impl Engine {
    /// The state that one reconciliation establishes: nothing inflight, the
    /// live layer equal to what the active orders of the live cells commit,
    /// and every non-empty cell holding the id of an active order.
    pub open spec fn converged(&self) -> bool {
        &&& self.commitments.inflight_quote == 0
        &&& self.commitments.inflight_base == 0
        &&& self.commitments.live_quote == sum_quote(self.bids@, self.active@)
        &&& self.commitments.live_base == sum_base(self.asks@, self.active@)
        &&& all_present(self.bids@, self.active@)
        &&& all_present(self.asks@, self.active@)
    }

    /// First pass of a reconciliation with the authoritative active orders
    /// `active` and balances `balances` at `now_ms`. Each cell is resolved
    /// against the active set (see `recon_cell`); cells whose order is gone
    /// become Empty; a pending cancel past its timeout with no attempts left
    /// becomes CancelStuck. The inflight layer is cleared and the live layer
    /// rebuilt from the live cells. The REST cancels to perform are queued in
    /// `rest_queue`, and the ids still claimed by cells are listed in `claimed`.
    pub fn reconcile_begin(&mut self, active: Vec<ActiveOrder>, balances: Balances, now_ms: u64)
        requires
            old(self).wf(),
            forall|i: int| 0 <= i < active@.len() ==> (#[trigger] active@[i]).wf(),
        ensures
            final(self).wf(),
            old(self).steps_permitted(final(self)),
            old(self).none_leave_empty(final(self)),
            final(self).converged(),
            final(self).active@ == active@,
            final(self).balances == balances,
            final(self).levels == old(self).levels,
            final(self).ofi_paused == old(self).ofi_paused,
            final(self).order_notional == old(self).order_notional,
            final(self).intent == old(self).intent,
            final(self).recently_cancelled == old(self).recently_cancelled,
            final(self).bids@.len() == old(self).bids@.len(),
            final(self).asks@.len() == old(self).asks@.len(),
            forall|i: int|
                0 <= i < old(self).bids@.len() ==> #[trigger] final(self).bids@[i] == recon_cell(
                    old(self).bids@[i],
                    active@,
                    now_ms,
                ) && permitted(old(self).bids@[i], final(self).bids@[i]),
            forall|i: int|
                0 <= i < old(self).asks@.len() ==> #[trigger] final(self).asks@[i] == recon_cell(
                    old(self).asks@[i],
                    active@,
                    now_ms,
                ) && permitted(old(self).asks@[i], final(self).asks@[i]),
            queue_view(final(self).rest_queue@) == rest_list(
                old(self).bids@,
                old(self).asks@,
                active@,
                now_ms,
                old(self).levels@.len() as int,
            ),
            ids_view(final(self).claimed@) == claimed_list(
                old(self).bids@,
                old(self).asks@,
                active@,
                now_ms,
                old(self).levels@.len() as int,
            ),
    {
        self.active = active;
        self.balances = balances;
        self.commitments.reset_inflight();
        self.commitments.live_quote = 0;
        self.commitments.live_base = 0;
        self.rest_queue = Vec::new();
        self.claimed = Vec::new();
        let n = self.levels.len();
        let ghost bids0 = self.bids@;
        let ghost asks0 = self.asks@;
        let bound: u128 = 1_000_000_000_000_000_000_000_000;
        let mut i: usize = 0;
        while i < n
            invariant
                self.wf(),
                n == self.levels@.len(),
                0 <= i <= n,
                self.active@ == active@,
                self.balances == balances,
                self.levels == old(self).levels,
                self.ofi_paused == old(self).ofi_paused,
                self.order_notional == old(self).order_notional,
                self.intent == old(self).intent,
                self.recently_cancelled == old(self).recently_cancelled,
                bids0 == old(self).bids@,
                asks0 == old(self).asks@,
                bids0.len() == n,
                asks0.len() == n,
                self.commitments.inflight_quote == 0,
                self.commitments.inflight_base == 0,
                bound == MAX_PRICE_TICKS as int * MAX_SIZE_STEPS as int,
                self.commitments.live_quote <= i * bound,
                self.commitments.live_base <= i * bound,
                forall|k: int| 0 <= k < i ==> #[trigger] self.bids@[k] == recon_cell(bids0[k], active@, now_ms),
                forall|k: int| 0 <= k < i ==> #[trigger] self.asks@[k] == recon_cell(asks0[k], active@, now_ms),
                forall|k: int| i <= k < n ==> #[trigger] self.bids@[k] == bids0[k],
                forall|k: int| i <= k < n ==> #[trigger] self.asks@[k] == asks0[k],
                self.commitments.live_quote == sum_quote(self.bids@.subrange(0, i as int), active@),
                self.commitments.live_base == sum_base(self.asks@.subrange(0, i as int), active@),
                queue_view(self.rest_queue@) == rest_list(bids0, asks0, active@, now_ms, i as int),
                ids_view(self.claimed@) == claimed_list(bids0, asks0, active@, now_ms, i as int),
            decreases n - i,
        {
            let fb = first_pass(&self.bids[i], &self.active, now_ms, true);
            let fa = first_pass(&self.asks[i], &self.active, now_ms, false);
            proof {
                vstd::arithmetic::mul::lemma_mul_is_distributive_add_other_way(bound as int, i as int, 1);
                crate::quote::lemma_mul_bound(i as int + 1, bound as int, 1000, bound as int);
            }
            let ghost qb = self.rest_queue@;
            let ghost cl = self.claimed@;
            if fb.rest {
                let id = id_clone(&fb.cell);
                self.rest_queue.push(RestCancel { side: BookSide::Bid, level: i, order_id: id });
            }
            if fb.claimed {
                let id = id_clone(&fb.cell);
                self.claimed.push(id);
            }
            if fa.rest {
                let id = id_clone(&fa.cell);
                self.rest_queue.push(RestCancel { side: BookSide::Ask, level: i, order_id: id });
            }
            if fa.claimed {
                let id = id_clone(&fa.cell);
                self.claimed.push(id);
            }
            proof {
                assert(queue_view(self.rest_queue@) =~= queue_view(qb) + rest_entry(BookSide::Bid, i as int, bids0[i as int], active@, now_ms)
                    + rest_entry(BookSide::Ask, i as int, asks0[i as int], active@, now_ms));
                assert(ids_view(self.claimed@) =~= ids_view(cl) + claimed_entry(bids0[i as int], active@, now_ms)
                    + claimed_entry(asks0[i as int], active@, now_ms));
            }
            let ghost bprev = self.bids@;
            let ghost aprev = self.asks@;
            self.bids.set(i, fb.cell);
            self.asks.set(i, fa.cell);
            self.commitments.live_quote = self.commitments.live_quote + fb.commit;
            self.commitments.live_base = self.commitments.live_base + fa.commit;
            proof {
                assert(self.bids@.subrange(0, i as int + 1).drop_last() =~= bprev.subrange(0, i as int));
                assert(self.asks@.subrange(0, i as int + 1).drop_last() =~= aprev.subrange(0, i as int));
            }
            i = i + 1;
        }
        proof {
            assert(self.bids@.subrange(0, n as int) =~= self.bids@);
            assert(self.asks@.subrange(0, n as int) =~= self.asks@);
            assert forall|k: int| 0 <= k < n && !(#[trigger] self.bids@[k] is Empty) implies present(
                active@,
                self.bids@[k].id_view()->Some_0,
            ) by {}
            assert forall|k: int| 0 <= k < n && !(#[trigger] self.asks@[k] is Empty) implies present(
                active@,
                self.asks@[k].id_view()->Some_0,
            ) by {}
        }
    }
    /// Record the outcome of the queued REST cancel `k`: a pending cancel
    /// becomes Empty on success and CancelStuck on failure; a stuck one
    /// becomes Empty on success and otherwise stays, its id claimed.
    pub fn apply_rest_result(&mut self, k: usize, ok: bool)
        requires
            old(self).wf(),
            k < old(self).rest_queue@.len(),
        ensures
            final(self).wf(),
            old(self).steps_permitted(final(self)),
            old(self).none_leave_empty(final(self)),
            old(self).converged() ==> final(self).converged(),
            ({
                let e = old(self).rest_queue@[k as int];
                let side = e.side;
                let lv = e.level as int;
                &&& lv < old(self).levels@.len() ==> {
                    &&& final(self).cells(side) == old(self).cells(side).update(
                        lv,
                        rest_outcome(old(self).cells(side)[lv], e.order_id@, ok),
                    )
                    &&& permitted(old(self).cells(side)[lv], final(self).cells(side)[lv])
                    &&& ids_view(final(self).claimed@) == ids_view(old(self).claimed@) + (if !ok
                        && old(self).cells(side)[lv] is CancelStuck && old(self).cells(side)[lv].id_view()
                        == Some(e.order_id@) {
                        seq![e.order_id@]
                    } else {
                        seq![]
                    })
                }
                &&& lv >= old(self).levels@.len() ==> final(self).bids == old(self).bids
                    && final(self).asks == old(self).asks && final(self).claimed == old(self).claimed
                &&& final(self).cells(crate::engine::other_side(side)) == old(self).cells(
                    crate::engine::other_side(side),
                )
            }),
            final(self).commitments == old(self).commitments,
            final(self).active == old(self).active,
            final(self).balances == old(self).balances,
            final(self).levels == old(self).levels,
            final(self).rest_queue == old(self).rest_queue,
            final(self).recently_cancelled == old(self).recently_cancelled,
            final(self).ofi_paused == old(self).ofi_paused,
            final(self).intent == old(self).intent,
            final(self).order_notional == old(self).order_notional,
    {
        let side = self.rest_queue[k].side;
        let lv = self.rest_queue[k].level;
        if lv >= self.levels.len() {
            return;
        }
        let next: Option<LevelOrderState> = {
            let c = self.cell(side, lv);
            let id = &self.rest_queue[k].order_id;
            match c {
                LevelOrderState::CancelPending { order_id, price, .. } => {
                    if *order_id != *id {
                        None
                    } else if ok {
                        Some(LevelOrderState::Empty)
                    } else {
                        Some(LevelOrderState::CancelStuck { order_id: order_id.clone(), price: *price })
                    }
                },
                LevelOrderState::CancelStuck { order_id, .. } => {
                    if *order_id == *id && ok {
                        Some(LevelOrderState::Empty)
                    } else {
                        None
                    }
                },
                _ => None,
            }
        };
        let stuck_failed = !ok && match self.cell(side, lv) {
            LevelOrderState::CancelStuck { order_id, .. } => *order_id == self.rest_queue[k].order_id,
            _ => false,
        };
        if stuck_failed {
            let id = self.rest_queue[k].order_id.clone();
            let ghost cl = self.claimed@;
            self.claimed.push(id);
            proof {
                assert(ids_view(self.claimed@) =~= ids_view(cl) + seq![id@]);
            }
        } else {
            proof {
                assert(ids_view(self.claimed@) =~= ids_view(self.claimed@) + seq![]);
            }
        }
        if let Some(c2) = next {
            let ghost before = self.cells(side);
            match side {
                BookSide::Bid => self.bids.set(lv, c2),
                BookSide::Ask => self.asks.set(lv, c2),
            }
            proof {
                lemma_sums_nonlive_update(before, lv as int, c2, self.active@);
                assert(self.cells(side) =~= before.update(lv as int, c2));
            }
        } else {
            proof {
                assert(self.cells(side) =~= self.cells(side).update(lv as int, self.cells(side)[lv as int]));
            }
        }
    }

    /// Expire the orphan cancels remembered for 10 s or more at `now_ms`, then
    /// pick the orphans to cancel: active orders that no cell claims and that
    /// were not cancelled recently, in order, at most five. Each pick is
    /// remembered with `now_ms`.
    pub fn select_orphans(&mut self, now_ms: u64) -> (r: Vec<String>)
        requires
            old(self).wf(),
        ensures
            final(self).wf(),
            ids_view(r@) == orphan_picks(
                old(self).active@,
                ids_view(old(self).claimed@),
                recent_ids(unexpired(old(self).recently_cancelled@, now_ms)),
                MAX_ORPHAN_CANCELS as nat,
            ),
            final(self).recently_cancelled@.len() == unexpired(old(self).recently_cancelled@, now_ms).len() + r@.len(),
            recent_ids(final(self).recently_cancelled@) == recent_ids(
                unexpired(old(self).recently_cancelled@, now_ms),
            ) + ids_view(r@),
            forall|j: int|
                unexpired(old(self).recently_cancelled@, now_ms).len() <= j < final(self).recently_cancelled@.len()
                    ==> final(self).recently_cancelled@[j].1 == now_ms,
            final(self).bids == old(self).bids,
            final(self).asks == old(self).asks,
            final(self).commitments == old(self).commitments,
            final(self).active == old(self).active,
            final(self).balances == old(self).balances,
            final(self).levels == old(self).levels,
            final(self).claimed == old(self).claimed,
            final(self).rest_queue == old(self).rest_queue,
            final(self).ofi_paused == old(self).ofi_paused,
            final(self).intent == old(self).intent,
            final(self).order_notional == old(self).order_notional,
    {
        let mut kept: Vec<(String, u64)> = Vec::new();
        let ghost old_recent = self.recently_cancelled@;
        let mut i: usize = 0;
        while i < self.recently_cancelled.len()
            invariant
                0 <= i <= self.recently_cancelled@.len(),
                self.recently_cancelled@ == old_recent,
                kept@ == unexpired(old_recent.subrange(0, i as int), now_ms),
            decreases self.recently_cancelled@.len() - i,
        {
            let t = self.recently_cancelled[i].1;
            let gone = now_ms >= t && now_ms - t >= RECENT_TTL_MS;
            proof {
                assert(old_recent.subrange(0, i as int + 1) =~= old_recent.subrange(0, i as int).push(
                    old_recent[i as int],
                ));
                old_recent.subrange(0, i as int).lemma_filter_push(
                    old_recent[i as int],
                    |e: (String, u64)| !expired(e.1, now_ms),
                );
            }
            if !gone {
                let e = (self.recently_cancelled[i].0.clone(), t);
                kept.push(e);
            }
            i = i + 1;
        }
        proof {
            assert(old_recent.subrange(0, old_recent.len() as int) =~= old_recent);
        }
        self.recently_cancelled = kept;
        let ghost recent0 = recent_ids(self.recently_cancelled@);
        let ghost len0 = self.recently_cancelled@.len();
        let ghost target = orphan_picks(
            self.active@,
            ids_view(self.claimed@),
            recent0,
            MAX_ORPHAN_CANCELS as nat,
        );
        let mut picks: Vec<String> = Vec::new();
        let mut budget: usize = MAX_ORPHAN_CANCELS;
        let mut j: usize = 0;
        assert(self.active@.skip(0) =~= self.active@);
        while j < self.active.len()
            invariant
                0 <= j <= self.active@.len(),
                self.wf(),
                self.bids == old(self).bids,
                self.asks == old(self).asks,
                self.commitments == old(self).commitments,
                self.active == old(self).active,
                self.balances == old(self).balances,
                self.levels == old(self).levels,
                self.claimed == old(self).claimed,
                self.rest_queue == old(self).rest_queue,
                self.ofi_paused == old(self).ofi_paused,
                self.intent == old(self).intent,
                self.order_notional == old(self).order_notional,
                budget <= MAX_ORPHAN_CANCELS,
                self.recently_cancelled@.len() == len0 + picks@.len(),
                recent_ids(self.recently_cancelled@) == recent0 + ids_view(picks@),
                forall|q: int|
                    len0 <= q < self.recently_cancelled@.len() ==> (#[trigger] self.recently_cancelled@[q]).1
                        == now_ms,
                ids_view(picks@) + orphan_picks(
                    self.active@.skip(j as int),
                    ids_view(self.claimed@),
                    recent_ids(self.recently_cancelled@),
                    budget as nat,
                ) == target,
            decreases self.active@.len() - j,
        {
            let ghost rest = self.active@.skip(j as int);
            assert(rest.skip(1) =~= self.active@.skip(j as int + 1));
            if budget > 0 {
                let id = &self.active[j].order_id;
                let is_claimed = contains_id(&self.claimed, id);
                let is_recent = contains_recent(&self.recently_cancelled, id);
                if !is_claimed && !is_recent {
                    let ghost rc = self.recently_cancelled@;
                    let ghost pk = picks@;
                    let idc = id.clone();
                    let idc2 = id.clone();
                    picks.push(idc);
                    self.recently_cancelled.push((idc2, now_ms));
                    budget = budget - 1;
                    proof {
                        assert(recent_ids(self.recently_cancelled@) =~= recent_ids(rc).push(idc2@));
                        assert(ids_view(picks@) =~= ids_view(pk) + seq![idc@]);
                        assert(recent_ids(self.recently_cancelled@) =~= recent0 + ids_view(picks@));
                        assert(ids_view(picks@) + orphan_picks(
                            self.active@.skip(j as int + 1),
                            ids_view(self.claimed@),
                            recent_ids(self.recently_cancelled@),
                            budget as nat,
                        ) =~= ids_view(pk) + (seq![idc@] + orphan_picks(
                            self.active@.skip(j as int + 1),
                            ids_view(self.claimed@),
                            recent_ids(self.recently_cancelled@),
                            budget as nat,
                        )));
                    }
                }
            }
            j = j + 1;
        }
        proof {
            assert(self.active@.skip(self.active@.len() as int) =~= Seq::<ActiveOrder>::empty());
            assert(ids_view(picks@) + seq![] =~= ids_view(picks@));
        }
        picks
    }
}

} // verus!

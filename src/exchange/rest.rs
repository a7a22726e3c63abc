//! Shapes of the REST fills listing.
use vstd::prelude::*;

verus! {

#[derive(Debug, Clone)]
pub struct FillInfo {
    pub symbol: String,
    pub trade_id: String,
    pub order_id: String,
    pub side: String,
    pub price: String,
    pub size: String,
    pub fee: String,
    pub fee_currency: String,
    pub created_at: u64,
}

#[derive(Debug)]
pub struct FillsResponse {
    pub code: String,
    pub data: Option<FillsData>,
}

#[derive(Debug)]
pub struct FillsData {
    pub items: Vec<FillInfo>,
}

/// Trade ids already processed, so that a fill listed twice counts once.
pub struct SeenTrades {
    pub ids: Vec<String>,
}

pub open spec fn seen_view(v: Seq<String>) -> Seq<Seq<char>> {
    v.map_values(|s: String| s@)
}

impl SeenTrades {
    pub fn new() -> (r: SeenTrades)
        ensures
            r.ids@.len() == 0,
    {
        SeenTrades { ids: Vec::new() }
    }

    /// Record `trade_id`: `true` when it is new (it is then remembered),
    /// `false` when it was seen before (nothing changes).
    pub fn record_new(&mut self, trade_id: &str) -> (r: bool)
        ensures
            r == !seen_view(old(self).ids@).contains(trade_id@),
            r ==> seen_view(final(self).ids@) == seen_view(old(self).ids@).push(trade_id@),
            !r ==> final(self).ids == old(self).ids,
    {
        let key = String::from_str(trade_id);
        let mut i: usize = 0;
        while i < self.ids.len()
            invariant
                0 <= i <= self.ids@.len(),
                key@ == trade_id@,
                forall|k: int| 0 <= k < i ==> (#[trigger] self.ids@[k])@ != trade_id@,
            decreases self.ids@.len() - i,
        {
            if self.ids[i] == key {
                assert(seen_view(self.ids@)[i as int] == trade_id@);
                return false;
            }
            i = i + 1;
        }
        proof {
            if seen_view(self.ids@).contains(trade_id@) {
                let k = choose|k: int| 0 <= k < seen_view(self.ids@).len() && seen_view(self.ids@)[k] == trade_id@;
                assert(self.ids@[k]@ == trade_id@);
            }
        }
        let ghost before = self.ids@;
        self.ids.push(key);
        proof {
            assert(seen_view(self.ids@) =~= seen_view(before).push(trade_id@));
        }
        true
    }
}

} // verus!

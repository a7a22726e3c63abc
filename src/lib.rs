//! A verified order-lifecycle and reconciliation core for a multi-level,
//! post-only market maker on one spot pair.
use vstd::prelude::*;

pub mod cell;
pub mod exchange;
pub mod quote;
pub mod gates;
pub mod market_data;
pub mod commitments;
pub mod engine;
pub mod reconcile;
pub mod pnl;
pub mod text;

verus! {

} // verus!

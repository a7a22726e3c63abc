//! Counters of the private order-event feed.
use vstd::prelude::*;

verus! {

/// Connection counters of the private feed; instants are milliseconds of a
/// monotonic clock.
#[derive(Debug, Default, Clone)]
pub struct ReconnectStats {
    pub attempts: u32,
    pub last_connect: Option<u64>,
    pub last_disconnect: Option<u64>,
    pub total_disconnects: u32,
}

} // verus!

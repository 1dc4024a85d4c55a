//! The peer info refresh worker's decisions. Each tick selects the peers
//! whose metadata has gone stale; the caller runs one `getInfo` exchange
//! per selected peer and applies the outcome through
//! `update_db_peer_info`.

use vstd::prelude::*;

use crate::models::datastore::Datastore;
use crate::models::p2p::PeerAddress;

verus! {

/// Seconds between refresh ticks.
pub const REFRESH_TICK_SECONDS: u64 = 60;

/// A peer unseen for this long is refreshed.
pub const REFRESH_STALE_SECONDS: u64 = 60;

/// One refresh tick's selection: every peer that is not blacklisted and
/// has not been seen within the stale window, or ever.
pub fn peer_info_trader(database: &Datastore, now: u64) -> (r: Vec<PeerAddress>)
    requires
        database.wf(),
    ensures
        forall|k: int|
            0 <= k < r@.len() ==> database.is_refresh_candidate(
                #[trigger] r@[k],
                now,
                REFRESH_STALE_SECONDS,
            ),
        forall|i: int|
            0 <= i < database.peers@.len() && crate::models::datastore::spec_needs_refresh(
                #[trigger] database.peers@[i],
                now,
                REFRESH_STALE_SECONDS,
            ) ==> exists|k: int|
                0 <= k < r@.len() && r@[k] == database.peers@[i].announced_address,
        forall|k1: int, k2: int|
            0 <= k1 < k2 < r@.len() ==> (#[trigger] r@[k1]).key() != (#[trigger] r@[k2]).key(),
{
    database.get_peers_last_seen_before(now, REFRESH_STALE_SECONDS)
}

} // verus!

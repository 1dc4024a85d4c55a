//! The peer discovery worker's decisions. Each tick interrogates one
//! peer for its peer list; the addresses that come back are parsed and
//! routed into the registry by `register_peer_addresses`.

use vstd::prelude::*;

use crate::models::datastore::count_eligible;
use crate::models::datastore::Datastore;
use crate::models::p2p::PeerAddress;
use crate::sampling::random_index;

verus! {

/// Seconds between discovery ticks.
pub const DISCOVERY_TICK_SECONDS: u64 = 60;

/// This tick has nobody to ask for peers.
#[derive(Clone, Copy, Debug, PartialEq, Eq, Structural)]
pub enum PeerFinderError {
    /// The registry offers no eligible peer and the bootstrap list is
    /// empty: the node cannot take part in discovery at all.
    NoPeersAvailable,
}

/// Picks the peer this tick interrogates for its peer list: a uniformly
/// random non-blacklisted registry peer; only when the registry offers
/// none, a uniformly random bootstrap peer. Fails exactly when both
/// sources are empty.
pub fn choose_discovery_peer(
    database: &Datastore,
    bootstrap: &Vec<PeerAddress>,
    now: u64,
) -> (r: Result<PeerAddress, PeerFinderError>)
    requires
        database.wf(),
    ensures
        match r {
            Ok(a) => {
                &&& count_eligible(database.peers@, now) > 0 ==> database.is_eligible_address(
                    a,
                    now,
                )
                &&& count_eligible(database.peers@, now) == 0 ==> bootstrap@.contains(a)
            },
            Err(_) => count_eligible(database.peers@, now) == 0 && bootstrap@.len() == 0,
        },
        (r is Err) == (count_eligible(database.peers@, now) == 0 && bootstrap@.len() == 0),
{
    match database.get_random_peer(now) {
        Ok(a) => Ok(a),
        Err(_) => {
            if bootstrap.len() == 0 {
                Err(PeerFinderError::NoPeersAvailable)
            } else {
                let j = random_index(bootstrap.len());
                let picked = bootstrap[j].clone();
                proof {
                    assert(bootstrap@[j as int] == picked);
                }
                Ok(picked)
            }
        },
    }
}

} // verus!

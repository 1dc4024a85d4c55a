//! Peer metadata returned by a remote node's `getInfo` answer.

use vstd::prelude::*;

use crate::models::p2p::peer_address::PeerAddress;

verus! {

/// What a peer reports about itself. A peer that does not announce an
/// address is keyed by the address the transport observed for it.
#[derive(Debug)]
pub struct PeerInfo {
    pub announced_address: Option<PeerAddress>,
    pub application: String,
    pub version: String,
    pub platform: Option<String>,
    pub share_address: bool,
    pub network_name: String,
}

impl Clone for PeerInfo {
    /// Clones keep every field unchanged.
    fn clone(&self) -> (r: Self)
        ensures
            r == *self,
    {
        PeerInfo {
            announced_address: match &self.announced_address {
                Some(a) => Some(a.clone()),
                None => None,
            },
            application: self.application.clone(),
            version: self.version.clone(),
            platform: match &self.platform {
                Some(p) => Some(p.clone()),
                None => None,
            },
            share_address: self.share_address,
            network_name: self.network_name.clone(),
        }
    }
}

} // verus!

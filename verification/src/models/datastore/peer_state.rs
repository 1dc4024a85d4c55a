//! A compact per-peer transfer record kept beside the registry row.

use vstd::prelude::*;

use crate::models::p2p::peer_address::PeerAddress;

verus! {

#[derive(Debug)]
pub struct PeerState {
    pub address: PeerAddress,
    /// When the running blacklist was issued; `None` means not blacklisted.
    pub blacklist_timestamp: Option<u64>,
    pub brs_version: Option<String>,
    pub last_contact: Option<u64>,
    pub total_bytes_downloaded_lifetime: u64,
    pub total_bytes_uploaded_lifetime: u64,
}

} // verus!

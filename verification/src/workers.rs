//! The three background workers' decision cores: peer discovery, peer
//! info refresh, and the block download scheduler. The timer loops and
//! the network calls around them live at the caller's edge.

pub mod block_downloader;
pub mod peer_finder;
pub mod peer_info_trader;

//! Peer-to-peer wire models: addresses, peer metadata, difficulty values,
//! and block shapes.

pub mod b1_block;
pub mod cumulative_difficulty;
pub mod exchangeable_block;
pub mod peer_address;
pub mod peer_info;

pub use b1_block::B1Block;
pub use b1_block::B1Transaction;
pub use b1_block::B1TransactionAttachment;
pub use cumulative_difficulty::CumulativeDifficulty;
pub use exchangeable_block::ExchangeableBlock;
pub use peer_address::PeerAddress;
pub use peer_address::PeerAddressParseError;
pub use peer_info::PeerInfo;

//! Data models of the node: the peer-to-peer wire types and the registry.

pub mod datastore;
pub mod p2p;

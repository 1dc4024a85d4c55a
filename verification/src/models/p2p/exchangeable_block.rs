//! The block shape used when handing batches to another node or collaborator.

use vstd::prelude::*;

use crate::models::p2p::b1_block::B1Transaction;

verus! {

#[derive(Debug)]
pub struct ExchangeableBlock {
    pub version: u8,
    pub timestamp: String,
    pub previous_block: u64,
    pub total_amount_nqt: u64,
    pub total_fee_nqt: u64,
    pub total_fee_cashback_nqt: u64,
    pub total_fee_burnt_nqt: u64,
    pub payload_length: u32,
    pub payload_hash: String,
    pub generator_public_key: String,
    pub generation_signature: String,
    /// Only valid in v1 blocks.
    pub previous_block_hash: Option<String>,
    pub block_signature: String,
    pub transactions: Vec<B1Transaction>,
    pub nonce: u64,
    pub base_target: u64,
    pub block_ats: String,
}

} // verus!

//! Block and transaction shapes of the B1 wire protocol. The download
//! pipeline carries them opaquely; validation belongs to the ingestor.

use vstd::prelude::*;

verus! {

#[derive(Debug)]
pub struct B1Transaction {
    pub transaction_type: u8,
    pub subtype: u8,
    pub timestamp: u64,
    pub deadline: u16,
    pub sender_public_key: String,
    pub recipient: Option<u64>,
    pub amount_nqt: u64,
    pub fee_nqt: u64,
    pub ec_block_height: u32,
    pub ec_block_id: u64,
    pub cash_back_id: u64,
    pub signature: String,
    pub version: u8,
}

#[derive(Debug)]
pub enum B1TransactionAttachment {
    Message,
    EncryptedMessage,
    EncryptMessageToSelf,
    PublicKeyAnnouncement,
}

#[derive(Debug)]
pub struct B1Block {
    pub version: u8,
    pub timestamp: String,
    pub previous_block: u64,
    pub total_amount_nqt: u64,
    pub total_fee_nqt: u64,
    pub total_fee_cashback_nqt: u64,
    pub total_fee_burnt_nqt: u64,
    pub payload_length: u32,
    pub payload_hash: String,
    pub generator_public_key: String,
    pub generation_signature: String,
    /// Only valid in v1 blocks.
    pub previous_block_hash: Option<String>,
    pub block_signature: String,
    pub transactions: Vec<B1Transaction>,
    pub nonce: u64,
    pub base_target: u64,
    pub block_ats: Option<String>,
}

} // verus!

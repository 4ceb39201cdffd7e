//! A batch of deposits and signed transfers over a list of accounts, as it is
//! handed to the state transition.

use vstd::prelude::*;

verus! {

/// Balance and nonce of one account of the batch.
#[derive(Clone, Copy, Debug)]
pub struct LeafData {
    pub balance: u64,
    pub nonce: u64,
}

/// The signer's address and the signature `r ‖ s ‖ v` in hex.
#[derive(Clone, Debug)]
pub struct SignatureInfo {
    pub pub_key: String,
    pub signature: String,
}

/// A signed transfer between two addresses.
#[derive(Clone, Debug)]
pub struct Transaction {
    pub from: String,
    pub to: String,
    pub amount: u64,
    pub nonce: u64,
    pub signature: SignatureInfo,
}

/// A deposit credited to an address.
#[derive(Clone, Debug)]
pub struct DepositInfo {
    pub deposit_id: u64,
    pub user: String,
    pub amount: u64,
}

/// The batch: declared roots, the accounts with their addresses, and what is
/// to be applied to them. The account at index `i` belongs to the address at
/// index `i`.
#[derive(Clone, Debug)]
pub struct Batch {
    pub old_merkle_root: String,
    pub new_merkle_root: String,
    pub leaf_data: Vec<LeafData>,
    pub transactions: Vec<Transaction>,
    pub deposits: Vec<DepositInfo>,
    pub badge_id: u32,
    pub addresses: Vec<String>,
}

} // verus!

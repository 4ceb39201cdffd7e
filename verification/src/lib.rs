//! Batch state transition, signature checking and settlement encoding for a
//! rollup whose account state lives in a sparse Merkle tree.

pub mod accounts;
pub mod batch;
pub mod bytes;
pub mod eth_sign;
pub mod hash;
pub mod hexstr;
pub mod settlement;
pub mod signature;
pub mod state_tree;
pub mod text;
pub mod transition;
pub mod transition_laws;

//! A fragment-acknowledgement token ledger and the claim rounds that mint
//! through it after checking Merkle Mountain Range membership proofs.

mod account;
mod assoc;
pub mod laws;
pub mod ledger;
pub mod mmr;
pub mod ownable;
pub mod round;
pub mod token_id;

pub use account::AccountId;

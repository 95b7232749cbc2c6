//! Confidential balances for an account-based ledger: the fixed-layout proof
//! codec, the shielded ledger state machine, accounts and commitment records.
pub mod account;
pub mod bytes;
pub mod codec;
pub mod commitment;
pub mod entropy;
pub mod error;
pub mod point;
pub mod privacy;
pub mod rlp_codec;
pub mod table;

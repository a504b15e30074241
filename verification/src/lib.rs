//! A single-node proof-of-work ledger: signed transfers, account balances with
//! replay-protection nonces, block sealing and chain validation.
//!
//! Amounts are whole numbers of base units (`account::UNITS_PER_COIN` to the
//! coin). Reading and writing the persistent store, and serving requests, is
//! left to the program around this library.

pub mod account;
pub mod block;
pub mod chain;
pub mod crypto;
pub mod digest;
pub mod invariants;
pub mod stamp;
pub mod storage;
pub mod supply;
pub mod text;
pub mod transaction;

pub use crate::block::Block;
pub use crate::chain::Blockchain;
pub use crate::crypto::{Address, DigitalSignature, Wallet};
pub use crate::transaction::Transaction;

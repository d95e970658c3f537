//! On-chain settlement engine: fee-splitting transfer transactions tagged
//! with a searchable reference, envelope encryption of the operator signing
//! key, decoding and verification of ledger-native transfer instructions,
//! and the bounded reconciliation loop that resolves a pending transfer.

pub mod errors;
pub mod fees;
pub mod account;
pub mod token_instruction;
pub mod message;
pub mod codec;
pub mod trusted;
pub mod custody;
pub mod instruction;
pub mod store;
pub mod indexer;
pub mod web3;
pub mod payment;
pub mod config;
pub mod ctx;
pub mod auth;

//! Ledger logic of a multisignature wallet service: wallets, trusted
//! co-signers, pending transfers, approvals and settlement, with a
//! hash-chained history per wallet.

pub mod api;
pub mod crypto;
pub mod digest;
pub mod laws;
pub mod ledger;
pub mod lookup;
pub mod policy;
pub mod schema;
pub mod service;
pub mod transaction;
pub mod wallet;

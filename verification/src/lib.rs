//! A DIP-721-style non-fungible-token ledger: a token table with owner and
//! operator secondary indices, kept consistent by a mint / approve / transfer /
//! burn state machine, together with canister-level metadata and a monotonic
//! transaction counter.

pub mod laws;
pub mod ledger;
pub mod service;
pub mod types;

//! A small on-chain ledger-and-distribution library: a labeled value with
//! per-caller usage counters, owner-gated withdrawal, single and batched
//! transfers of native currency and of third-party token balances, and a
//! read-only portfolio aggregator that tolerates per-token failures.
//!
//! All logic is stated over plain values: the host execution context (caller
//! identity, attached value, balances, raw external-call dispatch) is handed
//! in as arguments, and the actions to perform (transfers, external calls,
//! events) are handed back as values.

pub mod abi;
pub mod address;
pub mod errors;
pub mod events;
pub mod ledger;
pub mod ownable;
pub mod portfolio;
pub mod tally;
pub mod u256;

//! Core accounting of a multi-asset custodial vault.
//!
//! The vault holds deposits on behalf of many accounts, represents ownership
//! as fungible shares per asset class, and settles transfers against an
//! external custody system through an asynchronous request/confirmation
//! protocol.  This crate holds the part that must stay consistent while that
//! external leg is outstanding: the share ledger, the reserve tracker, the
//! settlement state machine and the bounded event log, composed by a vault
//! service that enforces policy.  All state lives in explicit values passed
//! into every operation; the host that performs the external transfers and
//! delivers their outcomes lives outside this crate.

pub mod asset;
pub mod errors;
pub mod events;
pub mod laws;
pub mod ledger;
pub mod reserve;
pub mod settlement;
pub mod strategy;
pub mod vault;

//! A blood-supply-chain ledger: blood-unit inventory and hospital blood
//! requests, tracked through authorized, validated, audited status
//! transitions.
//!
//! The ledger runs atop a host that supplies persistent storage, caller
//! authentication, a clock, and an event log.  That host is not part of this
//! crate: each contract surface is modeled as an explicit state value, the
//! host clock enters as a plain `now` argument, and the authenticated caller
//! enters as a plain numeric identity.  Everything the contracts decide —
//! which transitions are legal, which inputs are rejected, what is recorded
//! for audit — is verified here.

pub mod errors;
pub mod healthchain;
pub mod inventory;
pub mod requests;
pub mod sorting;
pub mod storage;
pub mod transitions;
pub mod types;
pub mod validation;

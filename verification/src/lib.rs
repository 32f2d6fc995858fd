//! Client-side transfer submission pipeline for a tangle ledger.
//!
//! The crate turns a caller's intent — "send these value transfers, signed by
//! this seed" — into a fully formed, proof-of-work-sealed bundle of
//! transactions ready for network submission: address derivation from a seed,
//! transfer validation, bundle construction balanced to zero, proof-of-work
//! attachment with chained trunk references, and broadcast validation, all
//! orchestrated through a configurable builder with safe defaults.

pub mod trits;
pub mod error;
pub mod crypto;
pub mod address;
pub mod transfer;
pub mod transaction;
pub mod bundle;
pub mod attach;
pub mod send;

//! Dynamic storage accounting: a per-account prepaid-balance ledger and the
//! per-call measurement session that records how many storage bytes one
//! operation consumed.
//!
//! The host's live usage counter and its byte price are read outside this
//! library and handed in as plain values; everything decided on them —
//! the session state machine, the clamping of usage deltas, the
//! withdraw/unregister arithmetic — is verified here.

pub mod errors;
pub mod storage_measurement;
pub mod account_storage;
pub mod dynamic_storage_manager;

//! A small lending protocol: a scoring oracle, a bounded audit log, per-actor
//! stores behind an authorization gate, and the loan ledger that ties them
//! together.

pub mod actor;
pub mod book;
pub mod error;
pub mod event_log;
pub mod gate;
pub mod ledger;
pub mod ratio;
pub mod scoring;
pub mod text;

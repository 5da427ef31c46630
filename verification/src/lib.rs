//! A verified model of a blockchain client's block import and finalization
//! pipeline: an in-memory backend of headers, bodies and state snapshots, a
//! block builder with a resource budget, a synchronous importer that applies
//! fork choice and keeps finalization irreversible, and a finalizer that
//! reports its outcome to the caller.

pub mod types;
pub mod ledger;
pub mod backend;
pub mod import;
pub mod finalize;
pub mod builder;
pub mod harness;

//! Native chain records mapped to the JSON documents that clients of the
//! Cosmos SDK REST query API expect.
//!
//! The crate holds the pure part of a compatibility gateway: every function
//! takes native records as plain values and returns a [`json::Json`] document
//! (or an error) that is fully determined by its arguments. Fetching the
//! records and serving the documents is left to the caller.

pub mod chain;
pub mod codec;
pub mod decimal;
pub mod error;
pub mod governance;
pub mod identity;
pub mod json;
pub mod slashing;
pub mod staking;

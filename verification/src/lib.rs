//! Validator performance and reward-ranking metrics for a proof-of-stake
//! ledger, and the billing-cycle windows used to query bandwidth usage.
//!
//! Every function here computes on snapshots that the caller has already
//! fetched; nothing in this crate talks to a node or to an HTTP endpoint.

pub mod accounts;
pub mod calendar;
pub mod commission;
pub mod encoding;
pub mod epoch;
pub mod identity;
pub mod json;
pub mod latitude;
pub mod ranking;
pub mod scanner;
pub mod status;

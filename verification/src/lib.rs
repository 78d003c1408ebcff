//! Verified retrieval pipeline for a classified-ads marketplace query API.
//!
//! The library covers session bootstrap (anti-forgery token extraction),
//! page-request construction, response-envelope classification, and the
//! orchestration of concurrent page fetches with ordered aggregation and
//! all-or-nothing failure semantics. Network I/O itself lives outside the
//! library; callers drive the orchestrator state machine and perform the
//! requests it asks for.

pub mod browse;
pub mod client;
pub mod errors;
pub mod graphql;
pub mod listings;
pub mod util;

use vstd::prelude::*;

verus! {

} // verus!

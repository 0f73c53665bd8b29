//! A site-wide broken-link checker.
//!
//! Given a root URL, the engine discovers every internally reachable page of
//! that site and every externally referenced link on those pages, validates
//! each discovered URL over HTTP, and reports which of them fail to respond
//! with a healthy status.
//!
//! The crate holds the crawl engine itself: URL normalization, the
//! classification of discovered references into pages and external links, the
//! retry/backoff policy, the concurrency admission gate, the frontier-driven
//! traversal, and the final report. Network transport is supplied from the
//! outside, either as a live HTTP client or as a scripted site model.

pub mod classify;
pub mod engine;
pub mod extract;
pub mod fetch;
pub mod gate;
pub mod norm;
pub mod report;
pub mod result;
pub mod state;
pub mod text;

use vstd::prelude::*;

verus! {

/// Runtime switches chosen by the operator.
pub struct Flags {
    pub debug: bool,
    pub progress: bool,
    pub timer: bool,
}

} // verus!

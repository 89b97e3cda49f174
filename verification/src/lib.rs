//! Billing-cycle bandwidth quota engine.
//!
//! The library parses human-readable quota strings into exact byte counts,
//! computes the time window since the start of the current monthly billing
//! cycle for an arbitrary reset day, resolves per-instance quota limits with
//! an effectively-unlimited fallback, and assembles per-instance usage
//! reports from counter deltas fetched from a metrics backend. The HTTP
//! plumbing that feeds it lives outside the library.

use vstd::prelude::*;

pub mod calendar;
pub mod config;
pub mod report;
pub mod units;
pub mod url;

verus! {

/// Greeting served at the root route of the surrounding HTTP front-end.
pub fn index() -> (r: &'static str)
    ensures
        r@ == "Hello, world!"@,
{
    "Hello, world!"
}

} // verus!

//! Payment routing with smart retry for a merchant operating in Brazil,
//! Mexico and Colombia.
//!
//! The crate holds a seeded model of payment service providers, the routing
//! engine that walks them in a chosen order and cascades on failure, and the
//! aggregation of batch results into a performance report. Every quantity
//! that is a fraction in the domain (rates, fees, amounts, averages) is held
//! as an integer in a fixed unit, so that all contracts are exact.

use vstd::prelude::*;

pub mod api;
pub mod calendar;
pub mod data;
pub mod engine;
pub mod models;
pub mod report;
pub mod seeded;
pub mod simulator;
pub mod text;

verus! {

/// The version of this library. Never empty.
pub fn version() -> (v: &'static str)
    ensures
        v@ == "0.1.0"@,
        v@.len() == 5,
{
    proof {
        reveal_strlit("0.1.0");
    }
    "0.1.0"
}

} // verus!

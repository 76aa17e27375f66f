//! Logtime computation for a campus access-control API: date-span
//! resolution, credential exchange, user lookup, presence-interval
//! retrieval and aggregation, and sequential batch processing.

pub mod batch;
pub mod config;
pub mod date;
pub mod error;
pub mod intervals;
pub mod request;
pub mod span;
pub mod text;

use vstd::prelude::*;

verus! {

} // verus!

//! Funding-rate arbitrage across perpetual-futures venues: normalizing published rates,
//! pairing and ranking cross-venue spreads net of fees, sizing two delta-neutral legs, and
//! the execution coordinator's state machine over both legs of a cycle.

use vstd::prelude::*;

pub mod decimal;
pub mod feed;
pub mod ingest;
pub mod orders;
pub mod query;
pub mod schedule;
pub mod sizing;
pub mod spread;
pub mod strategy;
pub mod venue;

verus! {

} // verus!

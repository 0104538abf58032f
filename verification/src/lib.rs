//! Fractional-ownership auction and usage-licence marketplace core.
//!
//! Parties bid to own percentage slices ("slots") of a content item; buyers
//! may purchase usage licences whose price is split among current fractional
//! owners. This crate holds the verified engine: the content registry, the
//! bid slot allocator with eviction and refund semantics, the ownership
//! aggregator, the licence purchase flow, and the reentrancy guard. External
//! effects (token mints and transfers, value payouts) are returned as plain
//! command values for the embedding host to dispatch.

use vstd::prelude::*;

pub mod agg;
pub mod content;
pub mod contract;
pub mod events;
pub mod money;
pub mod outcome;
pub mod parse;
pub mod sortslots;
pub mod text;
pub mod wire;

verus! {

/// The number of auctionable slots per content item; each slot is worth one
/// percentage point of ownership.
pub const BIDPT: usize = 10;

} // verus!

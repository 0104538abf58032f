//! Monetary arithmetic for the marketplace.
//!
//! All amounts are kept in milli-units: thousandths of the human-scaled
//! currency unit (the payment token carries three decimals). Working on
//! integers keeps every division exact enough to state, and the royalty
//! split below is conservative by construction: the platform receives
//! whatever integer remainder the creator's nine-tenths share leaves behind.

use vstd::prelude::*;

verus! {

/// Upper bound on any single amount accepted by the engine, in milli-units.
/// Keeping amounts below 2^48 lets every sum and product the engine forms
/// (ten slot values, a royalty times nine, a share times one hundred points)
/// fit in a `u64` without overflow.
pub const MAX_AMOUNT: u64 = 0xFFFF_FFFF_FFFF;

/// Threshold below which an unspent remainder of a bid is kept rather than
/// refunded: 0.001 currency units.
pub const UNSPENT_EPSILON: u64 = 1;

/// Reserve price for a licence on content that has never been bid on:
/// 0.05 currency units.
pub const NEW_CONTENT_RESERVE: u64 = 50;

/// Account that receives the platform's share of every royalty and licence.
pub const TREASURY_ID: &'static str = "botticelli.testnet";

/// The creator's nine-tenths share of a royalty `delta`, rounded down.
pub open spec fn creator_share(delta: int) -> int {
    delta * 9 / 10
}

/// The platform's share of a royalty `delta`: whatever the creator's share
/// leaves behind, so the two always sum to exactly `delta`.
pub open spec fn platform_share(delta: int) -> int {
    delta - creator_share(delta)
}

/// Splits a royalty `delta` into the creator's and the platform's share.
pub fn split_royalty(delta: u64) -> (r: (u64, u64))
    requires
        delta <= MAX_AMOUNT,
    ensures
        r.0 == creator_share(delta as int),
        r.1 == platform_share(delta as int),
        r.0 + r.1 == delta,
{
    let creator: u64 = delta * 9 / 10;
    let platform: u64 = delta - creator;
    (creator, platform)
}

} // verus!

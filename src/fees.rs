//! Taker fee tiers of the order-book venue.
use vstd::prelude::*;

use crate::token::{same_key, Pubkey};

verus! {

/// The market that trades at the reduced stable-pair fee
/// (B2na8Awyd7cpC59iEU43FagJAPLigr3AP3s38KM982bu).
pub const STABLE_MARKET: Pubkey = [
    149, 9, 250, 59, 232, 247, 93, 58, 154, 209, 100, 226, 67, 110, 34, 11,
    128, 184, 51, 60, 130, 111, 107, 92, 209, 205, 230, 36, 82, 153, 61, 36,
];

#[derive(Clone, Copy, Debug, PartialEq, Eq, Structural)]
pub enum FeeTier {
    Base,
    _SRM2,
    _SRM3,
    _SRM4,
    _SRM5,
    _SRM6,
    _MSRM,
    Stable,
}

impl FeeTier {
    /// The fee tier of a market: the stable tier for the stable-pair market,
    /// the base tier for every other.
    pub fn from_srm_and_msrm_balances(market: &Pubkey) -> (r: FeeTier)
        ensures
            r == (if market@ == STABLE_MARKET@ { FeeTier::Stable } else { FeeTier::Base }),
    {
        let stable = STABLE_MARKET;
        if same_key(market, &stable) {
            FeeTier::Stable
        } else {
            FeeTier::Base
        }
    }

    pub open spec fn spec_taker_rate_fraction(&self) -> (u64, u64) {
        match self {
            FeeTier::Stable => (5, 100_000),
            _ => (20, 100_000),
        }
    }

    /// The taker fee as (numerator, denominator).
    pub fn taker_rate_fraction(&self) -> (r: (u64, u64))
        ensures
            r == self.spec_taker_rate_fraction(),
    {
        match self {
            FeeTier::Stable => (5, 100_000),
            _ => (20, 100_000),
        }
    }
}

} // verus!

//! Errors of route building and bounded execution.
use vstd::prelude::*;

verus! {

#[derive(Clone, Copy, Debug, PartialEq, Eq, Structural)]
pub enum ErrorCode {
    /// The projected or realized price crosses the bound.
    MarketPriceIsOutOfBounds,
    /// No market lot sizes were supplied for an order-book leg.
    FailedToLoadOpenBookDexMarket,
    /// The first account of a leg is no known exchange program.
    UknownDexId,
    /// The route does not end in the expected token.
    OutputMintMismatch,
    /// The route does not start from the expected token.
    InputMintMismatch,
    /// A leg has fewer accounts than its exchange needs.
    IncorrectKeysForLeg,
    /// The leg configuration bytes ran out.
    MissingLegData,
    /// Configuration bytes are left over once every leg has taken its own.
    UnusedLegData,
    /// An account's data is too short for the fields read from it.
    AccountDataTooShort,
    /// The order tree of a market could not be decoded.
    MalformedOrderBook,
    /// The accounts describe more legs than a route holds.
    TooManyLegs,
    /// The route holds no leg.
    EmptyRoute,
    /// An amount overflowed or a balance fell below what it must cover.
    ArithmeticFailure,
}

} // verus!

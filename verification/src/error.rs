//! The ways in which an operation of the engine can be refused.

use vstd::prelude::*;

verus! {

/// Why an operation was refused. A refused operation changes nothing.
#[derive(Clone, Copy, Debug, PartialEq, Eq, Structural)]
pub enum Error {
    /// The oracle has no price for the pair of currencies.
    NoPrice,
    /// The pool has no ask spread for the held currency.
    NoAskSpread,
    /// The pool has no bid spread for the held currency.
    NoBidSpread,
    /// The ask price is above the highest price the caller accepts.
    MarketPriceTooHigh,
    /// The bid price is below the lowest price the caller accepts.
    MarketPriceTooLow,
    /// A quantity would leave the range in which it is kept.
    NumOutOfBound,
    /// The amount is more than the trader's free balance.
    InsufficientFreeBalance,
    /// No open position has the given identifier.
    PositionNotFound,
    /// The position belongs to another trader.
    NotPositionOwner,
    /// The trader cannot be margin called.
    SafeTrader,
    /// The trader cannot be declared safe.
    UnsafeTrader,
    /// The pool cannot be margin called.
    SafePool,
    /// The pool cannot be declared safe.
    UnsafePool,
    /// The stop-out threshold has not been reached.
    NotReachedRiskThreshold,
}

} // verus!

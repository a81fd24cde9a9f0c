//! Identifiers and small value types shared by the whole crate.

use crate::fixed::{Fixed128, FixedU128};
use vstd::prelude::*;

verus! {

/// Identifies a liquidity pool.
pub type LiquidityPoolId = u32;

/// Identifies a trader.
pub type AccountId = u64;

/// Identifies a position; assigned in strictly increasing order.
pub type PositionId = u64;

/// An amount of collateral, counted in `10^-18` units.
pub type Balance = u128;

/// A price or rate of exchange between two currencies.
pub type Price = FixedU128;

/// The currencies that can be held, owed or priced.
#[derive(Clone, Copy, Debug, PartialEq, Eq, Structural, Hash)]
pub enum CurrencyId {
    LAMI,
    AUSD,
    FEUR,
    FJPY,
    FBTC,
    FETH,
}

impl CurrencyId {
    /// A small number that stands for the currency in keyed tables.
    pub open spec fn spec_code(self) -> u8 {
        match self {
            CurrencyId::LAMI => 0,
            CurrencyId::AUSD => 1,
            CurrencyId::FEUR => 2,
            CurrencyId::FJPY => 3,
            CurrencyId::FBTC => 4,
            CurrencyId::FETH => 5,
        }
    }

    pub fn code(self) -> (r: u8)
        ensures
            r == self.spec_code(),
            r < 6,
    {
        match self {
            CurrencyId::LAMI => 0,
            CurrencyId::AUSD => 1,
            CurrencyId::FEUR => 2,
            CurrencyId::FJPY => 3,
            CurrencyId::FBTC => 4,
            CurrencyId::FETH => 5,
        }
    }
}

/// Direction and multiple of a leveraged position.
#[derive(Clone, Copy, Debug, PartialEq, Eq, Structural, Hash)]
pub enum Leverage {
    LongTwo,
    LongThree,
    LongFive,
    LongTen,
    LongTwenty,
    LongThirty,
    LongFifty,
    ShortTwo,
    ShortThree,
    ShortFive,
    ShortTen,
    ShortTwenty,
    ShortThirty,
    ShortFifty,
}

impl Leverage {
    pub open spec fn spec_is_long(self) -> bool {
        match self {
            Leverage::LongTwo
            | Leverage::LongThree
            | Leverage::LongFive
            | Leverage::LongTen
            | Leverage::LongTwenty
            | Leverage::LongThirty
            | Leverage::LongFifty => true,
            _ => false,
        }
    }

    pub open spec fn spec_value(self) -> u8 {
        match self {
            Leverage::LongTwo | Leverage::ShortTwo => 2,
            Leverage::LongThree | Leverage::ShortThree => 3,
            Leverage::LongFive | Leverage::ShortFive => 5,
            Leverage::LongTen | Leverage::ShortTen => 10,
            Leverage::LongTwenty | Leverage::ShortTwenty => 20,
            Leverage::LongThirty | Leverage::ShortThirty => 30,
            Leverage::LongFifty | Leverage::ShortFifty => 50,
        }
    }

    pub fn is_long(self) -> (r: bool)
        ensures
            r == self.spec_is_long(),
    {
        match self {
            Leverage::LongTwo
            | Leverage::LongThree
            | Leverage::LongFive
            | Leverage::LongTen
            | Leverage::LongTwenty
            | Leverage::LongThirty
            | Leverage::LongFifty => true,
            _ => false,
        }
    }

    pub fn is_short(self) -> (r: bool)
        ensures
            r == !self.spec_is_long(),
    {
        !self.is_long()
    }

    /// The multiple of the committed collateral that the position controls.
    pub fn value(self) -> (r: u8)
        ensures
            r == self.spec_value(),
    {
        match self {
            Leverage::LongTwo | Leverage::ShortTwo => 2,
            Leverage::LongThree | Leverage::ShortThree => 3,
            Leverage::LongFive | Leverage::ShortFive => 5,
            Leverage::LongTen | Leverage::ShortTen => 10,
            Leverage::LongTwenty | Leverage::ShortTwenty => 20,
            Leverage::LongThirty | Leverage::ShortThirty => 30,
            Leverage::LongFifty | Leverage::ShortFifty => 50,
        }
    }
}

/// The two currencies of a position: `quote` is held, `base` is owed.
#[derive(Clone, Copy, Debug, PartialEq, Eq, Structural, Hash)]
pub struct TradingPair {
    pub base: CurrencyId,
    pub quote: CurrencyId,
}

impl TradingPair {
    /// A small number that stands for the pair in keyed tables.
    pub open spec fn spec_code(self) -> u8 {
        (self.base.spec_code() * 8 + self.quote.spec_code()) as u8
    }

    pub fn code(self) -> (r: u8)
        ensures
            r == self.spec_code(),
    {
        self.base.code() * 8 + self.quote.code()
    }
}

/// Different currencies have different codes.
pub proof fn lemma_currency_code_injective(a: CurrencyId, b: CurrencyId)
    ensures
        a.spec_code() == b.spec_code() <==> a == b,
{
}

/// Different pairs have different codes.
pub proof fn lemma_pair_code_injective(a: TradingPair, b: TradingPair)
    ensures
        a.spec_code() == b.spec_code() <==> a == b,
{
    lemma_currency_code_injective(a.base, b.base);
    lemma_currency_code_injective(a.quote, b.quote);
}

/// An amount of collateral as a signed fixed-point number.
pub open spec fn spec_fixed_128_from_u128(n: u128) -> Option<Fixed128> {
    Fixed128::spec_from_unsigned(n)
}

/// A price as a signed fixed-point number.
pub open spec fn spec_fixed_128_from_fixed_u128(f: FixedU128) -> Option<Fixed128> {
    Fixed128::spec_from_unsigned(f.inner)
}

/// Reads an amount of collateral as a signed fixed-point number; `None`
/// when it is beyond the signed range.
pub fn fixed_128_from_u128(n: u128) -> (r: Option<Fixed128>)
    ensures
        r == spec_fixed_128_from_u128(n),
{
    Fixed128::checked_from_unsigned(n)
}

/// Reads a price as a signed fixed-point number; `None` when it is beyond
/// the signed range.
pub fn fixed_128_from_fixed_u128(f: FixedU128) -> (r: Option<Fixed128>)
    ensures
        r == spec_fixed_128_from_fixed_u128(f),
{
    Fixed128::checked_from_unsigned(f.deconstruct())
}

} // verus!

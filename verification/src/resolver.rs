//! Turns oracle prices and pool spreads into the prices at which a pool
//! trades, and values amounts in USD.

use crate::error::Error;
use crate::fixed::{ACCURACY, Fixed128, FixedU128};
use crate::pools::{LiquidityPools, PoolsView};
use crate::prices::{spec_quote, PriceProvider, Quotes};
use crate::primitives::{
    fixed_128_from_fixed_u128, spec_fixed_128_from_fixed_u128, CurrencyId, LiquidityPoolId, Price,
};
use vstd::prelude::*;

verus! {

/// A value that may be missing because it left the fixed-point range.
pub open spec fn in_bound(value: Option<Fixed128>) -> Result<Fixed128, Error> {
    match value {
        Some(v) => Ok(v),
        None => Err(Error::NumOutOfBound),
    }
}

/// The price one.
pub open spec fn spec_one() -> Price {
    FixedU128 { inner: ACCURACY }
}

/// The oracle price of `quote` in units of `base`, or `NoPrice`.
pub open spec fn spec_oracle_price(
    prices: Quotes,
    base: CurrencyId,
    quote: CurrencyId,
) -> Result<Price, Error> {
    match spec_quote(prices, base, quote) {
        Some(p) => Ok(p),
        None => Err(Error::NoPrice),
    }
}

/// The price at which `pool` sells `held` for `debit`: the oracle price
/// raised by the ask spread, saturating. Refused with `NoPrice`, then
/// `NoAskSpread`, then `MarketPriceTooHigh` when it exceeds `max`.
pub open spec fn spec_ask_price(
    prices: Quotes,
    pools: PoolsView,
    pool: LiquidityPoolId,
    held: CurrencyId,
    debit: CurrencyId,
    max: Option<Price>,
) -> Result<Price, Error> {
    match spec_quote(prices, debit, held) {
        None => Err(Error::NoPrice),
        Some(price) => match pools.ask_spread(pool, held) {
            None => Err(Error::NoAskSpread),
            Some(spread) => {
                let ask = spec_one().spec_saturating_add(
                    FixedU128::spec_from_permill(spread),
                ).spec_saturating_mul(price);
                if max is Some && ask.inner > max->0.inner {
                    Err(Error::MarketPriceTooHigh)
                } else {
                    Ok(ask)
                }
            },
        },
    }
}

/// The price at which `pool` buys `held` for `debit`: the oracle price
/// lowered by the bid spread, saturating. Refused with `NoPrice`, then
/// `NoBidSpread`.
pub open spec fn spec_bid_price(
    prices: Quotes,
    pools: PoolsView,
    pool: LiquidityPoolId,
    held: CurrencyId,
    debit: CurrencyId,
) -> Result<Price, Error> {
    match spec_quote(prices, debit, held) {
        None => Err(Error::NoPrice),
        Some(price) => match pools.bid_spread(pool, held) {
            None => Err(Error::NoBidSpread),
            Some(spread) => Ok(
                spec_one().spec_saturating_sub(
                    FixedU128::spec_from_permill(spread),
                ).spec_saturating_mul(price),
            ),
        },
    }
}

/// The price at which a position in `held` against `debit` is opened.
/// A long position buys at the ask price, which may not exceed `limit`;
/// a short position sells at the bid price, which may not fall below
/// `limit`, or the opening is refused with `MarketPriceTooLow`.
pub open spec fn spec_opening_price(
    prices: Quotes,
    pools: PoolsView,
    pool: LiquidityPoolId,
    held: CurrencyId,
    debit: CurrencyId,
    long: bool,
    limit: Price,
) -> Result<Price, Error> {
    if long {
        spec_ask_price(prices, pools, pool, held, debit, Some(limit))
    } else {
        match spec_bid_price(prices, pools, pool, held, debit) {
            Err(e) => Err(e),
            Ok(bid) => if bid.inner < limit.inner {
                Err(Error::MarketPriceTooLow)
            } else {
                Ok(bid)
            },
        }
    }
}

/// The price at which a position in `held` against `debit` is valued and
/// closed: a long position sells at the bid price, a short position buys
/// back at the ask price.
pub open spec fn spec_closing_price(
    prices: Quotes,
    pools: PoolsView,
    pool: LiquidityPoolId,
    held: CurrencyId,
    debit: CurrencyId,
    long: bool,
) -> Result<Price, Error> {
    if long {
        spec_bid_price(prices, pools, pool, held, debit)
    } else {
        spec_ask_price(prices, pools, pool, held, debit, None)
    }
}

/// The value in USD of `amount` of `currency`: the amount times the
/// oracle price of the currency in AUSD. Refused with `NoPrice`, or with
/// `NumOutOfBound` when the price or the product is out of range.
pub open spec fn spec_usd_value(
    prices: Quotes,
    currency: CurrencyId,
    amount: Fixed128,
) -> Result<Fixed128, Error> {
    match spec_quote(prices, CurrencyId::AUSD, currency) {
        None => Err(Error::NoPrice),
        Some(p) => match spec_fixed_128_from_fixed_u128(p) {
            None => Err(Error::NumOutOfBound),
            Some(price) => in_bound(amount.spec_checked_mul(price)),
        },
    }
}

/// The oracle price of `quote` in units of `base`.
pub fn price<P: PriceProvider>(prices: &P, base: CurrencyId, quote: CurrencyId) -> (r: Result<
    Price,
    Error,
>)
    ensures
        r == spec_oracle_price(prices.quotes(), base, quote),
{
    match prices.get_price(base, quote) {
        Some(p) => Ok(p),
        None => Err(Error::NoPrice),
    }
}

/// The price at which `pool` sells `held` for `debit`, guarded by the
/// highest price `max` that the caller accepts.
pub fn ask_price<P: PriceProvider, L: LiquidityPools>(
    prices: &P,
    pools: &L,
    pool: LiquidityPoolId,
    held: CurrencyId,
    debit: CurrencyId,
    max: Option<Price>,
) -> (r: Result<Price, Error>)
    ensures
        r == spec_ask_price(prices.quotes(), pools@, pool, held, debit, max),
{
    let oracle = match prices.get_price(debit, held) {
        Some(p) => p,
        None => {
            return Err(Error::NoPrice);
        },
    };
    let spread = match pools.get_ask_spread(pool, held) {
        Some(s) => FixedU128::from_permill(s),
        None => {
            return Err(Error::NoAskSpread);
        },
    };
    let ask = FixedU128::from_natural(1).saturating_add(spread).saturating_mul(oracle);
    if let Some(m) = max {
        if ask.gt(&m) {
            return Err(Error::MarketPriceTooHigh);
        }
    }
    Ok(ask)
}

/// The price at which `pool` buys `held` for `debit`.
pub fn bid_price<P: PriceProvider, L: LiquidityPools>(
    prices: &P,
    pools: &L,
    pool: LiquidityPoolId,
    held: CurrencyId,
    debit: CurrencyId,
) -> (r: Result<Price, Error>)
    ensures
        r == spec_bid_price(prices.quotes(), pools@, pool, held, debit),
{
    let oracle = match prices.get_price(debit, held) {
        Some(p) => p,
        None => {
            return Err(Error::NoPrice);
        },
    };
    let spread = match pools.get_bid_spread(pool, held) {
        Some(s) => FixedU128::from_permill(s),
        None => {
            return Err(Error::NoBidSpread);
        },
    };
    Ok(FixedU128::from_natural(1).saturating_sub(spread).saturating_mul(oracle))
}

/// The price at which a position in `held` against `debit` is opened,
/// within the `limit` of the caller.
pub fn opening_price<P: PriceProvider, L: LiquidityPools>(
    prices: &P,
    pools: &L,
    pool: LiquidityPoolId,
    held: CurrencyId,
    debit: CurrencyId,
    long: bool,
    limit: Price,
) -> (r: Result<Price, Error>)
    ensures
        r == spec_opening_price(prices.quotes(), pools@, pool, held, debit, long, limit),
{
    if long {
        ask_price(prices, pools, pool, held, debit, Some(limit))
    } else {
        let bid = bid_price(prices, pools, pool, held, debit)?;
        if limit.gt(&bid) {
            return Err(Error::MarketPriceTooLow);
        }
        Ok(bid)
    }
}

/// The price at which a position in `held` against `debit` is valued and
/// closed.
pub fn closing_price<P: PriceProvider, L: LiquidityPools>(
    prices: &P,
    pools: &L,
    pool: LiquidityPoolId,
    held: CurrencyId,
    debit: CurrencyId,
    long: bool,
) -> (r: Result<Price, Error>)
    ensures
        r == spec_closing_price(prices.quotes(), pools@, pool, held, debit, long),
{
    if long {
        bid_price(prices, pools, pool, held, debit)
    } else {
        ask_price(prices, pools, pool, held, debit, None)
    }
}

/// The value in USD of `amount` of `currency_id`.
pub fn usd_value<P: PriceProvider>(
    prices: &P,
    currency_id: CurrencyId,
    amount: Fixed128,
) -> (r: Result<Fixed128, Error>)
    ensures
        r == spec_usd_value(prices.quotes(), currency_id, amount),
{
    let oracle = match prices.get_price(CurrencyId::AUSD, currency_id) {
        Some(p) => p,
        None => {
            return Err(Error::NoPrice);
        },
    };
    let rate = match fixed_128_from_fixed_u128(oracle) {
        Some(p) => p,
        None => {
            return Err(Error::NumOutOfBound);
        },
    };
    match amount.checked_mul(&rate) {
        Some(v) => Ok(v),
        None => Err(Error::NumOutOfBound),
    }
}

} // verus!

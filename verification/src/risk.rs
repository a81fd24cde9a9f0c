//! Risk accounting for single positions, and checked sums over lists of
//! positions.

use crate::error::Error;
use crate::fixed::Fixed128;
use crate::pools::{LiquidityPools, PoolsView};
use crate::position::Position;
use crate::prices::{PriceProvider, Quotes};
use crate::primitives::{fixed_128_from_fixed_u128, spec_fixed_128_from_fixed_u128, PositionId};
use crate::resolver::{closing_price, in_bound, spec_closing_price, spec_usd_value, usd_value};
use std::collections::HashMap;
use vstd::prelude::*;

verus! {

broadcast use vstd::std_specs::hash::group_hash_axioms;

/// The price at which the position was opened: the absolute value of
/// what is owed per unit held. `NumOutOfBound` when nothing is held or
/// the quotient is out of range.
pub open spec fn spec_open_price(position: Position) -> Result<Fixed128, Error> {
    match position.leveraged_debits.spec_checked_div(position.leveraged_held) {
        None => Err(Error::NumOutOfBound),
        Some(q) => in_bound(q.spec_checked_abs()),
    }
}

/// Unrealized profit and loss of a position in USD: what is held, times
/// the difference between the current closing price and the open price,
/// valued in USD as an amount of the held currency. A long position is
/// valued at the bid price, a short position at the ask price.
pub open spec fn spec_unrealized_pl_of_position(
    prices: Quotes,
    pools: PoolsView,
    position: Position,
) -> Result<Fixed128, Error> {
    match spec_open_price(position) {
        Err(e) => Err(e),
        Ok(open_price) => match spec_closing_price(
            prices,
            pools,
            position.pool,
            position.pair.quote,
            position.pair.base,
            position.leverage.spec_is_long(),
        ) {
            Err(e) => Err(e),
            Ok(price) => match spec_fixed_128_from_fixed_u128(price) {
                None => Err(Error::NumOutOfBound),
                Some(current) => match current.spec_checked_sub(open_price) {
                    None => Err(Error::NumOutOfBound),
                    Some(delta) => match position.leveraged_held.spec_checked_mul(delta) {
                        None => Err(Error::NumOutOfBound),
                        Some(unrealized) => spec_usd_value(
                            prices,
                            position.pair.quote,
                            unrealized,
                        ),
                    },
                },
            },
        },
    }
}

/// Swap accumulated by a position in USD: the rise of the pair's
/// accumulated swap rate since the position was opened, times the
/// absolute amount held, valued in USD.
pub open spec fn spec_accumulated_swap_rate_of_position(
    prices: Quotes,
    pools: PoolsView,
    position: Position,
) -> Result<Fixed128, Error> {
    match pools.accumulated_swap_rate(position.pool, position.pair).spec_checked_sub(
        position.open_accumulated_swap_rate,
    ) {
        None => Err(Error::NumOutOfBound),
        Some(rate) => match position.leveraged_held.spec_checked_abs() {
            None => Err(Error::NumOutOfBound),
            Some(held) => match held.spec_checked_mul(rate) {
                None => Err(Error::NumOutOfBound),
                Some(amount) => spec_usd_value(prices, position.pair.quote, amount),
            },
        },
    }
}

/// A quantity that is summed over the positions of a trader or a pool.
#[derive(Clone, Copy, Debug, PartialEq, Eq, Structural)]
pub enum Measure {
    /// Unrealized profit and loss in USD.
    UnrealizedPl,
    /// Accumulated swap in USD.
    AccumulatedSwap,
    /// Absolute value of the USD value held at open.
    GrossExposure,
    /// Signed USD value held at open.
    NetExposure,
    /// USD value held at open, where it is positive.
    PositiveLeg,
    /// USD value held at open, where it is not positive.
    NonPositiveLeg,
}

/// What one position contributes to a sum.
pub open spec fn spec_term(
    measure: Measure,
    prices: Quotes,
    pools: PoolsView,
    position: Position,
) -> Result<Fixed128, Error> {
    match measure {
        Measure::UnrealizedPl => spec_unrealized_pl_of_position(prices, pools, position),
        Measure::AccumulatedSwap => spec_accumulated_swap_rate_of_position(
            prices,
            pools,
            position,
        ),
        Measure::GrossExposure => in_bound(position.leveraged_held_in_usd.spec_checked_abs()),
        Measure::NetExposure => Ok(position.leveraged_held_in_usd),
        Measure::PositiveLeg => Ok(
            if position.leveraged_held_in_usd.inner > 0 {
                position.leveraged_held_in_usd
            } else {
                Fixed128::spec_zero()
            },
        ),
        Measure::NonPositiveLeg => Ok(
            if position.leveraged_held_in_usd.inner > 0 {
                Fixed128::spec_zero()
            } else {
                position.leveraged_held_in_usd
            },
        ),
    }
}

/// `acc` plus the contribution of `position`; the first failure wins.
pub open spec fn spec_add_term(
    acc: Result<Fixed128, Error>,
    measure: Measure,
    prices: Quotes,
    pools: PoolsView,
    position: Position,
) -> Result<Fixed128, Error> {
    match acc {
        Err(e) => Err(e),
        Ok(sum) => match spec_term(measure, prices, pools, position) {
            Err(e) => Err(e),
            Ok(term) => in_bound(sum.spec_checked_add(term)),
        },
    }
}

/// The checked sum of a measure over the positions named by `ids`, taken
/// in the order of `ids` and starting from zero. The first term or sum
/// that fails decides the error. Identifiers without a position
/// contribute nothing.
pub open spec fn spec_sum(
    measure: Measure,
    prices: Quotes,
    pools: PoolsView,
    positions: Map<PositionId, Position>,
    ids: Seq<PositionId>,
) -> Result<Fixed128, Error>
    decreases ids.len(),
{
    if ids.len() == 0 {
        Ok(Fixed128::spec_zero())
    } else {
        let before = spec_sum(measure, prices, pools, positions, ids.drop_last());
        if positions.contains_key(ids.last()) {
            spec_add_term(before, measure, prices, pools, positions[ids.last()])
        } else {
            before
        }
    }
}

/// A sum that fails on a prefix of the list fails in the same way on the
/// whole list.
pub proof fn lemma_sum_fails_with_prefix(
    measure: Measure,
    prices: Quotes,
    pools: PoolsView,
    positions: Map<PositionId, Position>,
    ids: Seq<PositionId>,
    k: int,
)
    requires
        0 <= k <= ids.len(),
        spec_sum(measure, prices, pools, positions, ids.take(k)) is Err,
    ensures
        spec_sum(measure, prices, pools, positions, ids) == spec_sum(
            measure,
            prices,
            pools,
            positions,
            ids.take(k),
        ),
    decreases ids.len() - k,
{
    if k == ids.len() {
        assert(ids.take(k) =~= ids);
    } else {
        assert(ids.take(k + 1).drop_last() =~= ids.take(k));
        lemma_sum_fails_with_prefix(measure, prices, pools, positions, ids, k + 1);
    }
}

/// The price at which the position was opened.
pub fn open_price(position: &Position) -> (r: Result<Fixed128, Error>)
    ensures
        r == spec_open_price(*position),
{
    let quotient = match position.leveraged_debits.checked_div(&position.leveraged_held) {
        Some(q) => q,
        None => {
            return Err(Error::NumOutOfBound);
        },
    };
    match quotient.checked_abs() {
        Some(p) => Ok(p),
        None => Err(Error::NumOutOfBound),
    }
}

/// Unrealized profit and loss of a position in USD.
pub fn unrealized_pl_of_position<P: PriceProvider, L: LiquidityPools>(
    prices: &P,
    pools: &L,
    position: &Position,
) -> (r: Result<Fixed128, Error>)
    ensures
        r == spec_unrealized_pl_of_position(prices.quotes(), pools@, *position),
{
    let opened_at = open_price(position)?;
    let price = closing_price(
        prices,
        pools,
        position.pool,
        position.pair.quote,
        position.pair.base,
        position.leverage.is_long(),
    )?;
    let current = match fixed_128_from_fixed_u128(price) {
        Some(p) => p,
        None => {
            return Err(Error::NumOutOfBound);
        },
    };
    let delta = match current.checked_sub(&opened_at) {
        Some(d) => d,
        None => {
            return Err(Error::NumOutOfBound);
        },
    };
    let unrealized = match position.leveraged_held.checked_mul(&delta) {
        Some(u) => u,
        None => {
            return Err(Error::NumOutOfBound);
        },
    };
    usd_value(prices, position.pair.quote, unrealized)
}

/// Swap accumulated by a position in USD.
pub fn accumulated_swap_rate_of_position<P: PriceProvider, L: LiquidityPools>(
    prices: &P,
    pools: &L,
    position: &Position,
) -> (r: Result<Fixed128, Error>)
    ensures
        r == spec_accumulated_swap_rate_of_position(prices.quotes(), pools@, *position),
{
    let current = pools.get_accumulated_swap_rate(position.pool, position.pair);
    let rate = match current.checked_sub(&position.open_accumulated_swap_rate) {
        Some(r) => r,
        None => {
            return Err(Error::NumOutOfBound);
        },
    };
    let held = match position.leveraged_held.checked_abs() {
        Some(h) => h,
        None => {
            return Err(Error::NumOutOfBound);
        },
    };
    let amount = match held.checked_mul(&rate) {
        Some(a) => a,
        None => {
            return Err(Error::NumOutOfBound);
        },
    };
    usd_value(prices, position.pair.quote, amount)
}

/// What one position contributes to a sum of `measure`.
pub fn term<P: PriceProvider, L: LiquidityPools>(
    measure: Measure,
    prices: &P,
    pools: &L,
    position: &Position,
) -> (r: Result<Fixed128, Error>)
    ensures
        r == spec_term(measure, prices.quotes(), pools@, *position),
{
    match measure {
        Measure::UnrealizedPl => unrealized_pl_of_position(prices, pools, position),
        Measure::AccumulatedSwap => accumulated_swap_rate_of_position(prices, pools, position),
        Measure::GrossExposure => match position.leveraged_held_in_usd.checked_abs() {
            Some(v) => Ok(v),
            None => Err(Error::NumOutOfBound),
        },
        Measure::NetExposure => Ok(position.leveraged_held_in_usd),
        Measure::PositiveLeg => {
            if position.leveraged_held_in_usd.is_positive() {
                Ok(position.leveraged_held_in_usd)
            } else {
                Ok(Fixed128::zero())
            }
        },
        Measure::NonPositiveLeg => {
            if position.leveraged_held_in_usd.is_positive() {
                Ok(Fixed128::zero())
            } else {
                Ok(position.leveraged_held_in_usd)
            }
        },
    }
}

/// `acc` plus the contribution of `position`.
pub fn add_term<P: PriceProvider, L: LiquidityPools>(
    acc: Fixed128,
    measure: Measure,
    prices: &P,
    pools: &L,
    position: &Position,
) -> (r: Result<Fixed128, Error>)
    ensures
        r == spec_add_term(Ok(acc), measure, prices.quotes(), pools@, *position),
{
    let t = term(measure, prices, pools, position)?;
    match acc.checked_add(&t) {
        Some(v) => Ok(v),
        None => Err(Error::NumOutOfBound),
    }
}

/// The checked sum of `measure` over the positions named by `ids`.
pub fn sum<P: PriceProvider, L: LiquidityPools>(
    measure: Measure,
    prices: &P,
    pools: &L,
    positions: &HashMap<PositionId, Position>,
    ids: &Vec<PositionId>,
) -> (r: Result<Fixed128, Error>)
    ensures
        r == spec_sum(measure, prices.quotes(), pools@, positions@, ids@),
{
    let mut acc = Fixed128::zero();
    let mut i: usize = 0;
    while i < ids.len()
        invariant
            0 <= i <= ids.len(),
            Ok::<Fixed128, Error>(acc) == spec_sum(
                measure,
                prices.quotes(),
                pools@,
                positions@,
                ids@.take(i as int),
            ),
        decreases ids.len() - i,
    {
        let id = ids[i];
        proof {
            assert(ids@.take(i + 1).drop_last() =~= ids@.take(i as int));
            assert(ids@.take(i + 1).last() == id);
        }
        match positions.get(&id) {
            Some(position) => {
                match add_term(acc, measure, prices, pools, position) {
                    Ok(next) => {
                        acc = next;
                    },
                    Err(e) => {
                        proof {
                            lemma_sum_fails_with_prefix(
                                measure,
                                prices.quotes(),
                                pools@,
                                positions@,
                                ids@,
                                i + 1,
                            );
                        }
                        return Err(e);
                    },
                }
            },
            None => {},
        }
        i = i + 1;
    }
    proof {
        assert(ids@.take(i as int) =~= ids@);
    }
    Ok(acc)
}

} // verus!

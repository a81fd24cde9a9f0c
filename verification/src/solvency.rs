//! Solvency of traders and pools: equity, margin level, and the two
//! ratios of a pool, as functions of a ledger.

use crate::error::Error;
use crate::fixed::Fixed128;
use crate::ledger::LedgerView;
use crate::pools::{LiquidityPools, PoolsView};
use crate::position::Position;
use crate::prices::{PriceProvider, Quotes};
use crate::primitives::{
    fixed_128_from_u128, spec_fixed_128_from_u128, AccountId, LiquidityPoolId, PositionId,
};
use crate::protocol::MarginProtocol;
use crate::resolver::in_bound;
use crate::risk::{add_term, spec_add_term, spec_sum, Measure};
use vstd::prelude::*;

verus! {

/// The sum of `measure` over the positions named by `ids` and, after
/// them, over `new_position` where one is given.
pub open spec fn spec_sum_with(
    measure: Measure,
    prices: Quotes,
    pools: PoolsView,
    positions: Map<PositionId, Position>,
    ids: Seq<PositionId>,
    new_position: Option<Position>,
) -> Result<Fixed128, Error> {
    let existing = spec_sum(measure, prices, pools, positions, ids);
    match new_position {
        None => existing,
        Some(position) => spec_add_term(existing, measure, prices, pools, position),
    }
}

/// `equity` divided by `exposure`; the largest value where the exposure
/// is zero, `NumOutOfBound` where the quotient is out of range.
pub open spec fn spec_ratio(equity: Fixed128, exposure: Fixed128) -> Result<Fixed128, Error> {
    if exposure.inner == 0 {
        Ok(Fixed128::spec_max_value())
    } else {
        in_bound(equity.spec_checked_div(exposure))
    }
}

/// The larger of the positive leg and the absolute value of the other.
pub open spec fn spec_longest_leg(positive: Fixed128, non_positive: Fixed128) -> Result<
    Fixed128,
    Error,
> {
    match non_positive.spec_checked_abs() {
        None => Err(Error::NumOutOfBound),
        Some(other) => Ok(
            if positive.inner >= other.inner {
                positive
            } else {
                other
            },
        ),
    }
}

impl LedgerView {
    /// Unrealized profit and loss of all positions of `who`.
    pub open spec fn unrealized_pl_of_trader(
        self,
        prices: Quotes,
        pools: PoolsView,
        who: AccountId,
    ) -> Result<Fixed128, Error> {
        spec_sum(Measure::UnrealizedPl, prices, pools, self.positions, self.trader_positions(who))
    }

    /// Swap accumulated by all positions of `who`.
    pub open spec fn accumulated_swap_rate_of_trader(
        self,
        prices: Quotes,
        pools: PoolsView,
        who: AccountId,
    ) -> Result<Fixed128, Error> {
        spec_sum(
            Measure::AccumulatedSwap,
            prices,
            pools,
            self.positions,
            self.trader_positions(who),
        )
    }

    /// Balance plus unrealized profit and loss less accumulated swap.
    pub open spec fn equity_of_trader(
        self,
        prices: Quotes,
        pools: PoolsView,
        who: AccountId,
    ) -> Result<Fixed128, Error> {
        match self.unrealized_pl_of_trader(prices, pools, who) {
            Err(e) => Err(e),
            Ok(unrealized) => match self.balance(who).spec_checked_add(unrealized) {
                None => Err(Error::NumOutOfBound),
                Some(with_unrealized) => match self.accumulated_swap_rate_of_trader(
                    prices,
                    pools,
                    who,
                ) {
                    Err(e) => Err(e),
                    Ok(swap) => in_bound(with_unrealized.spec_checked_sub(swap)),
                },
            },
        }
    }

    /// The sum of the absolute USD values held by the positions of `who`
    /// and by `new_position`.
    pub open spec fn exposure_of_trader(
        self,
        prices: Quotes,
        pools: PoolsView,
        who: AccountId,
        new_position: Option<Position>,
    ) -> Result<Fixed128, Error> {
        spec_sum_with(
            Measure::GrossExposure,
            prices,
            pools,
            self.positions,
            self.trader_positions(who),
            new_position,
        )
    }

    /// Equity of `who` over the trader's exposure; the largest value
    /// where the exposure is zero.
    pub open spec fn margin_level(
        self,
        prices: Quotes,
        pools: PoolsView,
        who: AccountId,
        new_position: Option<Position>,
    ) -> Result<Fixed128, Error> {
        match self.equity_of_trader(prices, pools, who) {
            Err(e) => Err(e),
            Ok(equity) => match self.exposure_of_trader(prices, pools, who, new_position) {
                Err(e) => Err(e),
                Ok(exposure) => spec_ratio(equity, exposure),
            },
        }
    }

    /// Unrealized profit and loss of all positions against `pool`.
    pub open spec fn unrealized_pl_of_pool(
        self,
        prices: Quotes,
        pools: PoolsView,
        pool: LiquidityPoolId,
    ) -> Result<Fixed128, Error> {
        spec_sum(Measure::UnrealizedPl, prices, pools, self.positions, self.pool_positions(pool))
    }

    /// Swap accumulated by all positions against `pool`.
    pub open spec fn accumulated_swap_rate_of_pool(
        self,
        prices: Quotes,
        pools: PoolsView,
        pool: LiquidityPoolId,
    ) -> Result<Fixed128, Error> {
        spec_sum(
            Measure::AccumulatedSwap,
            prices,
            pools,
            self.positions,
            self.pool_positions(pool),
        )
    }

    /// Collateral of the pool plus accumulated swap less unrealized
    /// profit and loss of the positions against it.
    pub open spec fn equity_of_pool(
        self,
        prices: Quotes,
        pools: PoolsView,
        pool: LiquidityPoolId,
    ) -> Result<Fixed128, Error> {
        match spec_fixed_128_from_u128(pools.liquidity_of(pool)) {
            None => Err(Error::NumOutOfBound),
            Some(liquidity) => match self.accumulated_swap_rate_of_pool(prices, pools, pool) {
                Err(e) => Err(e),
                Ok(swap) => match liquidity.spec_checked_add(swap) {
                    None => Err(Error::NumOutOfBound),
                    Some(with_swap) => match self.unrealized_pl_of_pool(prices, pools, pool) {
                        Err(e) => Err(e),
                        Ok(unrealized) => in_bound(with_swap.spec_checked_sub(unrealized)),
                    },
                },
            },
        }
    }

    /// The sum of `measure` over the positions against `pool` and over
    /// `new_position`.
    pub open spec fn exposure_of_pool(
        self,
        measure: Measure,
        prices: Quotes,
        pools: PoolsView,
        pool: LiquidityPoolId,
        new_position: Option<Position>,
    ) -> Result<Fixed128, Error> {
        spec_sum_with(
            measure,
            prices,
            pools,
            self.positions,
            self.pool_positions(pool),
            new_position,
        )
    }

    /// Equity of `pool` over the signed sum of the USD values held
    /// against it; the largest value where that sum is zero.
    pub open spec fn enp(
        self,
        prices: Quotes,
        pools: PoolsView,
        pool: LiquidityPoolId,
        new_position: Option<Position>,
    ) -> Result<Fixed128, Error> {
        match self.equity_of_pool(prices, pools, pool) {
            Err(e) => Err(e),
            Ok(equity) => match self.exposure_of_pool(
                Measure::NetExposure,
                prices,
                pools,
                pool,
                new_position,
            ) {
                Err(e) => Err(e),
                Ok(net) => spec_ratio(equity, net),
            },
        }
    }

    /// Equity of `pool` over the longer of its two legs; the largest
    /// value where both legs are zero.
    pub open spec fn ell(
        self,
        prices: Quotes,
        pools: PoolsView,
        pool: LiquidityPoolId,
        new_position: Option<Position>,
    ) -> Result<Fixed128, Error> {
        match self.equity_of_pool(prices, pools, pool) {
            Err(e) => Err(e),
            Ok(equity) => match self.exposure_of_pool(
                Measure::PositiveLeg,
                prices,
                pools,
                pool,
                new_position,
            ) {
                Err(e) => Err(e),
                Ok(positive) => match self.exposure_of_pool(
                    Measure::NonPositiveLeg,
                    prices,
                    pools,
                    pool,
                    new_position,
                ) {
                    Err(e) => Err(e),
                    Ok(non_positive) => match spec_longest_leg(positive, non_positive) {
                        Err(e) => Err(e),
                        Ok(longest) => spec_ratio(equity, longest),
                    },
                },
            },
        }
    }
}

/// `existing` plus the contribution of `new_position`, where one is
/// given.
pub fn sum_with<P: PriceProvider, L: LiquidityPools>(
    existing: Result<Fixed128, Error>,
    measure: Measure,
    prices: &P,
    pools: &L,
    new_position: &Option<Position>,
) -> (r: Result<Fixed128, Error>)
    ensures
        r == match *new_position {
            None => existing,
            Some(position) => spec_add_term(existing, measure, prices.quotes(), pools@, position),
        },
{
    match new_position {
        None => existing,
        Some(position) => {
            let acc = existing?;
            add_term(acc, measure, prices, pools, position)
        },
    }
}

/// `equity` divided by `exposure`; the largest value where the exposure
/// is zero.
pub fn ratio(equity: Fixed128, exposure: Fixed128) -> (r: Result<Fixed128, Error>)
    ensures
        r == spec_ratio(equity, exposure),
{
    if exposure.is_zero() {
        Ok(Fixed128::max_value())
    } else {
        match equity.checked_div(&exposure) {
            Some(v) => Ok(v),
            None => Err(Error::NumOutOfBound),
        }
    }
}

/// The larger of the positive leg and the absolute value of the other.
pub fn longest_leg(positive: Fixed128, non_positive: Fixed128) -> (r: Result<Fixed128, Error>)
    ensures
        r == spec_longest_leg(positive, non_positive),
{
    match non_positive.checked_abs() {
        None => Err(Error::NumOutOfBound),
        Some(other) => {
            if other.gt(&positive) {
                Ok(other)
            } else {
                Ok(positive)
            }
        },
    }
}

impl MarginProtocol {
    /// Unrealized profit and loss of all positions of `who`, in USD.
    pub fn unrealized_pl_of_trader<P: PriceProvider, L: LiquidityPools>(
        &self,
        prices: &P,
        pools: &L,
        who: AccountId,
    ) -> (r: Result<Fixed128, Error>)
        ensures
            r == self@.unrealized_pl_of_trader(prices.quotes(), pools@, who),
    {
        self.sum_over_trader(Measure::UnrealizedPl, prices, pools, who)
    }

    /// Swap accumulated by all positions of `who`, in USD.
    pub fn accumulated_swap_rate_of_trader<P: PriceProvider, L: LiquidityPools>(
        &self,
        prices: &P,
        pools: &L,
        who: AccountId,
    ) -> (r: Result<Fixed128, Error>)
        ensures
            r == self@.accumulated_swap_rate_of_trader(prices.quotes(), pools@, who),
    {
        self.sum_over_trader(Measure::AccumulatedSwap, prices, pools, who)
    }

    /// Equity of `who`: balance plus unrealized profit and loss less
    /// accumulated swap.
    pub fn equity_of_trader<P: PriceProvider, L: LiquidityPools>(
        &self,
        prices: &P,
        pools: &L,
        who: AccountId,
    ) -> (r: Result<Fixed128, Error>)
        ensures
            r == self@.equity_of_trader(prices.quotes(), pools@, who),
    {
        let unrealized = self.unrealized_pl_of_trader(prices, pools, who)?;
        let with_unrealized = match self.balances(who).checked_add(&unrealized) {
            Some(v) => v,
            None => {
                return Err(Error::NumOutOfBound);
            },
        };
        let swap = self.accumulated_swap_rate_of_trader(prices, pools, who)?;
        match with_unrealized.checked_sub(&swap) {
            Some(v) => Ok(v),
            None => Err(Error::NumOutOfBound),
        }
    }

    /// Margin level of `who`, counting `new_position` as if it were open.
    pub fn margin_level<P: PriceProvider, L: LiquidityPools>(
        &self,
        prices: &P,
        pools: &L,
        who: AccountId,
        new_position: Option<Position>,
    ) -> (r: Result<Fixed128, Error>)
        ensures
            r == self@.margin_level(prices.quotes(), pools@, who, new_position),
    {
        let equity = self.equity_of_trader(prices, pools, who)?;
        let existing = self.sum_over_trader(Measure::GrossExposure, prices, pools, who);
        let exposure = sum_with(existing, Measure::GrossExposure, prices, pools, &new_position)?;
        ratio(equity, exposure)
    }

    /// Unrealized profit and loss of all positions against `pool`, in USD.
    pub fn unrealized_pl_of_pool<P: PriceProvider, L: LiquidityPools>(
        &self,
        prices: &P,
        pools: &L,
        pool: LiquidityPoolId,
    ) -> (r: Result<Fixed128, Error>)
        ensures
            r == self@.unrealized_pl_of_pool(prices.quotes(), pools@, pool),
    {
        self.sum_over_pool(Measure::UnrealizedPl, prices, pools, pool)
    }

    /// Swap accumulated by all positions against `pool`, in USD.
    pub fn accumulated_swap_rate_of_pool<P: PriceProvider, L: LiquidityPools>(
        &self,
        prices: &P,
        pools: &L,
        pool: LiquidityPoolId,
    ) -> (r: Result<Fixed128, Error>)
        ensures
            r == self@.accumulated_swap_rate_of_pool(prices.quotes(), pools@, pool),
    {
        self.sum_over_pool(Measure::AccumulatedSwap, prices, pools, pool)
    }

    /// Equity of `pool`: collateral plus accumulated swap less unrealized
    /// profit and loss of the positions against it.
    pub fn equity_of_pool<P: PriceProvider, L: LiquidityPools>(
        &self,
        prices: &P,
        pools: &L,
        pool: LiquidityPoolId,
    ) -> (r: Result<Fixed128, Error>)
        ensures
            r == self@.equity_of_pool(prices.quotes(), pools@, pool),
    {
        let liquidity = match fixed_128_from_u128(pools.liquidity(pool)) {
            Some(l) => l,
            None => {
                return Err(Error::NumOutOfBound);
            },
        };
        let swap = self.accumulated_swap_rate_of_pool(prices, pools, pool)?;
        let with_swap = match liquidity.checked_add(&swap) {
            Some(v) => v,
            None => {
                return Err(Error::NumOutOfBound);
            },
        };
        let unrealized = self.unrealized_pl_of_pool(prices, pools, pool)?;
        match with_swap.checked_sub(&unrealized) {
            Some(v) => Ok(v),
            None => Err(Error::NumOutOfBound),
        }
    }

    /// Equity to net position ratio of `pool`, counting `new_position` as
    /// if it were open.
    pub fn enp<P: PriceProvider, L: LiquidityPools>(
        &self,
        prices: &P,
        pools: &L,
        pool: LiquidityPoolId,
        new_position: Option<Position>,
    ) -> (r: Result<Fixed128, Error>)
        ensures
            r == self@.enp(prices.quotes(), pools@, pool, new_position),
    {
        let equity = self.equity_of_pool(prices, pools, pool)?;
        let existing = self.sum_over_pool(Measure::NetExposure, prices, pools, pool);
        let net = sum_with(existing, Measure::NetExposure, prices, pools, &new_position)?;
        ratio(equity, net)
    }

    /// Equity to longest leg ratio of `pool`, counting `new_position` as
    /// if it were open.
    pub fn ell<P: PriceProvider, L: LiquidityPools>(
        &self,
        prices: &P,
        pools: &L,
        pool: LiquidityPoolId,
        new_position: Option<Position>,
    ) -> (r: Result<Fixed128, Error>)
        ensures
            r == self@.ell(prices.quotes(), pools@, pool, new_position),
    {
        let equity = self.equity_of_pool(prices, pools, pool)?;
        let existing = self.sum_over_pool(Measure::PositiveLeg, prices, pools, pool);
        let positive = sum_with(existing, Measure::PositiveLeg, prices, pools, &new_position)?;
        let existing = self.sum_over_pool(Measure::NonPositiveLeg, prices, pools, pool);
        let non_positive = sum_with(
            existing,
            Measure::NonPositiveLeg,
            prices,
            pools,
            &new_position,
        )?;
        let longest = longest_leg(positive, non_positive)?;
        ratio(equity, longest)
    }
}

} // verus!

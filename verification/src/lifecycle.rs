//! Opening and closing positions.

use crate::error::Error;
use crate::fixed::{signed_product, ACCURACY, Fixed128, FixedU128};
use crate::ledger::{lemma_margin_sum_monotone, LedgerView};
use crate::pools::{LiquidityPools, PoolsView};
use crate::position::Position;
use crate::prices::PriceProvider;
use crate::primitives::{
    fixed_128_from_fixed_u128, fixed_128_from_u128, AccountId, Balance, Leverage, LiquidityPoolId,
    PositionId, Price, TradingPair,
};
use crate::protocol::{settled, MarginProtocol};
use crate::resolver::{opening_price, usd_value};
use crate::risk::{accumulated_swap_rate_of_position, open_price, unrealized_pl_of_position};
use crate::transitions::{
    lemma_close_position_wf, lemma_file_position_wf, lemma_without_position, spec_close_position,
    spec_new_position, spec_open_position, spec_realized, spec_settle, spec_transfer,
};
use vstd::prelude::*;

verus! {

/// The position that `who` would open against `pool` at current prices.
pub fn new_position<P: PriceProvider, L: LiquidityPools>(
    prices: &P,
    pools: &L,
    who: AccountId,
    pool: LiquidityPoolId,
    pair: TradingPair,
    leverage: Leverage,
    leveraged_amount: Balance,
    max_price: Price,
) -> (r: Result<Position, Error>)
    ensures
        r == spec_new_position(
            prices.quotes(),
            pools@,
            who,
            pool,
            pair,
            leverage,
            leveraged_amount,
            max_price,
        ),
{
    let long = leverage.is_long();
    let opening = opening_price(prices, pools, pool, pair.quote, pair.base, long, max_price)?;
    let amount = match fixed_128_from_u128(leveraged_amount) {
        Some(a) => a,
        None => {
            return Err(Error::NumOutOfBound);
        },
    };
    let opening_signed = match fixed_128_from_fixed_u128(opening) {
        Some(a) => a,
        None => {
            return Err(Error::NumOutOfBound);
        },
    };
    let cost = match amount.checked_mul(&opening_signed) {
        Some(c) => c,
        None => {
            return Err(Error::NumOutOfBound);
        },
    };
    proof {
        lemma_product_sign(amount.inner, opening_signed.inner);
    }
    let held = if long {
        amount
    } else {
        Fixed128 { inner: -amount.inner }
    };
    let debits = if long {
        Fixed128 { inner: -cost.inner }
    } else {
        cost
    };
    let held_in_usd = usd_value(prices, pair.quote, held)?;
    let margin = match FixedU128::from_parts(leveraged_amount).checked_div(&opening) {
        Some(m) => m.deconstruct(),
        None => {
            return Err(Error::NumOutOfBound);
        },
    };
    let position = Position {
        owner: who,
        pool: pool,
        pair: pair,
        leverage: leverage,
        leveraged_held: held,
        leveraged_debits: debits,
        leveraged_held_in_usd: held_in_usd,
        open_accumulated_swap_rate: pools.get_accumulated_swap_rate(pool, pair),
        open_margin: margin,
    };
    match open_price(&position) {
        Ok(_) => Ok(position),
        Err(_) => Err(Error::NumOutOfBound),
    }
}

/// The rescaled product of two numbers that are not negative is not
/// negative.
pub proof fn lemma_product_sign(a: i128, b: i128)
    requires
        a >= 0,
        b >= 0,
    ensures
        signed_product(a, b) is Some ==> signed_product(a, b)->0 >= 0,
{
    assert(a * b >= 0) by (nonlinear_arith)
        requires
            a >= 0,
            b >= 0,
    ;
    assert((a * b) / (ACCURACY as int) >= 0) by (nonlinear_arith)
        requires
            a * b >= 0,
            ACCURACY == 1_000_000_000_000_000_000,
    ;
}

/// What closing the position pays to its owner at current prices.
pub fn realized<P: PriceProvider, L: LiquidityPools>(
    prices: &P,
    pools: &L,
    position: &Position,
) -> (r: Result<Fixed128, Error>)
    ensures
        r == spec_realized(prices.quotes(), pools@, *position),
{
    let unrealized = unrealized_pl_of_position(prices, pools, position)?;
    let swap = accumulated_swap_rate_of_position(prices, pools, position)?;
    match unrealized.checked_sub(&swap) {
        Some(v) => Ok(v),
        None => Err(Error::NumOutOfBound),
    }
}

/// What a close moves to the owner of a position that realized
/// `realized`, when the owner can pay `payable` and the pool holds
/// `receivable`.
pub fn capped(realized: Fixed128, payable: u128, receivable: u128) -> (r: Fixed128)
    requires
        payable <= i128::MAX,
    ensures
        r.inner == spec_transfer(realized, payable as int, receivable as int),
{
    if realized.inner < 0 {
        let loss: u128 = ((-(realized.inner + 1)) as u128) + 1;
        if loss > payable {
            Fixed128 { inner: -(payable as i128) }
        } else {
            realized
        }
    } else {
        if (realized.inner as u128) > receivable {
            Fixed128 { inner: receivable as i128 }
        } else {
            realized
        }
    }
}

/// Lets `pool` pay `realized` to a trader, or receive it where it is
/// negative.
pub fn settle<L: LiquidityPools>(
    pools: &mut L,
    pool: LiquidityPoolId,
    realized: Fixed128,
) -> (r: Result<(), Error>)
    ensures
        match r {
            Ok(()) => spec_settle(old(pools)@, pool, realized) == Ok::<PoolsView, Error>(
                final(pools)@,
            ),
            Err(e) => spec_settle(old(pools)@, pool, realized) == Err::<PoolsView, Error>(e)
                && final(pools)@ == old(pools)@,
        },
{
    if realized.inner >= 0 {
        pools.withdraw_liquidity(pool, realized.inner as u128)
    } else {
        let amount: u128 = ((-(realized.inner + 1)) as u128) + 1;
        pools.deposit_liquidity(pool, amount)
    }
}

impl MarginProtocol {
    /// Opens a position for `who` against `pool`: `leveraged_amount` of
    /// the quote currency of `pair`, long or short as `leverage` says. A
    /// long position opens at an ask price of at most `price`, a short
    /// position at a bid price of at least `price`. Returns the
    /// identifier of the position. The balance of `who` does not change.
    pub fn open_position<P: PriceProvider, L: LiquidityPools>(
        &mut self,
        prices: &P,
        pools: &L,
        who: AccountId,
        pool: LiquidityPoolId,
        pair: TradingPair,
        leverage: Leverage,
        leveraged_amount: Balance,
        price: Price,
    ) -> (r: Result<PositionId, Error>)
        requires
            old(self)@.wf(),
        ensures
            final(self)@.wf(),
            match r {
                Ok(id) => id == old(self)@.next_position_id && spec_open_position(
                    old(self)@,
                    prices.quotes(),
                    pools@,
                    who,
                    pool,
                    pair,
                    leverage,
                    leveraged_amount,
                    price,
                ) == Ok::<LedgerView, Error>(final(self)@),
                Err(e) => spec_open_position(
                    old(self)@,
                    prices.quotes(),
                    pools@,
                    who,
                    pool,
                    pair,
                    leverage,
                    leveraged_amount,
                    price,
                ) == Err::<LedgerView, Error>(e) && final(self)@ == old(self)@,
            },
    {
        let position = new_position(
            prices,
            pools,
            who,
            pool,
            pair,
            leverage,
            leveraged_amount,
            price,
        )?;
        if self.next_position_id() == u64::MAX {
            return Err(Error::NumOutOfBound);
        }
        if position.open_margin > self.free_balance(who) {
            return Err(Error::NumOutOfBound);
        }
        proof {
            lemma_file_position_wf(self@, position);
        }
        let id = self.file(position);
        Ok(id)
    }

    /// Closes the position `position_id` of `who` at current prices and
    /// settles what it realized between the trader and the pool: a loss
    /// as far as the trader's balance covers it beside the margin of the
    /// trader's other positions, a gain as far as the pool's collateral
    /// goes.
    pub fn close_position<P: PriceProvider, L: LiquidityPools>(
        &mut self,
        prices: &P,
        pools: &mut L,
        who: AccountId,
        position_id: PositionId,
    ) -> (r: Result<(), Error>)
        requires
            old(self)@.wf(),
        ensures
            final(self)@.wf(),
            settled(
                r,
                spec_close_position(old(self)@, prices.quotes(), old(pools)@, who, position_id),
                (old(self)@, old(pools)@),
                (final(self)@, final(pools)@),
            ),
    {
        let position = match self.positions(position_id) {
            Some(p) => p,
            None => {
                return Err(Error::PositionNotFound);
            },
        };
        if position.owner != who {
            return Err(Error::NotPositionOwner);
        }
        let paid = realized(prices, pools, &position)?;
        let held = self.margin_held(who);
        let balance = self.balances(who);
        proof {
            lemma_without_position(self@, position_id);
            lemma_margin_sum_monotone(
                self@.without_position(position_id).positions,
                self@.without_position(position_id).trader_positions(who),
                0,
            );
            assert(self@.free_balance(who) >= 0);
        }
        let payable: u128 = (balance.inner as u128) - (held - position.open_margin);
        let receivable = pools.liquidity(position.pool);
        let transfer = capped(paid, payable, receivable);
        let rest = match balance.checked_add(&transfer) {
            Some(b) => b,
            None => {
                return Err(Error::NumOutOfBound);
            },
        };
        settle(pools, position.pool, transfer)?;
        proof {
            lemma_close_position_wf(old(self)@, prices.quotes(), old(pools)@, who, position_id);
        }
        self.unfile(position_id);
        self.set_balance(who, rest);
        Ok(())
    }
}

} // verus!

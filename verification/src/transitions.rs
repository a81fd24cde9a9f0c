//! What deposit, withdraw, open and close make of a ledger, and the proof
//! that each keeps it consistent.

use crate::error::Error;
use crate::fixed::{unsigned_quotient, Fixed128};
use crate::index::{lemma_without, without};
use crate::ledger::{
    lemma_margin_sum_frame, lemma_margin_sum_monotone, lemma_margin_sum_remove, LedgerView,
};
use crate::pools::PoolsView;
use crate::position::Position;
use crate::prices::Quotes;
use crate::primitives::{
    spec_fixed_128_from_fixed_u128, spec_fixed_128_from_u128, AccountId, Balance, Leverage,
    LiquidityPoolId, PositionId, Price, TradingPair,
};
use crate::resolver::{in_bound, spec_opening_price, spec_usd_value};
use crate::risk::{
    spec_accumulated_swap_rate_of_position, spec_open_price, spec_unrealized_pl_of_position,
};
use vstd::prelude::*;

verus! {

/// The ledger after `who` deposited `amount`; `NumOutOfBound` when the
/// amount or the new balance is out of range.
pub open spec fn spec_deposit(ledger: LedgerView, who: AccountId, amount: Balance) -> Result<
    LedgerView,
    Error,
> {
    match spec_fixed_128_from_u128(amount) {
        None => Err(Error::NumOutOfBound),
        Some(a) => match ledger.balance(who).spec_checked_add(a) {
            None => Err(Error::NumOutOfBound),
            Some(balance) => Ok(ledger.with_balance(who, balance)),
        },
    }
}

/// The ledger after `who` withdrew `amount`; `InsufficientFreeBalance`
/// when the amount is more than the free balance.
pub open spec fn spec_withdraw(ledger: LedgerView, who: AccountId, amount: Balance) -> Result<
    LedgerView,
    Error,
> {
    if amount > ledger.free_balance(who) {
        Err(Error::InsufficientFreeBalance)
    } else {
        Ok(
            ledger.with_balance(
                who,
                Fixed128 { inner: (ledger.balance(who).inner - amount) as i128 },
            ),
        )
    }
}

/// The position that `who` would open: the opening price is resolved
/// within the limit `max_price` of the caller, the ask price for a long
/// position and the bid price for a short one; the amount is held long or
/// short; what is owed is the amount times the opening price, with the
/// opposite sign; the margin is the amount divided by the opening price.
pub open spec fn spec_new_position(
    prices: Quotes,
    pools: PoolsView,
    who: AccountId,
    pool: LiquidityPoolId,
    pair: TradingPair,
    leverage: Leverage,
    leveraged_amount: Balance,
    max_price: Price,
) -> Result<Position, Error> {
    match spec_opening_price(
        prices,
        pools,
        pool,
        pair.quote,
        pair.base,
        leverage.spec_is_long(),
        max_price,
    ) {
        Err(e) => Err(e),
        Ok(opening) => match (
            spec_fixed_128_from_u128(leveraged_amount),
            spec_fixed_128_from_fixed_u128(opening),
        ) {
            (Some(amount), Some(opening_signed)) => match amount.spec_checked_mul(
                opening_signed,
            ) {
                None => Err(Error::NumOutOfBound),
                Some(cost) => {
                    let held = if leverage.spec_is_long() {
                        amount
                    } else {
                        Fixed128 { inner: (-amount.inner) as i128 }
                    };
                    let debits = if leverage.spec_is_long() {
                        Fixed128 { inner: (-cost.inner) as i128 }
                    } else {
                        cost
                    };
                    match (
                        spec_usd_value(prices, pair.quote, held),
                        unsigned_quotient(leveraged_amount, opening.inner),
                    ) {
                        (Err(e), _) => Err(e),
                        (Ok(_), None) => Err(Error::NumOutOfBound),
                        (Ok(held_in_usd), Some(margin)) => {
                            let position = Position {
                                owner: who,
                                pool: pool,
                                pair: pair,
                                leverage: leverage,
                                leveraged_held: held,
                                leveraged_debits: debits,
                                leveraged_held_in_usd: held_in_usd,
                                open_accumulated_swap_rate: pools.accumulated_swap_rate(
                                    pool,
                                    pair,
                                ),
                                open_margin: margin,
                            };
                            if spec_open_price(position) is Ok {
                                Ok(position)
                            } else {
                                Err(Error::NumOutOfBound)
                            }
                        },
                    }
                },
            },
            _ => Err(Error::NumOutOfBound),
        },
    }
}

/// The ledger after the position was opened under the next identifier.
/// `NumOutOfBound` when the identifiers are used up or the margin is
/// more than the free balance of the owner.
pub open spec fn spec_file_position(ledger: LedgerView, position: Position) -> Result<
    LedgerView,
    Error,
> {
    if ledger.next_position_id == u64::MAX {
        Err(Error::NumOutOfBound)
    } else if position.open_margin > ledger.free_balance(position.owner) {
        Err(Error::NumOutOfBound)
    } else {
        Ok(ledger.with_position(position))
    }
}

/// The ledger after `who` opened a position. The trader's balance is
/// the same; the position is filed under the next identifier.
pub open spec fn spec_open_position(
    ledger: LedgerView,
    prices: Quotes,
    pools: PoolsView,
    who: AccountId,
    pool: LiquidityPoolId,
    pair: TradingPair,
    leverage: Leverage,
    leveraged_amount: Balance,
    max_price: Price,
) -> Result<LedgerView, Error> {
    match spec_new_position(
        prices,
        pools,
        who,
        pool,
        pair,
        leverage,
        leveraged_amount,
        max_price,
    ) {
        Err(e) => Err(e),
        Ok(position) => spec_file_position(ledger, position),
    }
}

/// What closing the position pays to its owner, in USD: the unrealized
/// profit and loss less the accumulated swap. Negative when the owner
/// pays the pool.
pub open spec fn spec_realized(
    prices: Quotes,
    pools: PoolsView,
    position: Position,
) -> Result<Fixed128, Error> {
    match spec_unrealized_pl_of_position(prices, pools, position) {
        Err(e) => Err(e),
        Ok(unrealized) => match spec_accumulated_swap_rate_of_position(prices, pools, position) {
            Err(e) => Err(e),
            Ok(swap) => in_bound(unrealized.spec_checked_sub(swap)),
        },
    }
}

/// The registry after `pool` paid `realized` to a trader, or received
/// it where it is negative.
pub open spec fn spec_settle(pools: PoolsView, pool: LiquidityPoolId, realized: Fixed128) -> Result<
    PoolsView,
    Error,
> {
    if realized.inner >= 0 {
        pools.withdraw(pool, realized.inner as u128)
    } else {
        pools.deposit(pool, (-realized.inner) as u128)
    }
}

/// What a close moves to the owner of the position: what the position
/// realized, but no more than `receivable`, what the pool holds, and no
/// less than the negative of `payable`, what the owner can pay.
pub open spec fn spec_transfer(realized: Fixed128, payable: int, receivable: int) -> int {
    if realized.inner < 0 {
        if -realized.inner > payable {
            -payable
        } else {
            realized.inner as int
        }
    } else {
        if realized.inner > receivable {
            receivable
        } else {
            realized.inner as int
        }
    }
}

/// What the owner of the open position `id` can pay when it is closed:
/// the balance less the margin of the owner's other positions.
pub open spec fn spec_payable(ledger: LedgerView, id: PositionId) -> int {
    ledger.balance(ledger.positions[id].owner).inner - (ledger.margin_held(
        ledger.positions[id].owner,
    ) - ledger.positions[id].open_margin)
}

/// The ledger and the registry after `who` closed the position `id`.
/// What the position realized moves between the owner's balance and the
/// pool's collateral: the owner's balance rises by what the pool's
/// collateral falls. A loss is paid as far as the balance covers it
/// beside the margin of the owner's other positions; a gain is paid as
/// far as the pool's collateral goes. `PositionNotFound`, then
/// `NotPositionOwner`, then the errors of the valuation, then
/// `NumOutOfBound` when the new balance or the pool's new collateral is
/// out of range.
pub open spec fn spec_close_position(
    ledger: LedgerView,
    prices: Quotes,
    pools: PoolsView,
    who: AccountId,
    id: PositionId,
) -> Result<(LedgerView, PoolsView), Error> {
    if !ledger.positions.contains_key(id) {
        Err(Error::PositionNotFound)
    } else if ledger.positions[id].owner != who {
        Err(Error::NotPositionOwner)
    } else {
        let position = ledger.positions[id];
        match spec_realized(prices, pools, position) {
            Err(e) => Err(e),
            Ok(realized) => {
                let transfer = spec_transfer(
                    realized,
                    spec_payable(ledger, id),
                    pools.liquidity_of(position.pool) as int,
                );
                if ledger.balance(who).inner + transfer > i128::MAX {
                    Err(Error::NumOutOfBound)
                } else {
                    match spec_settle(
                        pools,
                        position.pool,
                        Fixed128 { inner: transfer as i128 },
                    ) {
                        Err(e) => Err(e),
                        Ok(settled) => Ok(
                            (
                                ledger.without_position(id).with_balance(
                                    who,
                                    Fixed128 {
                                        inner: (ledger.balance(who).inner + transfer) as i128,
                                    },
                                ),
                                settled,
                            ),
                        ),
                    }
                }
            },
        }
    }
}

/// Changing one balance changes no margin.
pub proof fn lemma_balance_keeps_margins(ledger: LedgerView, who: AccountId, balance: Fixed128)
    ensures
        forall|t: AccountId| #[trigger]
            ledger.with_balance(who, balance).margin_held(t) == ledger.margin_held(t),
        forall|t: AccountId|
            t != who ==> #[trigger] ledger.with_balance(who, balance).balance(t) == ledger.balance(
                t,
            ),
        ledger.with_balance(who, balance).balance(who) == balance,
{
}

/// A consistent ledger stays consistent when a balance is set to a value
/// that covers the margin of its trader.
pub proof fn lemma_with_balance_wf(ledger: LedgerView, who: AccountId, balance: Fixed128)
    requires
        ledger.wf(),
        balance.inner >= ledger.margin_held(who),
    ensures
        ledger.with_balance(who, balance).wf(),
{
    let after = ledger.with_balance(who, balance);
    lemma_balance_keeps_margins(ledger, who, balance);
    assert forall|t: AccountId| #[trigger] after.free_balance(t) >= 0 by {
        assert(after.margin_held(t) == ledger.margin_held(t));
        if t != who {
            assert(after.balance(t) == ledger.balance(t));
            assert(ledger.free_balance(t) >= 0);
        }
    }
    assert forall|t: AccountId| #[trigger] after.trader_positions(t).no_duplicates() by {
        assert(ledger.trader_positions(t).no_duplicates());
    }
    assert forall|p: LiquidityPoolId| #[trigger] after.pool_positions(p).no_duplicates() by {
        assert(ledger.pool_positions(p).no_duplicates());
    }
    assert forall|t: AccountId, id: PositionId| #[trigger]
        after.trader_positions(t).contains(id) implies after.files_under_trader(t, id) by {
        assert(ledger.trader_positions(t).contains(id));
        assert(ledger.files_under_trader(t, id));
    }
    assert forall|p: LiquidityPoolId, id: PositionId| #[trigger]
        after.pool_positions(p).contains(id) implies after.files_under_pool(p, id) by {
        assert(ledger.pool_positions(p).contains(id));
        assert(ledger.files_under_pool(p, id));
    }
}

/// A deposit keeps the ledger consistent.
pub proof fn lemma_deposit_wf(ledger: LedgerView, who: AccountId, amount: Balance)
    requires
        ledger.wf(),
        spec_deposit(ledger, who, amount) is Ok,
    ensures
        spec_deposit(ledger, who, amount)->Ok_0.wf(),
{
    assert(ledger.free_balance(who) >= 0);
    let a = spec_fixed_128_from_u128(amount)->0;
    let balance = ledger.balance(who).spec_checked_add(a)->0;
    lemma_with_balance_wf(ledger, who, balance);
}

/// A withdrawal keeps the ledger consistent.
pub proof fn lemma_withdraw_wf(ledger: LedgerView, who: AccountId, amount: Balance)
    requires
        ledger.wf(),
        spec_withdraw(ledger, who, amount) is Ok,
    ensures
        spec_withdraw(ledger, who, amount)->Ok_0.wf(),
{
    assert(ledger.free_balance(who) >= 0);
    lemma_margin_sum_monotone(ledger.positions, ledger.trader_positions(who), 0);
    let balance = Fixed128 { inner: (ledger.balance(who).inner - amount) as i128 };
    lemma_with_balance_wf(ledger, who, balance);
}

/// Filing a new position keeps the ledger consistent, adds its margin to
/// the margin held by its owner and leaves every other margin alone.
pub proof fn lemma_with_position(ledger: LedgerView, position: Position)
    requires
        ledger.wf(),
        ledger.next_position_id < u64::MAX,
        position.open_margin <= ledger.free_balance(position.owner),
    ensures
        ledger.with_position(position).wf(),
        ledger.with_position(position).margin_held(position.owner) == ledger.margin_held(
            position.owner,
        ) + position.open_margin,
        forall|t: AccountId|
            t != position.owner ==> #[trigger] ledger.with_position(position).margin_held(t)
                == ledger.margin_held(t),
{
    let id = ledger.next_position_id;
    let after = ledger.with_position(position);
    let owner = position.owner;
    let pool = position.pool;
    let old_ids = ledger.trader_positions(owner);
    let old_pool_ids = ledger.pool_positions(pool);
    assert(!old_ids.contains(id)) by {
        if old_ids.contains(id) {
            assert(ledger.files_under_trader(owner, id));
        }
    }
    assert(!old_pool_ids.contains(id)) by {
        if old_pool_ids.contains(id) {
            assert(ledger.files_under_pool(pool, id));
        }
    }
    assert(after.trader_positions(owner) == old_ids.push(id));
    assert(after.pool_positions(pool) == old_pool_ids.push(id));
    assert(old_ids.push(id).last() == id);
    assert(old_ids.push(id).drop_last() =~= old_ids);
    assert forall|t: AccountId| #[trigger] after.trader_positions(t).no_duplicates() by {
        assert(ledger.trader_positions(t).no_duplicates());
        if t == owner {
            assert forall|a: int, b: int|
                0 <= a < old_ids.push(id).len() && 0 <= b < old_ids.push(id).len() && a
                    != b implies old_ids.push(id)[a] != old_ids.push(id)[b] by {
                if a < old_ids.len() {
                    assert(old_ids.contains(old_ids[a]));
                }
                if b < old_ids.len() {
                    assert(old_ids.contains(old_ids[b]));
                }
            }
        } else {
            assert(after.trader_positions(t) == ledger.trader_positions(t));
        }
    }
    assert forall|p: LiquidityPoolId| #[trigger] after.pool_positions(p).no_duplicates() by {
        assert(ledger.pool_positions(p).no_duplicates());
        if p == pool {
            assert forall|a: int, b: int|
                0 <= a < old_pool_ids.push(id).len() && 0 <= b < old_pool_ids.push(id).len() && a
                    != b implies old_pool_ids.push(id)[a] != old_pool_ids.push(id)[b] by {
                if a < old_pool_ids.len() {
                    assert(old_pool_ids.contains(old_pool_ids[a]));
                }
                if b < old_pool_ids.len() {
                    assert(old_pool_ids.contains(old_pool_ids[b]));
                }
            }
        } else {
            assert(after.pool_positions(p) == ledger.pool_positions(p));
        }
    }
    assert forall|k: PositionId| #[trigger] after.positions.contains_key(k) implies k
        < after.next_position_id && after.trader_positions(after.positions[k].owner).contains(k)
        && after.pool_positions(after.positions[k].pool).contains(k) by {
        if k == id {
            assert(old_ids.push(id)[old_ids.len() as int] == id);
            assert(old_pool_ids.push(id)[old_pool_ids.len() as int] == id);
        } else {
            assert(ledger.positions.contains_key(k));
            let t = ledger.positions[k].owner;
            let p = ledger.positions[k].pool;
            assert(ledger.trader_positions(t).contains(k));
            assert(ledger.pool_positions(p).contains(k));
            if t == owner {
                let a = choose|a: int| 0 <= a < old_ids.len() && old_ids[a] == k;
                assert(old_ids.push(id)[a] == k);
            }
            if p == pool {
                let a = choose|a: int| 0 <= a < old_pool_ids.len() && old_pool_ids[a] == k;
                assert(old_pool_ids.push(id)[a] == k);
            }
        }
    }
    assert forall|t: AccountId, k: PositionId| #[trigger]
        after.trader_positions(t).contains(k) implies after.files_under_trader(t, k) by {
        if t == owner {
            let a = choose|a: int| 0 <= a < old_ids.push(id).len() && old_ids.push(id)[a] == k;
            if a < old_ids.len() {
                assert(old_ids.contains(k));
                assert(ledger.files_under_trader(t, k));
            }
        } else {
            assert(ledger.trader_positions(t).contains(k));
            assert(ledger.files_under_trader(t, k));
        }
    }
    assert forall|p: LiquidityPoolId, k: PositionId| #[trigger]
        after.pool_positions(p).contains(k) implies after.files_under_pool(p, k) by {
        if p == pool {
            let a = choose|a: int|
                0 <= a < old_pool_ids.push(id).len() && old_pool_ids.push(id)[a] == k;
            if a < old_pool_ids.len() {
                assert(old_pool_ids.contains(k));
                assert(ledger.files_under_pool(p, k));
            }
        } else {
            assert(ledger.pool_positions(p).contains(k));
            assert(ledger.files_under_pool(p, k));
        }
    }
    assert forall|t: AccountId| #[trigger]
        after.margin_held(t) == ledger.margin_held(t) + if t == owner {
            position.open_margin as int
        } else {
            0
        } by {
        let ids = ledger.trader_positions(t);
        assert forall|i: int| 0 <= i < ids.len() implies (ledger.positions.contains_key(
            #[trigger] ids[i],
        ) <==> after.positions.contains_key(ids[i])) && (ledger.positions.contains_key(ids[i])
            ==> ledger.positions[ids[i]] == after.positions[ids[i]]) by {
            assert(ids.contains(ids[i]));
            assert(ledger.files_under_trader(t, ids[i]));
        }
        lemma_margin_sum_frame(ledger.positions, after.positions, ids);
    }
    assert forall|t: AccountId| #[trigger] after.free_balance(t) >= 0 by {
        assert(after.margin_held(t) == ledger.margin_held(t) + if t == owner {
            position.open_margin as int
        } else {
            0
        });
        assert(ledger.free_balance(t) >= 0);
    }
}

/// Opening a position keeps the ledger consistent.
pub proof fn lemma_file_position_wf(ledger: LedgerView, position: Position)
    requires
        ledger.wf(),
        spec_file_position(ledger, position) is Ok,
    ensures
        spec_file_position(ledger, position)->Ok_0.wf(),
{
    lemma_with_position(ledger, position);
}

/// Taking a position out keeps the ledger consistent, takes its margin
/// out of the margin held by its owner and leaves every other margin
/// alone.
pub proof fn lemma_without_position(ledger: LedgerView, id: PositionId)
    requires
        ledger.wf(),
        ledger.positions.contains_key(id),
    ensures
        ledger.without_position(id).wf(),
        ledger.without_position(id).margin_held(ledger.positions[id].owner) == ledger.margin_held(
            ledger.positions[id].owner,
        ) - ledger.positions[id].open_margin,
        forall|t: AccountId|
            t != ledger.positions[id].owner ==> #[trigger] ledger.without_position(id).margin_held(
                t,
            ) == ledger.margin_held(t),
        !ledger.without_position(id).trader_positions(ledger.positions[id].owner).contains(id),
        forall|k: PositionId|
            k != id ==> (#[trigger] ledger.without_position(id).trader_positions(
                ledger.positions[id].owner,
            ).contains(k) <==> ledger.trader_positions(ledger.positions[id].owner).contains(k)),
{
    let position = ledger.positions[id];
    let after = ledger.without_position(id);
    let owner = position.owner;
    let pool = position.pool;
    let old_ids = ledger.trader_positions(owner);
    let old_pool_ids = ledger.pool_positions(pool);
    assert(old_ids.contains(id));
    assert(old_pool_ids.contains(id));
    assert(old_ids.no_duplicates());
    assert(old_pool_ids.no_duplicates());
    let at = choose|at: int| 0 <= at < old_ids.len() && old_ids[at] == id;
    let pool_at = choose|at: int| 0 <= at < old_pool_ids.len() && old_pool_ids[at] == id;
    lemma_without(old_ids, id, at);
    lemma_without(old_pool_ids, id, pool_at);
    let new_ids = without(old_ids, id);
    let new_pool_ids = without(old_pool_ids, id);
    assert(after.trader_positions(owner) == new_ids);
    assert(after.pool_positions(pool) == new_pool_ids);
    assert forall|t: AccountId| #[trigger] after.trader_positions(t).no_duplicates() by {
        assert(ledger.trader_positions(t).no_duplicates());
        if t != owner {
            assert(after.trader_positions(t) == ledger.trader_positions(t));
        }
    }
    assert forall|p: LiquidityPoolId| #[trigger] after.pool_positions(p).no_duplicates() by {
        assert(ledger.pool_positions(p).no_duplicates());
        if p != pool {
            assert(after.pool_positions(p) == ledger.pool_positions(p));
        }
    }
    assert forall|k: PositionId| #[trigger] after.positions.contains_key(k) implies k
        < after.next_position_id && after.trader_positions(after.positions[k].owner).contains(k)
        && after.pool_positions(after.positions[k].pool).contains(k) by {
        assert(ledger.positions.contains_key(k) && k != id);
        let t = ledger.positions[k].owner;
        let p = ledger.positions[k].pool;
        assert(ledger.trader_positions(t).contains(k));
        assert(ledger.pool_positions(p).contains(k));
        if t == owner {
            assert(new_ids.contains(k));
        }
        if p == pool {
            assert(new_pool_ids.contains(k));
        }
    }
    assert forall|t: AccountId, k: PositionId| #[trigger]
        after.trader_positions(t).contains(k) implies after.files_under_trader(t, k) by {
        if t == owner {
            assert(new_ids.contains(k));
            assert(k != id);
            assert(old_ids.contains(k));
            assert(ledger.files_under_trader(t, k));
        } else {
            assert(ledger.trader_positions(t).contains(k));
            assert(ledger.files_under_trader(t, k));
        }
    }
    assert forall|p: LiquidityPoolId, k: PositionId| #[trigger]
        after.pool_positions(p).contains(k) implies after.files_under_pool(p, k) by {
        if p == pool {
            assert(new_pool_ids.contains(k));
            assert(k != id);
            assert(old_pool_ids.contains(k));
            assert(ledger.files_under_pool(p, k));
        } else {
            assert(ledger.pool_positions(p).contains(k));
            assert(ledger.files_under_pool(p, k));
        }
    }
    assert forall|t: AccountId| #[trigger]
        after.margin_held(t) == ledger.margin_held(t) - if t == owner {
            position.open_margin as int
        } else {
            0
        } by {
        let ids = after.trader_positions(t);
        assert forall|i: int| 0 <= i < ids.len() implies (ledger.positions.contains_key(
            #[trigger] ids[i],
        ) <==> after.positions.contains_key(ids[i])) && (ledger.positions.contains_key(ids[i])
            ==> ledger.positions[ids[i]] == after.positions[ids[i]]) by {
            assert(ids.contains(ids[i]));
            assert(after.files_under_trader(t, ids[i]));
        }
        lemma_margin_sum_frame(ledger.positions, after.positions, ids);
        if t == owner {
            lemma_margin_sum_remove(ledger.positions, old_ids, at);
        } else {
            assert(ids == ledger.trader_positions(t));
        }
    }
    assert forall|t: AccountId| #[trigger] after.free_balance(t) >= 0 by {
        assert(after.margin_held(t) == ledger.margin_held(t) - if t == owner {
            position.open_margin as int
        } else {
            0
        });
        assert(ledger.free_balance(t) >= 0);
    }
}

/// Closing a position keeps the ledger consistent.
pub proof fn lemma_close_position_wf(
    ledger: LedgerView,
    prices: Quotes,
    pools: PoolsView,
    who: AccountId,
    id: PositionId,
)
    requires
        ledger.wf(),
        spec_close_position(ledger, prices, pools, who, id) is Ok,
    ensures
        spec_close_position(ledger, prices, pools, who, id)->Ok_0.0.wf(),
{
    let position = ledger.positions[id];
    let realized = spec_realized(prices, pools, position)->Ok_0;
    let transfer = spec_transfer(
        realized,
        spec_payable(ledger, id),
        pools.liquidity_of(position.pool) as int,
    );
    let balance = Fixed128 { inner: (ledger.balance(who).inner + transfer) as i128 };
    lemma_without_position(ledger, id);
    lemma_margin_sum_monotone(
        ledger.without_position(id).positions,
        ledger.without_position(id).trader_positions(who),
        0,
    );
    assert(ledger.free_balance(who) >= 0);
    lemma_with_balance_wf(ledger.without_position(id), who, balance);
}

} // verus!

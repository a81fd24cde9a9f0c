//! What a position costs that is opened and closed again while prices
//! and swap rates stand still.

use crate::fixed::{signed_product, truncating_quotient, ACCURACY, Fixed128};
use crate::ledger::{lemma_margin_sum_monotone, LedgerView};
use crate::pools::PoolsView;
use crate::prices::{spec_quote, Quotes};
use crate::primitives::{
    AccountId, Balance, CurrencyId, Leverage, LiquidityPoolId, Price, TradingPair,
};
use crate::resolver::{
    spec_ask_price, spec_bid_price, spec_closing_price, spec_opening_price, spec_usd_value,
};
use crate::risk::{
    spec_accumulated_swap_rate_of_position, spec_open_price, spec_unrealized_pl_of_position,
};
use crate::transitions::{
    lemma_with_position, spec_close_position, spec_new_position, spec_open_position, spec_payable,
    spec_realized, spec_transfer,
};
use vstd::arithmetic::div_mod::{lemma_div_multiples_vanish, lemma_fundamental_div_mod};
use vstd::prelude::*;

verus! {

/// Dividing what is owed for at least one whole unit by the amount held
/// gives the ask price back, or one step of the scale less.
pub proof fn lemma_open_price_near_ask(amount: int, ask: int)
    requires
        amount >= ACCURACY,
        ask >= 0,
    ensures
        ask - 1 <= (((amount * ask) / (ACCURACY as int)) * ACCURACY) / amount <= ask,
        (amount * ask) / (ACCURACY as int) >= 0,
{
    let d = ACCURACY as int;
    let x = amount * ask;
    assert(x >= 0) by (nonlinear_arith)
        requires
            x == amount * ask,
            amount >= 0,
            ask >= 0,
    ;
    let c = x / d;
    lemma_fundamental_div_mod(x, d);
    assert(0 <= x % d < d);
    assert(d * c <= x < d * c + d);
    assert(c >= 0) by (nonlinear_arith)
        requires
            x < d * c + d,
            x >= 0,
            d > 0,
    ;
    let y = c * d;
    assert(y == d * c) by (nonlinear_arith)
        requires
            y == c * d,
    ;
    let q = y / amount;
    lemma_fundamental_div_mod(y, amount);
    assert(0 <= y % amount < amount);
    assert(amount * q <= y < amount * q + amount);
    assert(q <= ask) by (nonlinear_arith)
        requires
            amount * q <= y,
            y <= amount * ask,
            amount > 0,
    ;
    assert(q >= ask - 1) by (nonlinear_arith)
        requires
            y < amount * q + amount,
            amount * ask < y + d,
            d <= amount,
            amount > 0,
    ;
}

/// Dividing what is owed for a whole number of units by the amount held
/// gives the price back exactly.
pub proof fn lemma_whole_amount_opens_at_the_price(amount: int, price: int)
    requires
        amount >= ACCURACY,
        amount % (ACCURACY as int) == 0,
        price >= 0,
    ensures
        (((amount * price) / (ACCURACY as int)) * ACCURACY) / amount == price,
{
    let d = ACCURACY as int;
    let k = amount / d;
    lemma_fundamental_div_mod(amount, d);
    assert(amount == d * k);
    assert(amount * price == d * (k * price)) by (nonlinear_arith)
        requires
            amount == d * k,
    ;
    lemma_div_multiples_vanish(k * price, d);
    assert((amount * price) / d == k * price);
    assert((k * price) * d == amount * price) by (nonlinear_arith)
        requires
            amount == d * k,
    ;
    lemma_div_multiples_vanish(price, amount);
    assert((amount * price) / amount == price);
}

/// At least one whole unit times a negative difference is, rescaled and
/// rounded toward zero, negative.
pub proof fn lemma_product_is_negative(amount: int, delta: int)
    requires
        amount >= ACCURACY,
        delta <= -1,
    ensures
        truncating_quotient(amount * delta, ACCURACY as int) <= -1,
{
    let d = ACCURACY as int;
    let n = amount * delta;
    assert(-n >= d) by (nonlinear_arith)
        requires
            n == amount * delta,
            amount >= d,
            delta <= -1,
            d > 0,
    ;
    lemma_fundamental_div_mod(-n, d);
    assert(0 <= (-n) % d < d);
    assert((-n) / d >= 1) by (nonlinear_arith)
        requires
            -n == d * ((-n) / d) + (-n) % d,
            (-n) % d < d,
            -n >= d,
            d > 0,
    ;
}

/// A position that has just been opened for at least one whole unit of
/// a currency worth at least one USD, while the ask price is at least
/// two steps of the scale above the bid price, realizes a loss when it is
/// closed at the same prices and swap rates, whether it is long or short:
/// the spread is never free. What it realizes is its unrealized profit
/// and loss, with no swap: the amount held times the difference between
/// the closing price and the open price, where the open price is the
/// opening price or one step of the scale less. For a whole number of
/// units the open price is the opening price, and the loss is exactly
/// the amount held times the spread between bid price and ask price,
/// valued in USD.
pub proof fn lemma_new_position_realizes_spread_cost(
    prices: Quotes,
    pools: PoolsView,
    who: AccountId,
    pool: LiquidityPoolId,
    pair: TradingPair,
    leverage: Leverage,
    leveraged_amount: Balance,
    limit: Price,
)
    requires
        leveraged_amount >= ACCURACY,
        spec_new_position(prices, pools, who, pool, pair, leverage, leveraged_amount, limit) is Ok,
        spec_quote(prices, CurrencyId::AUSD, pair.quote) is Some,
        spec_quote(prices, CurrencyId::AUSD, pair.quote)->0.inner >= ACCURACY,
        spec_bid_price(prices, pools, pool, pair.quote, pair.base) is Ok,
        spec_ask_price(prices, pools, pool, pair.quote, pair.base, None) is Ok,
        spec_bid_price(prices, pools, pool, pair.quote, pair.base)->Ok_0.inner + 2
            <= spec_ask_price(prices, pools, pool, pair.quote, pair.base, None)->Ok_0.inner,
        spec_realized(
            prices,
            pools,
            spec_new_position(
                prices,
                pools,
                who,
                pool,
                pair,
                leverage,
                leveraged_amount,
                limit,
            )->Ok_0,
        ) is Ok,
    ensures
        ({
            let position = spec_new_position(
                prices,
                pools,
                who,
                pool,
                pair,
                leverage,
                leveraged_amount,
                limit,
            )->Ok_0;
            let opening = spec_opening_price(
                prices,
                pools,
                pool,
                pair.quote,
                pair.base,
                leverage.spec_is_long(),
                limit,
            )->Ok_0;
            &&& spec_realized(prices, pools, position)->Ok_0.inner < 0
            &&& spec_realized(prices, pools, position) == spec_unrealized_pl_of_position(
                prices,
                pools,
                position,
            )
            &&& spec_open_price(position) is Ok
            &&& opening.inner - 1 <= spec_open_price(position)->Ok_0.inner <= opening.inner
            &&& leveraged_amount % ACCURACY == 0 ==> {
                let closing = spec_closing_price(
                    prices,
                    pools,
                    pool,
                    pair.quote,
                    pair.base,
                    leverage.spec_is_long(),
                )->Ok_0;
                let cost = signed_product(
                    position.leveraged_held.inner,
                    (closing.inner - opening.inner) as i128,
                );
                &&& spec_open_price(position)->Ok_0.inner == opening.inner
                &&& cost is Some
                &&& spec_realized(prices, pools, position) == spec_usd_value(
                    prices,
                    pair.quote,
                    Fixed128 { inner: cost->0 },
                )
            }
        }),
{
    let position = spec_new_position(
        prices,
        pools,
        who,
        pool,
        pair,
        leverage,
        leveraged_amount,
        limit,
    )->Ok_0;
    let long = leverage.spec_is_long();
    let d = ACCURACY as int;
    let ask = spec_ask_price(prices, pools, pool, pair.quote, pair.base, None)->Ok_0;
    let bid = spec_bid_price(prices, pools, pool, pair.quote, pair.base)->Ok_0;
    let opening = spec_opening_price(prices, pools, pool, pair.quote, pair.base, long, limit)->Ok_0;
    let closing = spec_closing_price(prices, pools, pool, pair.quote, pair.base, long)->Ok_0;
    assert(opening == if long {
        ask
    } else {
        bid
    });
    assert(closing == if long {
        bid
    } else {
        ask
    });
    let usd = spec_quote(prices, CurrencyId::AUSD, pair.quote)->0;
    let a = leveraged_amount as int;
    // What is owed.
    lemma_open_price_near_ask(a, opening.inner as int);
    let cost = (a * opening.inner) / d;
    assert(truncating_quotient(a * opening.inner, d) == cost) by {
        assert(a * opening.inner >= 0) by (nonlinear_arith)
            requires
                a >= 0,
                opening.inner >= 0,
        ;
    }
    assert(position.leveraged_held.inner == if long {
        a
    } else {
        -a
    });
    assert(position.leveraged_debits.inner == if long {
        -cost
    } else {
        cost
    });
    // The open price.
    let open_price = spec_open_price(position)->Ok_0;
    let back = (cost * d) / a;
    assert(cost * d >= 0) by (nonlinear_arith)
        requires
            cost >= 0,
            d > 0,
    ;
    assert((-cost) * d == -(cost * d)) by (nonlinear_arith);
    assert(back >= 0) by {
        lemma_fundamental_div_mod(cost * d, a);
        assert(back >= 0) by (nonlinear_arith)
            requires
                cost * d == a * back + (cost * d) % a,
                0 <= (cost * d) % a < a,
                cost * d >= 0,
                a > 0,
        ;
    }
    if cost == 0 {
        assert(cost * d == 0);
        assert((-cost) * d == 0);
        assert(0int / a == 0);
    }
    assert(truncating_quotient(position.leveraged_debits.inner * d, position.leveraged_held.inner as int)
        == -back);
    assert(open_price.inner == back);
    if leveraged_amount % ACCURACY == 0 {
        lemma_whole_amount_opens_at_the_price(a, opening.inner as int);
    }
    // The difference to the closing price, and what it makes of the
    // amount held.
    let delta = closing.inner - back;
    let raw = truncating_quotient(position.leveraged_held.inner * delta, d);
    if long {
        assert(delta <= -1);
        lemma_product_is_negative(a, delta);
    } else {
        assert(delta >= 1);
        assert((-a) * delta == a * (-delta)) by (nonlinear_arith);
        lemma_product_is_negative(a, -delta);
    }
    assert(raw <= -1);
    // The value in USD.
    let unrealized = spec_unrealized_pl_of_position(prices, pools, position)->Ok_0;
    assert(unrealized.inner == truncating_quotient(raw * usd.inner, d));
    assert(unrealized.inner <= -1) by {
        let n = raw * usd.inner;
        assert(-n >= d) by (nonlinear_arith)
            requires
                n == raw * usd.inner,
                raw <= -1,
                usd.inner >= d,
                d > 0,
        ;
        lemma_fundamental_div_mod(-n, d);
        assert((-n) / d >= 1) by (nonlinear_arith)
            requires
                -n == d * ((-n) / d) + (-n) % d,
                0 <= (-n) % d < d,
                -n >= d,
                d > 0,
        ;
    }
    // No swap has accumulated.
    let swap = spec_accumulated_swap_rate_of_position(prices, pools, position)->Ok_0;
    assert(a * 0 == 0);
    assert(truncating_quotient(0, d) == 0);
    assert(0 * usd.inner == 0) by (nonlinear_arith);
    assert(swap.inner == 0);
}

/// Opening a position and closing it at once, at the same prices and swap
/// rates, leaves a trader who had free balance with less than before and
/// the pool with as much more, whether the position is long or short,
/// under the conditions of `lemma_new_position_realizes_spread_cost`.
/// Where the free balance covers the loss, the loss is exactly what the
/// position realized.
pub proof fn lemma_round_trip_costs_spread(
    ledger: LedgerView,
    prices: Quotes,
    pools: PoolsView,
    who: AccountId,
    pool: LiquidityPoolId,
    pair: TradingPair,
    leverage: Leverage,
    leveraged_amount: Balance,
    limit: Price,
)
    requires
        ledger.wf(),
        ledger.free_balance(who) > 0,
        leveraged_amount >= ACCURACY,
        spec_open_position(
            ledger,
            prices,
            pools,
            who,
            pool,
            pair,
            leverage,
            leveraged_amount,
            limit,
        ) is Ok,
        spec_quote(prices, CurrencyId::AUSD, pair.quote) is Some,
        spec_quote(prices, CurrencyId::AUSD, pair.quote)->0.inner >= ACCURACY,
        spec_bid_price(prices, pools, pool, pair.quote, pair.base) is Ok,
        spec_ask_price(prices, pools, pool, pair.quote, pair.base, None) is Ok,
        spec_bid_price(prices, pools, pool, pair.quote, pair.base)->Ok_0.inner + 2
            <= spec_ask_price(prices, pools, pool, pair.quote, pair.base, None)->Ok_0.inner,
        spec_close_position(
            spec_open_position(
                ledger,
                prices,
                pools,
                who,
                pool,
                pair,
                leverage,
                leveraged_amount,
                limit,
            )->Ok_0,
            prices,
            pools,
            who,
            ledger.next_position_id,
        ) is Ok,
    ensures
        ({
            let position = spec_new_position(
                prices,
                pools,
                who,
                pool,
                pair,
                leverage,
                leveraged_amount,
                limit,
            )->Ok_0;
            let opened = spec_open_position(
                ledger,
                prices,
                pools,
                who,
                pool,
                pair,
                leverage,
                leveraged_amount,
                limit,
            )->Ok_0;
            let (closed, settled) = spec_close_position(
                opened,
                prices,
                pools,
                who,
                ledger.next_position_id,
            )->Ok_0;
            let realized = spec_realized(prices, pools, position)->Ok_0;
            &&& opened.balance(who) == ledger.balance(who)
            &&& closed.balance(who).inner < ledger.balance(who).inner
            &&& settled.liquidity_of(pool) - pools.liquidity_of(pool) == ledger.balance(who).inner
                - closed.balance(who).inner
            &&& -realized.inner <= ledger.free_balance(who) ==> closed.balance(who).inner
                == ledger.balance(who).inner + realized.inner
        }),
{
    lemma_new_position_realizes_spread_cost(
        prices,
        pools,
        who,
        pool,
        pair,
        leverage,
        leveraged_amount,
        limit,
    );
    let position = spec_new_position(
        prices,
        pools,
        who,
        pool,
        pair,
        leverage,
        leveraged_amount,
        limit,
    )->Ok_0;
    lemma_with_position(ledger, position);
    let opened = ledger.with_position(position);
    let id = ledger.next_position_id;
    assert(opened.positions[id] == position);
    assert(position.owner == who && position.pool == pool);
    assert(opened.balance(who) == ledger.balance(who));
    assert(spec_payable(opened, id) == ledger.free_balance(who));
    let realized = spec_realized(prices, pools, position)->Ok_0;
    let moved = spec_transfer(realized, spec_payable(opened, id), pools.liquidity_of(pool) as int);
    assert(moved < 0);
    assert(-moved <= ledger.free_balance(who));
    lemma_margin_sum_monotone(ledger.positions, ledger.trader_positions(who), 0);
    let (closed, settled) = spec_close_position(opened, prices, pools, who, id)->Ok_0;
    assert(closed.balance(who).inner == ledger.balance(who).inner + moved);
}

} // verus!

//! What holds of every ledger that the operations can reach.

use crate::error::Error;
use crate::fixed::{Fixed128, PERMILL_UNIT};
use crate::ledger::{lemma_margin_sum_monotone, margin_sum, LedgerView};
use crate::pools::PoolsView;
use crate::position::{Position, RiskLevel, RiskThreshold};
use crate::prices::Quotes;
use crate::primitives::{
    AccountId, Balance, Leverage, LiquidityPoolId, PositionId, Price, TradingPair,
};
use crate::protocol::lemma_settings_keep_wf;
use crate::safety::{spec_breached, spec_breaches_at, spec_close_all};
use crate::transitions::{
    lemma_close_position_wf, lemma_deposit_wf, lemma_file_position_wf, lemma_withdraw_wf,
    lemma_without_position, spec_close_position, spec_deposit, spec_new_position,
    spec_open_position, spec_payable, spec_realized, spec_transfer, spec_withdraw,
};
use vstd::prelude::*;

verus! {

/// An operation that a caller can invoke on the ledger.
pub enum Operation {
    Deposit { who: AccountId, amount: Balance },
    Withdraw { who: AccountId, amount: Balance },
    OpenPosition {
        who: AccountId,
        pool: LiquidityPoolId,
        pair: TradingPair,
        leverage: Leverage,
        leveraged_amount: Balance,
        max_price: Price,
    },
    ClosePosition { who: AccountId, id: PositionId },
    TraderMarginCall { who: AccountId },
    TraderBecomeSafe { who: AccountId },
    TraderStopOut { who: AccountId },
    LiquidityPoolMarginCall { pool: LiquidityPoolId },
    LiquidityPoolBecomeSafe { pool: LiquidityPoolId },
    LiquidityPoolStopOut { pool: LiquidityPoolId },
}

/// A ledger alone, lifted to a ledger beside an unchanged registry.
pub open spec fn beside(ledger: Result<LedgerView, Error>, pools: PoolsView) -> Result<
    (LedgerView, PoolsView),
    Error,
> {
    match ledger {
        Ok(l) => Ok((l, pools)),
        Err(e) => Err(e),
    }
}

/// The ledger and the registry after `operation`, or why it is refused.
pub open spec fn spec_apply(
    operation: Operation,
    ledger: LedgerView,
    prices: Quotes,
    pools: PoolsView,
) -> Result<(LedgerView, PoolsView), Error> {
    match operation {
        Operation::Deposit { who, amount } => beside(spec_deposit(ledger, who, amount), pools),
        Operation::Withdraw { who, amount } => beside(spec_withdraw(ledger, who, amount), pools),
        Operation::OpenPosition { who, pool, pair, leverage, leveraged_amount, max_price } => beside(
            spec_open_position(
                ledger,
                prices,
                pools,
                who,
                pool,
                pair,
                leverage,
                leveraged_amount,
                max_price,
            ),
            pools,
        ),
        Operation::ClosePosition { who, id } => spec_close_position(
            ledger,
            prices,
            pools,
            who,
            id,
        ),
        Operation::TraderMarginCall { who } => beside(
            ledger.trader_margin_call(prices, pools, who),
            pools,
        ),
        Operation::TraderBecomeSafe { who } => beside(
            ledger.trader_become_safe(prices, pools, who),
            pools,
        ),
        Operation::TraderStopOut { who } => ledger.trader_stop_out(prices, pools, who),
        Operation::LiquidityPoolMarginCall { pool } => beside(
            ledger.liquidity_pool_margin_call(prices, pools, pool),
            pools,
        ),
        Operation::LiquidityPoolBecomeSafe { pool } => beside(
            ledger.liquidity_pool_become_safe(prices, pools, pool),
            pools,
        ),
        Operation::LiquidityPoolStopOut { pool } => ledger.liquidity_pool_stop_out(
            prices,
            pools,
            pool,
        ),
    }
}

/// Identifiers are only ever handed out upward, and a position that is
/// open in `after` under an identifier that `before` had handed out was
/// open in `before` and is the same in every field.
pub open spec fn never_rewritten(before: LedgerView, after: LedgerView) -> bool {
    &&& before.next_position_id <= after.next_position_id
    &&& forall|id: PositionId|
        id < before.next_position_id && #[trigger] after.positions.contains_key(id)
            ==> before.positions.contains_key(id) && after.positions[id] == before.positions[id]
}

/// A run of closes keeps a consistent ledger consistent and rewrites no
/// position.
pub proof fn lemma_close_all(
    ledger: LedgerView,
    prices: Quotes,
    pools: PoolsView,
    ids: Seq<PositionId>,
)
    requires
        ledger.wf(),
        spec_close_all(ledger, prices, pools, ids) is Ok,
    ensures
        spec_close_all(ledger, prices, pools, ids)->Ok_0.0.wf(),
        never_rewritten(ledger, spec_close_all(ledger, prices, pools, ids)->Ok_0.0),
    decreases ids.len(),
{
    if ids.len() > 0 {
        lemma_close_all(ledger, prices, pools, ids.drop_last());
        let (l, p) = spec_close_all(ledger, prices, pools, ids.drop_last())->Ok_0;
        lemma_close_position_wf(l, prices, p, l.positions[ids.last()].owner, ids.last());
    }
}

/// Every operation that succeeds on a consistent ledger leaves a
/// consistent ledger.
pub proof fn lemma_apply_keeps_wf(
    operation: Operation,
    ledger: LedgerView,
    prices: Quotes,
    pools: PoolsView,
)
    requires
        ledger.wf(),
        spec_apply(operation, ledger, prices, pools) is Ok,
    ensures
        spec_apply(operation, ledger, prices, pools)->Ok_0.0.wf(),
{
    let after = spec_apply(operation, ledger, prices, pools)->Ok_0.0;
    match operation {
        Operation::Deposit { who, amount } => {
            lemma_deposit_wf(ledger, who, amount);
        },
        Operation::Withdraw { who, amount } => {
            lemma_withdraw_wf(ledger, who, amount);
        },
        Operation::OpenPosition { who, pool, pair, leverage, leveraged_amount, max_price } => {
            let position = spec_new_position(
                prices,
                pools,
                who,
                pool,
                pair,
                leverage,
                leveraged_amount,
                max_price,
            )->Ok_0;
            lemma_file_position_wf(ledger, position);
        },
        Operation::ClosePosition { who, id } => {
            lemma_close_position_wf(ledger, prices, pools, who, id);
        },
        Operation::TraderStopOut { who } => {
            let ids = ledger.trader_positions(who);
            lemma_close_all(ledger, prices, pools, ids);
            lemma_settings_keep_wf(spec_close_all(ledger, prices, pools, ids)->Ok_0.0, after);
        },
        Operation::LiquidityPoolStopOut { pool } => {
            let ids = ledger.pool_positions(pool);
            lemma_close_all(ledger, prices, pools, ids);
            lemma_settings_keep_wf(spec_close_all(ledger, prices, pools, ids)->Ok_0.0, after);
        },
        _ => {
            lemma_settings_keep_wf(ledger, after);
        },
    }
}

/// No operation changes a position between its opening and its closing:
/// what was recorded at open, the USD value held among it, is what every
/// later state shows. And no identifier is used twice.
pub proof fn lemma_apply_never_rewrites(
    operation: Operation,
    ledger: LedgerView,
    prices: Quotes,
    pools: PoolsView,
)
    requires
        ledger.wf(),
        spec_apply(operation, ledger, prices, pools) is Ok,
    ensures
        never_rewritten(ledger, spec_apply(operation, ledger, prices, pools)->Ok_0.0),
{
    match operation {
        Operation::TraderStopOut { who } => {
            lemma_close_all(ledger, prices, pools, ledger.trader_positions(who));
        },
        Operation::LiquidityPoolStopOut { pool } => {
            lemma_close_all(ledger, prices, pools, ledger.pool_positions(pool));
        },
        _ => {},
    }
}

/// A position that is open before and after an operation is the same in
/// every field.
pub proof fn lemma_open_positions_are_immutable(
    operation: Operation,
    ledger: LedgerView,
    prices: Quotes,
    pools: PoolsView,
    id: PositionId,
)
    requires
        ledger.wf(),
        spec_apply(operation, ledger, prices, pools) is Ok,
        ledger.positions.contains_key(id),
        spec_apply(operation, ledger, prices, pools)->Ok_0.0.positions.contains_key(id),
    ensures
        spec_apply(operation, ledger, prices, pools)->Ok_0.0.positions[id] == ledger.positions[id],
{
    lemma_apply_never_rewrites(operation, ledger, prices, pools);
}

/// The margin level is the largest value exactly when the exposure is
/// zero, as long as the equity can be told and the quotient of equity
/// and exposure is not itself the largest value.
pub proof fn lemma_margin_level_max_iff_no_exposure(
    ledger: LedgerView,
    prices: Quotes,
    pools: PoolsView,
    who: AccountId,
    new_position: Option<Position>,
)
    requires
        ledger.equity_of_trader(prices, pools, who) is Ok,
        ledger.exposure_of_trader(prices, pools, who, new_position) is Ok ==> ledger.equity_of_trader(
            prices,
            pools,
            who,
        )->Ok_0.spec_checked_div(
            ledger.exposure_of_trader(prices, pools, who, new_position)->Ok_0,
        ) != Some(Fixed128::spec_max_value()),
    ensures
        ledger.margin_level(prices, pools, who, new_position) == Ok::<Fixed128, Error>(
            Fixed128::spec_max_value(),
        ) <==> ledger.exposure_of_trader(prices, pools, who, new_position) == Ok::<
            Fixed128,
            Error,
        >(Fixed128::spec_zero()),
{
}

/// A trader without open positions who deposits an amount and withdraws
/// it again is never refused and has the balance from before, as long as
/// the balance with the amount is in range.
pub proof fn lemma_deposit_then_withdraw(ledger: LedgerView, who: AccountId, amount: Balance)
    requires
        ledger.wf(),
        ledger.trader_positions(who).len() == 0,
        ledger.balance(who).inner + amount <= i128::MAX,
    ensures
        spec_deposit(ledger, who, amount) is Ok,
        spec_withdraw(spec_deposit(ledger, who, amount)->Ok_0, who, amount) is Ok,
        spec_withdraw(spec_deposit(ledger, who, amount)->Ok_0, who, amount)->Ok_0
            == ledger.with_balance(who, ledger.balance(who)),
        spec_withdraw(spec_deposit(ledger, who, amount)->Ok_0, who, amount)->Ok_0.balance(who)
            == ledger.balance(who),
{
    assert(ledger.free_balance(who) >= 0);
    let deposited = spec_deposit(ledger, who, amount)->Ok_0;
    assert(deposited.trader_positions(who) == ledger.trader_positions(who));
    let withdrawn = spec_withdraw(deposited, who, amount)->Ok_0;
    assert(withdrawn.balances =~= ledger.balances.insert(who, ledger.balance(who)));
}

/// A withdrawal is refused with `InsufficientFreeBalance` exactly when
/// the amount is more than the balance less the margin held, and is
/// refused in no other way.
pub proof fn lemma_withdraw_beyond_free_balance(ledger: LedgerView, who: AccountId, amount: Balance)
    ensures
        amount > ledger.balance(who).inner - ledger.margin_held(who) <==> spec_withdraw(
            ledger,
            who,
            amount,
        ) == Err::<LedgerView, Error>(Error::InsufficientFreeBalance),
        spec_withdraw(ledger, who, amount) is Err ==> spec_withdraw(ledger, who, amount) == Err::<
            LedgerView,
            Error,
        >(Error::InsufficientFreeBalance),
{
}

/// Closing a position moves collateral between the pool and the owner
/// of the position and nowhere else: the owner's balance rises by exactly
/// what the pool's collateral falls. What moves is what the position
/// realized, unless the owner cannot pay or the pool does not hold that
/// much; then what moves is what the owner can pay or the pool holds.
pub proof fn lemma_close_is_zero_sum(
    ledger: LedgerView,
    prices: Quotes,
    pools: PoolsView,
    who: AccountId,
    id: PositionId,
)
    requires
        ledger.wf(),
        spec_close_position(ledger, prices, pools, who, id) is Ok,
    ensures
        ({
            let (after, settled) = spec_close_position(ledger, prices, pools, who, id)->Ok_0;
            let pool = ledger.positions[id].pool;
            let realized = spec_realized(prices, pools, ledger.positions[id])->Ok_0;
            let payable = spec_payable(ledger, id);
            let receivable = pools.liquidity_of(pool);
            let moved = after.balance(who).inner - ledger.balance(who).inner;
            &&& spec_realized(prices, pools, ledger.positions[id]) is Ok
            &&& 0 <= payable <= ledger.balance(who).inner
            &&& moved == spec_transfer(realized, payable, receivable as int)
            &&& pools.liquidity_of(pool) - settled.liquidity_of(pool) == moved
            &&& -payable <= realized.inner <= receivable ==> moved == realized.inner
            &&& realized.inner < -payable ==> moved == -payable
            &&& realized.inner > receivable ==> moved == receivable
            &&& after.balance(who).inner >= 0
            &&& after.positions == ledger.positions.remove(id)
        }),
{
    lemma_without_position(ledger, id);
    lemma_margin_sum_monotone(
        ledger.without_position(id).positions,
        ledger.without_position(id).trader_positions(who),
        0,
    );
    assert(ledger.free_balance(who) >= 0);
}

/// A close is never refused for want of funds: where the position is
/// open and the caller's, its valuation succeeds and the owner's balance
/// and the pool's collateral together are in range, the close succeeds.
pub proof fn lemma_close_is_not_refused_for_want_of_funds(
    ledger: LedgerView,
    prices: Quotes,
    pools: PoolsView,
    who: AccountId,
    id: PositionId,
)
    requires
        ledger.wf(),
        ledger.positions.contains_key(id),
        ledger.positions[id].owner == who,
        spec_realized(prices, pools, ledger.positions[id]) is Ok,
        ledger.balance(who).inner + pools.liquidity_of(ledger.positions[id].pool) <= i128::MAX,
    ensures
        spec_close_position(ledger, prices, pools, who, id) is Ok,
{
    lemma_without_position(ledger, id);
    lemma_margin_sum_monotone(
        ledger.without_position(id).positions,
        ledger.without_position(id).trader_positions(who),
        0,
    );
    assert(ledger.free_balance(who) >= 0);
}

/// A margin called trader with one open position, whose margin level is
/// at or below the stop out level, is stopped out: the position is
/// closed and the trader is safe again. Where the position has lost as
/// much as the trader's balance or more, the balance becomes zero and
/// the pool receives exactly what the balance held.
pub proof fn lemma_stop_out_of_one_position(
    ledger: LedgerView,
    prices: Quotes,
    pools: PoolsView,
    who: AccountId,
    id: PositionId,
)
    requires
        ledger.wf(),
        ledger.margin_called_traders.contains(who),
        ledger.trader_positions(who) == seq![id],
        ledger.trader_at_risk(prices, pools, who, RiskLevel::StopOut) == Ok::<bool, Error>(true),
        spec_realized(prices, pools, ledger.positions[id]) is Ok,
        ledger.balance(who).inner + pools.liquidity_of(ledger.positions[id].pool) <= i128::MAX,
    ensures
        ({
            let pool = ledger.positions[id].pool;
            let realized = spec_realized(prices, pools, ledger.positions[id])->Ok_0;
            let outcome = ledger.trader_stop_out(prices, pools, who);
            let moved = spec_transfer(
                realized,
                ledger.balance(who).inner as int,
                pools.liquidity_of(pool) as int,
            );
            &&& outcome is Ok
            &&& !outcome->Ok_0.0.margin_called_traders.contains(who)
            &&& !outcome->Ok_0.0.positions.contains_key(id)
            &&& outcome->Ok_0.0.trader_positions(who).len() == 0
            &&& outcome->Ok_0.0.balance(who).inner == ledger.balance(who).inner + moved
            &&& outcome->Ok_0.1.liquidity_of(pool) == pools.liquidity_of(pool) - moved
            &&& realized.inner <= -ledger.balance(who).inner ==> outcome->Ok_0.0.balance(who).inner
                == 0 && outcome->Ok_0.1.liquidity_of(pool) == pools.liquidity_of(pool)
                + ledger.balance(who).inner
        }),
{
    let ids = ledger.trader_positions(who);
    assert(ids[0] == id);
    assert(ids.contains(id));
    assert(ledger.files_under_trader(who, id));
    assert(ids.drop_last() =~= Seq::<PositionId>::empty());
    assert(ids.last() == id);
    assert(margin_sum(ledger.positions, ids.drop_last()) == 0);
    assert(ledger.margin_held(who) == ledger.positions[id].open_margin);
    assert(spec_payable(ledger, id) == ledger.balance(who).inner);
    assert(ledger.free_balance(who) >= 0);
    lemma_close_is_not_refused_for_want_of_funds(ledger, prices, pools, who, id);
    assert(spec_close_all(ledger, prices, pools, ids.drop_last()) == Ok::<
        (LedgerView, PoolsView),
        Error,
    >((ledger, pools)));
    assert(spec_close_all(ledger, prices, pools, ids) == spec_close_position(
        ledger,
        prices,
        pools,
        who,
        id,
    ));
    lemma_without_position(ledger, id);
    let closed = spec_close_position(ledger, prices, pools, who, id)->Ok_0.0;
    assert(closed.trader_positions(who) =~= Seq::<PositionId>::empty()) by {
        assert(ids.index_of(id) == 0);
        assert(ids.remove(0) =~= Seq::<PositionId>::empty());
    }
}

/// In a consistent ledger no balance is negative, and no trader has
/// committed more margin than the balance covers.
pub proof fn lemma_balance_covers_margin(ledger: LedgerView, who: AccountId)
    requires
        ledger.wf(),
    ensures
        0 <= ledger.margin_held(who) <= ledger.balance(who).inner,
{
    assert(ledger.free_balance(who) >= 0);
    lemma_margin_sum_monotone(ledger.positions, ledger.trader_positions(who), 0);
}

/// In a consistent ledger an open position is filed under its owner and
/// under no other trader, under its pool and under no other pool, and
/// nowhere twice.
pub proof fn lemma_position_is_filed_once(
    ledger: LedgerView,
    id: PositionId,
    who: AccountId,
    pool: LiquidityPoolId,
)
    requires
        ledger.wf(),
        ledger.positions.contains_key(id),
    ensures
        ledger.trader_positions(who).contains(id) <==> who == ledger.positions[id].owner,
        ledger.pool_positions(pool).contains(id) <==> pool == ledger.positions[id].pool,
        ledger.trader_positions(who).no_duplicates(),
        ledger.pool_positions(pool).no_duplicates(),
{
    if ledger.trader_positions(who).contains(id) {
        assert(ledger.files_under_trader(who, id));
    }
    if ledger.pool_positions(pool).contains(id) {
        assert(ledger.files_under_pool(pool, id));
    }
}

/// In a consistent ledger whatever an index names is an open position.
pub proof fn lemma_index_names_open_positions(
    ledger: LedgerView,
    id: PositionId,
    who: AccountId,
    pool: LiquidityPoolId,
)
    requires
        ledger.wf(),
    ensures
        ledger.trader_positions(who).contains(id) ==> ledger.positions.contains_key(id),
        ledger.pool_positions(pool).contains(id) ==> ledger.positions.contains_key(id),
{
    if ledger.trader_positions(who).contains(id) {
        assert(ledger.files_under_trader(who, id));
    }
    if ledger.pool_positions(pool).contains(id) {
        assert(ledger.files_under_pool(pool, id));
    }
}

/// With ordered thresholds a ratio that has reached the stop out level
/// has reached the margin call level.
pub proof fn lemma_stop_out_is_tighter(
    ratio: Fixed128,
    positions: Map<PositionId, Position>,
    ids: Seq<PositionId>,
    thresholds: Map<TradingPair, RiskThreshold>,
)
    requires
        forall|pair: TradingPair| #[trigger]
            thresholds.contains_key(pair) ==> thresholds[pair].wf(),
        spec_breached(ratio, positions, ids, thresholds, RiskLevel::StopOut),
    ensures
        spec_breached(ratio, positions, ids, thresholds, RiskLevel::MarginCall),
{
    let i = choose|i: int|
        0 <= i < ids.len() && spec_breaches_at(
            ratio,
            positions,
            thresholds,
            RiskLevel::StopOut,
            #[trigger] ids[i],
        );
    let threshold = thresholds[positions[ids[i]].pair];
    assert(threshold.wf());
    assert(threshold.stop_out.parts * PERMILL_UNIT <= threshold.margin_call.parts * PERMILL_UNIT)
        by (nonlinear_arith)
        requires
            threshold.stop_out.parts <= threshold.margin_call.parts,
            PERMILL_UNIT > 0,
    ;
    assert(threshold.margin_call.parts * PERMILL_UNIT <= i128::MAX) by (nonlinear_arith)
        requires
            threshold.margin_call.parts <= 1_000_000,
            PERMILL_UNIT == 1_000_000_000_000,
    ;
    assert(spec_breaches_at(ratio, positions, thresholds, RiskLevel::MarginCall, ids[i]));
}

/// In a consistent ledger a trader or a pool that is due for a stop out
/// is due for a margin call.
pub proof fn lemma_stop_out_risk_is_margin_call_risk(
    ledger: LedgerView,
    prices: Quotes,
    pools: PoolsView,
    who: AccountId,
    pool: LiquidityPoolId,
)
    requires
        ledger.wf(),
    ensures
        ledger.trader_at_risk(prices, pools, who, RiskLevel::StopOut) == Ok::<bool, Error>(true)
            ==> ledger.trader_at_risk(prices, pools, who, RiskLevel::MarginCall) == Ok::<
            bool,
            Error,
        >(true),
        ledger.pool_at_risk(prices, pools, pool, RiskLevel::StopOut) == Ok::<bool, Error>(true)
            ==> ledger.pool_at_risk(prices, pools, pool, RiskLevel::MarginCall) == Ok::<
            bool,
            Error,
        >(true),
{
    if ledger.trader_at_risk(prices, pools, who, RiskLevel::StopOut) == Ok::<bool, Error>(true) {
        lemma_stop_out_is_tighter(
            ledger.margin_level(prices, pools, who, None)->Ok_0,
            ledger.positions,
            ledger.trader_positions(who),
            ledger.trader_risk_threshold,
        );
    }
    if ledger.pool_at_risk(prices, pools, pool, RiskLevel::StopOut) == Ok::<bool, Error>(true) {
        let enp = ledger.enp(prices, pools, pool, None)->Ok_0;
        let ell = ledger.ell(prices, pools, pool, None)->Ok_0;
        let ids = ledger.pool_positions(pool);
        if spec_breached(
            enp,
            ledger.positions,
            ids,
            ledger.liquidity_pool_enp_threshold,
            RiskLevel::StopOut,
        ) {
            lemma_stop_out_is_tighter(
                enp,
                ledger.positions,
                ids,
                ledger.liquidity_pool_enp_threshold,
            );
        }
        if spec_breached(
            ell,
            ledger.positions,
            ids,
            ledger.liquidity_pool_ell_threshold,
            RiskLevel::StopOut,
        ) {
            lemma_stop_out_is_tighter(
                ell,
                ledger.positions,
                ids,
                ledger.liquidity_pool_ell_threshold,
            );
        }
    }
}

} // verus!

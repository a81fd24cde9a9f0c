//! The ledger as a mathematical value: what it holds, when it is
//! consistent, and what each operation makes of it.

use crate::fixed::Fixed128;
use crate::index::{ids_in, without};
use crate::position::{Position, RiskThreshold};
use crate::primitives::{AccountId, LiquidityPoolId, PositionId, TradingPair};
use vstd::prelude::*;

verus! {

/// How the two solvency ratios of a pool combine into one verdict.
#[derive(Clone, Copy, Debug, PartialEq, Eq, Structural)]
pub enum PoolRiskRule {
    /// A pool is at risk as soon as one of its two ratios is at or below
    /// its threshold.
    EitherRatio,
    /// A pool is at risk only when both of its ratios are at or below
    /// their thresholds.
    BothRatios,
}

/// Everything the ledger holds.
#[verifier::ext_equal]
pub struct LedgerView {
    /// The identifier that the next position will get.
    pub next_position_id: PositionId,
    /// The open positions.
    pub positions: Map<PositionId, Position>,
    /// For each trader, the identifiers of the trader's open positions.
    pub positions_by_trader: Map<AccountId, Seq<PositionId>>,
    /// For each pool, the identifiers of the open positions against it.
    pub positions_by_pool: Map<LiquidityPoolId, Seq<PositionId>>,
    /// The collateral of each trader.
    pub balances: Map<AccountId, Fixed128>,
    /// The traders that are margin called.
    pub margin_called_traders: Set<AccountId>,
    /// The pools that are margin called.
    pub margin_called_pools: Set<LiquidityPoolId>,
    /// The thresholds on a trader's margin level, per trading pair.
    pub trader_risk_threshold: Map<TradingPair, RiskThreshold>,
    /// The thresholds on a pool's equity to net position ratio.
    pub liquidity_pool_enp_threshold: Map<TradingPair, RiskThreshold>,
    /// The thresholds on a pool's equity to longest leg ratio.
    pub liquidity_pool_ell_threshold: Map<TradingPair, RiskThreshold>,
    /// How the two ratios of a pool combine.
    pub pool_risk_rule: PoolRiskRule,
}

/// The sum of the margins of the positions named by `ids`.
pub open spec fn margin_sum(positions: Map<PositionId, Position>, ids: Seq<PositionId>) -> int
    decreases ids.len(),
{
    if ids.len() == 0 {
        0
    } else {
        margin_sum(positions, ids.drop_last()) + if positions.contains_key(ids.last()) {
            positions[ids.last()].open_margin as int
        } else {
            0
        }
    }
}

/// A sum of margins is never negative, and no smaller than the sum over
/// a prefix.
pub proof fn lemma_margin_sum_monotone(
    positions: Map<PositionId, Position>,
    ids: Seq<PositionId>,
    k: int,
)
    requires
        0 <= k <= ids.len(),
    ensures
        0 <= margin_sum(positions, ids.take(k)) <= margin_sum(positions, ids),
    decreases ids.len(),
{
    if ids.len() == 0 {
        assert(ids.take(k) =~= ids);
    } else if k == ids.len() {
        assert(ids.take(k) =~= ids);
        lemma_margin_sum_monotone(positions, ids.drop_last(), k - 1);
        assert(ids.drop_last().take(k - 1) =~= ids.drop_last());
    } else {
        lemma_margin_sum_monotone(positions, ids.drop_last(), k);
        assert(ids.drop_last().take(k) =~= ids.take(k));
    }
}

/// The sum of margins depends only on the positions that `ids` names.
pub proof fn lemma_margin_sum_frame(
    before: Map<PositionId, Position>,
    after: Map<PositionId, Position>,
    ids: Seq<PositionId>,
)
    requires
        forall|i: int|
            0 <= i < ids.len() ==> (before.contains_key(#[trigger] ids[i]) <==> after.contains_key(
                ids[i],
            )),
        forall|i: int|
            0 <= i < ids.len() && before.contains_key(#[trigger] ids[i]) ==> before[ids[i]]
                == after[ids[i]],
    ensures
        margin_sum(before, ids) == margin_sum(after, ids),
    decreases ids.len(),
{
    if ids.len() > 0 {
        let rest = ids.drop_last();
        assert forall|i: int| 0 <= i < rest.len() implies (before.contains_key(#[trigger] rest[i])
            <==> after.contains_key(rest[i])) by {
            assert(rest[i] == ids[i]);
        }
        assert forall|i: int|
            0 <= i < rest.len() && before.contains_key(#[trigger] rest[i]) implies before[rest[i]]
            == after[rest[i]] by {
            assert(rest[i] == ids[i]);
        }
        lemma_margin_sum_frame(before, after, rest);
        assert(ids.last() == ids[ids.len() - 1]);
    }
}

/// Taking one identifier out of the list takes its margin out of the sum.
pub proof fn lemma_margin_sum_remove(
    positions: Map<PositionId, Position>,
    ids: Seq<PositionId>,
    at: int,
)
    requires
        0 <= at < ids.len(),
    ensures
        margin_sum(positions, ids.remove(at)) == margin_sum(positions, ids) - if positions.contains_key(
            ids[at],
        ) {
            positions[ids[at]].open_margin as int
        } else {
            0
        },
    decreases ids.len(),
{
    if at == ids.len() - 1 {
        assert(ids.remove(at) =~= ids.drop_last());
    } else {
        lemma_margin_sum_remove(positions, ids.drop_last(), at);
        assert(ids.remove(at).drop_last() =~= ids.drop_last().remove(at));
        assert(ids.remove(at).last() == ids.last());
    }
}

impl LedgerView {
    /// The identifiers of the open positions of `who`, oldest first.
    pub open spec fn trader_positions(self, who: AccountId) -> Seq<PositionId> {
        ids_in(self.positions_by_trader, who)
    }

    /// The identifiers of the open positions against `pool`, oldest first.
    pub open spec fn pool_positions(self, pool: LiquidityPoolId) -> Seq<PositionId> {
        ids_in(self.positions_by_pool, pool)
    }

    /// The collateral of `who`; zero for a trader who never deposited.
    pub open spec fn balance(self, who: AccountId) -> Fixed128 {
        if self.balances.contains_key(who) {
            self.balances[who]
        } else {
            Fixed128::spec_zero()
        }
    }

    /// The margin that the open positions of `who` commit.
    pub open spec fn margin_held(self, who: AccountId) -> int {
        margin_sum(self.positions, self.trader_positions(who))
    }

    /// The collateral of `who` that no position commits.
    pub open spec fn free_balance(self, who: AccountId) -> int {
        self.balance(who).inner - self.margin_held(who)
    }

    /// The position `id` is open and belongs to `who`.
    pub open spec fn files_under_trader(self, who: AccountId, id: PositionId) -> bool {
        self.positions.contains_key(id) && self.positions[id].owner == who
    }

    /// The position `id` is open and stands against `pool`.
    pub open spec fn files_under_pool(self, pool: LiquidityPoolId, id: PositionId) -> bool {
        self.positions.contains_key(id) && self.positions[id].pool == pool
    }

    /// In every threshold the stop out level is at or below the margin
    /// call level.
    pub open spec fn thresholds_ordered(self) -> bool {
        &&& forall|pair: TradingPair| #[trigger]
            self.trader_risk_threshold.contains_key(pair) ==> self.trader_risk_threshold[pair].wf()
        &&& forall|pair: TradingPair| #[trigger]
            self.liquidity_pool_enp_threshold.contains_key(pair)
                ==> self.liquidity_pool_enp_threshold[pair].wf()
        &&& forall|pair: TradingPair| #[trigger]
            self.liquidity_pool_ell_threshold.contains_key(pair)
                ==> self.liquidity_pool_ell_threshold[pair].wf()
    }

    /// The ledger is consistent: identifiers are never reused, each open
    /// position is filed exactly once under its owner and once under its
    /// pool, nothing else is filed, every trader's collateral covers the
    /// margin of the trader's positions, and the thresholds are ordered.
    pub open spec fn wf(self) -> bool {
        &&& forall|id: PositionId| #[trigger]
            self.positions.contains_key(id) ==> id < self.next_position_id
        &&& forall|id: PositionId| #[trigger]
            self.positions.contains_key(id) ==> self.trader_positions(
                self.positions[id].owner,
            ).contains(id)
        &&& forall|id: PositionId| #[trigger]
            self.positions.contains_key(id) ==> self.pool_positions(
                self.positions[id].pool,
            ).contains(id)
        &&& forall|who: AccountId| #[trigger] self.trader_positions(who).no_duplicates()
        &&& forall|pool: LiquidityPoolId| #[trigger] self.pool_positions(pool).no_duplicates()
        &&& forall|who: AccountId, id: PositionId| #[trigger]
            self.trader_positions(who).contains(id) ==> self.files_under_trader(who, id)
        &&& forall|pool: LiquidityPoolId, id: PositionId| #[trigger]
            self.pool_positions(pool).contains(id) ==> self.files_under_pool(pool, id)
        &&& forall|who: AccountId| #[trigger] self.free_balance(who) >= 0
        &&& self.thresholds_ordered()
    }

    /// The ledger with `balance` as the collateral of `who`.
    pub open spec fn with_balance(self, who: AccountId, balance: Fixed128) -> LedgerView {
        LedgerView { balances: self.balances.insert(who, balance), ..self }
    }

    /// The ledger with `position` opened under the next identifier.
    pub open spec fn with_position(self, position: Position) -> LedgerView {
        LedgerView {
            next_position_id: (self.next_position_id + 1) as PositionId,
            positions: self.positions.insert(self.next_position_id, position),
            positions_by_trader: self.positions_by_trader.insert(
                position.owner,
                self.trader_positions(position.owner).push(self.next_position_id),
            ),
            positions_by_pool: self.positions_by_pool.insert(
                position.pool,
                self.pool_positions(position.pool).push(self.next_position_id),
            ),
            ..self
        }
    }

    /// The ledger with the position `id` taken out of the store and of
    /// both indices.
    pub open spec fn without_position(self, id: PositionId) -> LedgerView
        recommends
            self.positions.contains_key(id),
    {
        let position = self.positions[id];
        LedgerView {
            positions: self.positions.remove(id),
            positions_by_trader: self.positions_by_trader.insert(
                position.owner,
                without(self.trader_positions(position.owner), id),
            ),
            positions_by_pool: self.positions_by_pool.insert(
                position.pool,
                without(self.pool_positions(position.pool), id),
            ),
            ..self
        }
    }
}

} // verus!

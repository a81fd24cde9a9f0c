//! The margin protocol: the ledger of balances and open positions, and
//! the operations that traders invoke on it.

use crate::error::Error;
use crate::fixed::Fixed128;
use crate::index::IdIndex;
use crate::ledger::{lemma_margin_sum_monotone, margin_sum, LedgerView, PoolRiskRule};
use crate::pools::{LiquidityPools, PoolsView};
use crate::position::{Position, RiskLevel, RiskThreshold};
use crate::prices::PriceProvider;
use crate::primitives::{
    fixed_128_from_u128, AccountId, Balance, LiquidityPoolId, PositionId, TradingPair,
};
use crate::risk::{spec_sum, sum, Measure};
use crate::safety::{breached, spec_breached, spec_combine};
use crate::tables::PairTable;
use crate::transitions::{lemma_deposit_wf, lemma_withdraw_wf, spec_deposit, spec_withdraw};
use std::collections::{HashMap, HashSet};
use vstd::prelude::*;

verus! {

broadcast use vstd::std_specs::hash::group_hash_axioms;

/// An operation on the ledger alone either did what `expected` says or
/// was refused with the error that `expected` names and changed nothing.
pub open spec fn committed(
    result: Result<(), Error>,
    expected: Result<LedgerView, Error>,
    before: LedgerView,
    after: LedgerView,
) -> bool {
    match result {
        Ok(()) => expected == Ok::<LedgerView, Error>(after),
        Err(e) => expected == Err::<LedgerView, Error>(e) && after == before,
    }
}

/// An operation on the ledger and the registry of pools either did what
/// `expected` says or was refused with the error that `expected` names
/// and changed nothing.
pub open spec fn settled(
    result: Result<(), Error>,
    expected: Result<(LedgerView, PoolsView), Error>,
    before: (LedgerView, PoolsView),
    after: (LedgerView, PoolsView),
) -> bool {
    match result {
        Ok(()) => expected == Ok::<(LedgerView, PoolsView), Error>(after),
        Err(e) => expected == Err::<(LedgerView, PoolsView), Error>(e) && after == before,
    }
}

/// What closing positions can change in a ledger, kept aside so that a
/// run of closes that is refused half way can be undone.
pub(crate) struct Saved {
    pub(crate) positions: HashMap<PositionId, Position>,
    pub(crate) positions_by_trader: IdIndex<AccountId>,
    pub(crate) positions_by_pool: IdIndex<LiquidityPoolId>,
    pub(crate) balances: HashMap<AccountId, Fixed128>,
}

/// The ledger of the margin protocol.
pub struct MarginProtocol {
    pub(crate) next_position_id: PositionId,
    pub(crate) positions: HashMap<PositionId, Position>,
    pub(crate) positions_by_trader: IdIndex<AccountId>,
    pub(crate) positions_by_pool: IdIndex<LiquidityPoolId>,
    pub(crate) balances: HashMap<AccountId, Fixed128>,
    pub(crate) margin_called_traders: HashSet<AccountId>,
    pub(crate) margin_called_pools: HashSet<LiquidityPoolId>,
    pub(crate) trader_risk_threshold: PairTable<RiskThreshold>,
    pub(crate) liquidity_pool_enp_threshold: PairTable<RiskThreshold>,
    pub(crate) liquidity_pool_ell_threshold: PairTable<RiskThreshold>,
    pub(crate) pool_risk_rule: PoolRiskRule,
}

impl View for MarginProtocol {
    type V = LedgerView;

    closed spec fn view(&self) -> LedgerView {
        LedgerView {
            next_position_id: self.next_position_id,
            positions: self.positions@,
            positions_by_trader: self.positions_by_trader@,
            positions_by_pool: self.positions_by_pool@,
            balances: self.balances@,
            margin_called_traders: self.margin_called_traders@,
            margin_called_pools: self.margin_called_pools@,
            trader_risk_threshold: self.trader_risk_threshold@,
            liquidity_pool_enp_threshold: self.liquidity_pool_enp_threshold@,
            liquidity_pool_ell_threshold: self.liquidity_pool_ell_threshold@,
            pool_risk_rule: self.pool_risk_rule,
        }
    }
}

/// A ledger without positions, balances, flags or thresholds.
pub open spec fn spec_empty_ledger(rule: PoolRiskRule) -> LedgerView {
    LedgerView {
        next_position_id: 0,
        positions: Map::empty(),
        positions_by_trader: Map::empty(),
        positions_by_pool: Map::empty(),
        balances: Map::empty(),
        margin_called_traders: Set::empty(),
        margin_called_pools: Set::empty(),
        trader_risk_threshold: Map::empty(),
        liquidity_pool_enp_threshold: Map::empty(),
        liquidity_pool_ell_threshold: Map::empty(),
        pool_risk_rule: rule,
    }
}

/// An empty ledger is consistent.
pub proof fn lemma_empty_ledger_wf(rule: PoolRiskRule)
    ensures
        spec_empty_ledger(rule).wf(),
{
    let l = spec_empty_ledger(rule);
    assert forall|who: AccountId| #[trigger] l.free_balance(who) >= 0 by {
        assert(l.trader_positions(who) =~= Seq::<PositionId>::empty());
    }
}

impl MarginProtocol {
    /// An empty ledger in which pools are judged by `rule`.
    pub fn new(rule: PoolRiskRule) -> (r: Self)
        ensures
            r@ == spec_empty_ledger(rule),
            r@.wf(),
    {
        let r = MarginProtocol {
            next_position_id: 0,
            positions: HashMap::new(),
            positions_by_trader: IdIndex::new(),
            positions_by_pool: IdIndex::new(),
            balances: HashMap::new(),
            margin_called_traders: HashSet::new(),
            margin_called_pools: HashSet::new(),
            trader_risk_threshold: PairTable::new(),
            liquidity_pool_enp_threshold: PairTable::new(),
            liquidity_pool_ell_threshold: PairTable::new(),
            pool_risk_rule: rule,
        };
        proof {
            assert(r@ =~= spec_empty_ledger(rule));
            lemma_empty_ledger_wf(rule);
        }
        r
    }

    /// The identifier that the next position will get.
    pub fn next_position_id(&self) -> (r: PositionId)
        ensures
            r == self@.next_position_id,
    {
        self.next_position_id
    }

    /// The open position `id`, if there is one.
    pub fn positions(&self, id: PositionId) -> (r: Option<Position>)
        ensures
            r == if self@.positions.contains_key(id) {
                Some(self@.positions[id])
            } else {
                None
            },
    {
        match self.positions.get(&id) {
            Some(p) => Some(*p),
            None => None,
        }
    }

    /// The identifiers of the open positions of `who`, oldest first.
    pub fn positions_of_trader(&self, who: AccountId) -> (r: Vec<PositionId>)
        ensures
            r@ == self@.trader_positions(who),
    {
        match self.positions_by_trader.get(who) {
            Some(ids) => copy_ids(ids),
            None => Vec::new(),
        }
    }

    /// The identifiers of the open positions of `who` against `pool`,
    /// oldest first.
    pub fn positions_by_trader(&self, who: AccountId, pool: LiquidityPoolId) -> (r: Vec<
        PositionId,
    >)
        ensures
            r@ == self@.trader_positions(who).filter(
                |id: PositionId|
                    self@.positions.contains_key(id) && self@.positions[id].pool == pool,
            ),
    {
        let ghost keep = |id: PositionId|
            self@.positions.contains_key(id) && self@.positions[id].pool == pool;
        let mut found: Vec<PositionId> = Vec::new();
        let empty: Vec<PositionId> = Vec::new();
        let ids = match self.positions_by_trader.get(who) {
            Some(ids) => ids,
            None => &empty,
        };
        let mut i: usize = 0;
        proof {
            assert(ids@.take(0) =~= Seq::<PositionId>::empty());
        }
        while i < ids.len()
            invariant
                0 <= i <= ids.len(),
                ids@ == self@.trader_positions(who),
                keep == |id: PositionId|
                    self@.positions.contains_key(id) && self@.positions[id].pool == pool,
                found@ == ids@.take(i as int).filter(keep),
            decreases ids.len() - i,
        {
            let id = ids[i];
            proof {
                assert(ids@.take(i + 1).drop_last() =~= ids@.take(i as int));
                assert(ids@.take(i + 1).last() == id);
                reveal(Seq::filter);
            }
            match self.positions.get(&id) {
                Some(p) => {
                    if p.pool == pool {
                        found.push(id);
                    }
                },
                None => {},
            }
            i = i + 1;
        }
        proof {
            assert(ids@.take(i as int) =~= ids@);
        }
        found
    }

    /// The identifiers of the open positions against `pool` in `pair`,
    /// oldest first.
    pub fn positions_by_pool(&self, pool: LiquidityPoolId, pair: TradingPair) -> (r: Vec<
        PositionId,
    >)
        ensures
            r@ == self@.pool_positions(pool).filter(
                |id: PositionId|
                    self@.positions.contains_key(id) && self@.positions[id].pair == pair,
            ),
    {
        let ghost keep = |id: PositionId|
            self@.positions.contains_key(id) && self@.positions[id].pair == pair;
        let mut found: Vec<PositionId> = Vec::new();
        let empty: Vec<PositionId> = Vec::new();
        let ids = match self.positions_by_pool.get(pool) {
            Some(ids) => ids,
            None => &empty,
        };
        let mut i: usize = 0;
        proof {
            assert(ids@.take(0) =~= Seq::<PositionId>::empty());
        }
        while i < ids.len()
            invariant
                0 <= i <= ids.len(),
                ids@ == self@.pool_positions(pool),
                keep == |id: PositionId|
                    self@.positions.contains_key(id) && self@.positions[id].pair == pair,
                found@ == ids@.take(i as int).filter(keep),
            decreases ids.len() - i,
        {
            let id = ids[i];
            proof {
                assert(ids@.take(i + 1).drop_last() =~= ids@.take(i as int));
                assert(ids@.take(i + 1).last() == id);
                reveal(Seq::filter);
            }
            match self.positions.get(&id) {
                Some(p) => {
                    if p.pair == pair {
                        found.push(id);
                    }
                },
                None => {},
            }
            i = i + 1;
        }
        proof {
            assert(ids@.take(i as int) =~= ids@);
        }
        found
    }

    /// The collateral of `who`.
    pub fn balances(&self, who: AccountId) -> (r: Fixed128)
        ensures
            r == self@.balance(who),
    {
        match self.balances.get(&who) {
            Some(b) => *b,
            None => Fixed128::zero(),
        }
    }

    /// Whether `who` is margin called.
    pub fn margin_called_traders(&self, who: AccountId) -> (r: bool)
        ensures
            r == self@.margin_called_traders.contains(who),
    {
        self.margin_called_traders.contains(&who)
    }

    /// Whether `pool` is margin called.
    pub fn margin_called_liquidity_pools(&self, pool: LiquidityPoolId) -> (r: bool)
        ensures
            r == self@.margin_called_pools.contains(pool),
    {
        self.margin_called_pools.contains(&pool)
    }

    /// The thresholds on a trader's margin level for `pair`.
    pub fn trader_risk_threshold(&self, pair: TradingPair) -> (r: Option<RiskThreshold>)
        ensures
            r == if self@.trader_risk_threshold.contains_key(pair) {
                Some(self@.trader_risk_threshold[pair])
            } else {
                None
            },
    {
        self.trader_risk_threshold.get(pair)
    }

    /// The thresholds on a pool's equity to net position ratio for `pair`.
    pub fn liquidity_pool_enp_threshold(&self, pair: TradingPair) -> (r: Option<RiskThreshold>)
        ensures
            r == if self@.liquidity_pool_enp_threshold.contains_key(pair) {
                Some(self@.liquidity_pool_enp_threshold[pair])
            } else {
                None
            },
    {
        self.liquidity_pool_enp_threshold.get(pair)
    }

    /// The thresholds on a pool's equity to longest leg ratio for `pair`.
    pub fn liquidity_pool_ell_threshold(&self, pair: TradingPair) -> (r: Option<RiskThreshold>)
        ensures
            r == if self@.liquidity_pool_ell_threshold.contains_key(pair) {
                Some(self@.liquidity_pool_ell_threshold[pair])
            } else {
                None
            },
    {
        self.liquidity_pool_ell_threshold.get(pair)
    }

    /// Sets the thresholds on a trader's margin level for `pair`.
    pub fn set_trader_risk_threshold(&mut self, pair: TradingPair, threshold: RiskThreshold)
        requires
            threshold.wf(),
        ensures
            final(self)@ == (LedgerView {
                trader_risk_threshold: old(self)@.trader_risk_threshold.insert(pair, threshold),
                ..old(self)@
            }),
            old(self)@.wf() ==> final(self)@.wf(),
    {
        self.trader_risk_threshold.insert(pair, threshold);
        proof {
            lemma_settings_keep_wf(old(self)@, self@);
        }
    }

    /// Sets the thresholds on a pool's equity to net position ratio for
    /// `pair`.
    pub fn set_liquidity_pool_enp_threshold(
        &mut self,
        pair: TradingPair,
        threshold: RiskThreshold,
    )
        requires
            threshold.wf(),
        ensures
            final(self)@ == (LedgerView {
                liquidity_pool_enp_threshold: old(self)@.liquidity_pool_enp_threshold.insert(
                    pair,
                    threshold,
                ),
                ..old(self)@
            }),
            old(self)@.wf() ==> final(self)@.wf(),
    {
        self.liquidity_pool_enp_threshold.insert(pair, threshold);
        proof {
            lemma_settings_keep_wf(old(self)@, self@);
        }
    }

    /// Sets the thresholds on a pool's equity to longest leg ratio for
    /// `pair`.
    pub fn set_liquidity_pool_ell_threshold(
        &mut self,
        pair: TradingPair,
        threshold: RiskThreshold,
    )
        requires
            threshold.wf(),
        ensures
            final(self)@ == (LedgerView {
                liquidity_pool_ell_threshold: old(self)@.liquidity_pool_ell_threshold.insert(
                    pair,
                    threshold,
                ),
                ..old(self)@
            }),
            old(self)@.wf() ==> final(self)@.wf(),
    {
        self.liquidity_pool_ell_threshold.insert(pair, threshold);
        proof {
            lemma_settings_keep_wf(old(self)@, self@);
        }
    }

    /// Sets how the two ratios of a pool combine into one verdict.
    pub fn set_pool_risk_rule(&mut self, rule: PoolRiskRule)
        ensures
            final(self)@ == (LedgerView { pool_risk_rule: rule, ..old(self)@ }),
            old(self)@.wf() ==> final(self)@.wf(),
    {
        self.pool_risk_rule = rule;
        proof {
            lemma_settings_keep_wf(old(self)@, self@);
        }
    }

    /// The margin that the open positions of `who` commit.
    pub fn margin_held(&self, who: AccountId) -> (r: Balance)
        requires
            self@.wf(),
        ensures
            r == self@.margin_held(who),
    {
        let empty: Vec<PositionId> = Vec::new();
        let ids = match self.positions_by_trader.get(who) {
            Some(ids) => ids,
            None => &empty,
        };
        let mut total: Balance = 0;
        let mut i: usize = 0;
        proof {
            assert(self@.free_balance(who) >= 0);
            assert(ids@.take(0) =~= Seq::<PositionId>::empty());
        }
        while i < ids.len()
            invariant
                0 <= i <= ids.len(),
                margin_sum(self.positions@, ids@) <= i128::MAX,
                total == margin_sum(self.positions@, ids@.take(i as int)),
            decreases ids.len() - i,
        {
            let id = ids[i];
            proof {
                assert(ids@.take(i + 1).drop_last() =~= ids@.take(i as int));
                assert(ids@.take(i + 1).last() == id);
                lemma_margin_sum_monotone(self.positions@, ids@, i + 1);
            }
            match self.positions.get(&id) {
                Some(p) => {
                    total = total + p.open_margin;
                },
                None => {},
            }
            i = i + 1;
        }
        proof {
            assert(ids@.take(i as int) =~= ids@);
        }
        total
    }

    /// The collateral of `who` that no position commits: the balance
    /// less the margin held.
    pub fn free_balance(&self, who: AccountId) -> (r: Balance)
        requires
            self@.wf(),
        ensures
            r == self@.free_balance(who),
    {
        let held = self.margin_held(who);
        let balance = self.balances(who);
        proof {
            assert(self@.free_balance(who) >= 0);
            lemma_margin_sum_monotone(self@.positions, self@.trader_positions(who), 0);
        }
        (balance.inner as u128) - held
    }

    /// Sets the collateral of `who`.
    pub(crate) fn set_balance(&mut self, who: AccountId, balance: Fixed128)
        ensures
            final(self)@ == old(self)@.with_balance(who, balance),
    {
        self.balances.insert(who, balance);
        assert(self@ =~= old(self)@.with_balance(who, balance));
    }

    /// Files `position` under the next identifier and returns it.
    pub(crate) fn file(&mut self, position: Position) -> (id: PositionId)
        requires
            old(self)@.next_position_id < u64::MAX,
        ensures
            id == old(self)@.next_position_id,
            final(self)@ == old(self)@.with_position(position),
    {
        let id = self.next_position_id;
        self.positions.insert(id, position);
        self.positions_by_trader.insert(position.owner, id);
        self.positions_by_pool.insert(position.pool, id);
        self.next_position_id = id + 1;
        assert(self@ =~= old(self)@.with_position(position));
        id
    }

    /// Takes the open position `id` out of the store and both indices.
    pub(crate) fn unfile(&mut self, id: PositionId)
        requires
            old(self)@.wf(),
            old(self)@.positions.contains_key(id),
        ensures
            final(self)@ == old(self)@.without_position(id),
    {
        let ghost position = self@.positions[id];
        proof {
            assert(self@.trader_positions(position.owner).no_duplicates());
            assert(self@.pool_positions(position.pool).no_duplicates());
            assert(self@.trader_positions(position.owner).contains(id));
            assert(self@.pool_positions(position.pool).contains(id));
        }
        match self.positions.remove(&id) {
            Some(p) => {
                self.positions_by_trader.remove(p.owner, id);
                self.positions_by_pool.remove(p.pool, id);
            },
            None => {},
        }
        assert(self@ =~= old(self)@.without_position(id));
    }

    /// Marks `who` as margin called, or as safe.
    pub(crate) fn flag_trader(&mut self, who: AccountId, margin_called: bool)
        ensures
            final(self)@ == (LedgerView {
                margin_called_traders: if margin_called {
                    old(self)@.margin_called_traders.insert(who)
                } else {
                    old(self)@.margin_called_traders.remove(who)
                },
                ..old(self)@
            }),
    {
        if margin_called {
            self.margin_called_traders.insert(who);
        } else {
            self.margin_called_traders.remove(&who);
        }
        assert(self@ =~= (LedgerView {
            margin_called_traders: if margin_called {
                old(self)@.margin_called_traders.insert(who)
            } else {
                old(self)@.margin_called_traders.remove(who)
            },
            ..old(self)@
        }));
    }

    /// Marks `pool` as margin called, or as safe.
    pub(crate) fn flag_pool(&mut self, pool: LiquidityPoolId, margin_called: bool)
        ensures
            final(self)@ == (LedgerView {
                margin_called_pools: if margin_called {
                    old(self)@.margin_called_pools.insert(pool)
                } else {
                    old(self)@.margin_called_pools.remove(pool)
                },
                ..old(self)@
            }),
    {
        if margin_called {
            self.margin_called_pools.insert(pool);
        } else {
            self.margin_called_pools.remove(&pool);
        }
        assert(self@ =~= (LedgerView {
            margin_called_pools: if margin_called {
                old(self)@.margin_called_pools.insert(pool)
            } else {
                old(self)@.margin_called_pools.remove(pool)
            },
            ..old(self)@
        }));
    }

    /// The positions, indices and balances, to be put back by `restore`.
    pub(crate) fn save(&self) -> (saved: Saved)
        ensures
            saved.positions@ == self@.positions,
            saved.positions_by_trader@ == self@.positions_by_trader,
            saved.positions_by_pool@ == self@.positions_by_pool,
            saved.balances@ == self@.balances,
    {
        Saved {
            positions: self.positions.clone(),
            positions_by_trader: self.positions_by_trader.snapshot(),
            positions_by_pool: self.positions_by_pool.snapshot(),
            balances: self.balances.clone(),
        }
    }

    /// Puts back the positions, indices and balances that were saved.
    pub(crate) fn restore(&mut self, saved: Saved)
        ensures
            final(self)@ == (LedgerView {
                positions: saved.positions@,
                positions_by_trader: saved.positions_by_trader@,
                positions_by_pool: saved.positions_by_pool@,
                balances: saved.balances@,
                ..old(self)@
            }),
    {
        self.positions = saved.positions;
        self.positions_by_trader = saved.positions_by_trader;
        self.positions_by_pool = saved.positions_by_pool;
        self.balances = saved.balances;
        assert(self@ =~= (LedgerView {
            positions: saved.positions@,
            positions_by_trader: saved.positions_by_trader@,
            positions_by_pool: saved.positions_by_pool@,
            balances: saved.balances@,
            ..old(self)@
        }));
    }

    /// The checked sum of `measure` over the positions of `who`.
    pub(crate) fn sum_over_trader<P: PriceProvider, L: LiquidityPools>(
        &self,
        measure: Measure,
        prices: &P,
        pools: &L,
        who: AccountId,
    ) -> (r: Result<Fixed128, Error>)
        ensures
            r == spec_sum(
                measure,
                prices.quotes(),
                pools@,
                self@.positions,
                self@.trader_positions(who),
            ),
    {
        let empty: Vec<PositionId> = Vec::new();
        let ids = match self.positions_by_trader.get(who) {
            Some(ids) => ids,
            None => &empty,
        };
        sum(measure, prices, pools, &self.positions, ids)
    }

    /// The checked sum of `measure` over the positions against `pool`.
    pub(crate) fn sum_over_pool<P: PriceProvider, L: LiquidityPools>(
        &self,
        measure: Measure,
        prices: &P,
        pools: &L,
        pool: LiquidityPoolId,
    ) -> (r: Result<Fixed128, Error>)
        ensures
            r == spec_sum(measure, prices.quotes(), pools@, self@.positions, self@.pool_positions(pool)),
    {
        let empty: Vec<PositionId> = Vec::new();
        let ids = match self.positions_by_pool.get(pool) {
            Some(ids) => ids,
            None => &empty,
        };
        sum(measure, prices, pools, &self.positions, ids)
    }

    /// The identifiers of the open positions against `pool`, oldest first.
    pub fn positions_of_pool(&self, pool: LiquidityPoolId) -> (r: Vec<PositionId>)
        ensures
            r@ == self@.pool_positions(pool),
    {
        match self.positions_by_pool.get(pool) {
            Some(ids) => copy_ids(ids),
            None => Vec::new(),
        }
    }

    /// Whether `ratio` is at or below the chosen level of the threshold
    /// of a pair that `who` holds.
    pub(crate) fn trader_breached(&self, ratio: Fixed128, who: AccountId, level: RiskLevel) -> (r:
        bool)
        ensures
            r == spec_breached(
                ratio,
                self@.positions,
                self@.trader_positions(who),
                self@.trader_risk_threshold,
                level,
            ),
    {
        let empty: Vec<PositionId> = Vec::new();
        let ids = match self.positions_by_trader.get(who) {
            Some(ids) => ids,
            None => &empty,
        };
        breached(ratio, &self.positions, ids, &self.trader_risk_threshold, level)
    }

    /// Whether the two ratios of `pool`, combined by the rule of the
    /// ledger, are at or below the chosen level of their thresholds.
    pub(crate) fn pool_breached(
        &self,
        enp: Fixed128,
        ell: Fixed128,
        pool: LiquidityPoolId,
        level: RiskLevel,
    ) -> (r: bool)
        ensures
            r == spec_combine(
                self@.pool_risk_rule,
                spec_breached(
                    enp,
                    self@.positions,
                    self@.pool_positions(pool),
                    self@.liquidity_pool_enp_threshold,
                    level,
                ),
                spec_breached(
                    ell,
                    self@.positions,
                    self@.pool_positions(pool),
                    self@.liquidity_pool_ell_threshold,
                    level,
                ),
            ),
    {
        let empty: Vec<PositionId> = Vec::new();
        let ids = match self.positions_by_pool.get(pool) {
            Some(ids) => ids,
            None => &empty,
        };
        let enp_breached = breached(
            enp,
            &self.positions,
            ids,
            &self.liquidity_pool_enp_threshold,
            level,
        );
        let ell_breached = breached(
            ell,
            &self.positions,
            ids,
            &self.liquidity_pool_ell_threshold,
            level,
        );
        match self.pool_risk_rule {
            PoolRiskRule::EitherRatio => enp_breached || ell_breached,
            PoolRiskRule::BothRatios => enp_breached && ell_breached,
        }
    }

    /// Adds `amount` to the collateral of `who`.
    pub fn deposit(&mut self, who: AccountId, amount: Balance) -> (r: Result<(), Error>)
        requires
            old(self)@.wf(),
        ensures
            committed(r, spec_deposit(old(self)@, who, amount), old(self)@, final(self)@),
            final(self)@.wf(),
    {
        let a = match fixed_128_from_u128(amount) {
            Some(a) => a,
            None => {
                return Err(Error::NumOutOfBound);
            },
        };
        let balance = match self.balances(who).checked_add(&a) {
            Some(b) => b,
            None => {
                return Err(Error::NumOutOfBound);
            },
        };
        self.balances.insert(who, balance);
        proof {
            assert(self@ =~= old(self)@.with_balance(who, balance));
            lemma_deposit_wf(old(self)@, who, amount);
        }
        Ok(())
    }

    /// Takes `amount` from the collateral of `who`, which must be free.
    pub fn withdraw(&mut self, who: AccountId, amount: Balance) -> (r: Result<(), Error>)
        requires
            old(self)@.wf(),
        ensures
            committed(r, spec_withdraw(old(self)@, who, amount), old(self)@, final(self)@),
            final(self)@.wf(),
    {
        let free = self.free_balance(who);
        if amount > free {
            return Err(Error::InsufficientFreeBalance);
        }
        let balance = self.balances(who);
        proof {
            lemma_margin_sum_monotone(self@.positions, self@.trader_positions(who), 0);
        }
        let rest = Fixed128 { inner: balance.inner - (amount as i128) };
        self.balances.insert(who, rest);
        proof {
            assert(self@ =~= old(self)@.with_balance(who, rest));
            lemma_withdraw_wf(old(self)@, who, amount);
        }
        Ok(())
    }
}

/// Two ledgers with the same positions, indices and balances are
/// consistent together, as long as the thresholds of the second are
/// ordered.
pub proof fn lemma_settings_keep_wf(before: LedgerView, after: LedgerView)
    requires
        after.next_position_id == before.next_position_id,
        after.positions == before.positions,
        after.positions_by_trader == before.positions_by_trader,
        after.positions_by_pool == before.positions_by_pool,
        after.balances == before.balances,
        before.wf() ==> after.thresholds_ordered(),
    ensures
        before.wf() ==> after.wf(),
{
    if before.wf() {
        assert forall|t: AccountId| #[trigger] after.trader_positions(t).no_duplicates() by {
            assert(before.trader_positions(t).no_duplicates());
        }
        assert forall|p: LiquidityPoolId| #[trigger] after.pool_positions(p).no_duplicates() by {
            assert(before.pool_positions(p).no_duplicates());
        }
        assert forall|t: AccountId, id: PositionId| #[trigger]
            after.trader_positions(t).contains(id) implies after.files_under_trader(t, id) by {
            assert(before.trader_positions(t).contains(id));
            assert(before.files_under_trader(t, id));
        }
        assert forall|p: LiquidityPoolId, id: PositionId| #[trigger]
            after.pool_positions(p).contains(id) implies after.files_under_pool(p, id) by {
            assert(before.pool_positions(p).contains(id));
            assert(before.files_under_pool(p, id));
        }
        assert forall|t: AccountId| #[trigger] after.free_balance(t) >= 0 by {
            assert(before.free_balance(t) >= 0);
        }
    }
}

/// A copy of a list of identifiers.
pub fn copy_ids(ids: &Vec<PositionId>) -> (r: Vec<PositionId>)
    ensures
        r@ == ids@,
{
    let mut copy: Vec<PositionId> = Vec::new();
    let mut i: usize = 0;
    while i < ids.len()
        invariant
            0 <= i <= ids.len(),
            copy@ == ids@.take(i as int),
        decreases ids.len() - i,
    {
        copy.push(ids[i]);
        proof {
            assert(ids@.take(i + 1) =~= ids@.take(i as int).push(ids@[i as int]));
        }
        i = i + 1;
    }
    proof {
        assert(ids@.take(i as int) =~= ids@);
    }
    copy
}

} // verus!

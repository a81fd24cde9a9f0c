//! The safety state machine: when a trader or a pool is margin called,
//! declared safe again, or stopped out.

use crate::error::Error;
use crate::fixed::Fixed128;
use crate::ledger::{LedgerView, PoolRiskRule};
use crate::pools::{LiquidityPools, PoolsView};
use crate::position::{Position, RiskLevel, RiskThreshold};
use crate::prices::{PriceProvider, Quotes};
use crate::primitives::{AccountId, LiquidityPoolId, PositionId, TradingPair};
use crate::protocol::{committed, lemma_settings_keep_wf, settled, MarginProtocol};
use crate::tables::PairTable;
use crate::transitions::spec_close_position;
use std::collections::HashMap;
use vstd::prelude::*;

verus! {

broadcast use vstd::std_specs::hash::group_hash_axioms;

/// The position `id` is open, its pair has a threshold, and `ratio` is
/// at or below the chosen level of that threshold.
pub open spec fn spec_breaches_at(
    ratio: Fixed128,
    positions: Map<PositionId, Position>,
    thresholds: Map<TradingPair, RiskThreshold>,
    level: RiskLevel,
    id: PositionId,
) -> bool {
    &&& positions.contains_key(id)
    &&& thresholds.contains_key(positions[id].pair)
    &&& ratio.inner <= thresholds[positions[id].pair].spec_level(level).inner
}

/// `ratio` is at or below the chosen level of the threshold of at least
/// one trading pair among the positions named by `ids`.
pub open spec fn spec_breached(
    ratio: Fixed128,
    positions: Map<PositionId, Position>,
    ids: Seq<PositionId>,
    thresholds: Map<TradingPair, RiskThreshold>,
    level: RiskLevel,
) -> bool {
    exists|i: int|
        0 <= i < ids.len() && spec_breaches_at(ratio, positions, thresholds, level, #[trigger] ids[i])
}

/// The verdict on a pool from the verdicts on its two ratios.
pub open spec fn spec_combine(rule: PoolRiskRule, enp_breached: bool, ell_breached: bool) -> bool {
    match rule {
        PoolRiskRule::EitherRatio => enp_breached || ell_breached,
        PoolRiskRule::BothRatios => enp_breached && ell_breached,
    }
}

/// The ledger and the registry after the open position `id` was closed
/// on behalf of its owner.
pub open spec fn spec_force_close(
    ledger: LedgerView,
    prices: Quotes,
    pools: PoolsView,
    id: PositionId,
) -> Result<(LedgerView, PoolsView), Error> {
    if ledger.positions.contains_key(id) {
        spec_close_position(ledger, prices, pools, ledger.positions[id].owner, id)
    } else {
        Err(Error::PositionNotFound)
    }
}

/// The ledger and the registry after the positions named by `ids` were
/// closed one after the other, in the order of `ids`. The first close
/// that is refused decides the error.
pub open spec fn spec_close_all(
    ledger: LedgerView,
    prices: Quotes,
    pools: PoolsView,
    ids: Seq<PositionId>,
) -> Result<(LedgerView, PoolsView), Error>
    decreases ids.len(),
{
    if ids.len() == 0 {
        Ok((ledger, pools))
    } else {
        match spec_close_all(ledger, prices, pools, ids.drop_last()) {
            Err(e) => Err(e),
            Ok((l, p)) => spec_force_close(l, prices, p, ids.last()),
        }
    }
}

impl LedgerView {
    /// Whether the margin level of `who` is at or below the chosen level
    /// of the threshold of a pair that the trader holds.
    pub open spec fn trader_at_risk(
        self,
        prices: Quotes,
        pools: PoolsView,
        who: AccountId,
        level: RiskLevel,
    ) -> Result<bool, Error> {
        match self.margin_level(prices, pools, who, None) {
            Err(e) => Err(e),
            Ok(ratio) => Ok(
                spec_breached(
                    ratio,
                    self.positions,
                    self.trader_positions(who),
                    self.trader_risk_threshold,
                    level,
                ),
            ),
        }
    }

    /// Whether the two ratios of `pool`, combined by the rule of the
    /// ledger, are at or below the chosen level of their thresholds.
    pub open spec fn pool_at_risk(
        self,
        prices: Quotes,
        pools: PoolsView,
        pool: LiquidityPoolId,
        level: RiskLevel,
    ) -> Result<bool, Error> {
        match self.enp(prices, pools, pool, None) {
            Err(e) => Err(e),
            Ok(enp) => match self.ell(prices, pools, pool, None) {
                Err(e) => Err(e),
                Ok(ell) => Ok(
                    spec_combine(
                        self.pool_risk_rule,
                        spec_breached(
                            enp,
                            self.positions,
                            self.pool_positions(pool),
                            self.liquidity_pool_enp_threshold,
                            level,
                        ),
                        spec_breached(
                            ell,
                            self.positions,
                            self.pool_positions(pool),
                            self.liquidity_pool_ell_threshold,
                            level,
                        ),
                    ),
                ),
            },
        }
    }

    /// The ledger after a safe trader at risk was margin called.
    /// `SafeTrader` when the trader is margin called already or not at
    /// risk.
    pub open spec fn trader_margin_call(
        self,
        prices: Quotes,
        pools: PoolsView,
        who: AccountId,
    ) -> Result<LedgerView, Error> {
        if self.margin_called_traders.contains(who) {
            Err(Error::SafeTrader)
        } else {
            match self.trader_at_risk(prices, pools, who, RiskLevel::MarginCall) {
                Err(e) => Err(e),
                Ok(at_risk) => if at_risk {
                    Ok(
                        LedgerView {
                            margin_called_traders: self.margin_called_traders.insert(who),
                            ..self
                        },
                    )
                } else {
                    Err(Error::SafeTrader)
                },
            }
        }
    }

    /// The ledger after a margin called trader no longer at risk was
    /// declared safe. `UnsafeTrader` when the trader is not margin
    /// called or still at risk.
    pub open spec fn trader_become_safe(
        self,
        prices: Quotes,
        pools: PoolsView,
        who: AccountId,
    ) -> Result<LedgerView, Error> {
        if !self.margin_called_traders.contains(who) {
            Err(Error::UnsafeTrader)
        } else {
            match self.trader_at_risk(prices, pools, who, RiskLevel::MarginCall) {
                Err(e) => Err(e),
                Ok(at_risk) => if at_risk {
                    Err(Error::UnsafeTrader)
                } else {
                    Ok(
                        LedgerView {
                            margin_called_traders: self.margin_called_traders.remove(who),
                            ..self
                        },
                    )
                },
            }
        }
    }

    /// The ledger and the registry after a margin called trader at or
    /// below the stop out level was stopped out: all positions of the
    /// trader are closed, oldest first, each as `spec_close_position`
    /// says, and the trader is safe again. A loss beyond what the trader
    /// holds is not a reason to refuse.
    /// `NotReachedRiskThreshold` when the trader is not margin called or
    /// above the stop out level.
    pub open spec fn trader_stop_out(
        self,
        prices: Quotes,
        pools: PoolsView,
        who: AccountId,
    ) -> Result<(LedgerView, PoolsView), Error> {
        if !self.margin_called_traders.contains(who) {
            Err(Error::NotReachedRiskThreshold)
        } else {
            match self.trader_at_risk(prices, pools, who, RiskLevel::StopOut) {
                Err(e) => Err(e),
                Ok(at_risk) => if !at_risk {
                    Err(Error::NotReachedRiskThreshold)
                } else {
                    match spec_close_all(self, prices, pools, self.trader_positions(who)) {
                        Err(e) => Err(e),
                        Ok((l, p)) => Ok(
                            (
                                LedgerView {
                                    margin_called_traders: l.margin_called_traders.remove(who),
                                    ..l
                                },
                                p,
                            ),
                        ),
                    }
                },
            }
        }
    }

    /// The ledger after a safe pool at risk was margin called.
    /// `SafePool` when the pool is margin called already or not at risk.
    pub open spec fn liquidity_pool_margin_call(
        self,
        prices: Quotes,
        pools: PoolsView,
        pool: LiquidityPoolId,
    ) -> Result<LedgerView, Error> {
        if self.margin_called_pools.contains(pool) {
            Err(Error::SafePool)
        } else {
            match self.pool_at_risk(prices, pools, pool, RiskLevel::MarginCall) {
                Err(e) => Err(e),
                Ok(at_risk) => if at_risk {
                    Ok(
                        LedgerView {
                            margin_called_pools: self.margin_called_pools.insert(pool),
                            ..self
                        },
                    )
                } else {
                    Err(Error::SafePool)
                },
            }
        }
    }

    /// The ledger after a margin called pool no longer at risk was
    /// declared safe. `UnsafePool` when the pool is not margin called or
    /// still at risk.
    pub open spec fn liquidity_pool_become_safe(
        self,
        prices: Quotes,
        pools: PoolsView,
        pool: LiquidityPoolId,
    ) -> Result<LedgerView, Error> {
        if !self.margin_called_pools.contains(pool) {
            Err(Error::UnsafePool)
        } else {
            match self.pool_at_risk(prices, pools, pool, RiskLevel::MarginCall) {
                Err(e) => Err(e),
                Ok(at_risk) => if at_risk {
                    Err(Error::UnsafePool)
                } else {
                    Ok(
                        LedgerView {
                            margin_called_pools: self.margin_called_pools.remove(pool),
                            ..self
                        },
                    )
                },
            }
        }
    }

    /// The ledger and the registry after a margin called pool at or
    /// below the stop out level was stopped out: all positions against
    /// the pool are closed, oldest first, and the pool is safe again.
    /// `NotReachedRiskThreshold` when the pool is not margin called or
    /// above the stop out level.
    pub open spec fn liquidity_pool_stop_out(
        self,
        prices: Quotes,
        pools: PoolsView,
        pool: LiquidityPoolId,
    ) -> Result<(LedgerView, PoolsView), Error> {
        if !self.margin_called_pools.contains(pool) {
            Err(Error::NotReachedRiskThreshold)
        } else {
            match self.pool_at_risk(prices, pools, pool, RiskLevel::StopOut) {
                Err(e) => Err(e),
                Ok(at_risk) => if !at_risk {
                    Err(Error::NotReachedRiskThreshold)
                } else {
                    match spec_close_all(self, prices, pools, self.pool_positions(pool)) {
                        Err(e) => Err(e),
                        Ok((l, p)) => Ok(
                            (
                                LedgerView {
                                    margin_called_pools: l.margin_called_pools.remove(pool),
                                    ..l
                                },
                                p,
                            ),
                        ),
                    }
                },
            }
        }
    }
}

/// A run of closes that is refused on a prefix of the list is refused
/// in the same way on the whole list.
pub proof fn lemma_close_all_fails_with_prefix(
    ledger: LedgerView,
    prices: Quotes,
    pools: PoolsView,
    ids: Seq<PositionId>,
    k: int,
)
    requires
        0 <= k <= ids.len(),
        spec_close_all(ledger, prices, pools, ids.take(k)) is Err,
    ensures
        spec_close_all(ledger, prices, pools, ids) == spec_close_all(
            ledger,
            prices,
            pools,
            ids.take(k),
        ),
    decreases ids.len() - k,
{
    if k == ids.len() {
        assert(ids.take(k) =~= ids);
    } else {
        assert(ids.take(k + 1).drop_last() =~= ids.take(k));
        lemma_close_all_fails_with_prefix(ledger, prices, pools, ids, k + 1);
    }
}

/// Whether `ratio` is at or below the chosen level of the threshold of
/// the pair of one of the positions named by `ids`.
pub fn breached(
    ratio: Fixed128,
    positions: &HashMap<PositionId, Position>,
    ids: &Vec<PositionId>,
    thresholds: &PairTable<RiskThreshold>,
    level: RiskLevel,
) -> (r: bool)
    ensures
        r == spec_breached(ratio, positions@, ids@, thresholds@, level),
{
    let mut i: usize = 0;
    while i < ids.len()
        invariant
            0 <= i <= ids.len(),
            forall|j: int|
                0 <= j < i ==> !spec_breaches_at(
                    ratio,
                    positions@,
                    thresholds@,
                    level,
                    #[trigger] ids@[j],
                ),
        decreases ids.len() - i,
    {
        let id = ids[i];
        match positions.get(&id) {
            Some(position) => {
                match thresholds.get(position.pair) {
                    Some(threshold) => {
                        let bound = threshold.level(level);
                        if ratio.le(&bound) {
                            assert(spec_breaches_at(
                                ratio,
                                positions@,
                                thresholds@,
                                level,
                                ids@[i as int],
                            ));
                            return true;
                        }
                    },
                    None => {},
                }
            },
            None => {},
        }
        i = i + 1;
    }
    false
}

impl MarginProtocol {
    /// Whether the margin level of `who` is at or below the chosen level
    /// of the threshold of a pair that the trader holds.
    pub fn trader_at_risk<P: PriceProvider, L: LiquidityPools>(
        &self,
        prices: &P,
        pools: &L,
        who: AccountId,
        level: RiskLevel,
    ) -> (r: Result<bool, Error>)
        ensures
            r == self@.trader_at_risk(prices.quotes(), pools@, who, level),
    {
        let ratio = self.margin_level(prices, pools, who, None)?;
        Ok(self.trader_breached(ratio, who, level))
    }

    /// Whether the two ratios of `pool` are at or below the chosen level
    /// of their thresholds, combined by the rule of the ledger.
    pub fn pool_at_risk<P: PriceProvider, L: LiquidityPools>(
        &self,
        prices: &P,
        pools: &L,
        pool: LiquidityPoolId,
        level: RiskLevel,
    ) -> (r: Result<bool, Error>)
        ensures
            r == self@.pool_at_risk(prices.quotes(), pools@, pool, level),
    {
        let enp = self.enp(prices, pools, pool, None)?;
        let ell = self.ell(prices, pools, pool, None)?;
        Ok(self.pool_breached(enp, ell, pool, level))
    }

    /// Margin calls `who`, who must be safe and at risk.
    pub fn trader_margin_call<P: PriceProvider, L: LiquidityPools>(
        &mut self,
        prices: &P,
        pools: &L,
        who: AccountId,
    ) -> (r: Result<(), Error>)
        ensures
            committed(
                r,
                old(self)@.trader_margin_call(prices.quotes(), pools@, who),
                old(self)@,
                final(self)@,
            ),
            old(self)@.wf() ==> final(self)@.wf(),
    {
        if self.margin_called_traders(who) {
            return Err(Error::SafeTrader);
        }
        if !self.trader_at_risk(prices, pools, who, RiskLevel::MarginCall)? {
            return Err(Error::SafeTrader);
        }
        self.flag_trader(who, true);
        proof {
            lemma_settings_keep_wf(old(self)@, self@);
        }
        Ok(())
    }

    /// Declares `who` safe, who must be margin called and no longer at
    /// risk.
    pub fn trader_become_safe<P: PriceProvider, L: LiquidityPools>(
        &mut self,
        prices: &P,
        pools: &L,
        who: AccountId,
    ) -> (r: Result<(), Error>)
        ensures
            committed(
                r,
                old(self)@.trader_become_safe(prices.quotes(), pools@, who),
                old(self)@,
                final(self)@,
            ),
            old(self)@.wf() ==> final(self)@.wf(),
    {
        if !self.margin_called_traders(who) {
            return Err(Error::UnsafeTrader);
        }
        if self.trader_at_risk(prices, pools, who, RiskLevel::MarginCall)? {
            return Err(Error::UnsafeTrader);
        }
        self.flag_trader(who, false);
        proof {
            lemma_settings_keep_wf(old(self)@, self@);
        }
        Ok(())
    }

    /// Margin calls `pool`, which must be safe and at risk.
    pub fn liquidity_pool_margin_call<P: PriceProvider, L: LiquidityPools>(
        &mut self,
        prices: &P,
        pools: &L,
        pool: LiquidityPoolId,
    ) -> (r: Result<(), Error>)
        ensures
            committed(
                r,
                old(self)@.liquidity_pool_margin_call(prices.quotes(), pools@, pool),
                old(self)@,
                final(self)@,
            ),
            old(self)@.wf() ==> final(self)@.wf(),
    {
        if self.margin_called_liquidity_pools(pool) {
            return Err(Error::SafePool);
        }
        if !self.pool_at_risk(prices, pools, pool, RiskLevel::MarginCall)? {
            return Err(Error::SafePool);
        }
        self.flag_pool(pool, true);
        proof {
            lemma_settings_keep_wf(old(self)@, self@);
        }
        Ok(())
    }

    /// Declares `pool` safe, which must be margin called and no longer
    /// at risk.
    pub fn liquidity_pool_become_safe<P: PriceProvider, L: LiquidityPools>(
        &mut self,
        prices: &P,
        pools: &L,
        pool: LiquidityPoolId,
    ) -> (r: Result<(), Error>)
        ensures
            committed(
                r,
                old(self)@.liquidity_pool_become_safe(prices.quotes(), pools@, pool),
                old(self)@,
                final(self)@,
            ),
            old(self)@.wf() ==> final(self)@.wf(),
    {
        if !self.margin_called_liquidity_pools(pool) {
            return Err(Error::UnsafePool);
        }
        if self.pool_at_risk(prices, pools, pool, RiskLevel::MarginCall)? {
            return Err(Error::UnsafePool);
        }
        self.flag_pool(pool, false);
        proof {
            lemma_settings_keep_wf(old(self)@, self@);
        }
        Ok(())
    }
}

/// Two ledgers differ at most in their positions, indices and balances.
pub open spec fn same_settings(a: LedgerView, b: LedgerView) -> bool {
    &&& a.next_position_id == b.next_position_id
    &&& a.margin_called_traders == b.margin_called_traders
    &&& a.margin_called_pools == b.margin_called_pools
    &&& a.trader_risk_threshold == b.trader_risk_threshold
    &&& a.liquidity_pool_enp_threshold == b.liquidity_pool_enp_threshold
    &&& a.liquidity_pool_ell_threshold == b.liquidity_pool_ell_threshold
    &&& a.pool_risk_rule == b.pool_risk_rule
}

impl MarginProtocol {
    /// Closes the open position `id` on behalf of its owner.
    pub fn force_close<P: PriceProvider, L: LiquidityPools>(
        &mut self,
        prices: &P,
        pools: &mut L,
        id: PositionId,
    ) -> (r: Result<(), Error>)
        requires
            old(self)@.wf(),
        ensures
            final(self)@.wf(),
            settled(
                r,
                spec_force_close(old(self)@, prices.quotes(), old(pools)@, id),
                (old(self)@, old(pools)@),
                (final(self)@, final(pools)@),
            ),
    {
        match self.positions(id) {
            Some(position) => self.close_position(prices, pools, position.owner, id),
            None => Err(Error::PositionNotFound),
        }
    }

    /// Closes the positions named by `ids` one after the other. Where one
    /// of them cannot be closed, none is.
    pub fn close_all<P: PriceProvider, L: LiquidityPools>(
        &mut self,
        prices: &P,
        pools: &mut L,
        ids: &Vec<PositionId>,
    ) -> (r: Result<(), Error>)
        requires
            old(self)@.wf(),
        ensures
            final(self)@.wf(),
            settled(
                r,
                spec_close_all(old(self)@, prices.quotes(), old(pools)@, ids@),
                (old(self)@, old(pools)@),
                (final(self)@, final(pools)@),
            ),
    {
        let ghost before = self@;
        let ghost before_pools = pools@;
        let saved = self.save();
        let saved_pools = pools.snapshot();
        let mut i: usize = 0;
        proof {
            assert(ids@.take(0) =~= Seq::<PositionId>::empty());
        }
        while i < ids.len()
            invariant
                0 <= i <= ids.len(),
                self@.wf(),
                before == old(self)@,
                before_pools == old(pools)@,
                before.wf(),
                same_settings(self@, before),
                saved.positions@ == before.positions,
                saved.positions_by_trader@ == before.positions_by_trader,
                saved.positions_by_pool@ == before.positions_by_pool,
                saved.balances@ == before.balances,
                saved_pools@ == before_pools,
                spec_close_all(before, prices.quotes(), before_pools, ids@.take(i as int)) == Ok::<
                    (LedgerView, PoolsView),
                    Error,
                >((self@, pools@)),
            decreases ids.len() - i,
        {
            let id = ids[i];
            proof {
                assert(ids@.take(i + 1).drop_last() =~= ids@.take(i as int));
                assert(ids@.take(i + 1).last() == id);
            }
            match self.force_close(prices, pools, id) {
                Ok(()) => {},
                Err(e) => {
                    proof {
                        lemma_close_all_fails_with_prefix(
                            before,
                            prices.quotes(),
                            before_pools,
                            ids@,
                            i + 1,
                        );
                    }
                    self.restore(saved);
                    *pools = saved_pools;
                    assert(self@ =~= before);
                    return Err(e);
                },
            }
            i = i + 1;
        }
        proof {
            assert(ids@.take(i as int) =~= ids@);
        }
        Ok(())
    }

    /// Stops out `who`, who must be margin called and at or below the
    /// stop out level: closes all positions of the trader, oldest first,
    /// and declares the trader safe. The trader pays a loss as far as
    /// the balance goes. Where a valuation fails or a sum is out of
    /// range, nothing changes.
    pub fn trader_stop_out<P: PriceProvider, L: LiquidityPools>(
        &mut self,
        prices: &P,
        pools: &mut L,
        who: AccountId,
    ) -> (r: Result<(), Error>)
        requires
            old(self)@.wf(),
        ensures
            final(self)@.wf(),
            settled(
                r,
                old(self)@.trader_stop_out(prices.quotes(), old(pools)@, who),
                (old(self)@, old(pools)@),
                (final(self)@, final(pools)@),
            ),
    {
        if !self.margin_called_traders(who) {
            return Err(Error::NotReachedRiskThreshold);
        }
        if !self.trader_at_risk(prices, pools, who, RiskLevel::StopOut)? {
            return Err(Error::NotReachedRiskThreshold);
        }
        let ids = self.positions_of_trader(who);
        self.close_all(prices, pools, &ids)?;
        let ghost closed = self@;
        self.flag_trader(who, false);
        proof {
            lemma_settings_keep_wf(closed, self@);
        }
        Ok(())
    }

    /// Stops out `pool`, which must be margin called and at or below the
    /// stop out level: closes all positions against the pool, oldest
    /// first, and declares the pool safe. The pool pays a gain as far as
    /// its collateral goes. Where a valuation fails or a sum is out of
    /// range, nothing changes.
    pub fn liquidity_pool_stop_out<P: PriceProvider, L: LiquidityPools>(
        &mut self,
        prices: &P,
        pools: &mut L,
        pool: LiquidityPoolId,
    ) -> (r: Result<(), Error>)
        requires
            old(self)@.wf(),
        ensures
            final(self)@.wf(),
            settled(
                r,
                old(self)@.liquidity_pool_stop_out(prices.quotes(), old(pools)@, pool),
                (old(self)@, old(pools)@),
                (final(self)@, final(pools)@),
            ),
    {
        if !self.margin_called_liquidity_pools(pool) {
            return Err(Error::NotReachedRiskThreshold);
        }
        if !self.pool_at_risk(prices, pools, pool, RiskLevel::StopOut)? {
            return Err(Error::NotReachedRiskThreshold);
        }
        let ids = self.positions_of_pool(pool);
        self.close_all(prices, pools, &ids)?;
        let ghost closed = self@;
        self.flag_pool(pool, false);
        proof {
            lemma_settings_keep_wf(closed, self@);
        }
        Ok(())
    }
}

} // verus!

//! The registry of liquidity pools: the collateral each pool holds, the
//! spreads it charges and the swap rates it has accumulated.

use crate::error::Error;
use crate::fixed::{Fixed128, Permill};
use crate::primitives::{Balance, CurrencyId, LiquidityPoolId, TradingPair};
use crate::tables::PairTable;
use std::collections::HashMap;
use vstd::prelude::*;

verus! {

broadcast use vstd::std_specs::hash::group_hash_axioms;

/// What a registry of pools holds, as plain mathematical values.
pub struct PoolsView {
    /// The bid spread of each pool for each currency that it has one for.
    pub bid_spreads: Map<(LiquidityPoolId, CurrencyId), Permill>,
    /// The ask spread of each pool for each currency that it has one for.
    pub ask_spreads: Map<(LiquidityPoolId, CurrencyId), Permill>,
    /// The accumulated swap rate of each pool for each trading pair that
    /// it has one for.
    pub swap_rates: Map<(LiquidityPoolId, TradingPair), Fixed128>,
    /// The collateral of each pool that holds some.
    pub liquidity: Map<LiquidityPoolId, Balance>,
}

impl PoolsView {
    /// The collateral of `pool`; zero for a pool that holds none.
    pub open spec fn liquidity_of(self, pool: LiquidityPoolId) -> Balance {
        if self.liquidity.contains_key(pool) {
            self.liquidity[pool]
        } else {
            0
        }
    }

    /// The bid spread of `pool` for `currency`, where it has one.
    pub open spec fn bid_spread(self, pool: LiquidityPoolId, currency: CurrencyId) -> Option<
        Permill,
    > {
        if self.bid_spreads.contains_key((pool, currency)) {
            Some(self.bid_spreads[(pool, currency)])
        } else {
            None
        }
    }

    /// The ask spread of `pool` for `currency`, where it has one.
    pub open spec fn ask_spread(self, pool: LiquidityPoolId, currency: CurrencyId) -> Option<
        Permill,
    > {
        if self.ask_spreads.contains_key((pool, currency)) {
            Some(self.ask_spreads[(pool, currency)])
        } else {
            None
        }
    }

    /// The accumulated swap rate of `pool` for `pair`; zero while it has
    /// none.
    pub open spec fn accumulated_swap_rate(
        self,
        pool: LiquidityPoolId,
        pair: TradingPair,
    ) -> Fixed128 {
        if self.swap_rates.contains_key((pool, pair)) {
            self.swap_rates[(pool, pair)]
        } else {
            Fixed128::spec_zero()
        }
    }

    /// The registry after `amount` was added to the collateral of `pool`;
    /// `NumOutOfBound` when the sum is too large.
    pub open spec fn deposit(self, pool: LiquidityPoolId, amount: Balance) -> Result<
        PoolsView,
        Error,
    > {
        if self.liquidity_of(pool) + amount > u128::MAX {
            Err(Error::NumOutOfBound)
        } else {
            Ok(
                PoolsView {
                    liquidity: self.liquidity.insert(
                        pool,
                        (self.liquidity_of(pool) + amount) as u128,
                    ),
                    ..self
                },
            )
        }
    }

    /// The registry after `amount` was taken from the collateral of
    /// `pool`; `NumOutOfBound` when the pool does not hold that much.
    pub open spec fn withdraw(self, pool: LiquidityPoolId, amount: Balance) -> Result<
        PoolsView,
        Error,
    > {
        if amount > self.liquidity_of(pool) {
            Err(Error::NumOutOfBound)
        } else if !self.liquidity.contains_key(pool) {
            Ok(self)
        } else {
            Ok(
                PoolsView {
                    liquidity: self.liquidity.insert(
                        pool,
                        (self.liquidity_of(pool) - amount) as u128,
                    ),
                    ..self
                },
            )
        }
    }
}

/// A registry of liquidity pools, as the margin protocol consumes it.
pub trait LiquidityPools: View<V = PoolsView> + Sized {
    /// The bid spread of `pool_id` for `currency_id`.
    fn get_bid_spread(&self, pool_id: LiquidityPoolId, currency_id: CurrencyId) -> (r: Option<
        Permill,
    >)
        ensures
            r == self@.bid_spread(pool_id, currency_id),
    ;

    /// The ask spread of `pool_id` for `currency_id`.
    fn get_ask_spread(&self, pool_id: LiquidityPoolId, currency_id: CurrencyId) -> (r: Option<
        Permill,
    >)
        ensures
            r == self@.ask_spread(pool_id, currency_id),
    ;

    /// The accumulated swap rate of `pool_id` for `pair`.
    fn get_accumulated_swap_rate(&self, pool_id: LiquidityPoolId, pair: TradingPair) -> (r:
        Fixed128)
        ensures
            r == self@.accumulated_swap_rate(pool_id, pair),
    ;

    /// The collateral of `pool_id`.
    fn liquidity(&self, pool_id: LiquidityPoolId) -> (r: Balance)
        ensures
            r == self@.liquidity_of(pool_id),
    ;

    /// Adds `amount` to the collateral of `pool_id`. Refused with
    /// `NumOutOfBound` when the sum is too large.
    fn deposit_liquidity(&mut self, pool_id: LiquidityPoolId, amount: Balance) -> (r: Result<
        (),
        Error,
    >)
        ensures
            match r {
                Ok(()) => Ok::<PoolsView, Error>(final(self)@) == old(self)@.deposit(
                    pool_id,
                    amount,
                ),
                Err(e) => Err::<PoolsView, Error>(e) == old(self)@.deposit(pool_id, amount)
                    && final(self)@ == old(self)@,
            },
    ;

    /// Takes `amount` from the collateral of `pool_id`. Refused with
    /// `NumOutOfBound` when the pool does not hold that much.
    fn withdraw_liquidity(&mut self, pool_id: LiquidityPoolId, amount: Balance) -> (r: Result<
        (),
        Error,
    >)
        ensures
            match r {
                Ok(()) => Ok::<PoolsView, Error>(final(self)@) == old(self)@.withdraw(
                    pool_id,
                    amount,
                ),
                Err(e) => Err::<PoolsView, Error>(e) == old(self)@.withdraw(pool_id, amount)
                    && final(self)@ == old(self)@,
            },
    ;

    /// A copy that holds the same values, to go back to when a run of
    /// settlements cannot be finished.
    fn snapshot(&self) -> (r: Self)
        ensures
            r@ == self@,
    ;
}

/// A registry in which every pool applies the same spread to every
/// currency, bid and ask alike, and accumulates swap at the same rate
/// per trading pair. Until a spread is set no pool has one.
pub struct MockLiquidityPools {
    spread: Option<Permill>,
    swap_rates: PairTable<Fixed128>,
    liquidity: HashMap<LiquidityPoolId, Balance>,
}

impl MockLiquidityPools {
    /// The spread that every pool applies, where one is set.
    pub closed spec fn spec_spread(&self) -> Option<Permill> {
        self.spread
    }

    /// The accumulated swap rate of each trading pair that has one.
    pub closed spec fn spec_swap_rates(&self) -> Map<TradingPair, Fixed128> {
        self.swap_rates@
    }

    /// The collateral of each pool that holds some.
    pub closed spec fn spec_liquidity(&self) -> Map<LiquidityPoolId, Balance> {
        self.liquidity@
    }
}

/// The spreads of a registry in which every pool applies `spread` to
/// every currency.
pub open spec fn spec_uniform_spreads(spread: Option<Permill>) -> Map<
    (LiquidityPoolId, CurrencyId),
    Permill,
> {
    Map::new(
        |k: (LiquidityPoolId, CurrencyId)| spread is Some,
        |k: (LiquidityPoolId, CurrencyId)| spread->0,
    )
}

/// The swap rates of a registry in which every pool accumulates swap at
/// the rate of the pair.
pub open spec fn spec_uniform_swap_rates(rates: Map<TradingPair, Fixed128>) -> Map<
    (LiquidityPoolId, TradingPair),
    Fixed128,
> {
    Map::new(
        |k: (LiquidityPoolId, TradingPair)| rates.contains_key(k.1),
        |k: (LiquidityPoolId, TradingPair)| rates[k.1],
    )
}

impl View for MockLiquidityPools {
    type V = PoolsView;

    open spec fn view(&self) -> PoolsView {
        PoolsView {
            bid_spreads: spec_uniform_spreads(self.spec_spread()),
            ask_spreads: spec_uniform_spreads(self.spec_spread()),
            swap_rates: spec_uniform_swap_rates(self.spec_swap_rates()),
            liquidity: self.spec_liquidity(),
        }
    }
}

impl MockLiquidityPools {
    /// A registry without spread, swap rates or collateral.
    pub fn new() -> (r: Self)
        ensures
            r.spec_spread() is None,
            r.spec_swap_rates() == Map::<TradingPair, Fixed128>::empty(),
            r.spec_liquidity() == Map::<LiquidityPoolId, Balance>::empty(),
    {
        MockLiquidityPools { spread: None, swap_rates: PairTable::new(), liquidity: HashMap::new() }
    }

    /// The spread that every pool applies; zero while none is set.
    pub fn spread(&self) -> (r: Permill)
        ensures
            r == match self.spec_spread() {
                Some(s) => s,
                None => Permill { parts: 0 },
            },
    {
        match self.spread {
            Some(s) => s,
            None => Permill::zero(),
        }
    }

    /// Sets the spread that every pool applies.
    pub fn set_mock_spread(&mut self, spread: Permill)
        ensures
            final(self).spec_spread() == Some(spread),
            final(self).spec_swap_rates() == old(self).spec_swap_rates(),
            final(self).spec_liquidity() == old(self).spec_liquidity(),
    {
        self.spread = Some(spread);
    }

    /// The accumulated swap rate of `pair`; zero while none has been set.
    pub fn accumulated_swap_rate(&self, pair: TradingPair) -> (r: Fixed128)
        ensures
            r == if self.spec_swap_rates().contains_key(pair) {
                self.spec_swap_rates()[pair]
            } else {
                Fixed128::spec_zero()
            },
    {
        match self.swap_rates.get(pair) {
            Some(rate) => rate,
            None => Fixed128::zero(),
        }
    }

    /// Sets the accumulated swap rate of `pair`.
    pub fn set_mock_accumulated_swap_rate(&mut self, pair: TradingPair, rate: Fixed128)
        ensures
            final(self).spec_spread() == old(self).spec_spread(),
            final(self).spec_swap_rates() == old(self).spec_swap_rates().insert(pair, rate),
            final(self).spec_liquidity() == old(self).spec_liquidity(),
    {
        self.swap_rates.insert(pair, rate);
    }
}

impl LiquidityPools for MockLiquidityPools {
    fn get_bid_spread(&self, pool_id: LiquidityPoolId, currency_id: CurrencyId) -> (r: Option<
        Permill,
    >) {
        self.spread
    }

    fn get_ask_spread(&self, pool_id: LiquidityPoolId, currency_id: CurrencyId) -> (r: Option<
        Permill,
    >) {
        self.spread
    }

    fn get_accumulated_swap_rate(&self, pool_id: LiquidityPoolId, pair: TradingPair) -> (r:
        Fixed128) {
        self.accumulated_swap_rate(pair)
    }

    fn liquidity(&self, pool_id: LiquidityPoolId) -> (r: Balance) {
        match self.liquidity.get(&pool_id) {
            Some(l) => *l,
            None => 0,
        }
    }

    fn deposit_liquidity(&mut self, pool_id: LiquidityPoolId, amount: Balance) -> (r: Result<
        (),
        Error,
    >) {
        let current = self.liquidity(pool_id);
        match current.checked_add(amount) {
            Some(sum) => {
                self.liquidity.insert(pool_id, sum);
                Ok(())
            },
            None => Err(Error::NumOutOfBound),
        }
    }

    fn withdraw_liquidity(&mut self, pool_id: LiquidityPoolId, amount: Balance) -> (r: Result<
        (),
        Error,
    >) {
        let current = self.liquidity(pool_id);
        if amount > current {
            return Err(Error::NumOutOfBound);
        }
        if self.liquidity.contains_key(&pool_id) {
            self.liquidity.insert(pool_id, current - amount);
        }
        Ok(())
    }

    fn snapshot(&self) -> (r: Self) {
        MockLiquidityPools {
            spread: self.spread,
            swap_rates: self.swap_rates.snapshot(),
            liquidity: self.liquidity.clone(),
        }
    }
}

/// Decides whether a liquidity pool may be removed.
pub trait LiquidityPoolManager {
    /// The pools that may be removed.
    spec fn removable(&self, pool: LiquidityPoolId) -> bool;

    fn can_remove(&self, pool: LiquidityPoolId) -> (r: bool)
        ensures
            r == self.removable(pool),
    ;
}

/// A manager that lets every pool be removed and every withdrawal pass.
pub struct PoolManager;

impl LiquidityPoolManager for PoolManager {
    open spec fn removable(&self, pool: LiquidityPoolId) -> bool {
        true
    }

    fn can_remove(&self, pool: LiquidityPoolId) -> (r: bool) {
        true
    }
}

impl PoolManager {
    /// Every withdrawal is allowed.
    pub fn ensure_can_withdraw(&self, pool: LiquidityPoolId, amount: Balance) -> (r: Result<
        (),
        Error,
    >)
        ensures
            r == Ok::<(), Error>(()),
    {
        Ok(())
    }
}

} // verus!

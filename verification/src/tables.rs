//! Small keyed tables: one value per currency, or one per trading pair.

use crate::primitives::{
    lemma_currency_code_injective, lemma_pair_code_injective, CurrencyId, TradingPair,
};
use std::collections::HashMap;
use vstd::prelude::*;

verus! {

broadcast use vstd::std_specs::hash::group_hash_axioms;

/// At most one value for each currency.
pub struct CurrencyTable<V> {
    entries: HashMap<u8, V>,
}

impl<V> View for CurrencyTable<V> {
    type V = Map<CurrencyId, V>;

    closed spec fn view(&self) -> Map<CurrencyId, V> {
        Map::new(
            |c: CurrencyId| self.entries@.contains_key(c.spec_code()),
            |c: CurrencyId| self.entries@[c.spec_code()],
        )
    }
}

impl<V: Copy> CurrencyTable<V> {
    pub fn new() -> (r: Self)
        ensures
            r@ == Map::<CurrencyId, V>::empty(),
    {
        let r = CurrencyTable { entries: HashMap::new() };
        assert(r@ =~= Map::<CurrencyId, V>::empty());
        r
    }

    pub fn get(&self, currency: CurrencyId) -> (r: Option<V>)
        ensures
            r == if self@.contains_key(currency) {
                Some(self@[currency])
            } else {
                None
            },
    {
        let k = currency.code();
        match self.entries.get(&k) {
            Some(v) => Some(*v),
            None => None,
        }
    }

    pub fn insert(&mut self, currency: CurrencyId, value: V)
        ensures
            final(self)@ == old(self)@.insert(currency, value),
    {
        let k = currency.code();
        self.entries.insert(k, value);
        proof {
            assert forall|c: CurrencyId| c.spec_code() == k <==> c == currency by {
                lemma_currency_code_injective(c, currency);
            }
            assert(self@ =~= old(self)@.insert(currency, value));
        }
    }

    pub fn remove(&mut self, currency: CurrencyId)
        ensures
            final(self)@ == old(self)@.remove(currency),
    {
        let k = currency.code();
        self.entries.remove(&k);
        proof {
            assert forall|c: CurrencyId| c.spec_code() == k <==> c == currency by {
                lemma_currency_code_injective(c, currency);
            }
            assert(self@ =~= old(self)@.remove(currency));
        }
    }

    /// A copy that holds the same values.
    pub fn snapshot(&self) -> (r: Self)
        ensures
            r@ == self@,
    {
        let r = CurrencyTable { entries: self.entries.clone() };
        assert(r@ =~= self@);
        r
    }
}

/// At most one value for each trading pair.
pub struct PairTable<V> {
    entries: HashMap<u8, V>,
}

impl<V> View for PairTable<V> {
    type V = Map<TradingPair, V>;

    closed spec fn view(&self) -> Map<TradingPair, V> {
        Map::new(
            |p: TradingPair| self.entries@.contains_key(p.spec_code()),
            |p: TradingPair| self.entries@[p.spec_code()],
        )
    }
}

impl<V: Copy> PairTable<V> {
    pub fn new() -> (r: Self)
        ensures
            r@ == Map::<TradingPair, V>::empty(),
    {
        let r = PairTable { entries: HashMap::new() };
        assert(r@ =~= Map::<TradingPair, V>::empty());
        r
    }

    pub fn get(&self, pair: TradingPair) -> (r: Option<V>)
        ensures
            r == if self@.contains_key(pair) {
                Some(self@[pair])
            } else {
                None
            },
    {
        let k = pair.code();
        match self.entries.get(&k) {
            Some(v) => Some(*v),
            None => None,
        }
    }

    pub fn insert(&mut self, pair: TradingPair, value: V)
        ensures
            final(self)@ == old(self)@.insert(pair, value),
    {
        let k = pair.code();
        self.entries.insert(k, value);
        proof {
            assert forall|p: TradingPair| p.spec_code() == k <==> p == pair by {
                lemma_pair_code_injective(p, pair);
            }
            assert(self@ =~= old(self)@.insert(pair, value));
        }
    }

    /// A copy that holds the same values.
    pub fn snapshot(&self) -> (r: Self)
        ensures
            r@ == self@,
    {
        let r = PairTable { entries: self.entries.clone() };
        assert(r@ =~= self@);
        r
    }
}

} // verus!

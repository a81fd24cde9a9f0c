//! The price oracle: what the margin protocol asks of it, and an oracle
//! that keeps one price per currency.

use crate::primitives::{CurrencyId, Price};
use crate::tables::CurrencyTable;
use vstd::prelude::*;

verus! {

/// What an oracle quotes: for a pair of currencies `(base, quote)` the
/// price of one unit of `quote`, counted in units of `base`.
pub type Quotes = Map<(CurrencyId, CurrencyId), Price>;

/// The price of one unit of `quote` in units of `base`, where the oracle
/// quotes one.
pub open spec fn spec_quote(quotes: Quotes, base: CurrencyId, quote: CurrencyId) -> Option<Price> {
    if quotes.contains_key((base, quote)) {
        Some(quotes[(base, quote)])
    } else {
        None
    }
}

/// A price oracle, as the margin protocol consumes it.
pub trait PriceProvider {
    /// What the oracle quotes.
    spec fn quotes(&self) -> Quotes;

    /// The price of one unit of `quote` in units of `base`.
    fn get_price(&self, base: CurrencyId, quote: CurrencyId) -> (r: Option<Price>)
        ensures
            r == spec_quote(self.quotes(), base, quote),
    ;
}

/// The price of one unit of `quote`, counted in units of `base`, where
/// both are priced in a common unit of account: the quotient of their
/// two prices. `None` when either currency has no price, when `base` is
/// priced at zero, or when the quotient is too large.
pub open spec fn spec_price(
    prices: Map<CurrencyId, Price>,
    base: CurrencyId,
    quote: CurrencyId,
) -> Option<Price> {
    if prices.contains_key(base) && prices.contains_key(quote) {
        prices[quote].spec_checked_div(prices[base])
    } else {
        None
    }
}

/// The quotes that follow from one price per currency.
pub open spec fn spec_ratios(prices: Map<CurrencyId, Price>) -> Quotes {
    Map::new(
        |k: (CurrencyId, CurrencyId)| spec_price(prices, k.0, k.1) is Some,
        |k: (CurrencyId, CurrencyId)| spec_price(prices, k.0, k.1)->0,
    )
}

/// An oracle that quotes from one price per currency, all in a common
/// unit of account, which callers set.
pub struct MockPrices {
    table: CurrencyTable<Price>,
}

impl View for MockPrices {
    type V = Map<CurrencyId, Price>;

    closed spec fn view(&self) -> Map<CurrencyId, Price> {
        self.table@
    }
}

impl MockPrices {
    /// An oracle in which no currency has a price.
    pub fn new() -> (r: Self)
        ensures
            r@ == Map::<CurrencyId, Price>::empty(),
    {
        MockPrices { table: CurrencyTable::new() }
    }

    /// Sets the price of `currency_id`, or removes it when `price` is `None`.
    pub fn set_mock_price(&mut self, currency_id: CurrencyId, price: Option<Price>)
        ensures
            final(self)@ == match price {
                Some(p) => old(self)@.insert(currency_id, p),
                None => old(self)@.remove(currency_id),
            },
    {
        match price {
            Some(p) => {
                self.table.insert(currency_id, p);
            },
            None => {
                self.table.remove(currency_id);
            },
        }
    }

    /// The price that was set for `currency_id`, if any.
    pub fn prices(&self, currency_id: CurrencyId) -> (r: Option<Price>)
        ensures
            r == if self@.contains_key(currency_id) {
                Some(self@[currency_id])
            } else {
                None
            },
    {
        self.table.get(currency_id)
    }
}

impl PriceProvider for MockPrices {
    open spec fn quotes(&self) -> Quotes {
        spec_ratios(self@)
    }

    fn get_price(&self, base: CurrencyId, quote: CurrencyId) -> (r: Option<Price>) {
        let base_price = match self.prices(base) {
            Some(p) => p,
            None => {
                return None;
            },
        };
        let quote_price = match self.prices(quote) {
            Some(p) => p,
            None => {
                return None;
            },
        };
        quote_price.checked_div(&base_price)
    }
}

} // verus!

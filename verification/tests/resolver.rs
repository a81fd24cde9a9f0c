use margin_protocol::error::Error;
use margin_protocol::fixed::{Fixed128, FixedU128, Permill};
use margin_protocol::pools::{
    LiquidityPoolManager, LiquidityPools, MockLiquidityPools, PoolManager,
};
use margin_protocol::prices::{MockPrices, PriceProvider};
use margin_protocol::primitives::{CurrencyId, Leverage, TradingPair};
use margin_protocol::resolver::{
    ask_price, bid_price, closing_price, opening_price, price, usd_value,
};
use margin_protocol::rpc::SyntheticProtocol;
use std::sync::Arc;

const UNIT: u128 = 1_000_000_000_000_000_000;
const POOL: u32 = 7;

fn p(n: u128, d: u128) -> FixedU128 {
    FixedU128::checked_from_rational(n, d).unwrap()
}

fn prices() -> MockPrices {
    let mut prices = MockPrices::new();
    prices.set_mock_price(CurrencyId::AUSD, Some(p(3, 1)));
    prices.set_mock_price(CurrencyId::FEUR, Some(p(1, 1)));
    prices
}

fn pools() -> MockLiquidityPools {
    let mut pools = MockLiquidityPools::new();
    pools.deposit_liquidity(POOL, 10_000 * UNIT).unwrap();
    pools.set_mock_spread(Permill::from_percent(1));
    pools
}

#[test]
fn oracle_price_is_the_quotient_of_two_prices() {
    let prices = prices();
    assert_eq!(prices.prices(CurrencyId::AUSD), Some(p(3, 1)));
    assert_eq!(prices.prices(CurrencyId::FJPY), None);
    assert_eq!(prices.get_price(CurrencyId::FEUR, CurrencyId::AUSD), Some(p(3, 1)));
    assert_eq!(
        prices.get_price(CurrencyId::AUSD, CurrencyId::FEUR),
        Some(FixedU128::from_parts(333_333_333_333_333_333))
    );
    assert_eq!(prices.get_price(CurrencyId::AUSD, CurrencyId::AUSD), Some(p(1, 1)));
    assert_eq!(price(&prices, CurrencyId::FEUR, CurrencyId::AUSD), Ok(p(3, 1)));
}

#[test]
fn oracle_without_price_reports_no_price() {
    let mut prices = prices();
    assert_eq!(prices.get_price(CurrencyId::FJPY, CurrencyId::AUSD), None);
    assert_eq!(prices.get_price(CurrencyId::AUSD, CurrencyId::FJPY), None);
    assert_eq!(price(&prices, CurrencyId::FJPY, CurrencyId::AUSD), Err(Error::NoPrice));
    prices.set_mock_price(CurrencyId::FJPY, Some(FixedU128::zero()));
    assert_eq!(price(&prices, CurrencyId::FJPY, CurrencyId::AUSD), Err(Error::NoPrice));
    assert_eq!(price(&prices, CurrencyId::AUSD, CurrencyId::FJPY), Ok(FixedU128::zero()));
    prices.set_mock_price(CurrencyId::AUSD, None);
    assert_eq!(prices.prices(CurrencyId::AUSD), None);
    assert_eq!(price(&prices, CurrencyId::FEUR, CurrencyId::AUSD), Err(Error::NoPrice));
}

#[test]
fn ask_price_adds_the_spread() {
    let (prices, pools) = (prices(), pools());
    let ask = FixedU128::from_parts(3_030_000_000_000_000_000);
    assert_eq!(
        ask_price(&prices, &pools, POOL, CurrencyId::AUSD, CurrencyId::FEUR, None),
        Ok(ask)
    );
    assert_eq!(
        ask_price(&prices, &pools, POOL, CurrencyId::AUSD, CurrencyId::FEUR, Some(p(4, 1))),
        Ok(ask)
    );
    assert_eq!(
        ask_price(&prices, &pools, POOL, CurrencyId::AUSD, CurrencyId::FEUR, Some(ask)),
        Ok(ask)
    );
}

#[test]
fn ask_price_above_the_maximum_is_refused() {
    let (prices, pools) = (prices(), pools());
    assert_eq!(
        ask_price(
            &prices,
            &pools,
            POOL,
            CurrencyId::AUSD,
            CurrencyId::FEUR,
            Some(FixedU128::from_parts(3_029_999_999_999_999_999))
        ),
        Err(Error::MarketPriceTooHigh)
    );
    assert_eq!(
        ask_price(&prices, &pools, POOL, CurrencyId::AUSD, CurrencyId::FEUR, Some(p(3, 1))),
        Err(Error::MarketPriceTooHigh)
    );
}

#[test]
fn missing_price_comes_before_missing_spread() {
    let prices = prices();
    let mut pools = MockLiquidityPools::new();
    pools.deposit_liquidity(POOL, 10_000 * UNIT).unwrap();
    assert_eq!(
        ask_price(&prices, &pools, POOL, CurrencyId::AUSD, CurrencyId::FEUR, None),
        Err(Error::NoAskSpread)
    );
    assert_eq!(
        ask_price(&prices, &pools, POOL, CurrencyId::AUSD, CurrencyId::FJPY, None),
        Err(Error::NoPrice)
    );
    assert_eq!(
        bid_price(&prices, &pools, POOL, CurrencyId::AUSD, CurrencyId::FEUR),
        Err(Error::NoBidSpread)
    );
    assert_eq!(
        bid_price(&prices, &pools, POOL, CurrencyId::FJPY, CurrencyId::FEUR),
        Err(Error::NoPrice)
    );
    pools.set_mock_spread(Permill::zero());
    assert_eq!(
        ask_price(&prices, &pools, POOL, CurrencyId::AUSD, CurrencyId::FEUR, None),
        Ok(p(3, 1))
    );
    assert_eq!(
        bid_price(&prices, &pools, POOL + 1, CurrencyId::AUSD, CurrencyId::FEUR),
        Ok(p(3, 1))
    );
}

#[test]
fn bid_price_takes_the_spread_off() {
    let (prices, mut pools) = (prices(), pools());
    assert_eq!(
        bid_price(&prices, &pools, POOL, CurrencyId::AUSD, CurrencyId::FEUR),
        Ok(FixedU128::from_parts(2_970_000_000_000_000_000))
    );
    pools.set_mock_spread(Permill::one());
    assert_eq!(
        bid_price(&prices, &pools, POOL, CurrencyId::AUSD, CurrencyId::FEUR),
        Ok(FixedU128::zero())
    );
    assert_eq!(
        ask_price(&prices, &pools, POOL, CurrencyId::AUSD, CurrencyId::FEUR, None),
        Ok(p(6, 1))
    );
}

#[test]
fn spread_application_saturates() {
    let mut prices = MockPrices::new();
    prices.set_mock_price(CurrencyId::AUSD, Some(FixedU128::max_value()));
    prices.set_mock_price(CurrencyId::FEUR, Some(p(1, 1)));
    let pools = pools();
    assert_eq!(
        ask_price(&prices, &pools, POOL, CurrencyId::AUSD, CurrencyId::FEUR, None),
        Ok(FixedU128::max_value())
    );
}

#[test]
fn usd_value_multiplies_by_the_price_in_ausd() {
    let mut prices = MockPrices::new();
    prices.set_mock_price(CurrencyId::AUSD, Some(p(2, 1)));
    prices.set_mock_price(CurrencyId::FEUR, Some(p(3, 1)));
    let ten = Fixed128::from_natural(10);
    assert_eq!(usd_value(&prices, CurrencyId::FEUR, ten), Ok(Fixed128::from_natural(15)));
    assert_eq!(
        usd_value(&prices, CurrencyId::FEUR, Fixed128::from_natural(-10)),
        Ok(Fixed128::from_natural(-15))
    );
    assert_eq!(usd_value(&prices, CurrencyId::AUSD, ten), Ok(ten));
    assert_eq!(usd_value(&prices, CurrencyId::FJPY, ten), Err(Error::NoPrice));
    assert_eq!(
        usd_value(&prices, CurrencyId::FEUR, Fixed128::max_value()),
        Err(Error::NumOutOfBound)
    );
}

#[test]
fn usd_value_refuses_a_price_beyond_the_signed_range() {
    let mut prices = MockPrices::new();
    prices.set_mock_price(CurrencyId::AUSD, Some(p(1, 1)));
    prices.set_mock_price(CurrencyId::FEUR, Some(FixedU128::max_value()));
    assert_eq!(
        usd_value(&prices, CurrencyId::FEUR, Fixed128::zero()),
        Err(Error::NumOutOfBound)
    );
}

#[test]
fn registry_keeps_spread_rates_and_liquidity() {
    let mut pools = MockLiquidityPools::new();
    let pair = TradingPair { base: CurrencyId::FEUR, quote: CurrencyId::AUSD };
    let other = TradingPair { base: CurrencyId::AUSD, quote: CurrencyId::FEUR };
    assert_eq!(pools.spread(), Permill::zero());
    assert_eq!(pools.get_ask_spread(POOL, CurrencyId::AUSD), None);
    assert_eq!(pools.get_bid_spread(POOL, CurrencyId::AUSD), None);
    pools.set_mock_spread(Permill::from_parts(1_000));
    assert_eq!(pools.spread(), Permill::from_parts(1_000));
    assert_eq!(pools.get_ask_spread(POOL, CurrencyId::AUSD), Some(Permill::from_parts(1_000)));
    assert_eq!(pools.get_bid_spread(POOL + 1, CurrencyId::FEUR), Some(Permill::from_parts(1_000)));
    assert_eq!(pools.liquidity(POOL), 0);

    assert_eq!(pools.deposit_liquidity(POOL, 10_000 * UNIT), Ok(()));
    assert_eq!(pools.deposit_liquidity(POOL, 5_000 * UNIT), Ok(()));
    assert_eq!(pools.liquidity(POOL), 15_000 * UNIT);
    assert_eq!(pools.liquidity(POOL + 1), 0);

    assert_eq!(pools.withdraw_liquidity(POOL, 15_000 * UNIT + 1), Err(Error::NumOutOfBound));
    assert_eq!(pools.liquidity(POOL), 15_000 * UNIT);
    assert_eq!(pools.withdraw_liquidity(POOL, 6_000 * UNIT), Ok(()));
    assert_eq!(pools.liquidity(POOL), 9_000 * UNIT);
    assert_eq!(pools.deposit_liquidity(POOL, u128::MAX), Err(Error::NumOutOfBound));
    assert_eq!(pools.liquidity(POOL), 9_000 * UNIT);
    assert_eq!(pools.withdraw_liquidity(POOL + 1, 0), Ok(()));
    assert_eq!(pools.withdraw_liquidity(POOL + 1, 1), Err(Error::NumOutOfBound));

    assert_eq!(pools.accumulated_swap_rate(pair), Fixed128::zero());
    pools.set_mock_accumulated_swap_rate(pair, Fixed128::from_parts(5));
    assert_eq!(pools.accumulated_swap_rate(pair), Fixed128::from_parts(5));
    assert_eq!(pools.get_accumulated_swap_rate(POOL, pair), Fixed128::from_parts(5));
    assert_eq!(pools.get_accumulated_swap_rate(POOL + 1, pair), Fixed128::from_parts(5));
    assert_eq!(pools.get_accumulated_swap_rate(POOL, other), Fixed128::zero());

    let copy = pools.snapshot();
    pools.set_mock_spread(Permill::one());
    assert_eq!(copy.spread(), Permill::from_parts(1_000));
    assert_eq!(copy.liquidity(POOL), 9_000 * UNIT);
    assert_eq!(copy.accumulated_swap_rate(pair), Fixed128::from_parts(5));
}

#[test]
fn pool_manager_allows_everything() {
    let manager = PoolManager;
    assert!(manager.can_remove(0));
    assert!(manager.can_remove(u32::MAX));
    assert_eq!(manager.ensure_can_withdraw(3, u128::MAX), Ok(()));
}

#[test]
fn leverage_knows_its_direction_and_multiple() {
    assert!(Leverage::LongTen.is_long());
    assert!(!Leverage::LongTen.is_short());
    assert!(Leverage::ShortFifty.is_short());
    assert_eq!(Leverage::LongTwo.value(), 2);
    assert_eq!(Leverage::ShortThree.value(), 3);
    assert_eq!(Leverage::LongFive.value(), 5);
    assert_eq!(Leverage::ShortTen.value(), 10);
    assert_eq!(Leverage::LongTwenty.value(), 20);
    assert_eq!(Leverage::ShortThirty.value(), 30);
    assert_eq!(Leverage::LongFifty.value(), 50);
    assert_eq!(CurrencyId::LAMI.code(), 0);
    assert_eq!(CurrencyId::FETH.code(), 5);
    let pair = TradingPair { base: CurrencyId::FEUR, quote: CurrencyId::AUSD };
    assert_eq!(pair.code(), 17);
}

#[test]
fn query_handle_keeps_its_client() {
    let client = Arc::new(41u32);
    let handle: SyntheticProtocol<u32, ()> = SyntheticProtocol::new(client.clone());
    assert_eq!(**handle.client(), 41);
    assert!(Arc::ptr_eq(handle.client(), &client));
    assert_eq!(i64::from(margin_protocol::rpc::Error::RuntimeError), 1);
}

#[test]
fn long_positions_open_at_the_ask_and_close_at_the_bid() {
    let (prices, pools) = (prices(), pools());
    let ask = FixedU128::from_parts(3_030_000_000_000_000_000);
    let bid = FixedU128::from_parts(2_970_000_000_000_000_000);
    let (held, debit) = (CurrencyId::AUSD, CurrencyId::FEUR);
    assert_eq!(opening_price(&prices, &pools, POOL, held, debit, true, p(4, 1)), Ok(ask));
    assert_eq!(opening_price(&prices, &pools, POOL, held, debit, true, ask), Ok(ask));
    assert_eq!(
        opening_price(&prices, &pools, POOL, held, debit, true, p(3, 1)),
        Err(Error::MarketPriceTooHigh)
    );
    assert_eq!(closing_price(&prices, &pools, POOL, held, debit, true), Ok(bid));
}

#[test]
fn short_positions_open_at_the_bid_and_close_at_the_ask() {
    let (prices, pools) = (prices(), pools());
    let ask = FixedU128::from_parts(3_030_000_000_000_000_000);
    let bid = FixedU128::from_parts(2_970_000_000_000_000_000);
    let (held, debit) = (CurrencyId::AUSD, CurrencyId::FEUR);
    assert_eq!(opening_price(&prices, &pools, POOL, held, debit, false, p(2, 1)), Ok(bid));
    assert_eq!(opening_price(&prices, &pools, POOL, held, debit, false, bid), Ok(bid));
    assert_eq!(
        opening_price(&prices, &pools, POOL, held, debit, false, p(3, 1)),
        Err(Error::MarketPriceTooLow)
    );
    assert_eq!(closing_price(&prices, &pools, POOL, held, debit, false), Ok(ask));
    let no_spread = MockLiquidityPools::new();
    assert_eq!(
        opening_price(&prices, &no_spread, POOL, held, debit, false, p(2, 1)),
        Err(Error::NoBidSpread)
    );
    assert_eq!(
        closing_price(&prices, &no_spread, POOL, held, debit, false),
        Err(Error::NoAskSpread)
    );
    assert_eq!(
        closing_price(&prices, &pools, POOL, CurrencyId::FJPY, debit, false),
        Err(Error::NoPrice)
    );
}

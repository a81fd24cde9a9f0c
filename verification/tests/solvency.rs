use margin_protocol::error::Error;
use margin_protocol::fixed::{Fixed128, FixedU128, Permill};
use margin_protocol::ledger::PoolRiskRule;
use margin_protocol::lifecycle::new_position;
use margin_protocol::pools::{LiquidityPools, MockLiquidityPools};
use margin_protocol::position::Position;
use margin_protocol::prices::{MockPrices, PriceProvider};
use margin_protocol::primitives::{CurrencyId, Leverage, TradingPair};
use margin_protocol::protocol::MarginProtocol;
use margin_protocol::risk::{add_term, sum, term, Measure};
use margin_protocol::solvency::{longest_leg, ratio, sum_with};
use std::collections::HashMap;

const UNIT: u128 = 1_000_000_000_000_000_000;
const IUNIT: i128 = 1_000_000_000_000_000_000;
const ALICE: u64 = 1;
const BOB: u64 = 2;
const POOL: u32 = 0;
const EUR_USD: TradingPair = TradingPair { base: CurrencyId::FEUR, quote: CurrencyId::AUSD };

fn p(n: u128, d: u128) -> FixedU128 {
    FixedU128::checked_from_rational(n, d).unwrap()
}

fn dollars(n: i128) -> Fixed128 {
    Fixed128::from_parts(n * IUNIT)
}

fn set_price(prices: &mut MockPrices, n: u128, d: u128) {
    prices.set_mock_price(CurrencyId::AUSD, Some(p(n, d)));
    prices.set_mock_price(CurrencyId::FEUR, Some(p(1, 1)));
}

fn setup() -> (MarginProtocol, MockPrices, MockLiquidityPools) {
    let mut ledger = MarginProtocol::new(PoolRiskRule::EitherRatio);
    let mut prices = MockPrices::new();
    let mut pools = MockLiquidityPools::new();
    pools.deposit_liquidity(POOL, 10_000 * UNIT).unwrap();
    ledger.deposit(ALICE, 5_000 * UNIT).unwrap();
    ledger.deposit(BOB, 5_000 * UNIT).unwrap();
    set_price(&mut prices, 3, 1);
    pools.set_mock_spread(Permill::from_percent(1));
    (ledger, prices, pools)
}

fn open(
    ledger: &mut MarginProtocol,
    prices: &MockPrices,
    pools: &MockLiquidityPools,
    who: u64,
    leverage: Leverage,
    amount: u128,
) -> u64 {
    let limit = if leverage.is_long() { p(4, 1) } else { p(2, 1) };
    ledger
        .open_position(prices, pools, who, POOL, EUR_USD, leverage, amount * UNIT, limit)
        .unwrap()
}

fn hypothetical(prices: &MockPrices, pools: &MockLiquidityPools, leverage: Leverage, amount: u128) -> Position {
    let limit = if leverage.is_long() { p(4, 1) } else { p(2, 1) };
    new_position(prices, pools, ALICE, POOL, EUR_USD, leverage, amount * UNIT, limit).unwrap()
}

#[test]
fn margin_level_without_exposure_is_the_largest_value() {
    let (ledger, prices, pools) = setup();
    assert_eq!(ledger.margin_level(&prices, &pools, ALICE, None), Ok(Fixed128::max_value()));
    let stranger = 99;
    assert_eq!(ledger.margin_level(&prices, &pools, stranger, None), Ok(Fixed128::max_value()));
    let empty = MockPrices::new();
    assert_eq!(ledger.margin_level(&empty, &pools, ALICE, None), Ok(Fixed128::max_value()));
}

#[test]
fn margin_level_with_exposure_is_equity_over_exposure() {
    let (mut ledger, mut prices, pools) = setup();
    open(&mut ledger, &prices, &pools, ALICE, Leverage::LongTen, 5_000);
    assert_eq!(ledger.unrealized_pl_of_trader(&prices, &pools, ALICE), Ok(dollars(-300)));
    assert_eq!(ledger.accumulated_swap_rate_of_trader(&prices, &pools, ALICE), Ok(dollars(0)));
    assert_eq!(ledger.equity_of_trader(&prices, &pools, ALICE), Ok(dollars(4_700)));
    assert_eq!(
        ledger.margin_level(&prices, &pools, ALICE, None),
        Ok(Fixed128::from_parts(940_000_000_000_000_000))
    );
    open(&mut ledger, &prices, &pools, ALICE, Leverage::ShortTen, 1_000);
    // equity = 5000 - 300 - 60, exposure = 5000 + 1000
    assert_eq!(ledger.equity_of_trader(&prices, &pools, ALICE), Ok(dollars(4_640)));
    assert_eq!(
        ledger.margin_level(&prices, &pools, ALICE, None),
        Ok(Fixed128::from_parts(773_333_333_333_333_333))
    );
    set_price(&mut prices, 21, 10);
    // equity = 5000 - 4755 + 849
    assert_eq!(ledger.equity_of_trader(&prices, &pools, ALICE), Ok(dollars(1_094)));
    assert_eq!(
        ledger.margin_level(&prices, &pools, ALICE, None),
        Ok(Fixed128::from_parts(182_333_333_333_333_333))
    );
    assert_eq!(ledger.margin_level(&prices, &pools, BOB, None), Ok(Fixed128::max_value()));
}

#[test]
fn margin_level_counts_a_hypothetical_position() {
    let (mut ledger, prices, pools) = setup();
    let extra = hypothetical(&prices, &pools, Leverage::ShortTen, 2_500);
    assert_eq!(extra.leveraged_held_in_usd, dollars(-2_500));
    assert_eq!(ledger.margin_level(&prices, &pools, ALICE, Some(extra)), Ok(dollars(2)));
    open(&mut ledger, &prices, &pools, ALICE, Leverage::LongTen, 5_000);
    // equity = 4700, exposure = 5000 + 2500
    assert_eq!(
        ledger.margin_level(&prices, &pools, ALICE, Some(extra)),
        Ok(Fixed128::from_parts(626_666_666_666_666_666))
    );
    assert_eq!(ledger.positions_of_trader(ALICE), vec![0]);
}

#[test]
fn swap_lowers_the_equity_of_the_trader_and_raises_that_of_the_pool() {
    let (mut ledger, prices, mut pools) = setup();
    open(&mut ledger, &prices, &pools, ALICE, Leverage::LongTen, 5_000);
    pools.set_mock_accumulated_swap_rate(EUR_USD, Fixed128::from_parts(10_000_000_000_000_000));
    assert_eq!(ledger.accumulated_swap_rate_of_trader(&prices, &pools, ALICE), Ok(dollars(50)));
    assert_eq!(ledger.equity_of_trader(&prices, &pools, ALICE), Ok(dollars(4_650)));
    assert_eq!(ledger.accumulated_swap_rate_of_pool(&prices, &pools, POOL), Ok(dollars(50)));
    assert_eq!(ledger.unrealized_pl_of_pool(&prices, &pools, POOL), Ok(dollars(-300)));
    assert_eq!(ledger.equity_of_pool(&prices, &pools, POOL), Ok(dollars(10_350)));
}

#[test]
fn failures_of_the_valuation_reach_the_caller() {
    let (mut ledger, mut prices, pools) = setup();
    open(&mut ledger, &prices, &pools, ALICE, Leverage::LongTen, 5_000);
    prices.set_mock_price(CurrencyId::FEUR, None);
    assert_eq!(ledger.unrealized_pl_of_trader(&prices, &pools, ALICE), Err(Error::NoPrice));
    assert_eq!(ledger.equity_of_trader(&prices, &pools, ALICE), Err(Error::NoPrice));
    assert_eq!(ledger.margin_level(&prices, &pools, ALICE, None), Err(Error::NoPrice));
    assert_eq!(ledger.equity_of_pool(&prices, &pools, POOL), Err(Error::NoPrice));
    assert_eq!(ledger.enp(&prices, &pools, POOL, None), Err(Error::NoPrice));
    assert_eq!(ledger.ell(&prices, &pools, POOL, None), Err(Error::NoPrice));
    let empty = MockLiquidityPools::new();
    set_price(&mut prices, 3, 1);
    assert_eq!(ledger.margin_level(&prices, &empty, ALICE, None), Err(Error::NoBidSpread));
    assert_eq!(ledger.margin_level(&prices, &pools, BOB, None), Ok(Fixed128::max_value()));
}

#[test]
fn pool_ratios_without_positions_are_the_largest_value() {
    let (ledger, prices, pools) = setup();
    assert_eq!(ledger.equity_of_pool(&prices, &pools, POOL), Ok(dollars(10_000)));
    assert_eq!(ledger.enp(&prices, &pools, POOL, None), Ok(Fixed128::max_value()));
    assert_eq!(ledger.ell(&prices, &pools, POOL, None), Ok(Fixed128::max_value()));
    assert_eq!(ledger.equity_of_pool(&prices, &pools, 9), Ok(dollars(0)));
}

#[test]
fn pool_ratios_follow_net_position_and_longest_leg() {
    let (mut ledger, prices, pools) = setup();
    open(&mut ledger, &prices, &pools, ALICE, Leverage::LongTen, 5_000);
    assert_eq!(ledger.equity_of_pool(&prices, &pools, POOL), Ok(dollars(10_300)));
    assert_eq!(
        ledger.enp(&prices, &pools, POOL, None),
        Ok(Fixed128::from_parts(2_060_000_000_000_000_000))
    );
    assert_eq!(
        ledger.ell(&prices, &pools, POOL, None),
        Ok(Fixed128::from_parts(2_060_000_000_000_000_000))
    );
    open(&mut ledger, &prices, &pools, BOB, Leverage::ShortTen, 3_000);
    // unrealized: -300 for the long position, -180 for the short one
    assert_eq!(ledger.unrealized_pl_of_pool(&prices, &pools, POOL), Ok(dollars(-480)));
    assert_eq!(ledger.equity_of_pool(&prices, &pools, POOL), Ok(dollars(10_480)));
    assert_eq!(
        ledger.enp(&prices, &pools, POOL, None),
        Ok(Fixed128::from_parts(5_240_000_000_000_000_000))
    );
    assert_eq!(
        ledger.ell(&prices, &pools, POOL, None),
        Ok(Fixed128::from_parts(2_096_000_000_000_000_000))
    );
    // With 2000 more held short, the legs are 5000 and 5000.
    let extra = hypothetical(&prices, &pools, Leverage::ShortTen, 2_000);
    assert_eq!(ledger.enp(&prices, &pools, POOL, Some(extra)), Ok(Fixed128::max_value()));
    assert_eq!(
        ledger.ell(&prices, &pools, POOL, Some(extra)),
        Ok(Fixed128::from_parts(2_096_000_000_000_000_000))
    );
    // With 4000 more held short, the short leg is the longest.
    let extra = hypothetical(&prices, &pools, Leverage::ShortTen, 4_000);
    assert_eq!(
        ledger.enp(&prices, &pools, POOL, Some(extra)),
        Ok(Fixed128::from_parts(-5_240_000_000_000_000_000))
    );
    assert_eq!(
        ledger.ell(&prices, &pools, POOL, Some(extra)),
        Ok(Fixed128::from_parts(1_497_142_857_142_857_142))
    );
}

#[test]
fn net_position_may_be_negative() {
    let (mut ledger, prices, pools) = setup();
    open(&mut ledger, &prices, &pools, BOB, Leverage::ShortTen, 3_000);
    assert_eq!(ledger.equity_of_pool(&prices, &pools, POOL), Ok(dollars(10_180)));
    assert_eq!(
        ledger.enp(&prices, &pools, POOL, None),
        Ok(Fixed128::from_parts(-3_393_333_333_333_333_333))
    );
    assert_eq!(
        ledger.ell(&prices, &pools, POOL, None),
        Ok(Fixed128::from_parts(3_393_333_333_333_333_333))
    );
}

#[test]
fn ratio_handles_zero_and_overflow() {
    assert_eq!(ratio(dollars(1), Fixed128::zero()), Ok(Fixed128::max_value()));
    assert_eq!(ratio(Fixed128::zero(), Fixed128::zero()), Ok(Fixed128::max_value()));
    assert_eq!(ratio(dollars(-1), Fixed128::zero()), Ok(Fixed128::max_value()));
    assert_eq!(ratio(dollars(3), dollars(2)), Ok(Fixed128::from_parts(1_500_000_000_000_000_000)));
    assert_eq!(ratio(Fixed128::max_value(), Fixed128::from_parts(1)), Err(Error::NumOutOfBound));
    assert_eq!(ratio(Fixed128::max_value(), dollars(1)), Ok(Fixed128::max_value()));
    assert_eq!(longest_leg(dollars(5), dollars(-3)), Ok(dollars(5)));
    assert_eq!(longest_leg(dollars(2), dollars(-3)), Ok(dollars(3)));
    assert_eq!(longest_leg(dollars(0), dollars(0)), Ok(dollars(0)));
    assert_eq!(longest_leg(dollars(2), Fixed128::from_parts(i128::MIN)), Err(Error::NumOutOfBound));
}

#[test]
fn sums_stop_at_the_first_failure() {
    let (_, prices, pools) = setup();
    let long = hypothetical(&prices, &pools, Leverage::LongTen, 5_000);
    let short = hypothetical(&prices, &pools, Leverage::ShortTen, 3_000);
    let huge = Position { leveraged_held_in_usd: Fixed128::max_value(), ..long };
    let floor = Position { leveraged_held_in_usd: Fixed128::from_parts(i128::MIN), ..long };
    let mut positions = HashMap::new();
    positions.insert(0u64, long);
    positions.insert(1u64, short);
    positions.insert(2u64, huge);
    positions.insert(3u64, floor);

    assert_eq!(sum(Measure::NetExposure, &prices, &pools, &positions, &vec![0, 1]), Ok(dollars(2_000)));
    assert_eq!(sum(Measure::GrossExposure, &prices, &pools, &positions, &vec![0, 1]), Ok(dollars(8_000)));
    assert_eq!(sum(Measure::PositiveLeg, &prices, &pools, &positions, &vec![0, 1]), Ok(dollars(5_000)));
    assert_eq!(sum(Measure::NonPositiveLeg, &prices, &pools, &positions, &vec![0, 1]), Ok(dollars(-3_000)));
    assert_eq!(sum(Measure::UnrealizedPl, &prices, &pools, &positions, &vec![0, 1]), Ok(dollars(-480)));
    assert_eq!(sum(Measure::AccumulatedSwap, &prices, &pools, &positions, &vec![0, 1]), Ok(dollars(0)));
    assert_eq!(sum(Measure::NetExposure, &prices, &pools, &positions, &vec![]), Ok(dollars(0)));
    assert_eq!(sum(Measure::NetExposure, &prices, &pools, &positions, &vec![7, 1, 8]), Ok(dollars(-3_000)));

    // The order of the list decides whether a sum overflows on its way.
    assert_eq!(
        sum(Measure::NetExposure, &prices, &pools, &positions, &vec![1, 2, 1, 0]),
        Ok(Fixed128::from_parts(i128::MAX - 1_000 * IUNIT))
    );
    assert_eq!(
        sum(Measure::NetExposure, &prices, &pools, &positions, &vec![0, 2, 1, 1]),
        Err(Error::NumOutOfBound)
    );
    assert_eq!(
        sum(Measure::GrossExposure, &prices, &pools, &positions, &vec![3]),
        Err(Error::NumOutOfBound)
    );
    assert_eq!(term(Measure::GrossExposure, &prices, &pools, &floor), Err(Error::NumOutOfBound));
    assert_eq!(term(Measure::NetExposure, &prices, &pools, &floor), Ok(Fixed128::from_parts(i128::MIN)));
    assert_eq!(term(Measure::PositiveLeg, &prices, &pools, &short), Ok(dollars(0)));
    assert_eq!(term(Measure::NonPositiveLeg, &prices, &pools, &long), Ok(dollars(0)));
    assert_eq!(add_term(dollars(1), Measure::NetExposure, &prices, &pools, &long), Ok(dollars(5_001)));
    assert_eq!(
        add_term(dollars(1), Measure::NetExposure, &prices, &pools, &huge),
        Err(Error::NumOutOfBound)
    );
    assert_eq!(
        sum_with(Ok(dollars(1)), Measure::NetExposure, &prices, &pools, &Some(short)),
        Ok(dollars(-2_999))
    );
    assert_eq!(sum_with(Ok(dollars(1)), Measure::NetExposure, &prices, &pools, &None), Ok(dollars(1)));
    assert_eq!(
        sum_with(Err(Error::NoPrice), Measure::NetExposure, &prices, &pools, &Some(short)),
        Err(Error::NoPrice)
    );
}

use margin_protocol::error::Error;
use margin_protocol::fixed::{Fixed128, FixedU128, Permill};
use margin_protocol::ledger::PoolRiskRule;
use margin_protocol::pools::{LiquidityPools, MockLiquidityPools};
use margin_protocol::position::{RiskLevel, RiskThreshold};
use margin_protocol::prices::{MockPrices, PriceProvider};
use margin_protocol::primitives::{CurrencyId, Leverage, TradingPair};
use margin_protocol::protocol::MarginProtocol;
use margin_protocol::safety::breached;
use margin_protocol::tables::{CurrencyTable, PairTable};
use std::collections::HashMap;

const UNIT: u128 = 1_000_000_000_000_000_000;
const IUNIT: i128 = 1_000_000_000_000_000_000;
const ALICE: u64 = 1;
const BOB: u64 = 2;
const POOL: u32 = 0;
const SMALL_POOL: u32 = 1;
const EUR_USD: TradingPair = TradingPair { base: CurrencyId::FEUR, quote: CurrencyId::AUSD };
const JPY_USD: TradingPair = TradingPair { base: CurrencyId::FJPY, quote: CurrencyId::AUSD };

fn p(n: u128, d: u128) -> FixedU128 {
    FixedU128::checked_from_rational(n, d).unwrap()
}

fn dollars(n: i128) -> Fixed128 {
    Fixed128::from_parts(n * IUNIT)
}

fn percent(margin_call: u32, stop_out: u32) -> RiskThreshold {
    RiskThreshold::new(Permill::from_percent(margin_call), Permill::from_percent(stop_out)).unwrap()
}

fn set_price(prices: &mut MockPrices, n: u128, d: u128) {
    prices.set_mock_price(CurrencyId::AUSD, Some(p(n, d)));
    prices.set_mock_price(CurrencyId::FEUR, Some(p(1, 1)));
    prices.set_mock_price(CurrencyId::FJPY, Some(p(1, 1)));
}

fn setup(rule: PoolRiskRule) -> (MarginProtocol, MockPrices, MockLiquidityPools) {
    let mut ledger = MarginProtocol::new(rule);
    let mut prices = MockPrices::new();
    let mut pools = MockLiquidityPools::new();
    pools.deposit_liquidity(POOL, 10_000 * UNIT).unwrap();
    ledger.deposit(ALICE, 5_000 * UNIT).unwrap();
    set_price(&mut prices, 3, 1);
    pools.set_mock_spread(Permill::from_percent(1));
    (ledger, prices, pools)
}

fn open(
    ledger: &mut MarginProtocol,
    prices: &MockPrices,
    pools: &MockLiquidityPools,
    who: u64,
    pool: u32,
    leverage: Leverage,
    amount: u128,
) -> u64 {
    let limit = if leverage.is_long() { p(4, 1) } else { p(2, 1) };
    ledger
        .open_position(prices, pools, who, pool, EUR_USD, leverage, amount * UNIT, limit)
        .unwrap()
}

#[test]
fn thresholds_order_their_levels() {
    let threshold = percent(5, 3);
    assert_eq!(threshold.margin_call, Permill::from_parts(50_000));
    assert_eq!(threshold.stop_out, Permill::from_parts(30_000));
    assert_eq!(threshold.level(RiskLevel::MarginCall), Fixed128::from_parts(50_000_000_000_000_000));
    assert_eq!(threshold.level(RiskLevel::StopOut), Fixed128::from_parts(30_000_000_000_000_000));
    assert_eq!(RiskThreshold::new(Permill::from_percent(3), Permill::from_percent(5)), None);
    assert_eq!(
        RiskThreshold::new(Permill { parts: 2_000_000 }, Permill::from_percent(5)),
        None
    );
    assert_eq!(
        RiskThreshold::new(Permill::from_percent(5), Permill::from_percent(5)),
        Some(percent(5, 5))
    );
}

#[test]
fn thresholds_are_kept_per_pair() {
    let (mut ledger, _, _) = setup(PoolRiskRule::EitherRatio);
    ledger.set_trader_risk_threshold(EUR_USD, percent(5, 3));
    ledger.set_liquidity_pool_enp_threshold(EUR_USD, percent(90, 50));
    ledger.set_liquidity_pool_ell_threshold(JPY_USD, percent(20, 10));
    assert_eq!(ledger.trader_risk_threshold(EUR_USD), Some(percent(5, 3)));
    assert_eq!(ledger.trader_risk_threshold(JPY_USD), None);
    assert_eq!(ledger.liquidity_pool_enp_threshold(EUR_USD), Some(percent(90, 50)));
    assert_eq!(ledger.liquidity_pool_enp_threshold(JPY_USD), None);
    assert_eq!(ledger.liquidity_pool_ell_threshold(JPY_USD), Some(percent(20, 10)));
    assert_eq!(ledger.liquidity_pool_ell_threshold(EUR_USD), None);
    ledger.set_trader_risk_threshold(EUR_USD, percent(7, 1));
    assert_eq!(ledger.trader_risk_threshold(EUR_USD), Some(percent(7, 1)));
    assert_eq!(ledger.balances(ALICE), dollars(5_000));
}

#[test]
fn tables_hold_one_value_per_key() {
    let mut by_pair: PairTable<u8> = PairTable::new();
    assert_eq!(by_pair.get(EUR_USD), None);
    by_pair.insert(EUR_USD, 1);
    by_pair.insert(JPY_USD, 2);
    by_pair.insert(EUR_USD, 3);
    assert_eq!(by_pair.get(EUR_USD), Some(3));
    assert_eq!(by_pair.get(JPY_USD), Some(2));
    assert_eq!(by_pair.get(TradingPair { base: CurrencyId::AUSD, quote: CurrencyId::FEUR }), None);
    assert_eq!(by_pair.snapshot().get(JPY_USD), Some(2));

    let mut by_currency: CurrencyTable<u8> = CurrencyTable::new();
    by_currency.insert(CurrencyId::FBTC, 4);
    by_currency.insert(CurrencyId::FETH, 5);
    assert_eq!(by_currency.get(CurrencyId::FBTC), Some(4));
    assert_eq!(by_currency.get(CurrencyId::LAMI), None);
    by_currency.remove(CurrencyId::FBTC);
    by_currency.remove(CurrencyId::LAMI);
    assert_eq!(by_currency.get(CurrencyId::FBTC), None);
    assert_eq!(by_currency.snapshot().get(CurrencyId::FETH), Some(5));
}

#[test]
fn trader_without_threshold_is_never_at_risk() {
    let (mut ledger, mut prices, pools) = setup(PoolRiskRule::EitherRatio);
    ledger.set_trader_risk_threshold(JPY_USD, percent(100, 100));
    open(&mut ledger, &prices, &pools, ALICE, POOL, Leverage::LongTen, 5_000);
    set_price(&mut prices, 21, 10);
    assert_eq!(ledger.trader_at_risk(&prices, &pools, ALICE, RiskLevel::MarginCall), Ok(false));
    assert_eq!(ledger.trader_margin_call(&prices, &pools, ALICE), Err(Error::SafeTrader));
    assert!(!ledger.margin_called_traders(ALICE));
}

#[test]
fn trader_without_positions_is_never_at_risk() {
    let (mut ledger, prices, mut pools) = setup(PoolRiskRule::EitherRatio);
    ledger.set_trader_risk_threshold(EUR_USD, percent(100, 100));
    assert_eq!(ledger.trader_at_risk(&prices, &pools, ALICE, RiskLevel::MarginCall), Ok(false));
    assert_eq!(ledger.trader_margin_call(&prices, &pools, ALICE), Err(Error::SafeTrader));
    assert_eq!(ledger.trader_become_safe(&prices, &pools, ALICE), Err(Error::UnsafeTrader));
    assert_eq!(
        ledger.trader_stop_out(&prices, &mut pools, ALICE),
        Err(Error::NotReachedRiskThreshold)
    );
}

#[test]
fn threshold_is_reached_at_equality() {
    let (mut ledger, prices, pools) = setup(PoolRiskRule::EitherRatio);
    open(&mut ledger, &prices, &pools, ALICE, POOL, Leverage::LongTen, 5_000);
    // The margin level is 0.94.
    ledger.set_trader_risk_threshold(EUR_USD, percent(94, 93));
    assert_eq!(ledger.trader_at_risk(&prices, &pools, ALICE, RiskLevel::MarginCall), Ok(true));
    assert_eq!(ledger.trader_at_risk(&prices, &pools, ALICE, RiskLevel::StopOut), Ok(false));
    ledger.set_trader_risk_threshold(EUR_USD, percent(93, 93));
    assert_eq!(ledger.trader_at_risk(&prices, &pools, ALICE, RiskLevel::MarginCall), Ok(false));
}

#[test]
fn trader_transitions_need_the_right_state() {
    let (mut ledger, mut prices, mut pools) = setup(PoolRiskRule::EitherRatio);
    ledger.set_trader_risk_threshold(EUR_USD, percent(5, 3));
    open(&mut ledger, &prices, &pools, ALICE, POOL, Leverage::LongTen, 5_000);
    set_price(&mut prices, 208, 100);
    // At risk of a stop out, but not margin called yet.
    assert_eq!(ledger.trader_at_risk(&prices, &pools, ALICE, RiskLevel::StopOut), Ok(true));
    assert_eq!(
        ledger.trader_stop_out(&prices, &mut pools, ALICE),
        Err(Error::NotReachedRiskThreshold)
    );
    assert_eq!(ledger.trader_become_safe(&prices, &pools, ALICE), Err(Error::UnsafeTrader));
    assert_eq!(ledger.trader_margin_call(&prices, &pools, ALICE), Ok(()));
    assert_eq!(ledger.trader_margin_call(&prices, &pools, ALICE), Err(Error::SafeTrader));
    assert!(ledger.margin_called_traders(ALICE));
    assert!(!ledger.margin_called_traders(BOB));
    assert_eq!(ledger.positions_of_trader(ALICE), vec![0]);
}

#[test]
fn trader_transitions_report_failed_valuations() {
    let (mut ledger, mut prices, mut pools) = setup(PoolRiskRule::EitherRatio);
    ledger.set_trader_risk_threshold(EUR_USD, percent(5, 3));
    open(&mut ledger, &prices, &pools, ALICE, POOL, Leverage::LongTen, 5_000);
    prices.set_mock_price(CurrencyId::FEUR, None);
    assert_eq!(ledger.trader_margin_call(&prices, &pools, ALICE), Err(Error::NoPrice));
    set_price(&mut prices, 21, 10);
    assert_eq!(ledger.trader_margin_call(&prices, &pools, ALICE), Ok(()));
    prices.set_mock_price(CurrencyId::FEUR, None);
    assert_eq!(ledger.trader_become_safe(&prices, &pools, ALICE), Err(Error::NoPrice));
    assert_eq!(ledger.trader_stop_out(&prices, &mut pools, ALICE), Err(Error::NoPrice));
    assert!(ledger.margin_called_traders(ALICE));
}

#[test]
fn deposit_makes_a_trader_safe_again() {
    let (mut ledger, mut prices, pools) = setup(PoolRiskRule::EitherRatio);
    ledger.set_trader_risk_threshold(EUR_USD, percent(5, 3));
    open(&mut ledger, &prices, &pools, ALICE, POOL, Leverage::LongTen, 5_000);
    set_price(&mut prices, 21, 10);
    assert_eq!(ledger.trader_margin_call(&prices, &pools, ALICE), Ok(()));
    assert_eq!(ledger.trader_become_safe(&prices, &pools, ALICE), Err(Error::UnsafeTrader));
    assert_eq!(ledger.deposit(ALICE, 500 * UNIT), Ok(()));
    // (5500 - 4755) / 5000 = 0.149
    assert_eq!(
        ledger.margin_level(&prices, &pools, ALICE, None),
        Ok(Fixed128::from_parts(149_000_000_000_000_000))
    );
    assert_eq!(ledger.trader_become_safe(&prices, &pools, ALICE), Ok(()));
    assert!(!ledger.margin_called_traders(ALICE));
}

fn two_pools() -> (MarginProtocol, MockPrices, MockLiquidityPools) {
    let (mut ledger, mut prices, mut pools) = setup(PoolRiskRule::EitherRatio);
    pools.deposit_liquidity(SMALL_POOL, 100 * UNIT).unwrap();
    ledger.set_trader_risk_threshold(EUR_USD, percent(60, 50));
    assert_eq!(open(&mut ledger, &prices, &pools, ALICE, POOL, Leverage::LongTen, 5_000), 0);
    assert_eq!(open(&mut ledger, &prices, &pools, ALICE, SMALL_POOL, Leverage::ShortTen, 1_000), 1);
    // bid = 2.475, ask = 2.525: the long position has lost 2775, the
    // short one gained 445.
    set_price(&mut prices, 25, 10);
    assert_eq!(
        ledger.margin_level(&prices, &pools, ALICE, None),
        Ok(Fixed128::from_parts(445_000_000_000_000_000))
    );
    assert_eq!(ledger.trader_margin_call(&prices, &pools, ALICE), Ok(()));
    (ledger, prices, pools)
}

#[test]
fn stop_out_closes_every_position_of_the_trader() {
    let (mut ledger, prices, mut pools) = two_pools();
    pools.deposit_liquidity(SMALL_POOL, 900 * UNIT).unwrap();
    assert_eq!(ledger.trader_stop_out(&prices, &mut pools, ALICE), Ok(()));
    assert_eq!(ledger.positions(0), None);
    assert_eq!(ledger.positions(1), None);
    assert_eq!(ledger.positions_of_trader(ALICE), Vec::<u64>::new());
    assert_eq!(ledger.positions_of_pool(POOL), Vec::<u64>::new());
    assert_eq!(ledger.positions_of_pool(SMALL_POOL), Vec::<u64>::new());
    assert!(!ledger.margin_called_traders(ALICE));
    assert_eq!(ledger.balances(ALICE), dollars(2_670));
    assert_eq!(pools.liquidity(POOL), 12_775 * UNIT);
    assert_eq!(pools.liquidity(SMALL_POOL), 555 * UNIT);
    assert_eq!(ledger.margin_held(ALICE), 0);
    assert_eq!(ledger.next_position_id(), 2);
}

#[test]
fn stop_out_pays_a_gain_as_far_as_the_pool_holds() {
    let (mut ledger, prices, mut pools) = two_pools();
    // The small pool holds 100 of the 445 that the second position gained.
    assert_eq!(ledger.trader_stop_out(&prices, &mut pools, ALICE), Ok(()));
    assert_eq!(ledger.positions_of_trader(ALICE), Vec::<u64>::new());
    assert!(!ledger.margin_called_traders(ALICE));
    assert_eq!(ledger.balances(ALICE), dollars(2_325));
    assert_eq!(pools.liquidity(POOL), 12_775 * UNIT);
    assert_eq!(pools.liquidity(SMALL_POOL), 0);
}

#[test]
fn stop_out_of_a_trader_under_water_takes_the_whole_balance() {
    let (mut ledger, mut prices, mut pools) = setup(PoolRiskRule::EitherRatio);
    ledger.set_trader_risk_threshold(EUR_USD, percent(3, 1));
    ledger.deposit(ALICE, 500 * UNIT).unwrap();
    open(&mut ledger, &prices, &pools, ALICE, POOL, Leverage::LongTen, 5_000);
    // bid = 1.881: the position has lost 5745, more than the balance.
    set_price(&mut prices, 19, 10);
    assert_eq!(
        ledger.margin_level(&prices, &pools, ALICE, None),
        Ok(Fixed128::from_parts(-49_000_000_000_000_000))
    );
    assert_eq!(ledger.trader_margin_call(&prices, &pools, ALICE), Ok(()));
    assert_eq!(ledger.trader_stop_out(&prices, &mut pools, ALICE), Ok(()));
    assert_eq!(ledger.positions(0), None);
    assert_eq!(ledger.positions_of_trader(ALICE), Vec::<u64>::new());
    assert!(!ledger.margin_called_traders(ALICE));
    assert_eq!(ledger.balances(ALICE), dollars(0));
    assert_eq!(pools.liquidity(POOL), 15_500 * UNIT);
}

#[test]
fn stop_out_that_cannot_finish_changes_nothing() {
    let (mut ledger, mut prices, mut pools) = setup(PoolRiskRule::EitherRatio);
    pools.deposit_liquidity(SMALL_POOL, u128::MAX).unwrap();
    ledger.set_trader_risk_threshold(EUR_USD, percent(80, 70));
    assert_eq!(open(&mut ledger, &prices, &pools, ALICE, POOL, Leverage::LongTen, 2_000), 0);
    assert_eq!(open(&mut ledger, &prices, &pools, ALICE, SMALL_POOL, Leverage::LongTen, 2_000), 1);
    // bid = 2.475: each position has lost 1110. The second pool cannot
    // hold more than it does.
    set_price(&mut prices, 25, 10);
    assert_eq!(ledger.trader_margin_call(&prices, &pools, ALICE), Ok(()));
    assert_eq!(ledger.trader_stop_out(&prices, &mut pools, ALICE), Err(Error::NumOutOfBound));
    assert!(ledger.positions(0).is_some());
    assert!(ledger.positions(1).is_some());
    assert_eq!(ledger.positions_of_trader(ALICE), vec![0, 1]);
    assert_eq!(ledger.positions_of_pool(POOL), vec![0]);
    assert_eq!(ledger.positions_of_pool(SMALL_POOL), vec![1]);
    assert!(ledger.margin_called_traders(ALICE));
    assert_eq!(ledger.balances(ALICE), dollars(5_000));
    assert_eq!(pools.liquidity(POOL), 10_000 * UNIT);
    assert_eq!(pools.liquidity(SMALL_POOL), u128::MAX);
    assert_eq!(ledger.close_all(&prices, &mut pools, &vec![0, 1]), Err(Error::NumOutOfBound));
    assert_eq!(ledger.close_all(&prices, &mut pools, &vec![0, 5]), Err(Error::PositionNotFound));
    assert_eq!(ledger.close_all(&prices, &mut pools, &vec![0, 0]), Err(Error::PositionNotFound));
    assert_eq!(ledger.positions_of_trader(ALICE), vec![0, 1]);
    assert_eq!(ledger.balances(ALICE), dollars(5_000));
    assert_eq!(pools.liquidity(POOL), 10_000 * UNIT);
    assert_eq!(ledger.force_close(&prices, &mut pools, 5), Err(Error::PositionNotFound));
    assert_eq!(ledger.force_close(&prices, &mut pools, 0), Ok(()));
    assert_eq!(ledger.balances(ALICE), dollars(3_890));
    assert_eq!(pools.liquidity(POOL), 11_110 * UNIT);
    assert_eq!(ledger.close_all(&prices, &mut pools, &vec![]), Ok(()));
    assert_eq!(ledger.positions_of_trader(ALICE), vec![1]);
}

fn pool_under_pressure(rule: PoolRiskRule) -> (MarginProtocol, MockPrices, MockLiquidityPools) {
    let (mut ledger, prices, pools) = setup(rule);
    ledger.set_liquidity_pool_enp_threshold(EUR_USD, percent(90, 50));
    ledger.set_liquidity_pool_ell_threshold(EUR_USD, percent(90, 50));
    open(&mut ledger, &prices, &pools, ALICE, POOL, Leverage::LongTen, 5_000);
    (ledger, prices, pools)
}

#[test]
fn pool_is_margin_called_and_stopped_out() {
    let (mut ledger, mut prices, mut pools) = pool_under_pressure(PoolRiskRule::EitherRatio);
    // bid = 4.059: the pool's equity is 10000 - 5145; both ratios are 0.971.
    set_price(&mut prices, 41, 10);
    assert_eq!(
        ledger.enp(&prices, &pools, POOL, None),
        Ok(Fixed128::from_parts(971_000_000_000_000_000))
    );
    assert_eq!(ledger.liquidity_pool_margin_call(&prices, &pools, POOL), Err(Error::SafePool));
    // bid = 4.158: both ratios are 0.872.
    set_price(&mut prices, 42, 10);
    assert_eq!(
        ledger.ell(&prices, &pools, POOL, None),
        Ok(Fixed128::from_parts(872_000_000_000_000_000))
    );
    assert_eq!(
        ledger.liquidity_pool_stop_out(&prices, &mut pools, POOL),
        Err(Error::NotReachedRiskThreshold)
    );
    assert_eq!(ledger.liquidity_pool_become_safe(&prices, &pools, POOL), Err(Error::UnsafePool));
    assert_eq!(ledger.liquidity_pool_margin_call(&prices, &pools, POOL), Ok(()));
    assert!(ledger.margin_called_liquidity_pools(POOL));
    assert_eq!(ledger.liquidity_pool_margin_call(&prices, &pools, POOL), Err(Error::SafePool));
    assert_eq!(
        ledger.liquidity_pool_stop_out(&prices, &mut pools, POOL),
        Err(Error::NotReachedRiskThreshold)
    );
    assert_eq!(ledger.liquidity_pool_become_safe(&prices, &pools, POOL), Err(Error::UnsafePool));

    // Price back: become safe.
    set_price(&mut prices, 41, 10);
    assert_eq!(ledger.liquidity_pool_become_safe(&prices, &pools, POOL), Ok(()));
    assert!(!ledger.margin_called_liquidity_pools(POOL));
    set_price(&mut prices, 42, 10);
    assert_eq!(ledger.liquidity_pool_margin_call(&prices, &pools, POOL), Ok(()));

    // More collateral: become safe.
    assert_eq!(pools.deposit_liquidity(POOL, 500 * UNIT), Ok(()));
    assert_eq!(ledger.liquidity_pool_become_safe(&prices, &pools, POOL), Ok(()));
    assert_eq!(pools.withdraw_liquidity(POOL, 500 * UNIT), Ok(()));
    assert_eq!(ledger.liquidity_pool_margin_call(&prices, &pools, POOL), Ok(()));

    // bid = 4.95: the pool's equity is 10000 - 9600; both ratios are 0.08.
    set_price(&mut prices, 5, 1);
    assert_eq!(ledger.pool_at_risk(&prices, &pools, POOL, RiskLevel::StopOut), Ok(true));
    assert_eq!(ledger.liquidity_pool_stop_out(&prices, &mut pools, POOL), Ok(()));
    assert!(!ledger.margin_called_liquidity_pools(POOL));
    assert_eq!(ledger.positions_of_pool(POOL), Vec::<u64>::new());
    assert_eq!(ledger.positions_of_trader(ALICE), Vec::<u64>::new());
    assert_eq!(ledger.balances(ALICE), dollars(14_600));
    assert_eq!(pools.liquidity(POOL), 400 * UNIT);
}

#[test]
fn pool_rule_decides_how_the_ratios_combine() {
    for (rule, at_risk) in [(PoolRiskRule::EitherRatio, true), (PoolRiskRule::BothRatios, false)] {
        let (mut ledger, mut prices, pools) = pool_under_pressure(rule);
        ledger.set_liquidity_pool_ell_threshold(EUR_USD, percent(80, 50));
        // Both ratios are 0.872: at or below 90%, above 80%.
        set_price(&mut prices, 42, 10);
        assert_eq!(
            ledger.pool_at_risk(&prices, &pools, POOL, RiskLevel::MarginCall),
            Ok(at_risk)
        );
        assert_eq!(
            ledger.liquidity_pool_margin_call(&prices, &pools, POOL),
            if at_risk { Ok(()) } else { Err(Error::SafePool) }
        );
        ledger.set_pool_risk_rule(PoolRiskRule::BothRatios);
        ledger.set_liquidity_pool_ell_threshold(EUR_USD, percent(90, 50));
        assert_eq!(ledger.pool_at_risk(&prices, &pools, POOL, RiskLevel::MarginCall), Ok(true));
        ledger.set_pool_risk_rule(PoolRiskRule::EitherRatio);
        ledger.set_liquidity_pool_enp_threshold(EUR_USD, percent(80, 50));
        ledger.set_liquidity_pool_ell_threshold(EUR_USD, percent(80, 50));
        assert_eq!(ledger.pool_at_risk(&prices, &pools, POOL, RiskLevel::MarginCall), Ok(false));
    }
}

#[test]
fn pool_stop_out_pays_as_far_as_the_collateral_goes() {
    let (mut ledger, mut prices, mut pools) = pool_under_pressure(PoolRiskRule::EitherRatio);
    ledger.deposit(BOB, 5_000 * UNIT).unwrap();
    open(&mut ledger, &prices, &pools, BOB, POOL, Leverage::LongTen, 5_000);
    // bid = 3.564: each position has gained 2670; equity 4660 over 10000.
    set_price(&mut prices, 36, 10);
    assert_eq!(
        ledger.enp(&prices, &pools, POOL, None),
        Ok(Fixed128::from_parts(466_000_000_000_000_000))
    );
    assert_eq!(ledger.liquidity_pool_margin_call(&prices, &pools, POOL), Ok(()));
    // bid = 4.455: each position has gained 7125, more than the pool
    // holds for both.
    set_price(&mut prices, 45, 10);
    assert_eq!(ledger.equity_of_pool(&prices, &pools, POOL), Ok(dollars(-4_250)));
    assert_eq!(ledger.liquidity_pool_stop_out(&prices, &mut pools, POOL), Ok(()));
    assert_eq!(ledger.positions_of_pool(POOL), Vec::<u64>::new());
    assert_eq!(ledger.positions_of_trader(ALICE), Vec::<u64>::new());
    assert_eq!(ledger.positions_of_trader(BOB), Vec::<u64>::new());
    assert_eq!(ledger.balances(ALICE), dollars(12_125));
    assert_eq!(ledger.balances(BOB), dollars(7_875));
    assert_eq!(pools.liquidity(POOL), 0);
    assert!(!ledger.margin_called_liquidity_pools(POOL));
}

#[test]
fn breach_looks_at_the_pairs_that_are_held() {
    let (mut ledger, prices, pools) = setup(PoolRiskRule::EitherRatio);
    open(&mut ledger, &prices, &pools, ALICE, POOL, Leverage::LongTen, 100);
    let mut positions = HashMap::new();
    positions.insert(0u64, ledger.positions(0).unwrap());
    let mut thresholds: PairTable<RiskThreshold> = PairTable::new();
    let ratio = Fixed128::from_parts(40_000_000_000_000_000);
    assert!(!breached(ratio, &positions, &vec![0], &thresholds, RiskLevel::MarginCall));
    thresholds.insert(JPY_USD, percent(100, 100));
    assert!(!breached(ratio, &positions, &vec![0], &thresholds, RiskLevel::MarginCall));
    thresholds.insert(EUR_USD, percent(5, 3));
    assert!(breached(ratio, &positions, &vec![0], &thresholds, RiskLevel::MarginCall));
    assert!(!breached(ratio, &positions, &vec![0], &thresholds, RiskLevel::StopOut));
    assert!(!breached(ratio, &positions, &vec![], &thresholds, RiskLevel::MarginCall));
    assert!(!breached(ratio, &positions, &vec![4], &thresholds, RiskLevel::MarginCall));
    assert!(breached(ratio, &positions, &vec![4, 0], &thresholds, RiskLevel::MarginCall));
    assert!(breached(Fixed128::from_parts(-1), &positions, &vec![0], &thresholds, RiskLevel::StopOut));
}

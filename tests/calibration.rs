use as_backtest::calibration::{
    build_side_exposures, collect_trade_deltas, combine_side_fits, find_orderbook_index, fixed_step_grid,
    garch_grid, intensity_inputs, positive_prices,
};
use as_backtest::calibration_engine::{CalibrationEngine, CalibrationTrade, OrderbookPoint};
use as_backtest::decimal::Dec;
use as_backtest::market::OrderbookSnapshot;
use rust_decimal::Decimal;

fn d(s: &str) -> Dec {
    let x: Decimal = s.parse().unwrap();
    Dec { mantissa: x.mantissa(), scale: x.scale() }
}

fn num(x: Dec) -> Decimal {
    Decimal::from_i128_with_scale(x.mantissa, x.scale)
}

fn n(s: &str) -> Decimal {
    s.parse().unwrap()
}

fn point(t: u64, mid: &str, near: &str, far: &str) -> OrderbookPoint {
    OrderbookPoint { timestamp: t, mid: d(mid), bid_min: d(near), bid_max: d(far), ask_min: d(near), ask_max: d(far) }
}

fn ctrade(t: u64, price: &str, is_buyer_maker: bool) -> CalibrationTrade {
    CalibrationTrade { timestamp: t, price: d(price), is_buyer_maker }
}

#[test]
fn non_positive_prices_are_dropped() {
    let prices = vec![(0u64, d("100")), (1000, d("0")), (2000, d("-1")), (3000, d("101"))];
    let cleaned = positive_prices(&prices);
    assert_eq!(cleaned.len(), 2);
    assert_eq!(cleaned[1].0, 3000);
}

#[test]
fn test_build_fixed_step_returns_handles_irregular() {
    let prices = vec![(0u64, d("100")), (1000, d("101")), (10_000, d("102"))];
    let grid = fixed_step_grid(&prices, 1000).unwrap();
    assert!(grid.len() - 1 >= 2);
    assert!(grid.windows(2).any(|w| num(w[0].1) != num(w[1].1)));
    // points at 0, 1000, ..., 11000: eleven returns
    assert_eq!(grid.len(), 12);
    assert_eq!(grid[0].0, 0);
    assert_eq!(num(grid[0].1), n("100"));
    assert_eq!(grid[1].0, 1000);
    // a sample exactly at a grid time prices that grid point
    assert_eq!(num(grid[1].1), n("101"));
    assert_eq!(num(grid[2].1), n("101"));
    assert_eq!(num(grid[9].1), n("101"));
    assert_eq!(num(grid[10].1), n("102"));
    assert_eq!(grid[11].0, 11_000);
    assert_eq!(num(grid[11].1), n("102"));
}

#[test]
fn test_garch_requires_enough_returns() {
    let prices = vec![(0u64, Dec::from_int(100)), (1_000, Dec::from_int(100))];
    assert!(garch_grid(&prices).is_none());
}

#[test]
fn garch_grid_with_four_returns_is_refused() {
    let prices: Vec<(u64, Dec)> = (0..4u64).map(|i| (i * 1000, d("100"))).collect();
    assert!(garch_grid(&prices).is_none());
}

#[test]
fn garch_grid_with_five_returns() {
    let prices: Vec<(u64, Dec)> = (0..5u64).map(|i| (i * 1000, Dec::from_int(100 + i as i64))).collect();
    let grid = garch_grid(&prices).unwrap();
    assert_eq!(grid.len(), 6);
}

#[test]
fn garch_grid_needs_two_positive_samples() {
    let prices = vec![(0u64, d("100")), (60_000, d("0"))];
    assert!(garch_grid(&prices).is_none());
}

#[test]
fn orderbook_index_scans_forward() {
    let points = vec![point(0, "100", "0.001", "0.002"), point(1000, "100", "0.001", "0.002"), point(2000, "100", "0.001", "0.002")];
    assert_eq!(find_orderbook_index(&points, 1500, 0), 1);
    assert_eq!(find_orderbook_index(&points, 5000, 0), 2);
    assert_eq!(find_orderbook_index(&points, 500, 1), 1);
}

#[test]
fn deltas_by_side_in_return_space() {
    let points = vec![point(0, "100", "0.001", "0.002")];
    let trades = vec![ctrade(10, "99", true), ctrade(20, "101", false), ctrade(30, "100.5", true)];
    let bid = collect_trade_deltas(&trades, &points, true);
    assert_eq!(bid.len(), 1);
    assert_eq!(num(bid[0]), n("0.01"));
    let ask = collect_trade_deltas(&trades, &points, false);
    assert_eq!(ask.len(), 1);
    assert_eq!(num(ask[0]), n("0.01"));
}

#[test]
fn exposures_cover_the_window() {
    let points = vec![point(0, "100", "0.001", "0.002"), point(1000, "100", "0.002", "0.002"), point(3000, "100", "0.001", "0.003")];
    let ex = build_side_exposures(&points, 4000, true);
    // the middle snapshot has no depth beyond its best level
    assert_eq!(ex.len(), 2);
    assert_eq!(ex[0].duration_ms, 1000);
    assert_eq!(ex[1].duration_ms, 1000);
    assert_eq!(num(ex[1].delta_max), n("0.003"));
}

#[test]
fn test_fit_intensity_empty() {
    let inputs = intensity_inputs(&vec![], &vec![], 1000);
    assert!(inputs.bid.is_none());
    assert!(inputs.ask.is_none());
    let fitted = |s: &Option<as_backtest::calibration::SideSample>| s.as_ref().map(|_| (1, 1));
    assert_eq!(combine_side_fits(fitted(&inputs.bid), fitted(&inputs.ask), (100, 10)), ((100, 10), (100, 10)));
}

#[test]
fn thin_side_is_not_fitted() {
    let points = vec![point(0, "100", "0.001", "0.002")];
    let mut trades: Vec<CalibrationTrade> = (0..4u64).map(|i| ctrade(i * 10, "99.9", true)).collect();
    trades.extend((0..6u64).map(|i| ctrade(i * 10 + 5, "100.1", false)));
    let inputs = intensity_inputs(&trades, &points, 1000);
    assert!(inputs.bid.is_none());
    let ask = inputs.ask.unwrap();
    assert_eq!(ask.deltas.len(), 6);
    assert_eq!(ask.exposures.len(), 1);
    assert_eq!(ask.exposures[0].duration_ms, 1000);
}

#[test]
fn side_fits_fall_back() {
    assert_eq!(combine_side_fits(Some(1), Some(2), 9), (1, 2));
    assert_eq!(combine_side_fits(Some(1), None, 9), (1, 1));
    assert_eq!(combine_side_fits(None, Some(2), 9), (2, 2));
    assert_eq!(combine_side_fits::<i32>(None, None, 9), (9, 9));
}

#[test]
fn calibrate_records_the_time_and_repeats() {
    let mut engine = CalibrationEngine::new(3600, 60);
    assert!(engine.calibrate(5).is_none());
    assert_eq!(engine.last_calibration_ts(), None);
    let snap = OrderbookSnapshot {
        timestamp: 1000,
        bids: vec![(d("99.9"), d("1")), (d("99.5"), d("1"))],
        asks: vec![(d("100.1"), d("1")), (d("100.5"), d("1"))],
    };
    engine.add_orderbook(&snap, d("100"));
    assert_eq!(engine.orderbook_points.len(), 1);
    assert_eq!(num(engine.orderbook_points[0].bid_min), n("0.001"));
    assert_eq!(num(engine.orderbook_points[0].ask_max), n("0.005"));
    let a = engine.calibrate(2000).unwrap();
    assert_eq!(engine.last_calibration_ts(), Some(2000));
    let b = engine.calibrate(2000).unwrap();
    assert_eq!(a.bid.is_none(), b.bid.is_none());
    assert_eq!(a.ask.is_none(), b.ask.is_none());
    assert!(!engine.should_recalibrate(61_999));
    assert!(engine.should_recalibrate(62_000));
}

#[test]
fn calibration_after_the_window_was_pruned_empty() {
    let mut engine = CalibrationEngine::new(1, 1);
    engine.add_price(0, d("100"));
    assert!(engine.calibrate(0).is_some());
    engine.prune_windows(5000);
    assert_eq!(engine.price_count(), 0);
    assert!(engine.should_recalibrate(5000));
    assert!(engine.calibrate(5000).is_some());
    assert_eq!(engine.last_calibration_ts(), Some(5000));
}

#[test]
fn calibrate_needs_a_price_since_reset() {
    let mut engine = CalibrationEngine::new(1, 1);
    engine.add_price(0, d("100"));
    engine.reset();
    assert!(engine.calibrate(10).is_none());
    assert_eq!(engine.last_calibration_ts(), None);
}

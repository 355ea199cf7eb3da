use as_backtest::calibration_engine::CalibrationEngine;
use as_backtest::decimal::Dec;

fn make_test_engine() -> CalibrationEngine {
    CalibrationEngine::new(3600, 60)
}

#[test]
fn test_calibration_engine_basic() {
    let mut engine = make_test_engine();

    assert_eq!(engine.price_count(), 0);
    assert_eq!(engine.trade_count(), 0);
    assert!(!engine.should_recalibrate(1000));

    for i in 0..20u64 {
        engine.add_price(1000 + i * 1000, Dec::from_int(2800 + i as i64));
    }

    assert_eq!(engine.price_count(), 20);
    assert!(engine.should_recalibrate(20000));
}

#[test]
fn test_window_pruning() {
    let mut engine = make_test_engine();
    for i in 0..120u64 {
        engine.add_price(i * 60_000, Dec::from_int(2800 + i as i64));
    }
    assert_eq!(engine.price_count(), 120);
    let current_ts = 120 * 60_000;
    engine.prune_windows(current_ts);
    assert!(engine.price_count() <= 61);
    assert!(engine.price_count() >= 59);
}

#[test]
fn test_reset() {
    let mut engine = make_test_engine();
    for i in 0..20u64 {
        engine.add_price(1000 + i * 1000, Dec::from_int(2800 + i as i64));
    }
    assert_eq!(engine.price_count(), 20);
    engine.reset();
    assert_eq!(engine.price_count(), 0);
    assert_eq!(engine.trade_count(), 0);
    assert_eq!(engine.last_calibration_ts(), None);
}

#[test]
fn pruning_keeps_exactly_the_window() {
    let mut engine = make_test_engine();
    for i in 0..120u64 {
        engine.add_price(i * 60_000, Dec::from_int(2800 + i as i64));
    }
    engine.prune_windows(120 * 60_000);
    // ages 60..=1 minutes are kept: minutes 60 to 119
    assert_eq!(engine.price_count(), 60);
    assert_eq!(engine.full_price_history.len(), 120);
    assert_eq!(engine.calibration_prices[0].0, 60 * 60_000);
}

#[test]
fn first_calibration_waits_for_ten_prices() {
    let mut engine = make_test_engine();
    for i in 0..9u64 {
        engine.add_price(i * 1000, Dec::from_int(100));
    }
    assert!(!engine.should_recalibrate(9000));
    engine.add_price(9000, Dec::from_int(100));
    assert!(engine.should_recalibrate(9000));
}

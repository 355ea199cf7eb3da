use as_backtest::decimal::Dec;
use as_backtest::market::OrderbookSnapshot;
use as_backtest::metrics::{calculate_effective_price, calculate_side_effective_price};
use rust_decimal::Decimal;

fn dec(d: Decimal) -> Dec {
    Dec { mantissa: d.mantissa(), scale: d.scale() }
}

fn num(d: Dec) -> Decimal {
    Decimal::from_i128_with_scale(d.mantissa, d.scale)
}

fn whole(n: i64) -> Dec {
    Dec::from_int(n)
}

#[test]
fn test_empty_levels() {
    let result = calculate_side_effective_price(&vec![], whole(1000));
    assert!(result.is_none());
}

#[test]
fn test_zero_threshold() {
    let levels = vec![(whole(100), whole(10))];
    let result = calculate_side_effective_price(&levels, Dec::zero());
    assert!(result.is_none());
}

#[test]
fn test_single_level_sufficient() {
    let levels = vec![(whole(100), whole(20))];
    let result = calculate_side_effective_price(&levels, whole(1000));
    assert!(result.is_some());
    let (final_price, vwap) = result.unwrap();
    assert_eq!(num(final_price), Decimal::from(100));
    assert_eq!(num(vwap), Decimal::from(100));
}

#[test]
fn test_multiple_levels() {
    let levels = vec![(whole(100), whole(5)), (whole(99), whole(10))];
    let result = calculate_side_effective_price(&levels, whole(1000));
    assert!(result.is_some());
}

#[test]
fn multiple_levels_weighted_average() {
    // 500 at 100, then the remaining 500 at 99: 5 + 500/99 units.
    let levels = vec![(whole(100), whole(5)), (whole(99), whole(10))];
    let (final_price, vwap) = calculate_side_effective_price(&levels, whole(1000)).unwrap();
    assert_eq!(num(final_price), Decimal::from(99));
    let qty = Decimal::from(5) + Decimal::from(500) / Decimal::from(99);
    let expected = (Decimal::from(500) + Decimal::from(99) * (Decimal::from(500) / Decimal::from(99))) / qty;
    assert_eq!(num(vwap), expected);
}

#[test]
fn shallow_book_returns_what_depth_there_is() {
    let levels = vec![(whole(100), whole(2))];
    let (final_price, vwap) = calculate_side_effective_price(&levels, whole(1000)).unwrap();
    assert_eq!(num(final_price), Decimal::from(100));
    assert_eq!(num(vwap), Decimal::from(100));
}

#[test]
fn invalid_levels_are_skipped() {
    let levels = vec![(whole(0), whole(5)), (whole(101), whole(-1)), (whole(98), whole(20))];
    let (final_price, _) = calculate_side_effective_price(&levels, whole(1000)).unwrap();
    assert_eq!(num(final_price), Decimal::from(98));
}

#[test]
fn effective_quote_mid() {
    let snapshot = OrderbookSnapshot {
        timestamp: 1,
        bids: vec![(whole(100), whole(20))],
        asks: vec![(whole(102), whole(20))],
    };
    let q = calculate_effective_price(&snapshot, whole(1000)).unwrap();
    assert_eq!(num(q.mid), Decimal::from(101));
    assert_eq!(num(q.bid), Decimal::from(100));
    assert_eq!(num(q.ask), Decimal::from(102));
}

#[test]
fn effective_quote_needs_both_sides() {
    let snapshot = OrderbookSnapshot { timestamp: 1, bids: vec![(whole(100), whole(20))], asks: vec![] };
    assert!(calculate_effective_price(&snapshot, whole(1000)).is_none());
    let _ = dec(Decimal::ONE);
}

use as_backtest::decimal::Dec;
use as_backtest::quote::{align_quote, QuoteInputs};
use rust_decimal::Decimal;

fn d(s: &str) -> Dec {
    let x: Decimal = s.parse().unwrap();
    Dec { mantissa: x.mantissa(), scale: x.scale() }
}

fn num(x: Dec) -> Decimal {
    Decimal::from_i128_with_scale(x.mantissa, x.scale)
}

fn n(s: &str) -> Decimal {
    s.parse().unwrap()
}

fn inputs(bid_spread: &str, ask_spread: &str, shift: &str) -> QuoteInputs {
    QuoteInputs {
        timestamp: 7,
        mid: d("100"),
        inventory: d("0"),
        bid_spread: d(bid_spread),
        ask_spread: d(ask_spread),
        risk_adjustment: d(shift),
        min_spread_bps: d("2"),
        max_spread_bps: d("100"),
        maker_fee_bps: d("1"),
        tick: d("0.01"),
    }
}

#[test]
fn symmetric_quote_around_the_mid() {
    let q = align_quote(&inputs("0.5", "0.5", "0"));
    assert_eq!(num(q.reservation_price), n("100"));
    assert_eq!(num(q.bid_price), n("99.75"));
    assert_eq!(num(q.ask_price), n("100.25"));
    assert_eq!(num(q.optimal_spread), n("0.5"));
    assert_eq!(q.timestamp, 7);
}

#[test]
fn spread_floor_in_basis_points() {
    // 0.1 bp is raised to 2 bp of 100: 0.02
    let q = align_quote(&inputs("0.001", "0.001", "0"));
    assert_eq!(num(q.bid_price), n("99.99"));
    assert_eq!(num(q.ask_price), n("100.01"));
}

#[test]
fn fee_floor_wins_over_a_lower_minimum() {
    let mut i = inputs("0.001", "0.001", "0");
    i.min_spread_bps = d("0");
    i.maker_fee_bps = d("5");
    // floor of 10 bp: 0.1 of spread, 0.05 each side
    let q = align_quote(&i);
    assert_eq!(num(q.bid_price), n("99.95"));
    assert_eq!(num(q.ask_price), n("100.05"));
}

#[test]
fn spread_cap_in_basis_points() {
    // 500 bp is capped at 100 bp: 1.0
    let q = align_quote(&inputs("5", "5", "0"));
    assert_eq!(num(q.bid_price), n("99.5"));
    assert_eq!(num(q.ask_price), n("100.5"));
}

#[test]
fn inventory_shift_moves_the_reservation_price() {
    let q = align_quote(&inputs("0.5", "0.5", "0.3"));
    assert_eq!(num(q.reservation_price), n("99.7"));
    assert_eq!(num(q.bid_price), n("99.45"));
    assert_eq!(num(q.ask_price), n("99.95"));
}

#[test]
fn reservation_falls_back_to_mid_when_not_positive() {
    let q = align_quote(&inputs("0.5", "0.5", "150"));
    assert_eq!(num(q.reservation_price), n("100"));
}

#[test]
fn prices_are_rounded_outward_to_the_tick() {
    let q = align_quote(&inputs("0.333", "0.333", "0"));
    // raw bid 99.8335 down to 99.83, raw ask 100.1665 up to 100.17
    assert_eq!(num(q.bid_price), n("99.83"));
    assert_eq!(num(q.ask_price), n("100.17"));
    assert!(num(q.bid_price) <= num(q.ask_price));
}

#[test]
fn zero_spreads_still_give_ordered_quotes() {
    let q = align_quote(&inputs("0", "0", "0"));
    assert!(num(q.bid_price) <= num(q.ask_price));
    assert_eq!(num(q.bid_price), n("100"));
    assert_eq!(num(q.ask_price), n("100"));
    assert_eq!(num(q.optimal_spread), n("0"));
}

#[test]
fn negative_raw_bid_is_rounded_down_too() {
    let mut i = inputs("250.005", "0.5", "0");
    i.max_spread_bps = d("0");
    let q = align_quote(&i);
    // raw bid 100 - 125.0025 = -25.0025, rounded toward minus infinity
    assert_eq!(num(q.bid_price), n("-25.01"));
    assert_eq!(num(q.ask_price), n("100.25"));
    assert_eq!(num(q.optimal_spread), n("125.26"));
}

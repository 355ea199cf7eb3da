use as_backtest::decimal::Dec;
use as_backtest::tick::{round_down_to_tick, round_up_to_tick};
use rust_decimal::Decimal;

fn d(s: &str) -> Dec {
    let x: Decimal = s.parse().unwrap();
    Dec { mantissa: x.mantissa(), scale: x.scale() }
}

fn num(x: Dec) -> Decimal {
    Decimal::from_i128_with_scale(x.mantissa, x.scale)
}

#[test]
fn round_down_drops_the_fraction_of_a_tick() {
    assert_eq!(num(round_down_to_tick(d("100.567"), d("0.01"))), d_num("100.56"));
}

#[test]
fn round_up_takes_the_next_tick() {
    assert_eq!(num(round_up_to_tick(d("100.561"), d("0.01"))), d_num("100.57"));
}

#[test]
fn exact_multiples_are_kept() {
    assert_eq!(num(round_down_to_tick(d("100.50"), d("0.01"))), d_num("100.5"));
    assert_eq!(num(round_up_to_tick(d("100.50"), d("0.01"))), d_num("100.5"));
    assert_eq!(num(round_up_to_tick(d("100"), d("0.5"))), d_num("100"));
}

#[test]
fn non_positive_tick_leaves_price_unchanged() {
    assert_eq!(num(round_down_to_tick(d("100.567"), d("0"))), d_num("100.567"));
    assert_eq!(num(round_up_to_tick(d("100.567"), d("-0.01"))), d_num("100.567"));
}

#[test]
fn negative_prices_round_toward_minus_infinity() {
    assert_eq!(num(round_down_to_tick(d("-1.005"), d("0.01"))), d_num("-1.01"));
    assert_eq!(num(round_up_to_tick(d("-1.005"), d("0.01"))), d_num("-1"));
}

#[test]
fn coarse_ticks() {
    assert_eq!(num(round_down_to_tick(d("1234"), d("25"))), d_num("1225"));
    assert_eq!(num(round_up_to_tick(d("1234"), d("25"))), d_num("1250"));
    assert_eq!(num(round_down_to_tick(d("0.0999"), d("0.05"))), d_num("0.05"));
}

#[test]
fn round_up_after_round_down_stays_on_the_grid_point() {
    for p in ["100.567", "99.999", "0.013", "12345.678901", "-3.3333"] {
        let down = round_down_to_tick(d(p), d("0.01"));
        let up = round_up_to_tick(down, d("0.01"));
        let down_n = num(down);
        let up_n = num(up);
        assert!(up_n == down_n || up_n == down_n + d_num("0.01"));
    }
}

fn d_num(s: &str) -> Decimal {
    s.parse().unwrap()
}

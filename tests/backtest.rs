use as_backtest::backtest::{Backtest, BacktestState, PrecomputedConfig};
use as_backtest::calibration_engine::CalibrationEngine;
use as_backtest::decimal::Dec;
use as_backtest::market::{OrderbookSnapshot, TradeEvent};
use rust_decimal::Decimal;

fn d(s: &str) -> Dec {
    let x: Decimal = s.parse().unwrap();
    Dec { mantissa: x.mantissa(), scale: x.scale() }
}

fn num(x: Dec) -> Decimal {
    Decimal::from_i128_with_scale(x.mantissa, x.scale)
}

fn n(s: &str) -> Decimal {
    s.parse().unwrap()
}

struct Setup {
    max_inventory: &'static str,
    capital: &'static str,
    notional: &'static str,
    warmup: u64,
    cooldown: u64,
    gap: u64,
}

fn run(s: &Setup) -> Backtest {
    let config = PrecomputedConfig::from_config(d(s.max_inventory), d("1"), d("5"), 60, s.gap, s.warmup, s.cooldown);
    Backtest::new(config, d(s.capital), d(s.notional), CalibrationEngine::new(3600, 60))
}

fn book(t: u64, bid: &str, ask: &str) -> OrderbookSnapshot {
    OrderbookSnapshot { timestamp: t, bids: vec![(d(bid), d("1"))], asks: vec![(d(ask), d("1"))] }
}

fn trade(t: u64, price: &str) -> TradeEvent {
    TradeEvent { timestamp: t, price: d(price), quantity: d("1"), is_buyer_maker: false }
}

fn default_setup() -> Setup {
    Setup { max_inventory: "10", capital: "1000", notional: "20", warmup: 0, cooldown: 0, gap: 1800 }
}

#[test]
fn new_state_holds_the_capital() {
    let st = BacktestState::new(d("1000"));
    assert_eq!(num(st.cash), n("1000"));
    assert_eq!(num(st.inventory), n("0"));
    assert_eq!(st.bid_fills + st.ask_fills, 0);
    assert_eq!(num(st.mark_to_market_pnl(d("5")).unwrap()), n("1000"));
}

#[test]
fn deterministic_single_fill() {
    let mut bt = run(&default_setup());
    for i in 0..10u64 {
        bt.calibration.add_price(i * 100, d("101"));
    }
    let due = bt.on_orderbook(&book(1000, "100", "102"));
    assert!(due);
    assert_eq!(num(bt.last_mid), n("101"));
    bt.set_quotes(1000, d("100.50"), d("101.50"));
    bt.on_trade(&trade(1500, "100.50"));
    assert_eq!(bt.state.bid_fills, 1);
    assert_eq!(bt.state.ask_fills, 0);
    let size = n("20") / n("100.50");
    assert_eq!(num(bt.state.inventory), size);
    let gross = n("100.50") * size;
    let fee = gross * (n("1") / n("10000"));
    assert_eq!(num(bt.state.cash), n("1000") - (gross + fee));
    let r = bt.finish();
    assert_eq!(num(r.final_inventory), n("0"));
    let close = n("101") * size;
    let close_fee = close * (n("5") / n("10000"));
    assert_eq!(num(r.final_cash), n("1000") - (gross + fee) + (close - close_fee));
    assert_eq!(num(r.final_pnl), num(r.final_cash));
    assert_eq!(r.total_fills(), 1);
    assert_eq!(num(r.total_volume), size + size);
}

#[test]
fn sell_fill_at_our_ask() {
    let mut bt = run(&default_setup());
    bt.on_orderbook(&book(1000, "100", "102"));
    bt.set_quotes(1000, d("100"), d("102"));
    bt.on_trade(&trade(1200, "102.5"));
    assert_eq!(bt.state.ask_fills, 1);
    let size = n("20") / n("102.5");
    assert_eq!(num(bt.state.inventory), -size);
    let gross = n("102") * size;
    let fee = gross * (n("1") / n("10000"));
    assert_eq!(num(bt.state.cash), n("1000") + (gross - fee));
    assert_eq!(num(bt.state.total_notional_volume), gross);
    let r = bt.finish();
    assert_eq!(num(r.final_inventory), n("0"));
}

#[test]
fn inventory_cap_clips_the_second_fill() {
    let mut bt = run(&Setup { max_inventory: "1", notional: "100", ..default_setup() });
    bt.on_orderbook(&book(1000, "99", "101"));
    bt.set_quotes(1000, d("100"), d("101"));
    bt.on_trade(&trade(1100, "100"));
    bt.on_trade(&trade(1200, "100"));
    assert_eq!(bt.state.bid_fills, 1);
    assert_eq!(num(bt.state.inventory), n("1"));
}

#[test]
fn cooldown_blocks_the_second_fill() {
    let mut bt = run(&Setup { cooldown: 5, ..default_setup() });
    bt.on_orderbook(&book(500, "99", "101"));
    bt.set_quotes(500, d("100"), d("101"));
    bt.on_trade(&trade(1000, "99.5"));
    bt.on_trade(&trade(2000, "99.5"));
    assert_eq!(bt.state.bid_fills, 1);
    bt.on_trade(&trade(6000, "99.5"));
    assert_eq!(bt.state.bid_fills, 2);
}

#[test]
fn buy_needs_cash_for_cost_and_fee() {
    let mut bt = run(&Setup { capital: "20", ..default_setup() });
    bt.on_orderbook(&book(1000, "99", "101"));
    bt.set_quotes(1000, d("100"), d("101"));
    // cost 20 plus a fee of 0.002 exceeds the 20 in cash
    bt.on_trade(&trade(1100, "100"));
    assert_eq!(bt.state.bid_fills, 0);
    assert_eq!(num(bt.state.cash), n("20"));
}

#[test]
fn gap_restarts_the_warmup() {
    let mut bt = run(&Setup { gap: 1, warmup: 900, ..default_setup() });
    bt.on_orderbook(&book(1000, "99", "101"));
    assert_eq!(bt.warmup_end_ts, 901_000);
    bt.set_quotes(1000, d("100"), d("101"));
    bt.on_orderbook(&book(1000 + 10 * 1000, "99", "101"));
    assert_eq!(bt.warmup_end_ts, 11_000 + 900_000);
    assert!(bt.active_bid_price.is_none());
    assert!(bt.active_ask_price.is_none());
    assert_eq!(bt.active_quote_ts, 0);
    for i in 0..10u64 {
        bt.on_trade(&trade(11_000 + i * 100, "100"));
    }
    assert_eq!(bt.state.bid_fills + bt.state.ask_fills, 0);
}

#[test]
fn first_book_starts_the_warmup() {
    let mut bt = run(&Setup { warmup: 10, ..default_setup() });
    bt.on_orderbook(&book(1000, "99", "101"));
    assert_eq!(bt.warmup_end_ts, 11_000);
    bt.set_quotes(1000, d("100"), d("101"));
    bt.on_trade(&trade(5000, "99"));
    assert_eq!(bt.state.bid_fills, 0);
    bt.on_trade(&trade(11_000, "99"));
    assert_eq!(bt.state.bid_fills, 1);
}

#[test]
fn empty_side_keeps_the_last_mid_and_quotes_nothing() {
    let mut bt = run(&default_setup());
    for i in 0..10u64 {
        bt.calibration.add_price(i * 100, d("100"));
    }
    bt.on_orderbook(&book(1000, "99", "101"));
    assert_eq!(num(bt.last_mid), n("100"));
    let empty = OrderbookSnapshot { timestamp: 100_000, bids: vec![], asks: vec![(d("105"), d("1"))] };
    let due = bt.on_orderbook(&empty);
    assert!(!due);
    assert_eq!(num(bt.last_mid), n("100"));
}

#[test]
fn expired_quotes_do_not_fill() {
    let mut bt = run(&default_setup());
    bt.on_orderbook(&book(1000, "99", "101"));
    bt.set_quotes(1000, d("100"), d("101"));
    bt.on_trade(&trade(61_000, "99"));
    assert_eq!(bt.state.bid_fills, 0);
}

#[test]
fn trade_between_the_quotes_does_not_fill() {
    let mut bt = run(&default_setup());
    bt.on_orderbook(&book(1000, "99", "101"));
    bt.set_quotes(1000, d("100"), d("101"));
    bt.on_trade(&trade(2000, "100.5"));
    assert_eq!(bt.state.bid_fills + bt.state.ask_fills, 0);
    assert_eq!(bt.calibration.trade_count(), 1);
}

#[test]
fn no_calibration_means_no_trading() {
    let mut bt = run(&default_setup());
    for i in 0..5u64 {
        bt.on_orderbook(&book(1000 + i * 1000, "100", "101"));
        bt.on_trade(&trade(1500 + i * 1000, "99"));
    }
    let r = bt.finish();
    assert_eq!(r.bid_fills + r.ask_fills, 0);
    assert_eq!(num(r.final_pnl), n("1000"));
    assert_eq!(num(r.total_return_pct), n("0"));
}

#[test]
fn same_events_same_results() {
    let go = || {
        let mut bt = run(&default_setup());
        bt.on_orderbook(&book(1000, "99", "101"));
        bt.set_quotes(1000, d("99.5"), d("100.5"));
        bt.on_trade(&trade(1100, "99.4"));
        bt.on_trade(&trade(1200, "100.7"));
        bt.on_orderbook(&book(2000, "100", "102"));
        bt.finish()
    };
    let a = go();
    let b = go();
    assert_eq!(num(a.final_pnl), num(b.final_pnl));
    assert_eq!(num(a.final_cash), num(b.final_cash));
    assert_eq!(num(a.total_volume), num(b.total_volume));
    assert_eq!(a.final_cash.mantissa, b.final_cash.mantissa);
    assert_eq!(a.final_cash.scale, b.final_cash.scale);
    assert_eq!(a.bid_fills, b.bid_fills);
    assert_eq!(a.ask_fills, b.ask_fills);
}

#[test]
fn return_percentage() {
    let mut bt = run(&default_setup());
    bt.on_orderbook(&book(1000, "99", "101"));
    bt.set_quotes(1000, d("99"), d("101"));
    bt.on_trade(&trade(1100, "98"));
    bt.on_orderbook(&book(2000, "109", "111"));
    let r = bt.finish();
    let expected = (num(r.final_pnl) - n("1000")) / n("1000") * n("100");
    assert_eq!(num(r.total_return_pct), expected);
    assert!(num(r.total_return_pct) > n("0"));
}

#[test]
fn flat_run_keeps_the_capital() {
    let mut bt = run(&default_setup());
    for i in 0..20u64 {
        bt.on_orderbook(&book(1000 + i * 1000, "100", "101"));
    }
    let r = bt.finish();
    assert_eq!(num(r.final_inventory), n("0"));
    assert_eq!(num(r.final_pnl), n("1000"));
    assert_eq!(num(r.final_cash), n("1000"));
    assert_eq!(num(r.total_return_pct), n("0"));
}

use as_backtest::decimal::Dec;
use as_backtest::market::{drop_repeated_trades, merge_order, snapshot_from_levels, DataEvent, OrderbookSnapshot, TradeEvent};
use rust_decimal::Decimal;

fn d(s: &str) -> Dec {
    let x: Decimal = s.parse().unwrap();
    Dec { mantissa: x.mantissa(), scale: x.scale() }
}

fn trade(t: u64, price: &str, qty: &str, sell: bool) -> DataEvent {
    DataEvent::Trade(TradeEvent { timestamp: t, price: d(price), quantity: d(qty), is_buyer_maker: sell })
}

fn book(t: u64) -> DataEvent {
    DataEvent::Orderbook(OrderbookSnapshot { timestamp: t, bids: vec![], asks: vec![] })
}

#[test]
fn merge_interleaves_by_time_trades_first() {
    let order = merge_order(&vec![1, 5, 5, 9], &vec![0, 5, 7]);
    assert_eq!(
        order,
        vec![(false, 0), (true, 0), (true, 1), (true, 2), (false, 1), (false, 2), (true, 3)]
    );
}

#[test]
fn merge_with_an_empty_stream() {
    assert_eq!(merge_order(&vec![], &vec![3, 4]), vec![(false, 0), (false, 1)]);
    assert_eq!(merge_order(&vec![3], &vec![]), vec![(true, 0)]);
    assert!(merge_order(&vec![], &vec![]).is_empty());
}

#[test]
fn event_timestamp() {
    assert_eq!(trade(42, "1", "1", true).timestamp(), 42);
    assert_eq!(book(43).timestamp(), 43);
}

#[test]
fn snapshot_drops_absent_levels() {
    let rows = vec![(d("100"), d("1"), d("101"), d("2")), (d("0"), d("0"), d("102"), d("3")), (d("99"), d("4"), d("-1"), d("0"))];
    let s = snapshot_from_levels(7, &rows);
    assert_eq!(s.timestamp, 7);
    assert_eq!(s.bids.len(), 2);
    assert_eq!(s.asks.len(), 2);
    assert_eq!(s.bids[1].0.mantissa, 99);
    assert_eq!(s.asks[1].0.mantissa, 102);
}

#[test]
fn repeated_trades_at_the_same_time_are_dropped() {
    let events = vec![
        trade(1, "100", "1", true),
        trade(1, "100.0", "1.00", true),
        book(1),
        trade(1, "100", "1", false),
        trade(1, "100", "1", true),
        trade(2, "100", "1", true),
        trade(2, "100", "2", true),
    ];
    assert_eq!(drop_repeated_trades(&events), vec![true, false, true, true, false, true, true]);
}

#[test]
fn a_new_timestamp_starts_afresh() {
    let events = vec![trade(1, "100", "1", true), trade(2, "100", "1", true), trade(1, "100", "1", true)];
    assert_eq!(drop_repeated_trades(&events), vec![true, true, true]);
}

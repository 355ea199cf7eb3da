//! Rolling windows of prices, book exposure and trades, and the schedule of
//! recalibration.
//!
//! The engine keeps what the volatility and intensity fits read and decides when
//! they run; the fits themselves are numerical routines outside this crate's
//! decimal world, fed from the windows kept here.
use crate::calibration::{intensity_inputs, sample_view, side_sample_of, ExposureInterval, IntensityInputs};
use crate::decimal::{decimal_difference, decimal_quotient, Dec};
use crate::market::{best_price, far_price, first_price, last_price, OrderbookSnapshot, TradeEvent};
use vstd::prelude::*;

verus! {

/// Prices needed before the first calibration.
pub const MIN_PRICES_FOR_CALIBRATION: usize = 10;

/// Book exposure of one snapshot, in return space: for each side the distance of
/// the best (`min`) and the farthest (`max`) level from the mid, divided by the mid.
#[derive(Clone, Copy, Debug)]
pub struct OrderbookPoint {
    pub timestamp: u64,
    pub mid: Dec,
    pub bid_min: Dec,
    pub bid_max: Dec,
    pub ask_min: Dec,
    pub ask_max: Dec,
}

/// What the intensity fit needs of a trade.
#[derive(Clone, Copy, Debug)]
pub struct CalibrationTrade {
    pub timestamp: u64,
    pub price: Dec,
    pub is_buyer_maker: bool,
}

/// Entries of a window, each with a timestamp in milliseconds.
pub trait Stamped {
    spec fn stamp(&self) -> u64;

    fn time(&self) -> (r: u64)
        ensures
            r == self.stamp(),
    ;
}

impl Stamped for (u64, Dec) {
    open spec fn stamp(&self) -> u64 {
        self.0
    }

    fn time(&self) -> (r: u64) {
        self.0
    }
}

impl Stamped for OrderbookPoint {
    open spec fn stamp(&self) -> u64 {
        self.timestamp
    }

    fn time(&self) -> (r: u64) {
        self.timestamp
    }
}

impl Stamped for CalibrationTrade {
    open spec fn stamp(&self) -> u64 {
        self.timestamp
    }

    fn time(&self) -> (r: u64) {
        self.timestamp
    }
}

/// An entry stamped `ts` is at most `window` old at time `now` (an entry from the
/// future counts as age zero).
pub open spec fn recent(now: u64, ts: u64, window: u64) -> bool {
    (if now >= ts { now - ts } else { 0 }) <= window
}

/// The entries of `s` that are recent at `now`, in their order.
pub open spec fn kept<T: Stamped>(s: Seq<T>, now: u64, window: u64) -> Seq<T> {
    s.filter(|e: T| recent(now, e.stamp(), window))
}

/// Keeps the entries of `v` that are recent at `now`.
fn retain_recent<T: Stamped + Copy>(v: &Vec<T>, now: u64, window: u64) -> (r: Vec<T>)
    ensures
        r@ == kept(v@, now, window),
{
    let ghost pred = |e: T| recent(now, e.stamp(), window);
    let mut out: Vec<T> = Vec::new();
    let mut i: usize = 0;
    while i < v.len()
        invariant
            i <= v.len(),
            pred == (|e: T| recent(now, e.stamp(), window)),
            out@ == v@.subrange(0, i as int).filter(pred),
        decreases v.len() - i,
    {
        let e = v[i];
        let ts = e.time();
        proof {
            assert(v@.subrange(0, i + 1) == v@.subrange(0, i as int).push(e));
            v@.subrange(0, i as int).lemma_filter_push(e, pred);
        }
        let age = if now >= ts { now - ts } else { 0 };
        if age <= window {
            out.push(e);
        }
        i = i + 1;
    }
    proof {
        assert(v@.subrange(0, v.len() as int) == v@);
    }
    out
}

/// `max(from - to, 0) / mid` as the decimals compute it; zero where a step fails.
pub open spec fn return_distance(from: Dec, to: Dec, mid: Dec) -> Dec {
    match decimal_difference(from, to) {
        Some(d) => {
            let d0 = if d.value() < 0 { Dec { mantissa: 0, scale: 0 } } else { d };
            match decimal_quotient(d0, mid) {
                Some(q) => q,
                None => Dec { mantissa: 0, scale: 0 },
            }
        },
        None => Dec { mantissa: 0, scale: 0 },
    }
}

fn distance(from: Dec, to: Dec, mid: Dec) -> (r: Dec)
    requires
        from.wf(),
        to.wf(),
        mid.wf(),
    ensures
        r.wf(),
        r == return_distance(from, to, mid),
{
    match from.sub(to) {
        Some(d) => {
            let d0 = if d.lt(Dec::zero()) { Dec::zero() } else { d };
            match d0.div(mid) {
                Some(q) => q,
                None => Dec::zero(),
            }
        },
        None => Dec::zero(),
    }
}

/// The exposure point of a snapshot whose mid is `mid`.
pub open spec fn exposure_point(snapshot: OrderbookSnapshot, mid: Dec) -> OrderbookPoint {
    let best_bid = best_price(snapshot.bids@);
    let best_ask = best_price(snapshot.asks@);
    let far_bid = far_price(snapshot.bids@, best_bid);
    let far_ask = far_price(snapshot.asks@, best_ask);
    OrderbookPoint {
        timestamp: snapshot.timestamp,
        mid,
        bid_min: return_distance(mid, best_bid, mid),
        bid_max: return_distance(mid, far_bid, mid),
        ask_min: return_distance(best_ask, mid, mid),
        ask_max: return_distance(far_ask, mid, mid),
    }
}

impl OrderbookPoint {
    pub open spec fn wf(self) -> bool {
        self.mid.wf() && self.bid_min.wf() && self.bid_max.wf() && self.ask_min.wf()
            && self.ask_max.wf()
    }
}

/// Rolling calibration state of one backtest.
pub struct CalibrationEngine {
    /// Recent `(timestamp, mid)` samples, for realised volatility.
    pub calibration_prices: Vec<(u64, Dec)>,
    /// Every sample since the start, never pruned, for the GARCH forecast.
    pub full_price_history: Vec<(u64, Dec)>,
    /// Recent book exposure points.
    pub orderbook_points: Vec<OrderbookPoint>,
    /// Recent trades.
    pub window_trades: Vec<CalibrationTrade>,
    pub last_calibration_ts: Option<u64>,
    pub calibration_window_ms: u64,
    pub recalibration_interval_ms: u64,
}

impl CalibrationEngine {
    /// Every decimal held is well formed; the rolling price window holds no more
    /// than the full history, which is not empty once a calibration was made.
    pub open spec fn wf(&self) -> bool {
        &&& forall|i: int|
            0 <= i < self.calibration_prices@.len() ==> (#[trigger] self.calibration_prices@[i]).1.wf()
        &&& forall|i: int|
            0 <= i < self.full_price_history@.len() ==> (#[trigger] self.full_price_history@[i]).1.wf()
        &&& forall|i: int|
            0 <= i < self.orderbook_points@.len() ==> (#[trigger] self.orderbook_points@[i]).wf()
        &&& forall|i: int|
            0 <= i < self.window_trades@.len() ==> (#[trigger] self.window_trades@[i]).price.wf()
        &&& self.calibration_prices@.len() <= self.full_price_history@.len()
        &&& self.last_calibration_ts is Some ==> self.full_price_history@.len() > 0
    }

    /// An engine with empty windows; the window and the interval are given in
    /// seconds (saturating at `u64::MAX` milliseconds).
    pub fn new(calibration_window_seconds: u64, recalibration_interval_seconds: u64) -> (r: Self)
        ensures
            r.wf(),
            r.calibration_prices@.len() == 0,
            r.full_price_history@.len() == 0,
            r.orderbook_points@.len() == 0,
            r.window_trades@.len() == 0,
            r.last_calibration_ts is None,
            r.calibration_window_ms == saturating_ms(calibration_window_seconds),
            r.recalibration_interval_ms == saturating_ms(recalibration_interval_seconds),
    {
        CalibrationEngine {
            calibration_prices: Vec::new(),
            full_price_history: Vec::new(),
            orderbook_points: Vec::new(),
            window_trades: Vec::new(),
            last_calibration_ts: None,
            calibration_window_ms: seconds_to_ms(calibration_window_seconds),
            recalibration_interval_ms: seconds_to_ms(recalibration_interval_seconds),
        }
    }

    /// Records a price sample in both price windows.
    pub fn add_price(&mut self, timestamp: u64, price: Dec)
        requires
            old(self).wf(),
            price.wf(),
        ensures
            final(self).wf(),
            final(self).calibration_prices@ == old(self).calibration_prices@.push((timestamp, price)),
            final(self).full_price_history@ == old(self).full_price_history@.push((timestamp, price)),
            final(self).orderbook_points@ == old(self).orderbook_points@,
            final(self).window_trades@ == old(self).window_trades@,
            final(self).last_calibration_ts == old(self).last_calibration_ts,
            final(self).calibration_window_ms == old(self).calibration_window_ms,
            final(self).recalibration_interval_ms == old(self).recalibration_interval_ms,
    {
        self.calibration_prices.push((timestamp, price));
        self.full_price_history.push((timestamp, price));
    }

    /// Records the mid of a snapshot in both price windows and, when the mid is
    /// positive, the snapshot's exposure point.
    pub fn add_orderbook(&mut self, snapshot: &OrderbookSnapshot, mid_price: Dec)
        requires
            old(self).wf(),
            snapshot.wf(),
            mid_price.wf(),
        ensures
            final(self).wf(),
            final(self).calibration_prices@ == old(self).calibration_prices@.push(
                (snapshot.timestamp, mid_price),
            ),
            final(self).full_price_history@ == old(self).full_price_history@.push(
                (snapshot.timestamp, mid_price),
            ),
            final(self).orderbook_points@ == if mid_price.value() > 0 {
                old(self).orderbook_points@.push(exposure_point(*snapshot, mid_price))
            } else {
                old(self).orderbook_points@
            },
            final(self).window_trades@ == old(self).window_trades@,
            final(self).last_calibration_ts == old(self).last_calibration_ts,
            final(self).calibration_window_ms == old(self).calibration_window_ms,
            final(self).recalibration_interval_ms == old(self).recalibration_interval_ms,
    {
        let timestamp = snapshot.timestamp;
        self.calibration_prices.push((timestamp, mid_price));
        self.full_price_history.push((timestamp, mid_price));
        if !mid_price.is_positive() {
            return ;
        }
        let best_bid = first_price(&snapshot.bids);
        let best_ask = first_price(&snapshot.asks);
        let far_bid = last_price(&snapshot.bids, best_bid);
        let far_ask = last_price(&snapshot.asks, best_ask);
        let point = OrderbookPoint {
            timestamp,
            mid: mid_price,
            bid_min: distance(mid_price, best_bid, mid_price),
            bid_max: distance(mid_price, far_bid, mid_price),
            ask_min: distance(best_ask, mid_price, mid_price),
            ask_max: distance(far_ask, mid_price, mid_price),
        };
        self.orderbook_points.push(point);
    }

    /// Records a trade in the trade window.
    pub fn add_trade(&mut self, trade: &TradeEvent)
        requires
            old(self).wf(),
            trade.wf(),
        ensures
            final(self).wf(),
            final(self).window_trades@ == old(self).window_trades@.push(
                CalibrationTrade {
                    timestamp: trade.timestamp,
                    price: trade.price,
                    is_buyer_maker: trade.is_buyer_maker,
                },
            ),
            final(self).calibration_prices@ == old(self).calibration_prices@,
            final(self).full_price_history@ == old(self).full_price_history@,
            final(self).orderbook_points@ == old(self).orderbook_points@,
            final(self).last_calibration_ts == old(self).last_calibration_ts,
            final(self).calibration_window_ms == old(self).calibration_window_ms,
            final(self).recalibration_interval_ms == old(self).recalibration_interval_ms,
    {
        self.window_trades.push(
            CalibrationTrade {
                timestamp: trade.timestamp,
                price: trade.price,
                is_buyer_maker: trade.is_buyer_maker,
            },
        );
    }

    /// Drops from the three rolling windows what is older than the calibration
    /// window at `current_ts`; the full price history is kept whole.
    pub fn prune_windows(&mut self, current_ts: u64)
        requires
            old(self).wf(),
        ensures
            final(self).wf(),
            final(self).calibration_prices@ == kept(
                old(self).calibration_prices@,
                current_ts,
                old(self).calibration_window_ms,
            ),
            final(self).orderbook_points@ == kept(
                old(self).orderbook_points@,
                current_ts,
                old(self).calibration_window_ms,
            ),
            final(self).window_trades@ == kept(
                old(self).window_trades@,
                current_ts,
                old(self).calibration_window_ms,
            ),
            final(self).full_price_history@ == old(self).full_price_history@,
            final(self).last_calibration_ts == old(self).last_calibration_ts,
            final(self).calibration_window_ms == old(self).calibration_window_ms,
            final(self).recalibration_interval_ms == old(self).recalibration_interval_ms,
    {
        let w = self.calibration_window_ms;
        let prices = retain_recent(&self.calibration_prices, current_ts, w);
        proof {
            old(self).calibration_prices@.lemma_filter_len(|e: (u64, Dec)| recent(current_ts, e.stamp(), w));
        }
        let points = retain_recent(&self.orderbook_points, current_ts, w);
        let trades = retain_recent(&self.window_trades, current_ts, w);
        proof {
            lemma_kept_subset(old(self).calibration_prices@, current_ts, w);
            lemma_kept_subset(old(self).orderbook_points@, current_ts, w);
            lemma_kept_subset(old(self).window_trades@, current_ts, w);
        }
        self.calibration_prices = prices;
        self.orderbook_points = points;
        self.window_trades = trades;
        proof {
            assert forall|i: int| 0 <= i < self.calibration_prices@.len() implies (
            #[trigger] self.calibration_prices@[i]).1.wf() by {
                assert(old(self).calibration_prices@.contains(self.calibration_prices@[i]));
            }
            assert forall|i: int| 0 <= i < self.orderbook_points@.len() implies (
            #[trigger] self.orderbook_points@[i]).wf() by {
                assert(old(self).orderbook_points@.contains(self.orderbook_points@[i]));
            }
            assert forall|i: int| 0 <= i < self.window_trades@.len() implies (
            #[trigger] self.window_trades@[i]).price.wf() by {
                assert(old(self).window_trades@.contains(self.window_trades@[i]));
            }
        }
    }

    /// Whether a calibration is due at `now`.
    pub open spec fn due(&self, now: u64) -> bool {
        match self.last_calibration_ts {
            Some(last) => now >= last + self.recalibration_interval_ms,
            None => self.calibration_prices@.len() >= MIN_PRICES_FOR_CALIBRATION,
        }
    }

    /// Before the first calibration: once ten prices are held. After it: once the
    /// recalibration interval has passed since the last one.
    pub fn should_recalibrate(&self, current_ts: u64) -> (r: bool)
        ensures
            r == self.due(current_ts),
    {
        match self.last_calibration_ts {
            Some(last) => current_ts as u128 >= last as u128 + self.recalibration_interval_ms as u128,
            None => self.calibration_prices.len() >= MIN_PRICES_FOR_CALIBRATION,
        }
    }

    /// Calibrates at `current_ts`: records the time and hands out what the
    /// intensity fits of both sides read (the volatility fits read the two price
    /// windows). `None`, with nothing changed, only while no price was ever
    /// recorded (since creation or the last reset).
    pub fn calibrate(&mut self, current_ts: u64) -> (r: Option<IntensityInputs>)
        requires
            old(self).wf(),
        ensures
            final(self).wf(),
            calibration_step(*old(self), *final(self), current_ts, r),
    {
        if self.full_price_history.len() == 0 {
            return None;
        }
        let inputs = intensity_inputs(&self.window_trades, &self.orderbook_points, current_ts);
        self.last_calibration_ts = Some(current_ts);
        Some(inputs)
    }

    /// Timestamp of the last calibration, if any.
    pub fn last_calibration_ts(&self) -> (r: Option<u64>)
        ensures
            r == self.last_calibration_ts,
    {
        self.last_calibration_ts
    }

    /// Number of samples in the rolling price window.
    pub fn price_count(&self) -> (r: usize)
        ensures
            r == self.calibration_prices@.len(),
    {
        self.calibration_prices.len()
    }

    /// Number of trades in the trade window.
    pub fn trade_count(&self) -> (r: usize)
        ensures
            r == self.window_trades@.len(),
    {
        self.window_trades.len()
    }

    /// Empties every window and forgets the last calibration.
    pub fn reset(&mut self)
        ensures
            final(self).wf(),
            final(self).calibration_prices@.len() == 0,
            final(self).full_price_history@.len() == 0,
            final(self).orderbook_points@.len() == 0,
            final(self).window_trades@.len() == 0,
            final(self).last_calibration_ts is None,
            final(self).calibration_window_ms == old(self).calibration_window_ms,
            final(self).recalibration_interval_ms == old(self).recalibration_interval_ms,
    {
        self.calibration_prices.clear();
        self.full_price_history.clear();
        self.orderbook_points.clear();
        self.window_trades.clear();
        self.last_calibration_ts = None;
    }
}

/// The windows and the settings of `a` and `b` agree.
pub open spec fn same_windows(a: CalibrationEngine, b: CalibrationEngine) -> bool {
    &&& b.calibration_prices@ == a.calibration_prices@
    &&& b.full_price_history@ == a.full_price_history@
    &&& b.orderbook_points@ == a.orderbook_points@
    &&& b.window_trades@ == a.window_trades@
    &&& b.calibration_window_ms == a.calibration_window_ms
    &&& b.recalibration_interval_ms == a.recalibration_interval_ms
}

/// What each side's fit reads, per side.
pub open spec fn inputs_view(r: Option<IntensityInputs>) -> Option<(Option<(Seq<Dec>, Seq<ExposureInterval>)>, Option<(Seq<Dec>, Seq<ExposureInterval>)>)> {
    match r {
        Some(x) => Some((sample_view(x.bid), sample_view(x.ask))),
        None => None,
    }
}

/// `b` and `r` are the engine and the result of `a.calibrate(now)`.
pub open spec fn calibration_step(a: CalibrationEngine, b: CalibrationEngine, now: u64, r: Option<IntensityInputs>) -> bool {
    &&& same_windows(a, b)
    &&& if a.full_price_history@.len() == 0 {
        r is None && b.last_calibration_ts == a.last_calibration_ts
    } else {
        &&& b.last_calibration_ts == Some(now)
        &&& inputs_view(r) == Some((
            side_sample_of(a.window_trades@, a.orderbook_points@, now, true),
            side_sample_of(a.window_trades@, a.orderbook_points@, now, false),
        ))
    }
}

/// When a calibration is due at `t`, calibrating at `t` records `t` as the last
/// calibration.
pub proof fn lemma_due_calibration_records_time(
    a: CalibrationEngine,
    b: CalibrationEngine,
    t: u64,
    r: Option<IntensityInputs>,
)
    requires
        a.wf(),
        a.due(t),
        calibration_step(a, b, t, r),
    ensures
        b.last_calibration_ts == Some(t),
{
}

/// Calibrating twice at the same time with no data in between gives the same
/// result and leaves the engine as the first call left it.
pub proof fn lemma_calibrate_twice(
    a: CalibrationEngine,
    b: CalibrationEngine,
    c: CalibrationEngine,
    t: u64,
    r1: Option<IntensityInputs>,
    r2: Option<IntensityInputs>,
)
    requires
        calibration_step(a, b, t, r1),
        calibration_step(b, c, t, r2),
    ensures
        inputs_view(r1) == inputs_view(r2),
        same_windows(b, c),
        c.last_calibration_ts == b.last_calibration_ts,
{
}

/// What a pruned window holds was in the window before.
pub proof fn lemma_kept_subset<T: Stamped>(s: Seq<T>, now: u64, window: u64)
    ensures
        forall|i: int| 0 <= i < kept(s, now, window).len() ==> s.contains(#[trigger] kept(s, now, window)[i]),
{
    let pred = |e: T| recent(now, e.stamp(), window);
    assert forall|i: int| 0 <= i < kept(s, now, window).len() implies s.contains(#[trigger] kept(s, now, window)[i]) by {
        let e = kept(s, now, window)[i];
        assert(kept(s, now, window).contains(e));
        s.lemma_filter_contains_rev(pred, e);
    }
}

/// `seconds * 1000`, saturating.
pub open spec fn saturating_ms(seconds: u64) -> u64 {
    if seconds * 1000 > u64::MAX {
        u64::MAX
    } else {
        (seconds * 1000) as u64
    }
}

/// `seconds * 1000`, saturating at `u64::MAX`.
pub fn seconds_to_ms(seconds: u64) -> (r: u64)
    ensures
        r == saturating_ms(seconds),
{
    if seconds > u64::MAX / 1000 {
        u64::MAX
    } else {
        seconds * 1000
    }
}

} // verus!

//! Data preparation for the volatility and intensity fits.
//!
//! The fits are numerical routines over floating-point values; what they read is
//! prepared here exactly: the positive price samples, the uniform grid of
//! previous-tick prices behind the GARCH forecast, each side's trade distances
//! from the mid and its exposure intervals.
use crate::calibration_engine::{CalibrationTrade, OrderbookPoint};
use crate::decimal::{decimal_difference, decimal_quotient, Dec};
use vstd::prelude::*;

verus! {

/// Trades of a side needed to fit its intensity.
pub const MIN_TRADES_FOR_ESTIMATION: usize = 5;

/// Returns needed for a GARCH forecast.
pub const MIN_RETURNS_FOR_GARCH: usize = 5;

/// Step of the GARCH grid, in milliseconds.
pub const GARCH_STEP_MS: u64 = 1000;

/// Timestamps never decrease along `s`.
pub open spec fn sorted(s: Seq<(u64, Dec)>) -> bool {
    forall|i: int, j: int| 0 <= i <= j < s.len() ==> s[i].0 <= s[j].0
}

pub open spec fn positive_sample(e: (u64, Dec)) -> bool {
    e.1.value() > 0
}

/// The samples of `s` with a positive price, in their order.
pub open spec fn positive_samples(s: Seq<(u64, Dec)>) -> Seq<(u64, Dec)> {
    s.filter(|e: (u64, Dec)| positive_sample(e))
}

pub open spec fn samples_wf(s: Seq<(u64, Dec)>) -> bool {
    forall|i: int| 0 <= i < s.len() ==> (#[trigger] s[i]).1.wf()
}

/// Drops the samples whose price is not positive.
pub fn positive_prices(prices: &Vec<(u64, Dec)>) -> (r: Vec<(u64, Dec)>)
    requires
        samples_wf(prices@),
    ensures
        r@ == positive_samples(prices@),
        sorted(prices@) ==> sorted(r@),
        samples_wf(r@),
{
    let ghost pred = |e: (u64, Dec)| positive_sample(e);
    let mut out: Vec<(u64, Dec)> = Vec::new();
    let mut i: usize = 0;
    while i < prices.len()
        invariant
            i <= prices.len(),
            samples_wf(prices@),
            samples_wf(out@),
            pred == (|e: (u64, Dec)| positive_sample(e)),
            out@ == prices@.subrange(0, i as int).filter(pred),
            sorted(prices@) ==> sorted(out@),
            sorted(prices@) ==> forall|k: int, m: int|
                0 <= k < out@.len() && i <= m < prices@.len() ==> out@[k].0 <= prices@[m].0,
        decreases prices.len() - i,
    {
        let e = prices[i];
        proof {
            assert(prices@.subrange(0, i + 1) == prices@.subrange(0, i as int).push(e));
            prices@.subrange(0, i as int).lemma_filter_push(e, pred);
        }
        if e.1.is_positive() {
            out.push(e);
        }
        i = i + 1;
    }
    proof {
        assert(prices@.subrange(0, prices.len() as int) == prices@);
    }
    out
}

/// Price of the last sample of `s` at or before time `b`; the first sample's
/// price when there is none.
pub open spec fn price_at(s: Seq<(u64, Dec)>, b: int) -> Dec
    decreases s.len(),
{
    if s.len() <= 1 {
        s[0].1
    } else if s.last().0 <= b {
        s.last().1
    } else {
        price_at(s.drop_last(), b)
    }
}

/// Number of grid steps from the first to the last sample, plus one: the number
/// of returns the grid gives.
pub open spec fn grid_returns(s: Seq<(u64, Dec)>, step: u64) -> int {
    (s.last().0 - s[0].0) / (step as int) + 1
}

/// The grid point `k`: time `t0 + k * step` and the price of the last sample at or
/// before it.
pub open spec fn grid_point(s: Seq<(u64, Dec)>, step: u64, k: int) -> (u64, Dec) {
    ((s[0].0 + k * step) as u64, price_at(s, s[0].0 + k * step))
}

/// Previous-tick resampling of sorted positive samples onto a grid of `step`
/// milliseconds: from the first sample's time to the first grid time after the
/// last sample; `None` with fewer than two samples or when that last grid time
/// would pass `u64::MAX`.
pub open spec fn uniform_grid(s: Seq<(u64, Dec)>, step: u64) -> Option<Seq<(u64, Dec)>> {
    if s.len() < 2 || s.last().0 + step > u64::MAX {
        None
    } else {
        Some(Seq::new((grid_returns(s, step) + 1) as nat, |k: int| grid_point(s, step, k)))
    }
}

/// The last sample at or before `b` is the one before index `j` when `j` is the
/// first sample after `b`.
proof fn lemma_price_at(s: Seq<(u64, Dec)>, b: int, j: int)
    requires
        sorted(s),
        1 <= j <= s.len(),
        s[j - 1].0 <= b,
        j < s.len() ==> s[j].0 > b,
    ensures
        price_at(s, b) == s[j - 1].1,
    decreases s.len(),
{
    if s.len() > 1 && j < s.len() {
        assert(s.last().0 >= s[j].0);
        lemma_price_at(s.drop_last(), b, j);
    }
}

/// Resamples sorted positive samples onto a grid of `step` milliseconds (see
/// `uniform_grid`).
pub fn fixed_step_grid(samples: &Vec<(u64, Dec)>, step: u64) -> (r: Option<Vec<(u64, Dec)>>)
    requires
        step > 0,
        sorted(samples@),
    ensures
        match r {
            Some(v) => uniform_grid(samples@, step) == Some(v@),
            None => uniform_grid(samples@, step) is None,
        },
{
    let n = samples.len();
    if n < 2 {
        return None;
    }
    let t_last = samples[n - 1].0;
    if t_last > u64::MAX - step {
        return None;
    }
    let ghost s = samples@;
    let t0 = samples[0].0;
    let mut out: Vec<(u64, Dec)> = Vec::new();
    let mut next_bucket: u64 = t0;
    let mut last_price = samples[0].1;
    let mut j: usize = 1;
    proof {
        assert(t0 <= t_last);
        assert(out@.len() == 0);
        assert(next_bucket == t0 + out@.len() * step) by (nonlinear_arith)
            requires
                out@.len() == 0,
                next_bucket == t0,
        ;
    }
    while j < n
        invariant
            2 <= n == s.len(),
            s == samples@,
            sorted(s),
            step > 0,
            t0 == s[0].0,
            t_last == s[n - 1].0,
            t_last + step <= u64::MAX,
            1 <= j <= n,
            next_bucket == t0 + out@.len() * step,
            next_bucket >= s[j - 1].0,
            next_bucket < s[j - 1].0 + step,
            last_price == s[j - 1].1,
            forall|k: int| 0 <= k < out@.len() ==> out@[k] == grid_point(s, step, k),
        decreases n - j,
    {
        let (ts, price) = samples[j];
        while next_bucket < ts
            invariant
                2 <= n == s.len(),
                s == samples@,
                sorted(s),
                step > 0,
                t0 == s[0].0,
                t_last == s[n - 1].0,
                t_last + step <= u64::MAX,
                1 <= j < n,
                ts == s[j as int].0,
                next_bucket == t0 + out@.len() * step,
                next_bucket >= s[j - 1].0,
                next_bucket < ts + step,
                last_price == s[j - 1].1,
                forall|k: int| 0 <= k < out@.len() ==> out@[k] == grid_point(s, step, k),
            decreases ts + step - next_bucket,
        {
            proof {
                assert(ts <= t_last);
                lemma_price_at(s, next_bucket as int, j as int);
            }
            let ghost len = out@.len() as int;
            out.push((next_bucket, last_price));
            next_bucket = next_bucket + step;
            proof {
                assert(t0 + len * step + step == t0 + (len + 1) * step) by (nonlinear_arith);
            }
        }
        last_price = price;
        j = j + 1;
    }
    while next_bucket <= t_last
        invariant
            2 <= n == s.len(),
            s == samples@,
            sorted(s),
            step > 0,
            t0 == s[0].0,
            t_last == s[n - 1].0,
            t_last + step <= u64::MAX,
            next_bucket == t0 + out@.len() * step,
            next_bucket >= t_last,
            next_bucket <= t_last + step,
            last_price == s[n - 1].1,
            forall|k: int| 0 <= k < out@.len() ==> out@[k] == grid_point(s, step, k),
        decreases t_last + step - next_bucket,
    {
        proof {
            lemma_price_at(s, next_bucket as int, n as int);
        }
        let ghost len = out@.len() as int;
        out.push((next_bucket, last_price));
        next_bucket = next_bucket + step;
        proof {
            assert(t0 + len * step + step == t0 + (len + 1) * step) by (nonlinear_arith);
        }
    }
    proof {
        lemma_price_at(s, next_bucket as int, n as int);
        let len = out@.len() as int;
        let d = t_last - t0;
        assert(d >= 0) by {
            assert(s[0].0 <= s[n - 1].0);
        }
        assert(len >= 1) by (nonlinear_arith)
            requires
                t0 + len * step > t_last,
                t_last >= t0,
                len >= 0,
        ;
        assert(len - 1 == d / (step as int)) by (nonlinear_arith)
            requires
                len >= 1,
                step > 0,
                t0 + len * step > t_last,
                t0 + len * step <= t_last + step,
                d == t_last - t0,
                d >= 0,
        {
            vstd::arithmetic::div_mod::lemma_fundamental_div_mod(d, step as int);
            vstd::arithmetic::div_mod::lemma_mod_bound(d, step as int);
        }
    }
    out.push((next_bucket, last_price));
    proof {
        let g = Seq::new((grid_returns(s, step) + 1) as nat, |k: int| grid_point(s, step, k));
        assert(out@ == g);
    }
    Some(out)
}

/// The grid behind the GARCH forecast: one-second previous-tick resampling of the
/// positive samples, or `None` when it gives fewer than five returns.
pub open spec fn garch_grid_of(prices: Seq<(u64, Dec)>) -> Option<Seq<(u64, Dec)>> {
    match uniform_grid(positive_samples(prices), GARCH_STEP_MS) {
        Some(g) => if g.len() - 1 < MIN_RETURNS_FOR_GARCH { None } else { Some(g) },
        None => None,
    }
}

/// The one-second grid of previous-tick prices that the GARCH forecast runs on;
/// `None` when fewer than five returns can be formed from it.
pub fn garch_grid(prices: &Vec<(u64, Dec)>) -> (r: Option<Vec<(u64, Dec)>>)
    requires
        samples_wf(prices@),
        sorted(prices@),
    ensures
        match r {
            Some(v) => garch_grid_of(prices@) == Some(v@),
            None => garch_grid_of(prices@) is None,
        },
        r matches Some(v) ==> v@.len() >= MIN_RETURNS_FOR_GARCH + 1,
{
    let cleaned = positive_prices(prices);
    match fixed_step_grid(&cleaned, GARCH_STEP_MS) {
        Some(g) => if g.len() - 1 < MIN_RETURNS_FOR_GARCH {
            None
        } else {
            Some(g)
        },
        None => None,
    }
}

/// The index reached from `hint` by stepping forward while the next point is not
/// after `target`.
pub open spec fn scan_index(points: Seq<OrderbookPoint>, target: u64, hint: int) -> int
    decreases points.len() - hint,
{
    if 0 <= hint && hint + 1 < points.len() && points[hint + 1].timestamp <= target {
        scan_index(points, target, hint + 1)
    } else {
        hint
    }
}

proof fn lemma_scan_index_bounds(points: Seq<OrderbookPoint>, target: u64, hint: int)
    requires
        0 <= hint < points.len(),
    ensures
        hint <= scan_index(points, target, hint) < points.len(),
    decreases points.len() - hint,
{
    if hint + 1 < points.len() && points[hint + 1].timestamp <= target {
        lemma_scan_index_bounds(points, target, hint + 1);
    }
}

/// The last point, from `hint` on, that is not after `target_ts` (or `hint`
/// itself); with sorted points and a hint not after `target_ts`, the most recent
/// book state at that time.
pub fn find_orderbook_index(points: &Vec<OrderbookPoint>, target_ts: u64, hint: usize) -> (r: usize)
    requires
        hint < points.len(),
    ensures
        r == scan_index(points@, target_ts, hint as int),
        hint <= r < points.len(),
{
    let mut idx = hint;
    proof {
        lemma_scan_index_bounds(points@, target_ts, hint as int);
    }
    while idx + 1 < points.len() && points[idx + 1].timestamp <= target_ts
        invariant
            hint <= idx < points.len(),
            scan_index(points@, target_ts, idx as int) == scan_index(points@, target_ts, hint as int),
        decreases points.len() - idx,
    {
        idx = idx + 1;
    }
    idx
}

/// Distance of a trade from the mid of `point` in return space, on the side it
/// hit: `(mid - price) / mid` for the bid, `(price - mid) / mid` for the ask;
/// `None` unless positive.
pub open spec fn trade_delta(trade: CalibrationTrade, point: OrderbookPoint, is_bid: bool) -> Option<Dec> {
    let gap = if is_bid {
        decimal_difference(point.mid, trade.price)
    } else {
        decimal_difference(trade.price, point.mid)
    };
    match gap {
        Some(x) => if x.value() > 0 {
            match decimal_quotient(x, point.mid) {
                Some(d) => if d.value() > 0 { Some(d) } else { None },
                None => None,
            }
        } else {
            None
        },
        None => None,
    }
}

/// The deltas of the trades of one side (the bid is hit when the buyer was the
/// maker), each against the book found by `scan_index`, with the last index found.
pub open spec fn side_deltas(trades: Seq<CalibrationTrade>, points: Seq<OrderbookPoint>, is_bid: bool) -> (Seq<Dec>, int)
    decreases trades.len(),
{
    if trades.len() == 0 {
        (Seq::empty(), 0)
    } else {
        let (ds, hint) = side_deltas(trades.drop_last(), points, is_bid);
        let t = trades.last();
        if t.is_buyer_maker != is_bid {
            (ds, hint)
        } else {
            let idx = scan_index(points, t.timestamp, hint);
            match trade_delta(t, points[idx], is_bid) {
                Some(d) => (ds.push(d), idx),
                None => (ds, idx),
            }
        }
    }
}

pub open spec fn points_wf(points: Seq<OrderbookPoint>) -> bool {
    forall|i: int| 0 <= i < points.len() ==> (#[trigger] points[i]).wf()
}

pub open spec fn trades_wf(trades: Seq<CalibrationTrade>) -> bool {
    forall|i: int| 0 <= i < trades.len() ==> (#[trigger] trades[i]).price.wf()
}

fn delta_of(trade: CalibrationTrade, point: OrderbookPoint, is_bid: bool) -> (r: Option<Dec>)
    requires
        trade.price.wf(),
        point.wf(),
    ensures
        r == trade_delta(trade, point, is_bid),
        r matches Some(d) ==> d.wf(),
{
    let gap = if is_bid { point.mid.sub(trade.price) } else { trade.price.sub(point.mid) };
    match gap {
        Some(x) => if x.is_positive() {
            match x.div(point.mid) {
                Some(d) => if d.is_positive() { Some(d) } else { None },
                None => None,
            }
        } else {
            None
        },
        None => None,
    }
}

/// The return-space distances from the mid of the trades of one side.
pub fn collect_trade_deltas(trades: &Vec<CalibrationTrade>, orderbooks: &Vec<OrderbookPoint>, is_bid: bool) -> (r: Vec<Dec>)
    requires
        trades_wf(trades@),
        points_wf(orderbooks@),
    ensures
        orderbooks@.len() == 0 ==> r@.len() == 0,
        orderbooks@.len() > 0 ==> r@ == side_deltas(trades@, orderbooks@, is_bid).0,
        forall|i: int| 0 <= i < r@.len() ==> (#[trigger] r@[i]).wf(),
{
    let mut deltas: Vec<Dec> = Vec::new();
    if orderbooks.len() == 0 {
        return deltas;
    }
    let mut ob_idx: usize = 0;
    let mut i: usize = 0;
    while i < trades.len()
        invariant
            i <= trades.len(),
            orderbooks@.len() > 0,
            trades_wf(trades@),
            points_wf(orderbooks@),
            (deltas@, ob_idx as int) == side_deltas(trades@.subrange(0, i as int), orderbooks@, is_bid),
            ob_idx < orderbooks@.len(),
            forall|k: int| 0 <= k < deltas@.len() ==> (#[trigger] deltas@[k]).wf(),
        decreases trades.len() - i,
    {
        let trade = trades[i];
        proof {
            assert(trades@.subrange(0, i + 1).drop_last() == trades@.subrange(0, i as int));
            assert(trades@[i as int].price.wf());
        }
        if trade.is_buyer_maker == is_bid {
            ob_idx = find_orderbook_index(orderbooks, trade.timestamp, ob_idx);
            let point = orderbooks[ob_idx];
            proof {
                assert(orderbooks@[ob_idx as int].wf());
            }
            match delta_of(trade, point, is_bid) {
                Some(d) => deltas.push(d),
                None => {},
            }
        }
        i = i + 1;
    }
    proof {
        assert(trades@.subrange(0, trades.len() as int) == trades@);
    }
    deltas
}

/// Exposure of one side over the interval from a snapshot to the next (or to the
/// end of the window), in return space.
#[derive(Clone, Copy, Debug)]
pub struct ExposureInterval {
    pub duration_ms: u64,
    pub delta_min: Dec,
    pub delta_max: Dec,
}

/// The exposure interval of point `i`; `None` for an empty interval or a side
/// whose farthest level is not beyond its best one.
pub open spec fn exposure_of(points: Seq<OrderbookPoint>, i: int, window_end: u64, is_bid: bool) -> Option<ExposureInterval> {
    let start = points[i].timestamp;
    let stop = if i + 1 < points.len() { points[i + 1].timestamp } else { window_end };
    let (lo, hi) = if is_bid { (points[i].bid_min, points[i].bid_max) } else { (points[i].ask_min, points[i].ask_max) };
    if stop <= start || hi.value() <= lo.value() || hi.value() <= 0 {
        None
    } else {
        Some(ExposureInterval { duration_ms: (stop - start) as u64, delta_min: lo, delta_max: hi })
    }
}

/// The exposure intervals of the first `n` points, in order.
pub open spec fn side_exposures(points: Seq<OrderbookPoint>, window_end: u64, is_bid: bool, n: int) -> Seq<ExposureInterval>
    decreases n,
{
    if n <= 0 {
        Seq::empty()
    } else {
        let prev = side_exposures(points, window_end, is_bid, n - 1);
        match exposure_of(points, n - 1, window_end, is_bid) {
            Some(e) => prev.push(e),
            None => prev,
        }
    }
}

/// One exposure interval per snapshot of the window, for one side.
pub fn build_side_exposures(orderbooks: &Vec<OrderbookPoint>, window_end_ts: u64, is_bid: bool) -> (r: Vec<ExposureInterval>)
    requires
        points_wf(orderbooks@),
    ensures
        r@ == side_exposures(orderbooks@, window_end_ts, is_bid, orderbooks@.len() as int),
{
    let mut exposures: Vec<ExposureInterval> = Vec::new();
    let n = orderbooks.len();
    let mut i: usize = 0;
    while i < n
        invariant
            i <= n == orderbooks@.len(),
            points_wf(orderbooks@),
            exposures@ == side_exposures(orderbooks@, window_end_ts, is_bid, i as int),
        decreases n - i,
    {
        let ob = orderbooks[i];
        proof {
            assert(orderbooks@[i as int].wf());
        }
        let start = ob.timestamp;
        let stop = if i + 1 < n { orderbooks[i + 1].timestamp } else { window_end_ts };
        let (lo, hi) = if is_bid { (ob.bid_min, ob.bid_max) } else { (ob.ask_min, ob.ask_max) };
        if !(stop <= start || hi.le(lo) || !hi.is_positive()) {
            exposures.push(ExposureInterval { duration_ms: stop - start, delta_min: lo, delta_max: hi });
        }
        i = i + 1;
    }
    exposures
}

/// What the intensity fit of one side reads.
#[derive(Clone, Debug)]
pub struct SideSample {
    pub deltas: Vec<Dec>,
    pub exposures: Vec<ExposureInterval>,
}

/// Inputs of the intensity fits of both sides; `None` for a side too thin to fit.
#[derive(Clone, Debug)]
pub struct IntensityInputs {
    pub bid: Option<SideSample>,
    pub ask: Option<SideSample>,
}

/// A side is fitted when it has at least five trade deltas and an exposure
/// interval.
pub open spec fn side_sample_of(trades: Seq<CalibrationTrade>, points: Seq<OrderbookPoint>, window_end: u64, is_bid: bool) -> Option<(Seq<Dec>, Seq<ExposureInterval>)> {
    let deltas = side_deltas(trades, points, is_bid).0;
    let exposures = side_exposures(points, window_end, is_bid, points.len() as int);
    if trades.len() == 0 || points.len() == 0 || deltas.len() < MIN_TRADES_FOR_ESTIMATION || exposures.len() == 0 {
        None
    } else {
        Some((deltas, exposures))
    }
}

/// The deltas and intervals a sample holds.
pub open spec fn sample_view(r: Option<SideSample>) -> Option<(Seq<Dec>, Seq<ExposureInterval>)> {
    match r {
        Some(x) => Some((x.deltas@, x.exposures@)),
        None => None,
    }
}

/// A side with fewer than five trade deltas is not fitted, and takes the other
/// side's parameters or the defaults.
pub proof fn lemma_thin_side_not_fitted(
    trades: Seq<CalibrationTrade>,
    points: Seq<OrderbookPoint>,
    window_end: u64,
    is_bid: bool,
)
    requires
        side_deltas(trades, points, is_bid).0.len() < MIN_TRADES_FOR_ESTIMATION,
    ensures
        side_sample_of(trades, points, window_end, is_bid) is None,
{
}

fn side_sample(trades: &Vec<CalibrationTrade>, points: &Vec<OrderbookPoint>, window_end_ts: u64, is_bid: bool) -> (r: Option<SideSample>)
    requires
        trades_wf(trades@),
        points_wf(points@),
    ensures
        sample_view(r) == (side_sample_of(trades@, points@, window_end_ts, is_bid)),
{
    if trades.len() == 0 || points.len() == 0 {
        return None;
    }
    let deltas = collect_trade_deltas(trades, points, is_bid);
    let exposures = build_side_exposures(points, window_end_ts, is_bid);
    if deltas.len() < MIN_TRADES_FOR_ESTIMATION || exposures.len() == 0 {
        None
    } else {
        Some(SideSample { deltas, exposures })
    }
}

/// What the bid and ask intensity fits read: each side's deltas and exposure
/// intervals, or `None` for a side with fewer than five deltas or no exposure.
pub fn intensity_inputs(trades: &Vec<CalibrationTrade>, orderbooks: &Vec<OrderbookPoint>, window_end_ts: u64) -> (r: IntensityInputs)
    requires
        trades_wf(trades@),
        points_wf(orderbooks@),
    ensures
        sample_view(r.bid) == side_sample_of(trades@, orderbooks@, window_end_ts, true),
        sample_view(r.ask) == side_sample_of(trades@, orderbooks@, window_end_ts, false),
{
    IntensityInputs {
        bid: side_sample(trades, orderbooks, window_end_ts, true),
        ask: side_sample(trades, orderbooks, window_end_ts, false),
    }
}

/// The parameters of both sides: each side's own fit; the other side's where only
/// one side fitted; `fallback` for both where neither did.
pub fn combine_side_fits<T: Copy>(bid: Option<T>, ask: Option<T>, fallback: T) -> (r: (T, T))
    ensures
        r == match (bid, ask) {
            (Some(b), Some(a)) => (b, a),
            (Some(b), None) => (b, b),
            (None, Some(a)) => (a, a),
            (None, None) => (fallback, fallback),
        },
{
    match (bid, ask) {
        (Some(b), Some(a)) => (b, a),
        (Some(b), None) => (b, b),
        (None, Some(a)) => (a, a),
        (None, None) => (fallback, fallback),
    }
}

} // verus!

//! Depth-weighted ("effective") prices of a book: the price reached, and the
//! volume-weighted average price paid, when taking a given notional from one side.
use crate::decimal::{decimal_difference, decimal_product, decimal_quotient, decimal_sum, int_dec, zero, Dec};
use crate::market::OrderbookSnapshot;
use vstd::prelude::*;

verus! {

/// An effective quote: marginal prices, their mid, and the average prices paid.
#[derive(Clone, Copy, Debug)]
pub struct EffectiveQuote {
    pub bid: Dec,
    pub ask: Dec,
    pub mid: Dec,
    /// Volume-weighted average price of the bid depth taken.
    pub weighted_bid: Dec,
    /// Volume-weighted average price of the ask depth taken.
    pub weighted_ask: Dec,
}

/// Progress of a walk down one side of the book.
#[derive(Clone, Copy, Debug)]
pub struct Depth {
    /// Notional taken so far.
    pub value: Dec,
    /// Quantity taken so far.
    pub qty: Dec,
    /// Sum of price times quantity taken.
    pub weighted: Dec,
    /// Price of the last level touched.
    pub last_price: Dec,
    /// The threshold was reached.
    pub done: bool,
    /// A decimal step overflowed.
    pub failed: bool,
}

pub open spec fn depth_start() -> Depth {
    Depth { value: zero(), qty: zero(), weighted: zero(), last_price: zero(), done: false, failed: false }
}

/// The walk after meeting `level`: levels with a non-positive price or quantity
/// are passed over; a level worth at least what remains of the threshold is taken
/// in part and ends the walk; a smaller one is taken whole.
pub open spec fn depth_step(d: Depth, level: (Dec, Dec), threshold: Dec) -> Depth {
    let (price, qty) = level;
    if d.done || d.failed || price.value() <= 0 || qty.value() <= 0 {
        d
    } else {
        match (decimal_product(price, qty), decimal_difference(threshold, d.value)) {
            (Some(value), Some(remaining)) => {
                if remaining.value() <= 0 {
                    Depth { done: true, ..d }
                } else if value.value() >= remaining.value() {
                    match decimal_quotient(remaining, price) {
                        Some(needed) => match (
                            decimal_sum(d.value, remaining),
                            decimal_sum(d.qty, needed),
                            decimal_product(price, needed),
                        ) {
                            (Some(v), Some(q), Some(w)) => match decimal_sum(d.weighted, w) {
                                Some(ws) => Depth { value: v, qty: q, weighted: ws, last_price: price, done: true, failed: false },
                                None => Depth { failed: true, ..d },
                            },
                            _ => Depth { failed: true, ..d },
                        },
                        None => Depth { failed: true, ..d },
                    }
                } else {
                    match (decimal_sum(d.value, value), decimal_sum(d.qty, qty), decimal_sum(d.weighted, value)) {
                        (Some(v), Some(q), Some(ws)) => Depth { value: v, qty: q, weighted: ws, last_price: price, done: false, failed: false },
                        _ => Depth { failed: true, ..d },
                    }
                }
            },
            _ => Depth { failed: true, ..d },
        }
    }
}

/// The walk after the levels `levels`, best first.
pub open spec fn depth_walk(levels: Seq<(Dec, Dec)>, threshold: Dec) -> Depth
    decreases levels.len(),
{
    if levels.len() == 0 {
        depth_start()
    } else {
        depth_step(depth_walk(levels.drop_last(), threshold), levels.last(), threshold)
    }
}

/// `(marginal price, average price)` of taking `threshold` of notional from
/// `levels`; `None` for an empty side, a non-positive threshold, nothing taken,
/// or an overflow.
pub open spec fn side_effective_price(levels: Seq<(Dec, Dec)>, threshold: Dec) -> Option<(Dec, Dec)> {
    if levels.len() == 0 || threshold.value() <= 0 {
        None
    } else {
        let d = depth_walk(levels, threshold);
        if d.failed || d.qty.value() == 0 || (d.value.value() < threshold.value() && d.last_price.value() == 0) {
            None
        } else {
            match decimal_quotient(d.weighted, d.qty) {
                Some(vwap) => Some((d.last_price, vwap)),
                None => None,
            }
        }
    }
}

pub open spec fn levels_wf(levels: Seq<(Dec, Dec)>) -> bool {
    forall|i: int| 0 <= i < levels.len() ==> (#[trigger] levels[i]).0.wf() && levels[i].1.wf()
}

impl Depth {
    pub open spec fn wf(self) -> bool {
        self.value.wf() && self.qty.wf() && self.weighted.wf() && self.last_price.wf()
    }
}

fn step(d: Depth, price: Dec, qty: Dec, threshold: Dec) -> (r: Depth)
    requires
        d.wf(),
        price.wf(),
        qty.wf(),
        threshold.wf(),
    ensures
        r.wf(),
        r == depth_step(d, (price, qty), threshold),
{
    if d.done || d.failed || !price.is_positive() || !qty.is_positive() {
        return d;
    }
    let fail = Depth { failed: true, ..d };
    let (value, remaining) = match (price.mul(qty), threshold.sub(d.value)) {
        (Some(v), Some(r)) => (v, r),
        _ => return fail,
    };
    if !remaining.is_positive() {
        Depth { done: true, ..d }
    } else if remaining.le(value) {
        let needed = match remaining.div(price) {
            Some(n) => n,
            None => return fail,
        };
        match (d.value.add(remaining), d.qty.add(needed), price.mul(needed)) {
            (Some(v), Some(q), Some(w)) => match d.weighted.add(w) {
                Some(ws) => Depth { value: v, qty: q, weighted: ws, last_price: price, done: true, failed: false },
                None => fail,
            },
            _ => fail,
        }
    } else {
        match (d.value.add(value), d.qty.add(qty), d.weighted.add(value)) {
            (Some(v), Some(q), Some(ws)) => Depth { value: v, qty: q, weighted: ws, last_price: price, done: false, failed: false },
            _ => fail,
        }
    }
}

/// The marginal price and the average price of taking `threshold` of notional
/// from `levels` (best level first).
pub fn calculate_side_effective_price(levels: &Vec<(Dec, Dec)>, threshold: Dec) -> (r: Option<(Dec, Dec)>)
    requires
        levels_wf(levels@),
        threshold.wf(),
    ensures
        r == side_effective_price(levels@, threshold),
        r matches Some((p, v)) ==> p.wf() && v.wf(),
{
    if levels.len() == 0 || !threshold.is_positive() {
        return None;
    }
    let mut d = Depth {
        value: Dec::zero(),
        qty: Dec::zero(),
        weighted: Dec::zero(),
        last_price: Dec::zero(),
        done: false,
        failed: false,
    };
    let mut i: usize = 0;
    while i < levels.len()
        invariant
            i <= levels.len(),
            levels_wf(levels@),
            threshold.wf(),
            d.wf(),
            d == depth_walk(levels@.subrange(0, i as int), threshold),
        decreases levels.len() - i,
    {
        let (price, qty) = levels[i];
        proof {
            assert(levels@.subrange(0, i + 1).drop_last() == levels@.subrange(0, i as int));
            assert(levels@[i as int].0.wf());
        }
        d = step(d, price, qty, threshold);
        i = i + 1;
    }
    proof {
        assert(levels@.subrange(0, levels.len() as int) == levels@);
    }
    if d.failed || d.qty.is_zero() || (d.value.lt(threshold) && d.last_price.is_zero()) {
        return None;
    }
    match d.weighted.div(d.qty) {
        Some(vwap) => Some((d.last_price, vwap)),
        None => None,
    }
}

/// The mid of two effective prices, or `None` when a step overflows.
pub open spec fn effective_quote(bids: Seq<(Dec, Dec)>, asks: Seq<(Dec, Dec)>, threshold: Dec) -> Option<EffectiveQuote> {
    match (side_effective_price(bids, threshold), side_effective_price(asks, threshold)) {
        (Some((bid, weighted_bid)), Some((ask, weighted_ask))) => {
            if bid.value() == 0 || ask.value() == 0 {
                None
            } else {
                match decimal_sum(bid, ask) {
                    Some(s) => match decimal_quotient(s, int_dec(2)) {
                        Some(mid) => Some(EffectiveQuote { bid, ask, mid, weighted_bid, weighted_ask }),
                        None => None,
                    },
                    None => None,
                }
            }
        },
        _ => None,
    }
}

/// The effective quote of a snapshot for `volume_threshold` of notional on each
/// side; `None` when either side gives none.
pub fn calculate_effective_price(snapshot: &OrderbookSnapshot, volume_threshold: Dec) -> (r: Option<EffectiveQuote>)
    requires
        levels_wf(snapshot.bids@),
        levels_wf(snapshot.asks@),
        volume_threshold.wf(),
    ensures
        r == effective_quote(snapshot.bids@, snapshot.asks@, volume_threshold),
{
    let (bid, weighted_bid) = match calculate_side_effective_price(&snapshot.bids, volume_threshold) {
        Some(x) => x,
        None => return None,
    };
    let (ask, weighted_ask) = match calculate_side_effective_price(&snapshot.asks, volume_threshold) {
        Some(x) => x,
        None => return None,
    };
    if bid.is_zero() || ask.is_zero() {
        return None;
    }
    match bid.add(ask) {
        Some(s) => match s.div(Dec::from_int(2)) {
            Some(mid) => Some(EffectiveQuote { bid, ask, mid, weighted_bid, weighted_ask }),
            None => None,
        },
        None => None,
    }
}

} // verus!

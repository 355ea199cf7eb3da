//! The decimal half of the quote model: from the model's spreads and
//! reservation-price shift (in price units) to tick-aligned bid and ask prices.
//!
//! Each side's spread is held between a floor (the minimum spread, and at least
//! twice the maker fee) and an optional cap, both in basis points of the mid. The
//! bid is rounded down and the ask up onto the tick grid; should the bid still
//! end above the ask, both collapse to their midpoint.
use crate::decimal::{decimal_difference, decimal_product, decimal_quotient, decimal_sum, int_dec, zero, Dec};
use crate::tick::{grid_down, grid_fits, grid_up, on_grid, round_down_to_tick, round_up_to_tick};
use vstd::prelude::*;

verus! {

/// Prices of a quote.
#[derive(Clone, Copy, Debug)]
pub struct OptimalQuote {
    pub timestamp: u64,
    pub reservation_price: Dec,
    /// `ask_price - bid_price`.
    pub optimal_spread: Dec,
    pub bid_price: Dec,
    pub ask_price: Dec,
    /// The inventory this quote was made for.
    pub inventory_level: Dec,
}

/// The larger of two decimals (`a` on a tie).
pub open spec fn dmax(a: Dec, b: Dec) -> Dec {
    if a.value() < b.value() {
        b
    } else {
        a
    }
}

/// The smaller of two decimals (`a` on a tie).
pub open spec fn dmin(a: Dec, b: Dec) -> Dec {
    if b.value() < a.value() {
        b
    } else {
        a
    }
}

/// Spread floor in basis points: the minimum spread, and at least twice the
/// maker fee (a negative fee counts as zero).
pub open spec fn floor_bps(min_spread_bps: Dec, maker_fee_bps: Dec) -> Dec {
    let fee = dmax(maker_fee_bps, zero());
    match decimal_product(fee, int_dec(2)) {
        Some(twice) => dmax(min_spread_bps, twice),
        None => min_spread_bps,
    }
}

/// `spread` held between `lo` and the cap `hi` (none when `hi <= 0`), in basis
/// points of `mid`; unchanged when the spread or the mid is not positive or a
/// step overflows.
pub open spec fn clamped_spread(spread: Dec, mid: Dec, lo: Dec, hi: Dec) -> Dec {
    if spread.value() > 0 && mid.value() > 0 {
        match decimal_quotient(spread, mid) {
            Some(ratio) => match decimal_product(ratio, int_dec(10000)) {
                Some(bps) => {
                    let upper = if hi.value() > 0 { hi } else { dmax(bps, lo) };
                    if upper.value() > 0 {
                        let c = dmin(dmax(bps, lo), upper);
                        match decimal_product(c, mid) {
                            Some(x) => match decimal_quotient(x, int_dec(10000)) {
                                Some(s) => s,
                                None => spread,
                            },
                            None => spread,
                        }
                    } else {
                        spread
                    }
                },
                None => spread,
            },
            None => spread,
        }
    } else {
        spread
    }
}

/// `mid - shift`, or `mid` when that is not positive or overflows.
pub open spec fn reservation(mid: Dec, shift: Dec) -> Dec {
    match decimal_difference(mid, shift) {
        Some(r) => if r.value() <= 0 { mid } else { r },
        None => mid,
    }
}

/// Half of `spread`, or zero when that fails.
pub open spec fn half(spread: Dec) -> Dec {
    match decimal_quotient(spread, int_dec(2)) {
        Some(h) => h,
        None => zero(),
    }
}

/// `r - half(bid_spread)`, or `r` when that overflows.
pub open spec fn raw_bid(r: Dec, bid_spread: Dec) -> Dec {
    match decimal_difference(r, half(bid_spread)) {
        Some(b) => b,
        None => r,
    }
}

/// `r + half(ask_spread)`, or `r` when that overflows.
pub open spec fn raw_ask(r: Dec, ask_spread: Dec) -> Dec {
    match decimal_sum(r, half(ask_spread)) {
        Some(a) => a,
        None => r,
    }
}

/// The final `(bid, ask)`: the aligned prices, or both at their midpoint (the bid
/// when that overflows) should the bid be above the ask.
pub open spec fn uncrossed(bid: Dec, ask: Dec) -> (Dec, Dec) {
    if bid.value() > ask.value() {
        let m = match decimal_sum(bid, ask) {
            Some(s) => match decimal_quotient(s, int_dec(2)) {
                Some(m) => m,
                None => bid,
            },
            None => bid,
        };
        (m, m)
    } else {
        (bid, ask)
    }
}

/// `ask - bid`, or zero when that overflows.
pub open spec fn final_spread(bid: Dec, ask: Dec) -> Dec {
    match decimal_difference(ask, bid) {
        Some(s) => s,
        None => zero(),
    }
}

/// The inputs of a quote, in price units.
#[derive(Clone, Copy, Debug)]
pub struct QuoteInputs {
    pub timestamp: u64,
    pub mid: Dec,
    pub inventory: Dec,
    /// Model spread of each side.
    pub bid_spread: Dec,
    pub ask_spread: Dec,
    /// Inventory shift of the reservation price below the mid.
    pub risk_adjustment: Dec,
    pub min_spread_bps: Dec,
    /// Cap of each side's spread; none when not positive.
    pub max_spread_bps: Dec,
    pub maker_fee_bps: Dec,
    pub tick: Dec,
}

impl QuoteInputs {
    pub open spec fn wf(self) -> bool {
        &&& self.mid.wf()
        &&& self.inventory.wf()
        &&& self.bid_spread.wf()
        &&& self.ask_spread.wf()
        &&& self.risk_adjustment.wf()
        &&& self.min_spread_bps.wf()
        &&& self.max_spread_bps.wf()
        &&& self.maker_fee_bps.wf()
        &&& self.tick.wf()
    }

    pub open spec fn lo(self) -> Dec {
        floor_bps(self.min_spread_bps, self.maker_fee_bps)
    }

    pub open spec fn bid_side(self) -> Dec {
        clamped_spread(self.bid_spread, self.mid, self.lo(), self.max_spread_bps)
    }

    pub open spec fn ask_side(self) -> Dec {
        clamped_spread(self.ask_spread, self.mid, self.lo(), self.max_spread_bps)
    }

    pub open spec fn reservation_price(self) -> Dec {
        reservation(self.mid, self.risk_adjustment)
    }

    /// The bid before tick alignment.
    pub open spec fn raw_bid(self) -> Dec {
        raw_bid(self.reservation_price(), self.bid_side())
    }

    /// The ask before tick alignment.
    pub open spec fn raw_ask(self) -> Dec {
        raw_ask(self.reservation_price(), self.ask_side())
    }

    /// The quote these inputs give.
    pub open spec fn quote(self) -> OptimalQuote {
        let (bid, ask) = uncrossed(grid_down(self.raw_bid(), self.tick), grid_up(self.raw_ask(), self.tick));
        OptimalQuote {
            timestamp: self.timestamp,
            reservation_price: self.reservation_price(),
            optimal_spread: final_spread(bid, ask),
            bid_price: bid,
            ask_price: ask,
            inventory_level: self.inventory,
        }
    }
}

fn spread_floor_bps(min_spread_bps: Dec, maker_fee_bps: Dec) -> (r: Dec)
    requires
        min_spread_bps.wf(),
        maker_fee_bps.wf(),
    ensures
        r.wf(),
        r == floor_bps(min_spread_bps, maker_fee_bps),
{
    let fee = maker_fee_bps.max(Dec::zero());
    match fee.mul(Dec::from_int(2)) {
        Some(twice) => min_spread_bps.max(twice),
        None => min_spread_bps,
    }
}

fn clamp_spread(spread: Dec, mid: Dec, lo: Dec, hi: Dec) -> (r: Dec)
    requires
        spread.wf(),
        mid.wf(),
        lo.wf(),
        hi.wf(),
    ensures
        r.wf(),
        r == clamped_spread(spread, mid, lo, hi),
{
    if !(spread.is_positive() && mid.is_positive()) {
        return spread;
    }
    let ratio = match spread.div(mid) {
        Some(x) => x,
        None => return spread,
    };
    let bps = match ratio.mul(Dec::from_int(10000)) {
        Some(x) => x,
        None => return spread,
    };
    let upper = if hi.is_positive() { hi } else { bps.max(lo) };
    if !upper.is_positive() {
        return spread;
    }
    let c = bps.max(lo).min(upper);
    match c.mul(mid) {
        Some(x) => match x.div(Dec::from_int(10000)) {
            Some(s) => s,
            None => spread,
        },
        None => spread,
    }
}

fn halve(spread: Dec) -> (r: Dec)
    requires
        spread.wf(),
    ensures
        r.wf(),
        r == half(spread),
{
    match spread.div(Dec::from_int(2)) {
        Some(h) => h,
        None => Dec::zero(),
    }
}

/// Turns the model's spreads and reservation shift into tick-aligned quotes.
/// The bid never ends above the ask.
pub fn align_quote(inputs: &QuoteInputs) -> (q: OptimalQuote)
    requires
        inputs.wf(),
    ensures
        q == inputs.quote(),
        q.bid_price.value() <= q.ask_price.value(),
        q.bid_price.wf(),
        q.ask_price.wf(),
        inputs.tick.value() > 0 && grid_fits(inputs.raw_bid(), inputs.tick) && grid_fits(inputs.raw_ask(), inputs.tick)
            && grid_down(inputs.raw_bid(), inputs.tick).value() <= grid_up(inputs.raw_ask(), inputs.tick).value()
            ==> on_grid(q.bid_price, inputs.tick) && on_grid(q.ask_price, inputs.tick),
{
    let mid = inputs.mid;
    let lo = spread_floor_bps(inputs.min_spread_bps, inputs.maker_fee_bps);
    let bid_spread = clamp_spread(inputs.bid_spread, mid, lo, inputs.max_spread_bps);
    let ask_spread = clamp_spread(inputs.ask_spread, mid, lo, inputs.max_spread_bps);
    let r = match mid.sub(inputs.risk_adjustment) {
        Some(x) => if !x.is_positive() { mid } else { x },
        None => mid,
    };
    let raw_bid = match r.sub(halve(bid_spread)) {
        Some(b) => b,
        None => r,
    };
    let raw_ask = match r.add(halve(ask_spread)) {
        Some(a) => a,
        None => r,
    };
    let bid0 = round_down_to_tick(raw_bid, inputs.tick);
    let ask0 = round_up_to_tick(raw_ask, inputs.tick);
    proof {
        crate::tick::lemma_grid_down_rounds(raw_bid, inputs.tick);
        crate::tick::lemma_grid_up_rounds(raw_ask, inputs.tick);
    }
    let (bid, ask) = if ask0.lt(bid0) {
        let m = match bid0.add(ask0) {
            Some(s) => match s.div(Dec::from_int(2)) {
                Some(m) => m,
                None => bid0,
            },
            None => bid0,
        };
        (m, m)
    } else {
        (bid0, ask0)
    };
    let spread = match ask.sub(bid) {
        Some(s) => s,
        None => Dec::zero(),
    };
    OptimalQuote {
        timestamp: inputs.timestamp,
        reservation_price: r,
        optimal_spread: spread,
        bid_price: bid,
        ask_price: ask,
        inventory_level: inputs.inventory,
    }
}

} // verus!

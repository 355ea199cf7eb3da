//! The backtest state machine: warm-up and gap handling, fill detection against
//! the active quotes, inventory and cash accounting, and the closing of the
//! position at the end of the tape.
//!
//! A run feeds every event to `on_trade` or `on_orderbook`. When `on_orderbook`
//! reports a calibration as due, the caller calibrates, computes the quotes and
//! hands them to `set_quotes`; `finish` closes the position and reports.
use crate::calibration::IntensityInputs;
use crate::calibration_engine::{calibration_step, exposure_point, kept, same_windows, saturating_ms, seconds_to_ms, CalibrationEngine, CalibrationTrade};
use crate::decimal::{decimal_difference, decimal_product, decimal_quotient, decimal_sum, int_dec, zero, Dec};
use crate::market::{best_price, first_price, OrderbookSnapshot, TradeEvent};
use vstd::prelude::*;

verus! {

/// `a + b`, saturating at `u64::MAX`.
pub open spec fn sat_add(a: u64, b: u64) -> u64 {
    if a + b > u64::MAX {
        u64::MAX
    } else {
        (a + b) as u64
    }
}

fn saturating_add(a: u64, b: u64) -> (r: u64)
    ensures
        r == sat_add(a, b),
{
    if a > u64::MAX - b {
        u64::MAX
    } else {
        a + b
    }
}

/// `bps / 10000` as the decimals compute it, or zero where that fails.
pub open spec fn bps_fraction(bps: Dec) -> Dec {
    match decimal_quotient(bps, int_dec(10000)) {
        Some(f) => f,
        None => zero(),
    }
}

fn fraction_of_bps(bps: Dec) -> (r: Dec)
    requires
        bps.wf(),
    ensures
        r.wf(),
        r == bps_fraction(bps),
{
    match bps.div(Dec::from_int(10000)) {
        Some(f) => f,
        None => Dec::zero(),
    }
}

/// Settings of a run, derived once from its configuration.
#[derive(Clone, Copy, Debug)]
pub struct PrecomputedConfig {
    /// Inventory cap, in units (absolute).
    pub max_inventory: Dec,
    /// Maker fee as a fraction of notional.
    pub fee_multiplier: Dec,
    /// Taker fee, charged when the position is closed at the end.
    pub closing_fee_multiplier: Dec,
    pub quote_validity_ms: u64,
    pub gap_threshold_ms: u64,
    pub warmup_period_ms: u64,
    pub cooldown_ms: u64,
}

impl PrecomputedConfig {
    pub open spec fn wf(self) -> bool {
        self.max_inventory.wf() && self.fee_multiplier.wf() && self.closing_fee_multiplier.wf()
    }

    /// Fees are given in basis points, durations in seconds.
    pub fn from_config(
        max_inventory: Dec,
        maker_fee_bps: Dec,
        taker_fee_bps: Dec,
        quote_validity_seconds: u64,
        gap_threshold_seconds: u64,
        warmup_period_seconds: u64,
        fill_cooldown_seconds: u64,
    ) -> (r: Self)
        requires
            max_inventory.wf(),
            maker_fee_bps.wf(),
            taker_fee_bps.wf(),
        ensures
            r.wf(),
            r.max_inventory == max_inventory,
            r.fee_multiplier == bps_fraction(maker_fee_bps),
            r.closing_fee_multiplier == bps_fraction(taker_fee_bps),
            r.quote_validity_ms == saturating_ms(quote_validity_seconds),
            r.gap_threshold_ms == saturating_ms(gap_threshold_seconds),
            r.warmup_period_ms == saturating_ms(warmup_period_seconds),
            r.cooldown_ms == saturating_ms(fill_cooldown_seconds),
    {
        PrecomputedConfig {
            max_inventory,
            fee_multiplier: fraction_of_bps(maker_fee_bps),
            closing_fee_multiplier: fraction_of_bps(taker_fee_bps),
            quote_validity_ms: seconds_to_ms(quote_validity_seconds),
            gap_threshold_ms: seconds_to_ms(gap_threshold_seconds),
            warmup_period_ms: seconds_to_ms(warmup_period_seconds),
            cooldown_ms: seconds_to_ms(fill_cooldown_seconds),
        }
    }
}

/// Accounts of a run.
#[derive(Clone, Copy, Debug)]
pub struct BacktestState {
    /// Signed position in units.
    pub inventory: Dec,
    pub cash: Dec,
    pub bid_fills: u64,
    pub ask_fills: u64,
    pub total_volume: Dec,
    pub total_notional_volume: Dec,
    /// Timestamp of the last fill of each side, 0 when none.
    pub last_bid_fill_ts: u64,
    pub last_ask_fill_ts: u64,
}

/// `-max <= inventory <= max`.
pub open spec fn in_band(inventory: Dec, max: Dec) -> bool {
    -max.value() <= inventory.value() <= max.value()
}

impl BacktestState {
    pub open spec fn wf(self) -> bool {
        &&& self.inventory.wf()
        &&& self.cash.wf()
        &&& self.total_volume.wf()
        &&& self.total_notional_volume.wf()
    }

    /// No inventory, `initial_capital` in cash, nothing traded.
    pub fn new(initial_capital: Dec) -> (r: Self)
        requires
            initial_capital.wf(),
        ensures
            r.wf(),
            r == (BacktestState {
                inventory: zero(),
                cash: initial_capital,
                bid_fills: 0,
                ask_fills: 0,
                total_volume: zero(),
                total_notional_volume: zero(),
                last_bid_fill_ts: 0,
                last_ask_fill_ts: 0,
            }),
    {
        BacktestState {
            inventory: Dec::zero(),
            cash: initial_capital,
            bid_fills: 0,
            ask_fills: 0,
            total_volume: Dec::zero(),
            total_notional_volume: Dec::zero(),
            last_bid_fill_ts: 0,
            last_ask_fill_ts: 0,
        }
    }

    /// `cash + inventory * mid`, or `None` when a step overflows.
    pub open spec fn marked_pnl(self, mid: Dec) -> Option<Dec> {
        match decimal_product(self.inventory, mid) {
            Some(x) => decimal_sum(self.cash, x),
            None => None,
        }
    }

    /// Cash plus the inventory valued at `mid_price`.
    pub fn mark_to_market_pnl(&self, mid_price: Dec) -> (r: Option<Dec>)
        requires
            self.wf(),
            mid_price.wf(),
        ensures
            r == self.marked_pnl(mid_price),
            r is Some ==> r->0.wf(),
            self.inventory.value() == 0 ==> (r is Some && r->0.value() == self.cash.value()),
    {
        proof {
            crate::decimal::lemma_value_sign(self.inventory);
            crate::decimal::lemma_fits_own_scale(self.cash);
        }
        match self.inventory.mul(mid_price) {
            Some(x) => self.cash.add(x),
            None => None,
        }
    }
}

/// The order size for a trade at `price`, capped by `capacity` and floored at zero.
pub open spec fn clipped_size(notional: Dec, price: Dec, capacity: Dec) -> Option<Dec> {
    match decimal_quotient(notional, price) {
        Some(unit) => {
            let m = if unit.value() < capacity.value() { unit } else { capacity };
            Some(if m.value() < 0 { zero() } else { m })
        },
        None => None,
    }
}

fn order_size(notional: Dec, price: Dec, capacity: Dec) -> (r: Option<Dec>)
    requires
        notional.wf(),
        price.wf(),
        capacity.wf(),
    ensures
        r == clipped_size(notional, price, capacity),
        r is Some ==> r->0.wf(),
{
    match notional.div(price) {
        Some(unit) => Some(capacity.min(unit).max(Dec::zero())),
        None => None,
    }
}

/// The accounts after selling `size` at `ask` at time `t`, or `None` when a step
/// overflows or the result would leave the inventory band or add no volume.
pub open spec fn sell_fill(st: BacktestState, cfg: PrecomputedConfig, t: u64, ask: Dec, size: Dec) -> Option<BacktestState> {
    match (decimal_product(ask, size), decimal_difference(st.inventory, size), decimal_sum(st.total_volume, size)) {
        (Some(gross), Some(inventory), Some(volume)) => match decimal_product(gross, cfg.fee_multiplier) {
            Some(fee) => match decimal_difference(gross, fee) {
                Some(net) => match (decimal_sum(st.cash, net), decimal_sum(st.total_notional_volume, gross)) {
                    (Some(cash), Some(notional)) => {
                        if in_band(inventory, cfg.max_inventory) && volume.value() > st.total_volume.value()
                            && st.ask_fills < u64::MAX {
                            Some(BacktestState {
                                inventory,
                                cash,
                                ask_fills: (st.ask_fills + 1) as u64,
                                total_volume: volume,
                                total_notional_volume: notional,
                                last_ask_fill_ts: t,
                                ..st
                            })
                        } else {
                            None
                        }
                    },
                    _ => None,
                },
                None => None,
            },
            None => None,
        },
        _ => None,
    }
}

/// The accounts after buying `size` at `bid` at time `t`, or `None` when a step
/// overflows, the cash does not cover cost and fee, or the result would leave the
/// inventory band, overdraw the cash or add no volume.
pub open spec fn buy_fill(st: BacktestState, cfg: PrecomputedConfig, t: u64, bid: Dec, size: Dec) -> Option<BacktestState> {
    match (decimal_product(bid, size), decimal_sum(st.inventory, size), decimal_sum(st.total_volume, size)) {
        (Some(gross), Some(inventory), Some(volume)) => match decimal_product(gross, cfg.fee_multiplier) {
            Some(fee) => match decimal_sum(gross, fee) {
                Some(cost) => match (decimal_difference(st.cash, cost), decimal_sum(st.total_notional_volume, gross)) {
                    (Some(cash), Some(notional)) => {
                        if st.cash.value() >= cost.value() && cash.value() >= 0 && in_band(inventory, cfg.max_inventory)
                            && volume.value() > st.total_volume.value() && st.bid_fills < u64::MAX {
                            Some(BacktestState {
                                inventory,
                                cash,
                                bid_fills: (st.bid_fills + 1) as u64,
                                total_volume: volume,
                                total_notional_volume: notional,
                                last_bid_fill_ts: t,
                                ..st
                            })
                        } else {
                            None
                        }
                    },
                    _ => None,
                },
                None => None,
            },
            None => None,
        },
        _ => None,
    }
}

/// The accounts after a trade at `price` reached our ask.
pub open spec fn after_sell(st: BacktestState, cfg: PrecomputedConfig, notional: Dec, t: u64, price: Dec, ask: Dec) -> BacktestState {
    let cooling = st.last_ask_fill_ts > 0 && t < st.last_ask_fill_ts + cfg.cooldown_ms;
    if cooling || st.inventory.value() <= -cfg.max_inventory.value() {
        st
    } else {
        match decimal_sum(st.inventory, cfg.max_inventory) {
            Some(capacity) => match clipped_size(notional, price, capacity) {
                Some(size) => if size.value() > 0 {
                    match sell_fill(st, cfg, t, ask, size) {
                        Some(n) => n,
                        None => st,
                    }
                } else {
                    st
                },
                None => st,
            },
            None => st,
        }
    }
}

/// The accounts after a trade at `price` reached our bid.
pub open spec fn after_buy(st: BacktestState, cfg: PrecomputedConfig, notional: Dec, t: u64, price: Dec, bid: Dec) -> BacktestState {
    let cooling = st.last_bid_fill_ts > 0 && t < st.last_bid_fill_ts + cfg.cooldown_ms;
    if cooling || st.inventory.value() >= cfg.max_inventory.value() {
        st
    } else {
        match decimal_difference(cfg.max_inventory, st.inventory) {
            Some(capacity) => match clipped_size(notional, price, capacity) {
                Some(size) => if size.value() > 0 {
                    match buy_fill(st, cfg, t, bid, size) {
                        Some(n) => n,
                        None => st,
                    }
                } else {
                    st
                },
                None => st,
            },
            None => st,
        }
    }
}

/// The accounts after the position is closed at `mid` with the taker fee
/// `mult`; unchanged when there is no position, `mid` is not positive or a step
/// overflows.
pub open spec fn closed(st: BacktestState, mid: Dec, mult: Dec) -> BacktestState {
    if st.inventory.value() == 0 || mid.value() <= 0 {
        st
    } else if st.inventory.value() > 0 {
        match decimal_product(mid, st.inventory) {
            Some(gross) => match decimal_product(gross, mult) {
                Some(fee) => match decimal_difference(gross, fee) {
                    Some(net) => match (decimal_sum(st.cash, net), decimal_sum(st.total_volume, st.inventory), decimal_sum(st.total_notional_volume, gross)) {
                        (Some(cash), Some(volume), Some(notional)) => BacktestState {
                            inventory: zero(),
                            cash,
                            total_volume: volume,
                            total_notional_volume: notional,
                            ..st
                        },
                        _ => st,
                    },
                    None => st,
                },
                None => st,
            },
            None => st,
        }
    } else {
        let size = Dec { mantissa: (-st.inventory.mantissa) as i128, scale: st.inventory.scale };
        match decimal_product(mid, size) {
            Some(gross) => match decimal_product(gross, mult) {
                Some(fee) => match decimal_sum(gross, fee) {
                    Some(cost) => match (decimal_difference(st.cash, cost), decimal_sum(st.total_volume, size), decimal_sum(st.total_notional_volume, gross)) {
                        (Some(cash), Some(volume), Some(notional)) => BacktestState {
                            inventory: zero(),
                            cash,
                            total_volume: volume,
                            total_notional_volume: notional,
                            ..st
                        },
                        _ => st,
                    },
                    None => st,
                },
                None => st,
            },
            None => st,
        }
    }
}

/// Results of a run.
#[derive(Clone, Copy, Debug)]
pub struct BacktestResults {
    pub initial_capital: Dec,
    /// Mark-to-market PnL after the closing of the position.
    pub final_pnl: Dec,
    pub total_return_pct: Dec,
    pub bid_fills: u64,
    pub ask_fills: u64,
    pub total_volume: Dec,
    pub total_notional_volume: Dec,
    pub final_inventory: Dec,
    pub final_cash: Dec,
}

impl BacktestResults {
    /// Fills on both sides.
    pub fn total_fills(&self) -> (r: u64)
        requires
            self.bid_fills + self.ask_fills <= u64::MAX,
        ensures
            r == self.bid_fills + self.ask_fills,
    {
        self.bid_fills + self.ask_fills
    }
}

/// `(pnl - initial) / initial * 100`, or zero where a step fails.
pub open spec fn return_pct(pnl: Dec, initial: Dec) -> Dec {
    match decimal_difference(pnl, initial) {
        Some(d) => match decimal_quotient(d, initial) {
            Some(q) => match decimal_product(q, int_dec(100)) {
                Some(p) => p,
                None => zero(),
            },
            None => zero(),
        },
        None => zero(),
    }
}

/// The results reported for the accounts `st` (after closing) at `mid`.
pub open spec fn results_of(st: BacktestState, mid: Dec, initial: Dec) -> BacktestResults {
    let pnl = match st.marked_pnl(mid) {
        Some(p) => p,
        None => st.cash,
    };
    BacktestResults {
        initial_capital: initial,
        final_pnl: pnl,
        total_return_pct: return_pct(pnl, initial),
        bid_fills: st.bid_fills,
        ask_fills: st.ask_fills,
        total_volume: st.total_volume,
        total_notional_volume: st.total_notional_volume,
        final_inventory: st.inventory,
        final_cash: st.cash,
    }
}

/// One backtest run in progress.
pub struct Backtest {
    pub config: PrecomputedConfig,
    pub initial_capital: Dec,
    /// Notional of each order, in quote currency.
    pub order_notional: Dec,
    pub state: BacktestState,
    pub calibration: CalibrationEngine,
    pub active_bid_price: Option<Dec>,
    pub active_ask_price: Option<Dec>,
    /// When the active quotes were issued, 0 when there are none.
    pub active_quote_ts: u64,
    pub last_orderbook_ts: u64,
    /// No fill is considered before this time.
    pub warmup_end_ts: u64,
    pub last_mid: Dec,
}

/// The calibration engine after `trade` was recorded, all else equal.
pub open spec fn recorded_trade(a: CalibrationEngine, b: CalibrationEngine, trade: TradeEvent) -> bool {
    &&& b.window_trades@ == a.window_trades@.push(
        CalibrationTrade { timestamp: trade.timestamp, price: trade.price, is_buyer_maker: trade.is_buyer_maker },
    )
    &&& b.calibration_prices@ == a.calibration_prices@
    &&& b.full_price_history@ == a.full_price_history@
    &&& b.orderbook_points@ == a.orderbook_points@
    &&& b.last_calibration_ts == a.last_calibration_ts
    &&& b.calibration_window_ms == a.calibration_window_ms
    &&& b.recalibration_interval_ms == a.recalibration_interval_ms
}

/// The calibration engine after a snapshot with mid `mid` was recorded at time
/// `now` and the windows were pruned.
pub open spec fn recorded_book(a: CalibrationEngine, b: CalibrationEngine, snapshot: OrderbookSnapshot, mid: Dec) -> bool {
    let now = snapshot.timestamp;
    let w = a.calibration_window_ms;
    let points = if mid.value() > 0 {
        a.orderbook_points@.push(exposure_point(snapshot, mid))
    } else {
        a.orderbook_points@
    };
    &&& b.calibration_prices@ == kept(a.calibration_prices@.push((now, mid)), now, w)
    &&& b.full_price_history@ == a.full_price_history@.push((now, mid))
    &&& b.orderbook_points@ == kept(points, now, w)
    &&& b.window_trades@ == kept(a.window_trades@, now, w)
    &&& b.last_calibration_ts == a.last_calibration_ts
    &&& b.calibration_window_ms == a.calibration_window_ms
    &&& b.recalibration_interval_ms == a.recalibration_interval_ms
}

/// The mid of a snapshot: the average of the best bid and the best ask when both
/// are positive, else `last_mid`.
pub open spec fn snapshot_mid(snapshot: OrderbookSnapshot, last_mid: Dec) -> Dec {
    let bid = best_price(snapshot.bids@);
    let ask = best_price(snapshot.asks@);
    if bid.value() > 0 && ask.value() > 0 {
        match decimal_sum(bid, ask) {
            Some(s) => match decimal_quotient(s, int_dec(2)) {
                Some(m) => m,
                None => last_mid,
            },
            None => last_mid,
        }
    } else {
        last_mid
    }
}

/// The settings of two runs agree.
pub open spec fn same_settings(a: Backtest, b: Backtest) -> bool {
    a.config == b.config && a.initial_capital == b.initial_capital && a.order_notional == b.order_notional
}

/// The event-loop fields of two runs agree.
pub open spec fn same_loop(a: Backtest, b: Backtest) -> bool {
    &&& a.active_bid_price == b.active_bid_price
    &&& a.active_ask_price == b.active_ask_price
    &&& a.active_quote_ts == b.active_quote_ts
    &&& a.last_orderbook_ts == b.last_orderbook_ts
    &&& a.warmup_end_ts == b.warmup_end_ts
    &&& a.last_mid == b.last_mid
}

/// Two runs are in the same state: equal settings, accounts, event-loop fields,
/// and calibration windows holding the same entries.
pub open spec fn same_run(a: Backtest, b: Backtest) -> bool {
    &&& same_settings(a, b)
    &&& a.state == b.state
    &&& same_loop(a, b)
    &&& same_windows(a.calibration, b.calibration)
    &&& a.calibration.last_calibration_ts == b.calibration.last_calibration_ts
}

/// `b` is `a` after `on_trade(trade)`.
pub open spec fn trade_step(a: Backtest, b: Backtest, trade: TradeEvent) -> bool {
    &&& b.state == a.trade_outcome(trade)
    &&& recorded_trade(a.calibration, b.calibration, trade)
    &&& same_settings(a, b)
    &&& same_loop(a, b)
}

/// `b` is `a` after `on_orderbook(snapshot)` returned `due`.
pub open spec fn book_step(a: Backtest, b: Backtest, snapshot: OrderbookSnapshot, due: bool) -> bool {
    let now = snapshot.timestamp;
    let first = a.last_orderbook_ts == 0;
    let gap = !first && now > a.last_orderbook_ts && now - a.last_orderbook_ts > a.config.gap_threshold_ms;
    let mid = snapshot_mid(snapshot, a.last_mid);
    &&& b.warmup_end_ts == if first || gap {
        sat_add(now, a.config.warmup_period_ms)
    } else {
        a.warmup_end_ts
    }
    &&& gap ==> (b.active_bid_price is None && b.active_ask_price is None && b.active_quote_ts == 0)
    &&& !gap ==> (b.active_bid_price == a.active_bid_price && b.active_ask_price == a.active_ask_price
        && b.active_quote_ts == a.active_quote_ts)
    &&& b.last_orderbook_ts == now
    &&& b.last_mid == mid
    &&& recorded_book(a.calibration, b.calibration, snapshot, mid)
    &&& due == (best_price(snapshot.bids@).value() > 0 && best_price(snapshot.asks@).value() > 0
        && b.calibration.due(now))
    &&& b.state == a.state
    &&& same_settings(a, b)
}

/// A snapshot with an empty side keeps the last mid and asks for no quotes.
pub proof fn lemma_empty_side_keeps_mid(a: Backtest, b: Backtest, snapshot: OrderbookSnapshot, due: bool)
    requires
        book_step(a, b, snapshot, due),
        snapshot.bids@.len() == 0 || snapshot.asks@.len() == 0,
    ensures
        b.last_mid == a.last_mid,
        !due,
{
}

/// The first snapshot starts the warm-up, and no trade fills before it ends.
pub proof fn lemma_first_book_starts_warmup(a: Backtest, b: Backtest, snapshot: OrderbookSnapshot, due: bool, trade: TradeEvent)
    requires
        book_step(a, b, snapshot, due),
        a.last_orderbook_ts == 0,
        trade.timestamp < b.warmup_end_ts,
    ensures
        b.warmup_end_ts == sat_add(snapshot.timestamp, a.config.warmup_period_ms),
        b.trade_outcome(trade) == b.state,
{
}

/// A gap between snapshots longer than the threshold restarts the warm-up and
/// drops the active quotes.
pub proof fn lemma_gap_restarts_warmup(a: Backtest, b: Backtest, snapshot: OrderbookSnapshot, due: bool)
    requires
        book_step(a, b, snapshot, due),
        a.last_orderbook_ts > 0,
        snapshot.timestamp > a.last_orderbook_ts,
        snapshot.timestamp - a.last_orderbook_ts > a.config.gap_threshold_ms,
    ensures
        b.warmup_end_ts == sat_add(snapshot.timestamp, a.config.warmup_period_ms),
        b.active_bid_price is None,
        b.active_ask_price is None,
        b.active_quote_ts == 0,
{
}

/// `b` is `a` after `set_quotes(now, bid, ask)`.
pub open spec fn quote_step(a: Backtest, b: Backtest, now: u64, bid: Dec, ask: Dec) -> bool {
    &&& b.active_bid_price == Some(bid)
    &&& b.active_ask_price == Some(ask)
    &&& b.active_quote_ts == now
    &&& b.state == a.state
    &&& same_settings(a, b)
    &&& b.calibration == a.calibration
    &&& b.last_orderbook_ts == a.last_orderbook_ts
    &&& b.warmup_end_ts == a.warmup_end_ts
    &&& b.last_mid == a.last_mid
}

/// `b` and `r` are `a` and the result after `calibrate(now)`.
pub open spec fn calibrate_step(a: Backtest, b: Backtest, now: u64, r: Option<IntensityInputs>) -> bool {
    &&& calibration_step(a.calibration, b.calibration, now, r)
    &&& b.state == a.state
    &&& same_settings(a, b)
    &&& same_loop(a, b)
}

/// What a run is handed, in order: events, calibrations and quotes.
pub enum RunInput {
    Trade(TradeEvent),
    Book(OrderbookSnapshot),
    Calibrate(u64),
    Quote(u64, Dec, Dec),
}

/// `b` is `a` after handling `input`.
pub open spec fn run_step(a: Backtest, b: Backtest, input: RunInput) -> bool {
    match input {
        RunInput::Trade(t) => trade_step(a, b, t),
        RunInput::Book(s) => exists|due: bool| book_step(a, b, s, due),
        RunInput::Calibrate(now) => exists|r: Option<IntensityInputs>| calibrate_step(a, b, now, r),
        RunInput::Quote(now, bid, ask) => quote_step(a, b, now, bid, ask),
    }
}

/// `runs` is a run through `inputs`: each state is the previous one after the
/// next input.
pub open spec fn is_run(runs: Seq<Backtest>, inputs: Seq<RunInput>) -> bool {
    &&& runs.len() == inputs.len() + 1
    &&& forall|i: int| 0 <= i < inputs.len() ==> run_step(#[trigger] runs[i], runs[i + 1], inputs[i])
}

/// Two runs from the same state through the same inputs end in the same state
/// and report the same results.
pub proof fn lemma_replay_deterministic(xs: Seq<Backtest>, ys: Seq<Backtest>, inputs: Seq<RunInput>)
    requires
        is_run(xs, inputs),
        is_run(ys, inputs),
        same_run(xs[0], ys[0]),
    ensures
        same_run(xs.last(), ys.last()),
        results_of(closed(xs.last().state, xs.last().last_mid, xs.last().config.closing_fee_multiplier), xs.last().last_mid, xs.last().initial_capital)
            == results_of(closed(ys.last().state, ys.last().last_mid, ys.last().config.closing_fee_multiplier), ys.last().last_mid, ys.last().initial_capital),
    decreases inputs.len(),
{
    if inputs.len() > 0 {
        let n = inputs.len() - 1;
        let xs0 = xs.drop_last();
        let ys0 = ys.drop_last();
        let in0 = inputs.drop_last();
        assert forall|i: int| 0 <= i < in0.len() implies run_step(#[trigger] xs0[i], xs0[i + 1], in0[i]) by {
            assert(run_step(xs[i], xs[i + 1], inputs[i]));
        }
        assert forall|i: int| 0 <= i < in0.len() implies run_step(#[trigger] ys0[i], ys0[i + 1], in0[i]) by {
            assert(run_step(ys[i], ys[i + 1], inputs[i]));
        }
        lemma_replay_deterministic(xs0, ys0, in0);
        let a = xs[n];
        let b = ys[n];
        assert(run_step(xs[n], xs[n + 1], inputs[n]));
        assert(run_step(ys[n], ys[n + 1], inputs[n]));
        assert(same_run(a, b));
        lemma_step_deterministic(a, b, xs[n + 1], ys[n + 1], inputs[n]);
    }
}

/// Neither quote is active.
pub open spec fn no_quotes(b: Backtest) -> bool {
    b.active_bid_price is None && b.active_ask_price is None
}

/// `input` is not a snapshot earlier than `t`.
pub open spec fn book_not_before(input: RunInput, t: u64) -> bool {
    match input {
        RunInput::Book(s) => s.timestamp >= t,
        _ => true,
    }
}

pub open spec fn is_quote(input: RunInput) -> bool {
    input is Quote
}

pub open spec fn is_book(input: RunInput) -> bool {
    input is Book
}

/// Once the warm-up lasts until at least `t + W`, it does so for the rest of the
/// run while no later snapshot is earlier than `t`.
pub proof fn lemma_warmup_persists(xs: Seq<Backtest>, inputs: Seq<RunInput>, i0: int, j: int, t: u64)
    requires
        is_run(xs, inputs),
        0 <= i0 <= j <= inputs.len(),
        xs[i0].warmup_end_ts >= sat_add(t, xs[i0].config.warmup_period_ms),
        forall|i: int| i0 <= i < inputs.len() ==> book_not_before(#[trigger] inputs[i], t),
    ensures
        xs[j].warmup_end_ts >= sat_add(t, xs[i0].config.warmup_period_ms),
        xs[j].config == xs[i0].config,
    decreases j - i0,
{
    if j > i0 {
        lemma_warmup_persists(xs, inputs, i0, j - 1, t);
        assert(run_step(xs[j - 1], xs[j], inputs[j - 1]));
        assert(book_not_before(inputs[j - 1], t));
        if let RunInput::Book(snap) = inputs[j - 1] {
            let due = choose|due: bool| #[trigger] book_step(xs[j - 1], xs[j], snap, due);
            assert(book_step(xs[j - 1], xs[j], snap, due));
        } else if let RunInput::Calibrate(now) = inputs[j - 1] {
            let r = choose|r: Option<IntensityInputs>| #[trigger] calibrate_step(xs[j - 1], xs[j], now, r);
            assert(calibrate_step(xs[j - 1], xs[j], now, r));
        }
    }
}

/// Dropped quotes stay dropped until new quotes are handed in.
pub proof fn lemma_quotes_stay_dropped(xs: Seq<Backtest>, inputs: Seq<RunInput>, i0: int, j: int)
    requires
        is_run(xs, inputs),
        0 <= i0 <= j <= inputs.len(),
        no_quotes(xs[i0]),
        forall|i: int| i0 <= i < j ==> !is_quote(#[trigger] inputs[i]),
    ensures
        no_quotes(xs[j]),
    decreases j - i0,
{
    if j > i0 {
        lemma_quotes_stay_dropped(xs, inputs, i0, j - 1);
        assert(run_step(xs[j - 1], xs[j], inputs[j - 1]));
        assert(!is_quote(inputs[j - 1]));
        if let RunInput::Book(snap) = inputs[j - 1] {
            let due = choose|due: bool| #[trigger] book_step(xs[j - 1], xs[j], snap, due);
            assert(book_step(xs[j - 1], xs[j], snap, due));
        } else if let RunInput::Calibrate(now) = inputs[j - 1] {
            let r = choose|r: Option<IntensityInputs>| #[trigger] calibrate_step(xs[j - 1], xs[j], now, r);
            assert(calibrate_step(xs[j - 1], xs[j], now, r));
        }
    }
}

/// Before the first snapshot a fresh run has seen no snapshot and holds no quotes.
proof fn lemma_before_first_book(xs: Seq<Backtest>, inputs: Seq<RunInput>, j: int)
    requires
        is_run(xs, inputs),
        0 <= j <= inputs.len(),
        xs[0].last_orderbook_ts == 0,
        no_quotes(xs[0]),
        forall|i: int| 0 <= i < j ==> !is_book(#[trigger] inputs[i]) && !is_quote(inputs[i]),
    ensures
        xs[j].last_orderbook_ts == 0,
        no_quotes(xs[j]),
        xs[j].config == xs[0].config,
    decreases j,
{
    if j > 0 {
        lemma_before_first_book(xs, inputs, j - 1);
        assert(run_step(xs[j - 1], xs[j], inputs[j - 1]));
        assert(!is_book(inputs[j - 1]) && !is_quote(inputs[j - 1]));
        if let RunInput::Calibrate(now) = inputs[j - 1] {
            let r = choose|r: Option<IntensityInputs>| #[trigger] calibrate_step(xs[j - 1], xs[j], now, r);
            assert(calibrate_step(xs[j - 1], xs[j], now, r));
        }
    }
}

/// A trade fills nothing before the warm-up ends or while no quote is active.
proof fn lemma_blocked_trade(b: Backtest, trade: TradeEvent)
    requires
        trade.timestamp < b.warmup_end_ts || no_quotes(b),
    ensures
        b.trade_outcome(trade) == b.state,
{
}

/// In a fresh run whose snapshots come in time order and whose quotes come only
/// after a snapshot, no trade earlier than the end of the first warm-up (the first
/// snapshot's time plus the warm-up period) fills.
pub proof fn lemma_no_fill_in_first_warmup(xs: Seq<Backtest>, inputs: Seq<RunInput>, f: int, j: int)
    requires
        is_run(xs, inputs),
        xs[0].last_orderbook_ts == 0,
        no_quotes(xs[0]),
        0 <= f < inputs.len(),
        inputs[f] is Book,
        forall|i: int| 0 <= i < f ==> !is_book(#[trigger] inputs[i]) && !is_quote(inputs[i]),
        forall|i: int| f <= i < inputs.len() ==> book_not_before(#[trigger] inputs[i], inputs[f]->Book_0.timestamp),
        0 <= j < inputs.len(),
        inputs[j] matches RunInput::Trade(tr) && tr.timestamp < sat_add(
            inputs[f]->Book_0.timestamp,
            xs[0].config.warmup_period_ms,
        ),
    ensures
        xs[j + 1].state == xs[j].state,
{
    let tr = inputs[j]->Trade_0;
    let t0 = inputs[f]->Book_0.timestamp;
    assert(run_step(xs[j], xs[j + 1], inputs[j]));
    if j < f {
        lemma_before_first_book(xs, inputs, j);
        lemma_blocked_trade(xs[j], tr);
    } else {
        lemma_before_first_book(xs, inputs, f);
        assert(run_step(xs[f], xs[f + 1], inputs[f]));
        let due = choose|due: bool| #[trigger] book_step(xs[f], xs[f + 1], inputs[f]->Book_0, due);
        assert(book_step(xs[f], xs[f + 1], inputs[f]->Book_0, due));
        lemma_warmup_persists(xs, inputs, f + 1, j, t0);
        lemma_blocked_trade(xs[j], tr);
    }
}

/// After a snapshot that follows the previous one by more than the gap threshold,
/// with later snapshots in time order: a trade fills nothing before the new
/// warm-up ends, nor while no new quotes were handed in since the gap.
pub proof fn lemma_gap_blocks_fills(xs: Seq<Backtest>, inputs: Seq<RunInput>, g: int, j: int)
    requires
        is_run(xs, inputs),
        0 <= g < j < inputs.len(),
        inputs[g] is Book,
        xs[g].last_orderbook_ts > 0,
        inputs[g]->Book_0.timestamp > xs[g].last_orderbook_ts,
        inputs[g]->Book_0.timestamp - xs[g].last_orderbook_ts > xs[g].config.gap_threshold_ms,
        forall|i: int| g <= i < inputs.len() ==> book_not_before(#[trigger] inputs[i], inputs[g]->Book_0.timestamp),
        inputs[j] matches RunInput::Trade(tr) && (tr.timestamp < sat_add(
            inputs[g]->Book_0.timestamp,
            xs[g].config.warmup_period_ms,
        ) || forall|i: int| g < i < j ==> !is_quote(#[trigger] inputs[i])),
    ensures
        xs[j + 1].state == xs[j].state,
{
    let tr = inputs[j]->Trade_0;
    let snap = inputs[g]->Book_0;
    assert(run_step(xs[j], xs[j + 1], inputs[j]));
    assert(run_step(xs[g], xs[g + 1], inputs[g]));
    let due = choose|due: bool| #[trigger] book_step(xs[g], xs[g + 1], snap, due);
    assert(book_step(xs[g], xs[g + 1], snap, due));
    if tr.timestamp < sat_add(snap.timestamp, xs[g].config.warmup_period_ms) {
        lemma_warmup_persists(xs, inputs, g + 1, j, snap.timestamp);
    } else {
        lemma_quotes_stay_dropped(xs, inputs, g + 1, j);
    }
    lemma_blocked_trade(xs[j], tr);
}

/// One input takes two runs in the same state to the same state.
pub proof fn lemma_step_deterministic(a: Backtest, b: Backtest, a2: Backtest, b2: Backtest, input: RunInput)
    requires
        same_run(a, b),
        run_step(a, a2, input),
        run_step(b, b2, input),
    ensures
        same_run(a2, b2),
{
    match input {
        RunInput::Trade(t) => {
            assert(a.trade_outcome(t) == b.trade_outcome(t));
        },
        RunInput::Book(s) => {
            let d1 = choose|due: bool| #[trigger] book_step(a, a2, s, due);
            let d2 = choose|due: bool| #[trigger] book_step(b, b2, s, due);
            assert(a2.calibration.calibration_prices@ == b2.calibration.calibration_prices@);
            assert(a2.calibration.orderbook_points@ == b2.calibration.orderbook_points@);
        },
        RunInput::Calibrate(now) => {
            let r1 = choose|r: Option<IntensityInputs>| #[trigger] calibrate_step(a, a2, now, r);
            let r2 = choose|r: Option<IntensityInputs>| #[trigger] calibrate_step(b, b2, now, r);
        },
        RunInput::Quote(now, bid, ask) => {},
    }
}

impl Backtest {
    pub open spec fn wf(&self) -> bool {
        &&& self.config.wf()
        &&& self.initial_capital.wf()
        &&& self.order_notional.wf()
        &&& self.state.wf()
        &&& self.calibration.wf()
        &&& self.last_mid.wf()
        &&& (self.active_bid_price matches Some(b) ==> b.wf())
        &&& (self.active_ask_price matches Some(a) ==> a.wf())
        &&& (in_band(self.state.inventory, self.config.max_inventory) || self.state.inventory.value() == 0)
        &&& self.state.total_volume.value() >= 0
    }

    /// A run with the given settings, before any event.
    pub fn new(
        config: PrecomputedConfig,
        initial_capital: Dec,
        order_notional: Dec,
        calibration: CalibrationEngine,
    ) -> (r: Self)
        requires
            config.wf(),
            initial_capital.wf(),
            order_notional.wf(),
            calibration.wf(),
        ensures
            r.wf(),
            r.config == config,
            r.initial_capital == initial_capital,
            r.order_notional == order_notional,
            r.state == BacktestState::new_spec(initial_capital),
            r.calibration == calibration,
            r.active_bid_price is None,
            r.active_ask_price is None,
            r.active_quote_ts == 0,
            r.last_orderbook_ts == 0,
            r.warmup_end_ts == 0,
            r.last_mid == zero(),
    {
        Backtest {
            config,
            initial_capital,
            order_notional,
            state: BacktestState::new(initial_capital),
            calibration,
            active_bid_price: None,
            active_ask_price: None,
            active_quote_ts: 0,
            last_orderbook_ts: 0,
            warmup_end_ts: 0,
            last_mid: Dec::zero(),
        }
    }

    /// The accounts after `trade`.
    pub open spec fn trade_outcome(&self, trade: TradeEvent) -> BacktestState {
        let t = trade.timestamp;
        if t < self.warmup_end_ts {
            self.state
        } else {
            match (self.active_bid_price, self.active_ask_price) {
                (Some(bid), Some(ask)) => {
                    if self.active_quote_ts == 0 || t >= self.active_quote_ts + self.config.quote_validity_ms {
                        self.state
                    } else if trade.price.value() >= ask.value() {
                        after_sell(self.state, self.config, self.order_notional, t, trade.price, ask)
                    } else if trade.price.value() <= bid.value() {
                        after_buy(self.state, self.config, self.order_notional, t, trade.price, bid)
                    } else {
                        self.state
                    }
                },
                _ => self.state,
            }
        }
    }

    fn try_sell(&mut self, t: u64, price: Dec, ask: Dec)
        requires
            old(self).wf(),
            price.wf(),
            ask.wf(),
        ensures
            final(self).wf(),
            final(self).state == after_sell(old(self).state, old(self).config, old(self).order_notional, t, price, ask),
            final(self).config == old(self).config,
            final(self).initial_capital == old(self).initial_capital,
            final(self).order_notional == old(self).order_notional,
            final(self).calibration == old(self).calibration,
            final(self).active_bid_price == old(self).active_bid_price,
            final(self).active_ask_price == old(self).active_ask_price,
            final(self).active_quote_ts == old(self).active_quote_ts,
            final(self).last_orderbook_ts == old(self).last_orderbook_ts,
            final(self).warmup_end_ts == old(self).warmup_end_ts,
            final(self).last_mid == old(self).last_mid,
    {
        let st = self.state;
        let cfg = self.config;
        let cooling = st.last_ask_fill_ts > 0 && (t as u128) < st.last_ask_fill_ts as u128 + cfg.cooldown_ms as u128;
        if cooling || st.inventory.le(cfg.max_inventory.neg()) {
            return ;
        }
        let capacity = match st.inventory.add(cfg.max_inventory) {
            Some(c) => c,
            None => return ,
        };
        let size = match order_size(self.order_notional, price, capacity) {
            Some(s) => s,
            None => return ,
        };
        if !size.is_positive() {
            return ;
        }
        let (gross, inventory, volume) = match (ask.mul(size), st.inventory.sub(size), st.total_volume.add(size)) {
            (Some(g), Some(i), Some(v)) => (g, i, v),
            _ => return ,
        };
        let fee = match gross.mul(cfg.fee_multiplier) {
            Some(f) => f,
            None => return ,
        };
        let net = match gross.sub(fee) {
            Some(n) => n,
            None => return ,
        };
        let (cash, notional) = match (st.cash.add(net), st.total_notional_volume.add(gross)) {
            (Some(c), Some(n)) => (c, n),
            _ => return ,
        };
        let max = cfg.max_inventory;
        if max.neg().le(inventory) && inventory.le(max) && st.total_volume.lt(volume) && st.ask_fills < u64::MAX {
            self.state = BacktestState {
                inventory,
                cash,
                ask_fills: st.ask_fills + 1,
                total_volume: volume,
                total_notional_volume: notional,
                last_ask_fill_ts: t,
                ..st
            };
        }
    }

    fn try_buy(&mut self, t: u64, price: Dec, bid: Dec)
        requires
            old(self).wf(),
            price.wf(),
            bid.wf(),
        ensures
            final(self).wf(),
            final(self).state == after_buy(old(self).state, old(self).config, old(self).order_notional, t, price, bid),
            final(self).config == old(self).config,
            final(self).initial_capital == old(self).initial_capital,
            final(self).order_notional == old(self).order_notional,
            final(self).calibration == old(self).calibration,
            final(self).active_bid_price == old(self).active_bid_price,
            final(self).active_ask_price == old(self).active_ask_price,
            final(self).active_quote_ts == old(self).active_quote_ts,
            final(self).last_orderbook_ts == old(self).last_orderbook_ts,
            final(self).warmup_end_ts == old(self).warmup_end_ts,
            final(self).last_mid == old(self).last_mid,
    {
        let st = self.state;
        let cfg = self.config;
        let cooling = st.last_bid_fill_ts > 0 && (t as u128) < st.last_bid_fill_ts as u128 + cfg.cooldown_ms as u128;
        if cooling || cfg.max_inventory.le(st.inventory) {
            return ;
        }
        let capacity = match cfg.max_inventory.sub(st.inventory) {
            Some(c) => c,
            None => return ,
        };
        let size = match order_size(self.order_notional, price, capacity) {
            Some(s) => s,
            None => return ,
        };
        if !size.is_positive() {
            return ;
        }
        let (gross, inventory, volume) = match (bid.mul(size), st.inventory.add(size), st.total_volume.add(size)) {
            (Some(g), Some(i), Some(v)) => (g, i, v),
            _ => return ,
        };
        let fee = match gross.mul(cfg.fee_multiplier) {
            Some(f) => f,
            None => return ,
        };
        let cost = match gross.add(fee) {
            Some(c) => c,
            None => return ,
        };
        let (cash, notional) = match (st.cash.sub(cost), st.total_notional_volume.add(gross)) {
            (Some(c), Some(n)) => (c, n),
            _ => return ,
        };
        let max = cfg.max_inventory;
        if cost.le(st.cash) && Dec::zero().le(cash) && max.neg().le(inventory) && inventory.le(max)
            && st.total_volume.lt(volume) && st.bid_fills < u64::MAX {
            self.state = BacktestState {
                inventory,
                cash,
                bid_fills: st.bid_fills + 1,
                total_volume: volume,
                total_notional_volume: notional,
                last_bid_fill_ts: t,
                ..st
            };
        }
    }

    /// Records `trade` for calibration, then fills against the active quotes when
    /// the warm-up is over and the quotes are still valid: a sell when the trade
    /// reached our ask, else a buy when it reached our bid.
    pub fn on_trade(&mut self, trade: &TradeEvent)
        requires
            old(self).wf(),
            trade.wf(),
        ensures
            final(self).wf(),
            trade_step(*old(self), *final(self), *trade),
            trade.timestamp < old(self).warmup_end_ts ==> final(self).state == old(self).state,
    {
        self.calibration.add_trade(trade);
        let t = trade.timestamp;
        if t < self.warmup_end_ts {
            return ;
        }
        let (bid, ask) = match (self.active_bid_price, self.active_ask_price) {
            (Some(b), Some(a)) => (b, a),
            _ => return ,
        };
        if self.active_quote_ts == 0 || t as u128 >= self.active_quote_ts as u128 + self.config.quote_validity_ms as u128 {
            return ;
        }
        if ask.le(trade.price) {
            self.try_sell(t, trade.price, ask);
        } else if trade.price.le(bid) {
            self.try_buy(t, trade.price, bid);
        }
    }

    /// Handles a book snapshot: starts the warm-up on the first snapshot and
    /// after a gap (dropping the active quotes), updates the mid and the
    /// calibration windows. Returns whether new quotes are due: a calibration is
    /// due and both sides of the book have a positive best price.
    pub fn on_orderbook(&mut self, snapshot: &OrderbookSnapshot) -> (due: bool)
        requires
            old(self).wf(),
            snapshot.wf(),
        ensures
            final(self).wf(),
            book_step(*old(self), *final(self), *snapshot, due),
    {
        let now = snapshot.timestamp;
        if self.last_orderbook_ts > 0 {
            let delta = if now >= self.last_orderbook_ts { now - self.last_orderbook_ts } else { 0 };
            if delta > self.config.gap_threshold_ms {
                self.warmup_end_ts = saturating_add(now, self.config.warmup_period_ms);
                self.active_bid_price = None;
                self.active_ask_price = None;
                self.active_quote_ts = 0;
            }
        } else {
            self.warmup_end_ts = saturating_add(now, self.config.warmup_period_ms);
        }
        self.last_orderbook_ts = now;
        let best_bid = first_price(&snapshot.bids);
        let best_ask = first_price(&snapshot.asks);
        let both = best_bid.is_positive() && best_ask.is_positive();
        let mid = if both {
            match best_bid.add(best_ask) {
                Some(s) => match s.div(Dec::from_int(2)) {
                    Some(m) => m,
                    None => self.last_mid,
                },
                None => self.last_mid,
            }
        } else {
            self.last_mid
        };
        self.last_mid = mid;
        self.calibration.add_orderbook(snapshot, mid);
        self.calibration.prune_windows(now);
        both && self.calibration.should_recalibrate(now)
    }

    /// Calibrates the engine at `now` (see `CalibrationEngine::calibrate`).
    pub fn calibrate(&mut self, now: u64) -> (r: Option<IntensityInputs>)
        requires
            old(self).wf(),
        ensures
            final(self).wf(),
            calibrate_step(*old(self), *final(self), now, r),
    {
        self.calibration.calibrate(now)
    }

    /// Makes `bid` and `ask` the active quotes, issued at `now`.
    pub fn set_quotes(&mut self, now: u64, bid: Dec, ask: Dec)
        requires
            old(self).wf(),
            bid.wf(),
            ask.wf(),
        ensures
            final(self).wf(),
            quote_step(*old(self), *final(self), now, bid, ask),
    {
        self.active_bid_price = Some(bid);
        self.active_ask_price = Some(ask);
        self.active_quote_ts = now;
    }

    /// Closes any position at the last mid, paying the taker fee, and reports.
    pub fn finish(&self) -> (r: BacktestResults)
        requires
            self.wf(),
        ensures
            r == results_of(
                closed(self.state, self.last_mid, self.config.closing_fee_multiplier),
                self.last_mid,
                self.initial_capital,
            ),
            r.final_inventory.value() == 0 ==> r.final_pnl.value() == r.final_cash.value(),
            r.final_pnl.value() == r.initial_capital.value() ==> r.total_return_pct.value() == 0,
    {
        let st = close_position(self.state, self.last_mid, self.config.closing_fee_multiplier);
        let pnl = match st.mark_to_market_pnl(self.last_mid) {
            Some(p) => p,
            None => st.cash,
        };
        let initial = self.initial_capital;
        proof {
            crate::decimal::lemma_fits_own_scale(pnl);
            crate::decimal::lemma_fits_own_scale(initial);
            crate::decimal::lemma_value_sign(initial);
        }
        let pct = match pnl.sub(initial) {
            Some(d) => {
                proof {
                    crate::decimal::lemma_value_sign(d);
                }
                match d.div(initial) {
                    Some(q) => {
                        proof {
                            crate::decimal::lemma_value_sign(q);
                        }
                        match q.mul(Dec::from_int(100)) {
                            Some(p) => p,
                            None => Dec::zero(),
                        }
                    },
                    None => Dec::zero(),
                }
            },
            None => Dec::zero(),
        };
        BacktestResults {
            initial_capital: initial,
            final_pnl: pnl,
            total_return_pct: pct,
            bid_fills: st.bid_fills,
            ask_fills: st.ask_fills,
            total_volume: st.total_volume,
            total_notional_volume: st.total_notional_volume,
            final_inventory: st.inventory,
            final_cash: st.cash,
        }
    }
}

impl BacktestState {
    pub open spec fn new_spec(initial_capital: Dec) -> BacktestState {
        BacktestState {
            inventory: zero(),
            cash: initial_capital,
            bid_fills: 0,
            ask_fills: 0,
            total_volume: zero(),
            total_notional_volume: zero(),
            last_bid_fill_ts: 0,
            last_ask_fill_ts: 0,
        }
    }
}

fn close_position(st: BacktestState, mid: Dec, mult: Dec) -> (r: BacktestState)
    requires
        st.wf(),
        mid.wf(),
        mult.wf(),
    ensures
        r.wf(),
        r == closed(st, mid, mult),
{
    if st.inventory.is_zero() || !mid.is_positive() {
        return st;
    }
    if st.inventory.is_positive() {
        let gross = match mid.mul(st.inventory) {
            Some(g) => g,
            None => return st,
        };
        let fee = match gross.mul(mult) {
            Some(f) => f,
            None => return st,
        };
        let net = match gross.sub(fee) {
            Some(n) => n,
            None => return st,
        };
        match (st.cash.add(net), st.total_volume.add(st.inventory), st.total_notional_volume.add(gross)) {
            (Some(cash), Some(volume), Some(notional)) => BacktestState {
                inventory: Dec::zero(),
                cash,
                total_volume: volume,
                total_notional_volume: notional,
                ..st
            },
            _ => st,
        }
    } else {
        let size = st.inventory.neg();
        let gross = match mid.mul(size) {
            Some(g) => g,
            None => return st,
        };
        let fee = match gross.mul(mult) {
            Some(f) => f,
            None => return st,
        };
        let cost = match gross.add(fee) {
            Some(c) => c,
            None => return st,
        };
        match (st.cash.sub(cost), st.total_volume.add(size), st.total_notional_volume.add(gross)) {
            (Some(cash), Some(volume), Some(notional)) => BacktestState {
                inventory: Dec::zero(),
                cash,
                total_volume: volume,
                total_notional_volume: notional,
                ..st
            },
            _ => st,
        }
    }
}

/// A run with a non-negative inventory cap holds an inventory within
/// `[-max_inventory, max_inventory]`; every step of a run keeps it well formed.
pub proof fn lemma_inventory_in_band(bt: Backtest)
    requires
        bt.wf(),
        bt.config.max_inventory.value() >= 0,
    ensures
        in_band(bt.state.inventory, bt.config.max_inventory),
{
}

/// A trade that fills our bid leaves the cash non-negative.
pub proof fn lemma_buy_fill_keeps_cash(bt: Backtest, trade: TradeEvent)
    requires
        bt.wf(),
        trade.wf(),
    ensures
        bt.trade_outcome(trade).bid_fills > bt.state.bid_fills ==> bt.trade_outcome(trade).cash.value() >= 0,
{
}

/// The traded volume never shrinks, stays non-negative, and grows with every fill.
pub proof fn lemma_volume_grows_with_fills(bt: Backtest, trade: TradeEvent)
    requires
        bt.wf(),
        trade.wf(),
    ensures
        bt.trade_outcome(trade).total_volume.value() >= bt.state.total_volume.value() >= 0,
        bt.trade_outcome(trade).bid_fills > bt.state.bid_fills || bt.trade_outcome(trade).ask_fills
            > bt.state.ask_fills ==> bt.trade_outcome(trade).total_volume.value() > bt.state.total_volume.value(),
{
}

/// After the closing at the end of the tape the inventory is zero, unless the last
/// mid is not positive or the closing overflowed and left the accounts as they were.
pub proof fn lemma_close_flattens(st: BacktestState, mid: Dec, mult: Dec)
    ensures
        closed(st, mid, mult).inventory.value() == 0 || mid.value() <= 0 || closed(st, mid, mult) == st,
{
}

/// The accounts after a trade depend on the run's state and the trade alone, so
/// two runs fed the same events from the same state stay equal.
pub proof fn lemma_trade_step_deterministic(a: Backtest, b: Backtest, trade: TradeEvent)
    requires
        a.state == b.state,
        a.config == b.config,
        a.order_notional == b.order_notional,
        a.active_bid_price == b.active_bid_price,
        a.active_ask_price == b.active_ask_price,
        a.active_quote_ts == b.active_quote_ts,
        a.warmup_end_ts == b.warmup_end_ts,
    ensures
        a.trade_outcome(trade) == b.trade_outcome(trade),
{
}

} // verus!

//! Avellaneda–Stoikov market making on limit-order-book data.
//!
//! - `decimal`: fixed-point decimals, with arithmetic done by `rust_decimal`.
//! - `tick`: exact rounding of prices onto a tick grid.
//! - `market`: trades, book snapshots, and merging the two streams in time order.
//! - `calibration_engine`: rolling windows and the recalibration schedule.
//! - `calibration`: what the volatility and intensity fits read.
//! - `quote`: clamping, tick alignment and ordering of the model's quotes.
//! - `backtest`: the event-driven state machine: warm-up, fills, accounts, and
//!   the closing of the position.
//! - `metrics`: depth-weighted prices of a book.
pub mod backtest;
pub mod calibration;
pub mod calibration_engine;
pub mod decimal;
pub mod market;
pub mod metrics;
pub mod model_types;
pub mod quote;
pub mod tick;
pub mod websocket;

//! Configuration vocabulary shared by the quote model and the backtest.
use vstd::prelude::*;

verus! {

/// How the risk aversion γ is chosen.
#[derive(Clone, Copy, Debug, PartialEq, Eq, Structural)]
pub enum GammaMode {
    /// The configured γ.
    Constant,
    /// The shift-derived γ scaled by the inventory ratio.
    InventoryScaled,
    /// γ such that a full inventory shifts the reservation price by the target.
    MaxShift,
}

/// Default gap between book snapshots, in seconds, that restarts the warm-up.
pub fn default_gap_threshold() -> (r: u64)
    ensures
        r == 1800,
{
    1800
}

/// Default warm-up length, in seconds.
pub fn default_warmup_period() -> (r: u64)
    ensures
        r == 900,
{
    900
}

/// Default lifetime of a quote, in seconds.
pub fn default_quote_validity() -> (r: u64)
    ensures
        r == 60,
{
    60
}

/// Default number of worker threads of a grid search.
pub fn default_num_threads() -> (r: usize)
    ensures
        r == 4,
{
    4
}

} // verus!

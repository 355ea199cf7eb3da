//! Rounding prices onto a tick grid, exactly.
//!
//! The price and the tick are brought to their common scale, where both are
//! integers `p` and `t`; the grid point below the price is `floor(p / t) * t`.
use crate::decimal::{lemma_pow10_positive, pow10, Dec, MAX_MANTISSA, MAX_SCALE};
use vstd::arithmetic::div_mod::{lemma_fundamental_div_mod, lemma_mod_multiples_basic};
use vstd::prelude::*;

verus! {

/// The larger of the two scales.
pub open spec fn common_scale(a: Dec, b: Dec) -> nat {
    if a.scale <= b.scale {
        b.scale as nat
    } else {
        a.scale as nat
    }
}

/// The mantissa of `d` written at scale `s` (at least `d.scale`).
pub open spec fn aligned(d: Dec, s: nat) -> int {
    d.mantissa * pow10((s - d.scale) as nat)
}

/// At their common scale the price and the tick fit in 128 bits, and the grid
/// points below and above the price fit in 96 bits.
pub open spec fn grid_fits(price: Dec, tick: Dec) -> bool {
    let s = common_scale(price, tick);
    let p = aligned(price, s);
    let t = aligned(tick, s);
    &&& -i128::MAX <= p <= i128::MAX
    &&& t <= i128::MAX
    &&& -MAX_MANTISSA <= (p / t) * t
    &&& (p / t) * t + t <= MAX_MANTISSA
}

/// `d` is a whole number of ticks.
pub open spec fn on_grid(d: Dec, tick: Dec) -> bool {
    d.value() % tick.value() == 0
}

pub proof fn lemma_pow10_add(a: nat, b: nat)
    ensures
        pow10(a + b) == pow10(a) * pow10(b),
    decreases a,
{
    if a > 0 {
        lemma_pow10_add((a - 1) as nat, b);
        assert(pow10(a + b) == 10 * pow10((a - 1 + b) as nat));
        assert(10 * (pow10((a - 1) as nat) * pow10(b)) == (10 * pow10((a - 1) as nat)) * pow10(b))
            by (nonlinear_arith);
    }
}

pub proof fn lemma_pow10_monotonic(a: nat, b: nat)
    requires
        a <= b,
    ensures
        pow10(a) <= pow10(b),
    decreases b,
{
    if a < b {
        lemma_pow10_monotonic(a, (b - 1) as nat);
        lemma_pow10_positive((b - 1) as nat);
    }
}

/// A value is its mantissa at any larger scale, times the remaining power of ten.
pub proof fn lemma_aligned_value(d: Dec, s: nat)
    requires
        d.scale <= s <= MAX_SCALE,
    ensures
        d.value() == aligned(d, s) * pow10((MAX_SCALE - s) as nat),
{
    lemma_pow10_add((s - d.scale) as nat, (MAX_SCALE - s) as nat);
    assert((s - d.scale) as nat + (MAX_SCALE - s) as nat == (MAX_SCALE - d.scale) as nat);
    vstd::arithmetic::mul::lemma_mul_is_associative(
        d.mantissa as int,
        pow10((s - d.scale) as nat),
        pow10((MAX_SCALE - s) as nat),
    );
}

proof fn lemma_pow10_27()
    ensures
        pow10(27) == 1000000000000000000000000000,
{
    reveal_with_fuel(pow10, 28);
}

/// `10^n` as a machine integer.
fn power_of_ten(n: u32) -> (r: i128)
    requires
        n <= MAX_SCALE,
    ensures
        r == pow10(n as nat),
{
    let mut r: i128 = 1;
    let mut i: u32 = 0;
    while i < n
        invariant
            i <= n <= MAX_SCALE,
            r == pow10(i as nat),
        decreases n - i,
    {
        proof {
            lemma_pow10_monotonic(i as nat, 27);
            lemma_pow10_27();
            lemma_pow10_positive(i as nat);
        }
        r = r * 10;
        i = i + 1;
    }
    r
}

/// The mantissa of `d` at scale `s`, when it fits in 128 bits.
fn align(d: Dec, s: u32) -> (r: Option<i128>)
    requires
        d.wf(),
        d.scale <= s <= MAX_SCALE,
    ensures
        r is Some <==> (i128::MIN <= aligned(d, s as nat) <= i128::MAX),
        r is Some ==> r->0 == aligned(d, s as nat),
{
    let f = power_of_ten(s - d.scale);
    d.mantissa.checked_mul(f)
}

/// Finds, at the common scale `s`, the tick `t` and the grid point `(p / t) * t`
/// below the price `p`.
fn grid_floor(price: Dec, tick: Dec) -> (r: Option<(i128, i128, u32)>)
    requires
        price.wf(),
        tick.wf(),
        tick.value() > 0,
    ensures
        r is Some <==> grid_fits(price, tick),
        r matches Some((down, t, s)) ==> ({
            &&& s == common_scale(price, tick)
            &&& t == aligned(tick, s as nat)
            &&& down == (aligned(price, s as nat) / (t as int)) * t
            &&& t > 0
        }),
{
    let s = if price.scale <= tick.scale { tick.scale } else { price.scale };
    proof {
        lemma_aligned_value(tick, s as nat);
        lemma_pow10_positive((MAX_SCALE - s) as nat);
        crate::decimal::lemma_value_sign(tick);
        let q = pow10((MAX_SCALE - s) as nat);
        let at = aligned(tick, s as nat);
        assert(at > 0) by (nonlinear_arith)
            requires
                tick.value() == at * q,
                q >= 1,
                tick.value() > 0,
        ;
    }
    let p = match align(price, s) {
        Some(p) => p,
        None => return None,
    };
    let t = match align(tick, s) {
        Some(t) => t,
        None => return None,
    };
    if p == i128::MIN {
        return None;
    }
    // Magnitudes keep the division on unsigned integers.
    let k: i128 = if p >= 0 {
        ((p as u128) / (t as u128)) as i128
    } else {
        let m = (-(p + 1)) as u128 + 1;
        let q = (m + (t as u128) - 1) / (t as u128);
        proof {
            assert(m == -(p as int));
            assert((m + t - 1) / (t as int) <= m) by (nonlinear_arith)
                requires
                    m >= 1,
                    t >= 1,
            {
                vstd::arithmetic::div_mod::lemma_div_is_ordered((m + t - 1) as int, m * t, t as int);
                vstd::arithmetic::div_mod::lemma_div_multiples_vanish(m as int, t as int);
            }
        }
        -(q as i128)
    };
    proof {
        lemma_fundamental_div_mod(p as int, t as int);
        let e = (p as int) / (t as int);
        assert(0 <= (p as int) % (t as int) < t);
        if p >= 0 {
            assert(k == e) by (nonlinear_arith)
                requires
                    k == (p as int) / (t as int),
                    e == (p as int) / (t as int),
            ;
        } else {
            let m = -(p as int);
            let q = -(k as int);
            lemma_fundamental_div_mod(m + t - 1, t as int);
            assert(q == (m + t - 1) / (t as int));
            assert(k == e) by (nonlinear_arith)
                requires
                    t > 0,
                    m > 0,
                    p == -m,
                    k == -q,
                    m + t - 1 == t * q + (m + t - 1) % (t as int),
                    0 <= (m + t - 1) % (t as int) < t,
                    p == t * e + (p as int) % (t as int),
                    0 <= (p as int) % (t as int) < t,
            ;
        }
        assert(k * t <= p) by (nonlinear_arith)
            requires
                k == e,
                p == t * e + (p as int) % (t as int),
                0 <= (p as int) % (t as int),
        ;
        if p < 0 {
            assert(k * t >= p - t) by (nonlinear_arith)
                requires
                    k == e,
                    p == t * e + (p as int) % (t as int),
                    (p as int) % (t as int) < t,
            ;
        }
    }
    let down = match k.checked_mul(t) {
        Some(d) => d,
        None => return None,
    };
    if down < -MAX_MANTISSA || down > MAX_MANTISSA - t {
        return None;
    }
    Some((down, t, s))
}

/// What a grid point found by `grid_floor` is worth.
proof fn lemma_grid_point(price: Dec, tick: Dec, down: int, t: int, s: nat, d: Dec)
    requires
        price.wf(),
        tick.wf(),
        s == common_scale(price, tick),
        t == aligned(tick, s),
        t > 0,
        down == (aligned(price, s) / t) * t,
        d.mantissa == down,
        d.scale == s,
    ensures
        d.value() <= price.value() < d.value() + tick.value(),
        on_grid(d, tick),
        tick.value() == t * pow10((MAX_SCALE - s) as nat),
        d.value() == down * pow10((MAX_SCALE - s) as nat),
{
    let q = pow10((MAX_SCALE - s) as nat);
    let p = aligned(price, s);
    let k = p / t;
    lemma_pow10_positive((MAX_SCALE - s) as nat);
    lemma_aligned_value(price, s);
    lemma_aligned_value(tick, s);
    lemma_fundamental_div_mod(p, t);
    assert(d.value() <= price.value() < d.value() + tick.value()) by (nonlinear_arith)
        requires
            q >= 1,
            t > 0,
            d.value() == k * t * q,
            price.value() == p * q,
            tick.value() == t * q,
            p == t * k + p % t,
            0 <= p % t < t,
    ;
    assert(d.value() == k * (t * q)) by (nonlinear_arith)
        requires
            d.value() == k * t * q,
    ;
    lemma_mod_multiples_basic(k, t * q);
}

/// `r` is the largest multiple of `tick` at most `price`; or `price` itself when
/// `tick <= 0` or the grid does not fit.
pub open spec fn rounded_down(price: Dec, tick: Dec, r: Dec) -> bool {
    if tick.value() > 0 && grid_fits(price, tick) {
        &&& on_grid(r, tick)
        &&& r.value() <= price.value() < r.value() + tick.value()
    } else {
        r == price
    }
}

/// `r` is the smallest multiple of `tick` at least `price`; or `price` itself when
/// `tick <= 0` or the grid does not fit.
pub open spec fn rounded_up(price: Dec, tick: Dec, r: Dec) -> bool {
    if tick.value() > 0 && grid_fits(price, tick) {
        &&& on_grid(r, tick)
        &&& price.value() <= r.value() < price.value() + tick.value()
    } else {
        r == price
    }
}

/// The grid point at or below `price`, as `round_down_to_tick` computes it.
pub open spec fn grid_down(price: Dec, tick: Dec) -> Dec {
    if tick.value() > 0 && grid_fits(price, tick) {
        let s = common_scale(price, tick);
        let t = aligned(tick, s);
        Dec { mantissa: ((aligned(price, s) / t) * t) as i128, scale: s as u32 }
    } else {
        price
    }
}

/// The grid point at or above `price`, as `round_up_to_tick` computes it.
pub open spec fn grid_up(price: Dec, tick: Dec) -> Dec {
    if tick.value() > 0 && grid_fits(price, tick) {
        let s = common_scale(price, tick);
        let t = aligned(tick, s);
        let down = (aligned(price, s) / t) * t;
        if grid_down(price, tick).value() == price.value() {
            grid_down(price, tick)
        } else {
            Dec { mantissa: (down + t) as i128, scale: s as u32 }
        }
    } else {
        price
    }
}

/// The tick is positive at the common scale too.
proof fn lemma_aligned_tick_positive(price: Dec, tick: Dec)
    requires
        price.wf(),
        tick.wf(),
        tick.value() > 0,
    ensures
        aligned(tick, common_scale(price, tick)) > 0,
{
    let s = common_scale(price, tick);
    lemma_aligned_value(tick, s);
    lemma_pow10_positive((MAX_SCALE - s) as nat);
    let q = pow10((MAX_SCALE - s) as nat);
    let at = aligned(tick, s);
    assert(at > 0) by (nonlinear_arith)
        requires
            tick.value() == at * q,
            q >= 1,
            tick.value() > 0,
    ;
}

/// `grid_down` rounds down onto the grid.
pub proof fn lemma_grid_down_rounds(price: Dec, tick: Dec)
    requires
        price.wf(),
        tick.wf(),
    ensures
        rounded_down(price, tick, grid_down(price, tick)),
        grid_down(price, tick).wf(),
{
    if tick.value() > 0 && grid_fits(price, tick) {
        let s = common_scale(price, tick);
        let t = aligned(tick, s);
        lemma_aligned_tick_positive(price, tick);
        let down = (aligned(price, s) / t) * t;
        lemma_grid_point(price, tick, down, t, s, grid_down(price, tick));
    }
}

/// `grid_up` rounds up onto the grid.
pub proof fn lemma_grid_up_rounds(price: Dec, tick: Dec)
    requires
        price.wf(),
        tick.wf(),
    ensures
        rounded_up(price, tick, grid_up(price, tick)),
        grid_up(price, tick).wf(),
{
    if tick.value() > 0 && grid_fits(price, tick) {
        let s = common_scale(price, tick);
        let t = aligned(tick, s);
        lemma_aligned_tick_positive(price, tick);
        let down = (aligned(price, s) / t) * t;
        let d = grid_down(price, tick);
        lemma_grid_point(price, tick, down, t, s, d);
        if d.value() != price.value() {
            let r = grid_up(price, tick);
            let q = pow10((MAX_SCALE - s) as nat);
            assert(r.value() == d.value() + tick.value()) by (nonlinear_arith)
                requires
                    r.value() == (down + t) * q,
                    d.value() == down * q,
                    tick.value() == t * q,
            ;
            vstd::arithmetic::div_mod::lemma_mod_adds(d.value(), tick.value(), tick.value());
            lemma_mod_multiples_basic(1, tick.value());
        }
    }
}

/// Two multiples of `t` less than `t` apart are equal.
pub proof fn lemma_grid_points_close(a: int, b: int, t: int)
    requires
        t > 0,
        a % t == 0,
        b % t == 0,
        a <= b < a + t,
    ensures
        a == b,
{
    lemma_fundamental_div_mod(a, t);
    lemma_fundamental_div_mod(b, t);
    let x = a / t;
    let y = b / t;
    assert(x == y) by (nonlinear_arith)
        requires
            t > 0,
            a == t * x,
            b == t * y,
            a <= b < a + t,
    ;
}

/// Rounding up a price that was rounded down gives the rounded-down price or the
/// grid point one tick above it.
pub proof fn lemma_round_up_after_round_down(price: Dec, tick: Dec, down: Dec, up: Dec)
    requires
        rounded_down(price, tick, down),
        rounded_up(down, tick, up),
    ensures
        up.value() == down.value() || up.value() == down.value() + tick.value(),
{
    if tick.value() > 0 && grid_fits(price, tick) && grid_fits(down, tick) {
        lemma_grid_points_close(down.value(), up.value(), tick.value());
    }
}

/// The largest multiple of `tick` that is at most `price`; `price` itself when
/// `tick <= 0`, or when the grid does not fit (see `grid_fits`).
pub fn round_down_to_tick(price: Dec, tick: Dec) -> (r: Dec)
    requires
        price.wf(),
        tick.wf(),
    ensures
        r.wf(),
        r == grid_down(price, tick),
        rounded_down(price, tick, r),
{
    if !tick.is_positive() {
        return price;
    }
    match grid_floor(price, tick) {
        Some((down, t, s)) => {
            let r = Dec { mantissa: down, scale: s };
            proof {
                lemma_grid_point(price, tick, down as int, t as int, s as nat, r);
            }
            r
        },
        None => price,
    }
}

/// The smallest multiple of `tick` that is at least `price`; `price` itself when
/// `tick <= 0`, or when the grid does not fit (see `grid_fits`).
pub fn round_up_to_tick(price: Dec, tick: Dec) -> (r: Dec)
    requires
        price.wf(),
        tick.wf(),
    ensures
        r.wf(),
        r == grid_up(price, tick),
        rounded_up(price, tick, r),
{
    if !tick.is_positive() {
        return price;
    }
    match grid_floor(price, tick) {
        Some((down, t, s)) => {
            let d = Dec { mantissa: down, scale: s };
            proof {
                lemma_grid_point(price, tick, down as int, t as int, s as nat, d);
            }
            if d.same_value(price) {
                d
            } else {
                let r = Dec { mantissa: down + t, scale: s };
                proof {
                    let q = pow10((MAX_SCALE - s) as nat);
                    assert(r.value() == d.value() + tick.value()) by (nonlinear_arith)
                        requires
                            r.value() == (down + t) * q,
                            d.value() == down * q,
                            tick.value() == t * q,
                    ;
                    vstd::arithmetic::div_mod::lemma_mod_adds(d.value(), tick.value(), tick.value());
                    lemma_mod_multiples_basic(1, tick.value());
                }
                r
            }
        },
        None => price,
    }
}

} // verus!

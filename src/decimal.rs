//! Signed fixed-point decimal values, as held by `rust_decimal`: a mantissa of at
//! most 96 bits and a scale between 0 and 28. The value of `Dec { mantissa, scale }`
//! is `mantissa / 10^scale`; contracts speak of it in units of `10^-28`
//! (`value()`), where every such number is an integer.
//!
//! Arithmetic is done by `rust_decimal`. Comparisons are exact; a sum or a
//! difference is exact whenever the operands and the result fit at the larger of the
//! two scales; other results are rounded by `rust_decimal` and carry a name.
use vstd::prelude::*;

verus! {

/// Largest scale (digits after the point).
pub const MAX_SCALE: u32 = 28;

/// Largest magnitude of a mantissa: `2^96 - 1`.
pub const MAX_MANTISSA: i128 = 79228162514264337593543950335;

/// `10^n`.
pub open spec fn pow10(n: nat) -> int
    decreases n,
{
    if n == 0 {
        1
    } else {
        10 * pow10((n - 1) as nat)
    }
}

pub proof fn lemma_pow10_positive(n: nat)
    ensures
        pow10(n) >= 1,
    decreases n,
{
    if n > 0 {
        lemma_pow10_positive((n - 1) as nat);
    }
}

/// A decimal number `mantissa / 10^scale`.
#[derive(Clone, Copy, Debug)]
pub struct Dec {
    pub mantissa: i128,
    pub scale: u32,
}

/// The decimal zero.
pub open spec fn zero() -> Dec {
    Dec { mantissa: 0, scale: 0 }
}

/// The integer `n` as a decimal.
pub open spec fn int_dec(n: i64) -> Dec {
    Dec { mantissa: n as i128, scale: 0 }
}

/// Largest magnitude, in units of `10^-28`, of a value held at scale `s`.
pub open spec fn bound_at(s: nat) -> int {
    MAX_MANTISSA * pow10((MAX_SCALE - s) as nat)
}

impl Dec {
    /// The mantissa fits in 96 bits and the scale is at most 28.
    pub open spec fn wf(self) -> bool {
        -MAX_MANTISSA <= self.mantissa <= MAX_MANTISSA && self.scale <= MAX_SCALE
    }

    /// The value in units of `10^-28`.
    pub open spec fn value(self) -> int {
        self.mantissa * pow10((MAX_SCALE - self.scale) as nat)
    }

    /// `mantissa / 10^scale`.
    pub fn new(mantissa: i64, scale: u32) -> (r: Dec)
        requires
            scale <= MAX_SCALE,
        ensures
            r.wf(),
            r.mantissa == mantissa,
            r.scale == scale,
    {
        Dec { mantissa: mantissa as i128, scale }
    }

    /// The integer `n`.
    pub fn from_int(n: i64) -> (r: Dec)
        ensures
            r == (Dec { mantissa: n as i128, scale: 0 }),
            r.wf(),
            r.value() == n * pow10(28),
    {
        Dec { mantissa: n as i128, scale: 0 }
    }

    pub fn zero() -> (r: Dec)
        ensures
            r == (Dec { mantissa: 0, scale: 0 }),
            r.wf(),
            r.value() == 0,
    {
        Dec { mantissa: 0, scale: 0 }
    }

    /// `-self`, exactly.
    pub fn neg(self) -> (r: Dec)
        requires
            self.wf(),
        ensures
            r == (Dec { mantissa: (-self.mantissa) as i128, scale: self.scale }),
            r.wf(),
            r.value() == -self.value(),
    {
        let r = Dec { mantissa: -self.mantissa, scale: self.scale };
        assert(r.value() == -self.value()) by (nonlinear_arith)
            requires
                r.mantissa == -self.mantissa,
                r.scale == self.scale,
                r.value() == r.mantissa * pow10((MAX_SCALE - r.scale) as nat),
                self.value() == self.mantissa * pow10((MAX_SCALE - self.scale) as nat),
        ;
        r
    }

    /// Whether the value is zero.
    pub fn is_zero(self) -> (r: bool)
        requires
            self.wf(),
        ensures
            r == (self.value() == 0),
    {
        proof {
            lemma_pow10_positive((MAX_SCALE - self.scale) as nat);
            lemma_value_sign(self);
        }
        self.mantissa == 0
    }

    /// Whether the value is above zero.
    pub fn is_positive(self) -> (r: bool)
        requires
            self.wf(),
        ensures
            r == (self.value() > 0),
    {
        proof {
            lemma_value_sign(self);
        }
        self.mantissa > 0
    }

    /// `self < o`, exactly.
    pub fn lt(self, o: Dec) -> (r: bool)
        requires
            self.wf(),
            o.wf(),
        ensures
            r == (self.value() < o.value()),
    {
        compare(self, o) < 0
    }

    /// `self <= o`, exactly.
    pub fn le(self, o: Dec) -> (r: bool)
        requires
            self.wf(),
            o.wf(),
        ensures
            r == (self.value() <= o.value()),
    {
        compare(self, o) <= 0
    }

    /// `self == o` as numbers (the scales may differ).
    pub fn same_value(self, o: Dec) -> (r: bool)
        requires
            self.wf(),
            o.wf(),
        ensures
            r == (self.value() == o.value()),
    {
        compare(self, o) == 0
    }

    /// The smaller of two values (`self` on a tie).
    pub fn min(self, o: Dec) -> (r: Dec)
        requires
            self.wf(),
            o.wf(),
        ensures
            r == (if o.value() < self.value() { o } else { self }),
    {
        if o.lt(self) {
            o
        } else {
            self
        }
    }

    /// The larger of two values (`self` on a tie).
    pub fn max(self, o: Dec) -> (r: Dec)
        requires
            self.wf(),
            o.wf(),
        ensures
            r == (if self.value() < o.value() { o } else { self }),
    {
        if self.lt(o) {
            o
        } else {
            self
        }
    }
}

/// The sign of a value is that of its mantissa.
pub proof fn lemma_value_sign(d: Dec)
    ensures
        (d.value() > 0) == (d.mantissa > 0),
        (d.value() == 0) == (d.mantissa == 0),
        (d.value() < 0) == (d.mantissa < 0),
{
    let p = pow10((MAX_SCALE - d.scale) as nat);
    lemma_pow10_positive((MAX_SCALE - d.scale) as nat);
    assert((d.mantissa * p > 0) == (d.mantissa > 0)) by (nonlinear_arith)
        requires
            p >= 1,
    ;
    assert((d.mantissa * p == 0) == (d.mantissa == 0)) by (nonlinear_arith)
        requires
            p >= 1,
    ;
    assert((d.mantissa * p < 0) == (d.mantissa < 0)) by (nonlinear_arith)
        requires
            p >= 1,
    ;
}

/// Both operands and `v` fit at the larger of the two scales, so that a sum or a
/// difference with value `v` needs no rounding.
pub open spec fn fits_aligned(a: Dec, b: Dec, v: int) -> bool {
    let s = if a.scale <= b.scale { b.scale } else { a.scale };
    &&& -bound_at(s as nat) <= a.value() <= bound_at(s as nat)
    &&& -bound_at(s as nat) <= b.value() <= bound_at(s as nat)
    &&& -bound_at(s as nat) <= v <= bound_at(s as nat)
}

/// The product of the mantissas fits in 96 bits, at a scale of at most 28.
pub open spec fn product_fits(a: Dec, b: Dec) -> bool {
    a.scale + b.scale <= MAX_SCALE && -MAX_MANTISSA <= a.mantissa * b.mantissa <= MAX_MANTISSA
}

/// A well-formed value fits at its own scale.
pub proof fn lemma_fits_own_scale(d: Dec)
    requires
        d.wf(),
    ensures
        -bound_at(d.scale as nat) <= d.value() <= bound_at(d.scale as nat),
{
    let p = pow10((MAX_SCALE - d.scale) as nat);
    lemma_pow10_positive((MAX_SCALE - d.scale) as nat);
    assert(-MAX_MANTISSA * p <= d.mantissa * p <= MAX_MANTISSA * p) by (nonlinear_arith)
        requires
            p >= 1,
            -MAX_MANTISSA <= d.mantissa <= MAX_MANTISSA,
    ;
}

/// What `rust_decimal` gives for `a + b` (`None` on overflow).
pub uninterp spec fn decimal_sum(a: Dec, b: Dec) -> Option<Dec>;

/// What `rust_decimal` gives for `a - b` (`None` on overflow).
pub uninterp spec fn decimal_difference(a: Dec, b: Dec) -> Option<Dec>;

/// What `rust_decimal` gives for `a * b` (`None` on overflow).
pub uninterp spec fn decimal_product(a: Dec, b: Dec) -> Option<Dec>;

/// What `rust_decimal` gives for `a / b` (`None` on overflow or a zero divisor).
pub uninterp spec fn decimal_quotient(a: Dec, b: Dec) -> Option<Dec>;

/// Relies on `Ord for rust_decimal::Decimal`: it orders decimals by their values,
/// whatever their scales.
#[verifier::external_body]
fn compare(a: Dec, b: Dec) -> (r: i8)
    requires
        a.wf(),
        b.wf(),
    ensures
        (r < 0) == (a.value() < b.value()),
        (r == 0) == (a.value() == b.value()),
        (r > 0) == (a.value() > b.value()),
{
    let x = rust_decimal::Decimal::from_i128_with_scale(a.mantissa, a.scale);
    let y = rust_decimal::Decimal::from_i128_with_scale(b.mantissa, b.scale);
    match x.cmp(&y) {
        std::cmp::Ordering::Less => -1,
        std::cmp::Ordering::Equal => 0,
        std::cmp::Ordering::Greater => 1,
    }
}

/// Relies on `rust_decimal::Decimal::checked_add`: `None` on overflow; the sum is
/// exact when the operands and the result fit at the larger scale.
#[verifier::external_body]
fn checked_add(a: Dec, b: Dec) -> (r: Option<Dec>)
    requires
        a.wf(),
        b.wf(),
    ensures
        r == decimal_sum(a, b),
        r is Some ==> r->0.wf(),
        fits_aligned(a, b, a.value() + b.value()) ==> (r is Some && r->0.value() == a.value() + b.value()),
{
    let x = rust_decimal::Decimal::from_i128_with_scale(a.mantissa, a.scale);
    let y = rust_decimal::Decimal::from_i128_with_scale(b.mantissa, b.scale);
    x.checked_add(y).map(|z| Dec { mantissa: z.mantissa(), scale: z.scale() })
}

/// Relies on `rust_decimal::Decimal::checked_sub`: `None` on overflow; the
/// difference is exact when the operands and the result fit at the larger scale.
#[verifier::external_body]
fn checked_sub(a: Dec, b: Dec) -> (r: Option<Dec>)
    requires
        a.wf(),
        b.wf(),
    ensures
        r == decimal_difference(a, b),
        r is Some ==> r->0.wf(),
        fits_aligned(a, b, a.value() - b.value()) ==> (r is Some && r->0.value() == a.value() - b.value()),
{
    let x = rust_decimal::Decimal::from_i128_with_scale(a.mantissa, a.scale);
    let y = rust_decimal::Decimal::from_i128_with_scale(b.mantissa, b.scale);
    x.checked_sub(y).map(|z| Dec { mantissa: z.mantissa(), scale: z.scale() })
}

/// Relies on `rust_decimal::Decimal::checked_mul`: the product, rounded to 28
/// digits after the point, or `None` on overflow; zero when an operand is zero,
/// and exact when the mantissas' product fits in 96 bits at the summed scale.
#[verifier::external_body]
fn checked_mul(a: Dec, b: Dec) -> (r: Option<Dec>)
    requires
        a.wf(),
        b.wf(),
    ensures
        r == decimal_product(a, b),
        r is Some ==> r->0.wf(),
        a.mantissa == 0 || b.mantissa == 0 ==> r == Some(Dec { mantissa: 0, scale: 0 }),
        product_fits(a, b) ==> (r is Some && r->0.value() == a.mantissa * b.mantissa * pow10((MAX_SCALE - a.scale - b.scale) as nat)),
{
    let x = rust_decimal::Decimal::from_i128_with_scale(a.mantissa, a.scale);
    let y = rust_decimal::Decimal::from_i128_with_scale(b.mantissa, b.scale);
    x.checked_mul(y).map(|z| Dec { mantissa: z.mantissa(), scale: z.scale() })
}

/// Relies on `rust_decimal::Decimal::checked_div`: the quotient, rounded to fit,
/// or `None` on overflow or a zero divisor; zero for a zero dividend.
#[verifier::external_body]
fn checked_div(a: Dec, b: Dec) -> (r: Option<Dec>)
    requires
        a.wf(),
        b.wf(),
    ensures
        r == decimal_quotient(a, b),
        r is Some ==> r->0.wf(),
        b.mantissa == 0 ==> r is None,
        a.mantissa == 0 && b.mantissa != 0 ==> r == Some(Dec { mantissa: 0, scale: 0 }),
{
    let x = rust_decimal::Decimal::from_i128_with_scale(a.mantissa, a.scale);
    let y = rust_decimal::Decimal::from_i128_with_scale(b.mantissa, b.scale);
    x.checked_div(y).map(|z| Dec { mantissa: z.mantissa(), scale: z.scale() })
}

impl Dec {
    /// `self + o` as `rust_decimal` computes it.
    pub fn add(self, o: Dec) -> (r: Option<Dec>)
        requires
            self.wf(),
            o.wf(),
        ensures
            r == decimal_sum(self, o),
            r is Some ==> r->0.wf(),
            fits_aligned(self, o, self.value() + o.value()) ==> (r is Some && r->0.value() == self.value() + o.value()),
    {
        checked_add(self, o)
    }

    /// `self - o` as `rust_decimal` computes it.
    pub fn sub(self, o: Dec) -> (r: Option<Dec>)
        requires
            self.wf(),
            o.wf(),
        ensures
            r == decimal_difference(self, o),
            r is Some ==> r->0.wf(),
            fits_aligned(self, o, self.value() - o.value()) ==> (r is Some && r->0.value() == self.value() - o.value()),
    {
        checked_sub(self, o)
    }

    /// `self * o` as `rust_decimal` computes it.
    pub fn mul(self, o: Dec) -> (r: Option<Dec>)
        requires
            self.wf(),
            o.wf(),
        ensures
            r == decimal_product(self, o),
            r is Some ==> r->0.wf(),
            self.mantissa == 0 || o.mantissa == 0 ==> r == Some(Dec { mantissa: 0, scale: 0 }),
            product_fits(self, o) ==> (r is Some && r->0.value() == self.mantissa * o.mantissa * pow10((MAX_SCALE - self.scale - o.scale) as nat)),
    {
        checked_mul(self, o)
    }

    /// `self / o` as `rust_decimal` computes it.
    pub fn div(self, o: Dec) -> (r: Option<Dec>)
        requires
            self.wf(),
            o.wf(),
        ensures
            r == decimal_quotient(self, o),
            r is Some ==> r->0.wf(),
            o.mantissa == 0 ==> r is None,
            self.mantissa == 0 && o.mantissa != 0 ==> r == Some(Dec { mantissa: 0, scale: 0 }),
    {
        checked_div(self, o)
    }
}

} // verus!

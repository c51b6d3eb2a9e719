//! Exact rational numbers with `i64` numerator and denominator.
//!
//! Every arithmetic operation is checked: a result whose numerator or
//! denominator would leave the `i64` range is reported as `None` rather
//! than wrapped or approximated.

use vstd::prelude::*;

verus! {

/// True when `n` lies in the `i64` range.
pub open spec fn fits_i64(n: int) -> bool {
    -0x8000000000000000 <= n <= 0x7fffffffffffffff
}

/// An exact rational number `num / den`.  Well-formed values keep the
/// denominator strictly positive; the fraction is not reduced.
#[derive(Clone, Copy, PartialEq, Eq, Structural, Debug)]
pub struct Rational {
    pub num: i64,
    pub den: i64,
}

impl Rational {
    /// The denominator is strictly positive.
    pub open spec fn wf(self) -> bool {
        self.den >= 1
    }

    /// Mathematical equality of the two fractions: `a/b == c/d` exactly
    /// when `a*d == c*b`.
    pub open spec fn eqv(self, other: Rational) -> bool {
        self.num * other.den == other.num * self.den
    }

    /// The rational with value `n`.
    pub fn from_int(n: i64) -> (r: Rational)
        ensures
            r == (Rational { num: n, den: 1 }),
            r.wf(),
    {
        Rational { num: n, den: 1 }
    }

    /// Decide mathematical equality of two rationals.
    pub fn value_eq(&self, other: &Rational) -> (r: bool)
        ensures
            r == self.eqv(*other),
    {
        proof {
            lemma_i64_product_bounded(self.num as int, other.den as int);
            lemma_i64_product_bounded(other.num as int, self.den as int);
        }
        (self.num as i128) * (other.den as i128) == (other.num as i128) * (self.den as i128)
    }
}

/// The product of two `i64` values fits comfortably in `i128`.
proof fn lemma_i64_product_bounded(x: int, y: int)
    requires
        -0x8000000000000000 <= x <= 0x7fffffffffffffff,
        -0x8000000000000000 <= y <= 0x7fffffffffffffff,
    ensures
        -0x40000000000000000000000000000000 <= x * y
            <= 0x40000000000000000000000000000000,
{
    assert(-0x40000000000000000000000000000000 <= x * y
        <= 0x40000000000000000000000000000000) by (nonlinear_arith)
        requires
            -0x8000000000000000 <= x <= 0x7fffffffffffffff,
            -0x8000000000000000 <= y <= 0x7fffffffffffffff;
}

/// The product of an `i64` value with a positive `i64` value stays strictly
/// below half of the `i128` range, so two such products can be added in
/// `i128` without overflow.
proof fn lemma_num_den_product_bounded(x: int, y: int)
    requires
        -0x8000000000000000 <= x <= 0x7fffffffffffffff,
        1 <= y <= 0x7fffffffffffffff,
    ensures
        -0x3fffffffffffffff8000000000000000 <= x * y
            <= 0x3fffffffffffffff8000000000000000,
{
    assert(-0x3fffffffffffffff8000000000000000 <= x * y
        <= 0x3fffffffffffffff8000000000000000) by (nonlinear_arith)
        requires
            -0x8000000000000000 <= x <= 0x7fffffffffffffff,
            1 <= y <= 0x7fffffffffffffff;
}

/// The product of a positive `i64` value with the magnitude of a negative
/// `i64` value is positive and fits in `i128`.
proof fn lemma_den_magnitude_product_bounded(x: int, y: int)
    requires
        1 <= x <= 0x7fffffffffffffff,
        1 <= y <= 0x8000000000000000,
    ensures
        1 <= x * y <= 0x40000000000000000000000000000000,
{
    assert(1 <= x * y <= 0x40000000000000000000000000000000) by (nonlinear_arith)
        requires
            1 <= x <= 0x7fffffffffffffff,
            1 <= y <= 0x8000000000000000;
}

/// A product of two positive values is positive.
proof fn lemma_pos_product(x: int, y: int)
    requires
        x >= 1,
        y >= 1,
    ensures
        x * y >= 1,
{
    assert(x * y >= 1) by (nonlinear_arith)
        requires
            x >= 1,
            y >= 1;
}

/// The sum `a/b + c/d`, as `(a*d + c*b) / (b*d)`, when it fits.
pub open spec fn spec_add(a: Rational, b: Rational) -> Option<Rational> {
    let n = a.num * b.den + b.num * a.den;
    let d = a.den * b.den;
    if fits_i64(n) && fits_i64(d) {
        Some(Rational { num: n as i64, den: d as i64 })
    } else {
        None
    }
}

/// The difference `a/b - c/d`, as `(a*d - c*b) / (b*d)`, when it fits.
pub open spec fn spec_sub(a: Rational, b: Rational) -> Option<Rational> {
    let n = a.num * b.den - b.num * a.den;
    let d = a.den * b.den;
    if fits_i64(n) && fits_i64(d) {
        Some(Rational { num: n as i64, den: d as i64 })
    } else {
        None
    }
}

/// The product `(a*c) / (b*d)`, when it fits.
pub open spec fn spec_mul(a: Rational, b: Rational) -> Option<Rational> {
    let n = a.num * b.num;
    let d = a.den * b.den;
    if fits_i64(n) && fits_i64(d) {
        Some(Rational { num: n as i64, den: d as i64 })
    } else {
        None
    }
}

/// The negation `-(a/b)`, when the numerator's negation fits.
pub open spec fn spec_neg(a: Rational) -> Option<Rational> {
    if fits_i64(-a.num) {
        Some(Rational { num: (-a.num) as i64, den: a.den })
    } else {
        None
    }
}

/// The quotient `(a/b) / (c/d)` as `(a*d) / (b*c)`, with the sign moved to
/// the numerator so the denominator stays positive.  `None` when the divisor
/// is zero or the result does not fit.
pub open spec fn spec_div(a: Rational, b: Rational) -> Option<Rational> {
    if b.num == 0 {
        None
    } else {
        let n = if b.num > 0 { a.num * b.den } else { -(a.num * b.den) };
        let d = if b.num > 0 { a.den * b.num } else { a.den * (-b.num) };
        if fits_i64(n) && fits_i64(d) {
            Some(Rational { num: n as i64, den: d as i64 })
        } else {
            None
        }
    }
}

/// Checked addition.
pub fn rat_add(a: Rational, b: Rational) -> (r: Option<Rational>)
    requires
        a.wf(),
        b.wf(),
    ensures
        r == spec_add(a, b),
        r matches Some(v) ==> v.wf(),
{
    proof {
        lemma_num_den_product_bounded(a.num as int, b.den as int);
        lemma_num_den_product_bounded(b.num as int, a.den as int);
        lemma_num_den_product_bounded(a.den as int, b.den as int);
        lemma_pos_product(a.den as int, b.den as int);
    }
    let n: i128 = (a.num as i128) * (b.den as i128) + (b.num as i128) * (a.den as i128);
    let d: i128 = (a.den as i128) * (b.den as i128);
    if -0x8000000000000000i128 <= n && n <= 0x7fffffffffffffffi128
        && -0x8000000000000000i128 <= d && d <= 0x7fffffffffffffffi128 {
        Some(Rational { num: n as i64, den: d as i64 })
    } else {
        None
    }
}

/// Checked subtraction.
pub fn rat_sub(a: Rational, b: Rational) -> (r: Option<Rational>)
    requires
        a.wf(),
        b.wf(),
    ensures
        r == spec_sub(a, b),
        r matches Some(v) ==> v.wf(),
{
    proof {
        lemma_num_den_product_bounded(a.num as int, b.den as int);
        lemma_num_den_product_bounded(b.num as int, a.den as int);
        lemma_num_den_product_bounded(a.den as int, b.den as int);
        lemma_pos_product(a.den as int, b.den as int);
    }
    let n: i128 = (a.num as i128) * (b.den as i128) - (b.num as i128) * (a.den as i128);
    let d: i128 = (a.den as i128) * (b.den as i128);
    if -0x8000000000000000i128 <= n && n <= 0x7fffffffffffffffi128
        && -0x8000000000000000i128 <= d && d <= 0x7fffffffffffffffi128 {
        Some(Rational { num: n as i64, den: d as i64 })
    } else {
        None
    }
}

/// Checked multiplication.
pub fn rat_mul(a: Rational, b: Rational) -> (r: Option<Rational>)
    requires
        a.wf(),
        b.wf(),
    ensures
        r == spec_mul(a, b),
        r matches Some(v) ==> v.wf(),
{
    proof {
        lemma_i64_product_bounded(a.num as int, b.num as int);
        lemma_num_den_product_bounded(a.den as int, b.den as int);
        lemma_pos_product(a.den as int, b.den as int);
    }
    let n: i128 = (a.num as i128) * (b.num as i128);
    let d: i128 = (a.den as i128) * (b.den as i128);
    if -0x8000000000000000i128 <= n && n <= 0x7fffffffffffffffi128
        && -0x8000000000000000i128 <= d && d <= 0x7fffffffffffffffi128 {
        Some(Rational { num: n as i64, den: d as i64 })
    } else {
        None
    }
}

/// Checked negation.
pub fn rat_neg(a: Rational) -> (r: Option<Rational>)
    requires
        a.wf(),
    ensures
        r == spec_neg(a),
        r matches Some(v) ==> v.wf(),
{
    if a.num == -0x8000000000000000i64 {
        None
    } else {
        Some(Rational { num: -a.num, den: a.den })
    }
}

/// Checked division.
pub fn rat_div(a: Rational, b: Rational) -> (r: Option<Rational>)
    requires
        a.wf(),
        b.wf(),
    ensures
        r == spec_div(a, b),
        r matches Some(v) ==> v.wf(),
{
    if b.num == 0 {
        None
    } else {
        proof {
            lemma_num_den_product_bounded(a.num as int, b.den as int);
            lemma_i64_product_bounded(a.den as int, b.num as int);
            if b.num >= 1 {
                lemma_pos_product(a.den as int, b.num as int);
            } else {
                lemma_den_magnitude_product_bounded(a.den as int, -(b.num as int));
            }
        }
        let n: i128 = if b.num > 0 {
            (a.num as i128) * (b.den as i128)
        } else {
            -((a.num as i128) * (b.den as i128))
        };
        let d: i128 = if b.num > 0 {
            (a.den as i128) * (b.num as i128)
        } else {
            (a.den as i128) * (-(b.num as i128))
        };
        if -0x8000000000000000i128 <= n && n <= 0x7fffffffffffffffi128
            && -0x8000000000000000i128 <= d && d <= 0x7fffffffffffffffi128 {
            Some(Rational { num: n as i64, den: d as i64 })
        } else {
            None
        }
    }
}

} // verus!

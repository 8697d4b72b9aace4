//! Decimal fixed-point numbers.
//!
//! A [`Scalar`] counts millionths of a user-space unit in a signed 64-bit
//! integer. Sums, differences and products are computed exactly and then
//! brought back into the representable range, so no operation can overflow.

use crate::text::{decimal, digit, digit_char, push_decimal};
use vstd::prelude::*;

verus! {

/// The value nearest to `v` that a scalar can hold.
pub open spec fn clamp(v: int) -> int {
    if v < i64::MIN {
        i64::MIN as int
    } else if v > i64::MAX {
        i64::MAX as int
    } else {
        v
    }
}

/// The quotient `n / d` rounded to the nearest integer, a tie going away
/// from zero. Meant for `d > 0`.
pub open spec fn round_div(n: int, d: int) -> int {
    if n >= 0 {
        (2 * n + d) / (2 * d)
    } else {
        -((2 * (-n) + d) / (2 * d))
    }
}

/// The digits of the fraction `f / (10 * unit)`, from the tenths on, without
/// trailing zeros. Meant for `unit` a power of ten and `f < 10 * unit`.
pub open spec fn fraction_digits(f: nat, unit: nat) -> Seq<char>
    decreases unit,
{
    if f == 0 || unit == 0 {
        Seq::empty()
    } else {
        seq![digit((f / unit) as int)] + fraction_digits(f % unit, unit / 10)
    }
}

/// How a value of `v` millionths is written: an optional minus sign, the
/// whole part, and, unless the value is whole, a point and the fractional
/// digits up to the last one that is not zero.
#[verifier::opaque]
pub open spec fn decimal_text(v: int) -> Seq<char> {
    let m = if v < 0 { -v } else { v };
    let sign = if v < 0 { seq!['-'] } else { Seq::<char>::empty() };
    let whole = decimal((m / 1_000_000) as nat);
    let fraction = if m % 1_000_000 == 0 {
        Seq::<char>::empty()
    } else {
        seq!['.'] + fraction_digits((m % 1_000_000) as nat, 100_000)
    };
    sign + whole + fraction
}

/// A decimal fixed-point number with six fractional digits.
#[derive(Clone, Copy, Debug, PartialEq, Eq, Structural)]
pub struct Scalar {
    /// The value in millionths of a unit.
    pub micros: i64,
}

impl View for Scalar {
    type V = int;

    /// The value in millionths, as a mathematical integer.
    open spec fn view(&self) -> int {
        self.micros as int
    }
}

/// Brings an exactly computed value back into the 64-bit range.
fn saturate(v: i128) -> (r: i64)
    ensures
        r as int == clamp(v as int),
{
    if v < i64::MIN as i128 {
        i64::MIN
    } else if v > i64::MAX as i128 {
        i64::MAX
    } else {
        v as i64
    }
}

/// Rounded division of a wide numerator by a positive divisor.
fn rounded_quotient(n: i128, d: i128) -> (r: i128)
    requires
        0 < d <= 1_000_000,
        -0x4000_0000_0000_0000_0000_0000_0000_0000 <= n
            <= 0x4000_0000_0000_0000_0000_0000_0000_0000,
    ensures
        r as int == round_div(n as int, d as int),
{
    let m: i128 = if n >= 0 { n } else { -n };
    let q: i128 = m / d;
    let rest: i128 = m % d;
    let up: i128 = if rest >= d - rest { 1 } else { 0 };
    proof {
        let qi = q as int;
        let di = d as int;
        let ri = rest as int;
        assert(m == qi * di + ri) by {
            vstd::arithmetic::div_mod::lemma_fundamental_div_mod(m as int, di);
            assert(di * qi == qi * di) by (nonlinear_arith);
        }
        assert(2 * m + di == (qi + up) * (2 * di) + (2 * ri + di - up * (2 * di)))
            by (nonlinear_arith)
            requires
                m == qi * di + ri,
        ;
        vstd::arithmetic::div_mod::lemma_fundamental_div_mod_converse(
            2 * m + di,
            2 * di,
            qi + up,
            2 * ri + di - up * (2 * di),
        );
        assert(0 <= qi <= m) by (nonlinear_arith)
            requires
                m == qi * di + ri,
                0 <= ri < di,
                0 <= m,
        ;
    }
    if n >= 0 {
        q + up
    } else {
        -(q + up)
    }
}

/// Appends the fractional digits of `f / (10 * unit)` to `out`.
fn push_fraction(out: &mut String, f: u64, unit: u64)
    requires
        f == 0 || unit == 1 || unit == 10 || unit == 100 || unit == 1_000 || unit == 10_000
            || unit == 100_000,
        f == 0 || f < 10 * unit,
    ensures
        final(out)@ == old(out)@ + fraction_digits(f as nat, unit as nat),
    decreases unit,
{
    if f != 0 {
        out.push(digit_char((f / unit) as u8));
        push_fraction(out, f % unit, unit / 10);
    }
}

impl Scalar {
    /// The scalar that holds the integer `v`, brought into range.
    pub open spec fn of(v: int) -> Scalar {
        Scalar { micros: clamp(v) as i64 }
    }

    /// The sum of two scalars.
    pub open spec fn spec_plus(self, other: Scalar) -> Scalar {
        Scalar::of(self@ + other@)
    }

    /// The difference of two scalars.
    pub open spec fn spec_minus(self, other: Scalar) -> Scalar {
        Scalar::of(self@ - other@)
    }

    /// The negation of a scalar.
    pub open spec fn spec_negated(self) -> Scalar {
        Scalar::of(-self@)
    }

    /// The product of two scalars, rounded to the nearest millionth.
    pub open spec fn spec_times(self, other: Scalar) -> Scalar {
        Scalar::of(round_div(self@ * other@, 1_000_000))
    }

    /// Half of a scalar, rounded to the nearest millionth.
    pub open spec fn spec_half(self) -> Scalar {
        Scalar::of(round_div(self@, 2))
    }

    /// The smaller of two scalars.
    pub open spec fn spec_min(self, other: Scalar) -> Scalar {
        if self@ <= other@ {
            self
        } else {
            other
        }
    }

    /// The larger of two scalars.
    pub open spec fn spec_max(self, other: Scalar) -> Scalar {
        if self@ >= other@ {
            self
        } else {
            other
        }
    }

    /// The point two thirds of the way from `self` to `to`, rounded to the
    /// nearest millionth.
    pub open spec fn spec_toward(self, to: Scalar) -> Scalar {
        Scalar::of(self@ + round_div(2 * (to@ - self@), 3))
    }

    /// A scalar rounded to the nearest hundredth of a unit.
    pub open spec fn spec_round2(self) -> Scalar {
        Scalar::of(round_div(self@, 10_000) * 10_000)
    }

    /// Whether the magnitude is at most a million million units. Sums of a
    /// few such values are far from the ends of the range.
    pub open spec fn moderate(self) -> bool {
        -1_000_000_000_000_000_000 <= self@ <= 1_000_000_000_000_000_000
    }

    /// The scalar that holds `micros` millionths.
    pub fn from_micros(micros: i64) -> (r: Scalar)
        ensures
            r@ == micros,
    {
        Scalar { micros }
    }

    /// The scalar nearest to `units` whole units.
    pub fn from_units(units: i64) -> (r: Scalar)
        ensures
            r == Scalar::of(units * 1_000_000),
    {
        let wide: i128 = units as i128 * 1_000_000;
        Scalar { micros: saturate(wide) }
    }

    /// Zero.
    pub fn zero() -> (r: Scalar)
        ensures
            r@ == 0,
    {
        Scalar { micros: 0 }
    }

    /// The largest scalar.
    pub fn largest() -> (r: Scalar)
        ensures
            r@ == i64::MAX,
    {
        Scalar { micros: i64::MAX }
    }

    /// The smallest scalar.
    pub fn smallest() -> (r: Scalar)
        ensures
            r@ == i64::MIN,
    {
        Scalar { micros: i64::MIN }
    }

    /// The sum, saturating at the ends of the range.
    pub fn plus(self, other: Scalar) -> (r: Scalar)
        ensures
            r == self.spec_plus(other),
    {
        Scalar { micros: saturate(self.micros as i128 + other.micros as i128) }
    }

    /// The difference, saturating at the ends of the range.
    pub fn minus(self, other: Scalar) -> (r: Scalar)
        ensures
            r == self.spec_minus(other),
    {
        Scalar { micros: saturate(self.micros as i128 - other.micros as i128) }
    }

    /// The negation, saturating at the upper end of the range.
    pub fn negated(self) -> (r: Scalar)
        ensures
            r == self.spec_negated(),
    {
        Scalar { micros: saturate(-(self.micros as i128)) }
    }

    /// The product, rounded to the nearest millionth and saturating.
    pub fn times(self, other: Scalar) -> (r: Scalar)
        ensures
            r == self.spec_times(other),
    {
        let a: i128 = self.micros as i128;
        let b: i128 = other.micros as i128;
        assert(-0x4000_0000_0000_0000_0000_0000_0000_0000 <= a * b
            <= 0x4000_0000_0000_0000_0000_0000_0000_0000) by (nonlinear_arith)
            requires
                -0x8000_0000_0000_0000 <= a <= 0x7fff_ffff_ffff_ffff,
                -0x8000_0000_0000_0000 <= b <= 0x7fff_ffff_ffff_ffff,
        ;
        let q: i128 = rounded_quotient(a * b, 1_000_000);
        Scalar { micros: saturate(q) }
    }

    /// Half of the value, rounded to the nearest millionth.
    pub fn half(self) -> (r: Scalar)
        ensures
            r == self.spec_half(),
    {
        let q: i128 = rounded_quotient(self.micros as i128, 2);
        Scalar { micros: saturate(q) }
    }

    /// The smaller of two scalars.
    pub fn min(self, other: Scalar) -> (r: Scalar)
        ensures
            r == self.spec_min(other),
    {
        if self.micros <= other.micros {
            self
        } else {
            other
        }
    }

    /// The larger of two scalars.
    pub fn max(self, other: Scalar) -> (r: Scalar)
        ensures
            r == self.spec_max(other),
    {
        if self.micros >= other.micros {
            self
        } else {
            other
        }
    }

    /// The point two thirds of the way from this value to `to`, rounded to
    /// the nearest millionth and saturating.
    pub fn toward(self, to: Scalar) -> (r: Scalar)
        ensures
            r == self.spec_toward(to),
    {
        let from: i128 = self.micros as i128;
        let step: i128 = rounded_quotient(2 * (to.micros as i128 - from), 3);
        assert(-0x2_0000_0000_0000_0000 <= step <= 0x2_0000_0000_0000_0000) by {
            let n = 2 * (to@ - self@);
            if n >= 0 {
                assert((2 * n + 3) / 6 <= n);
            } else {
                assert((2 * (-n) + 3) / 6 <= -n);
            }
        }
        Scalar { micros: saturate(from + step) }
    }

    /// The value rounded to the nearest hundredth of a unit, a tie going
    /// away from zero.
    pub fn round2(self) -> (r: Scalar)
        ensures
            r == self.spec_round2(),
    {
        let q: i128 = rounded_quotient(self.micros as i128, 10_000);
        assert(-0x8000_0000_0000_0000 <= q <= 0x8000_0000_0000_0000) by {
            let x = self@;
            if x >= 0 {
                assert((2 * x + 10_000) / 20_000 <= x);
            } else {
                assert((2 * (-x) + 10_000) / 20_000 <= -x);
            }
        }
        Scalar { micros: saturate(q * 10_000) }
    }

    /// The decimal text of the value.
    pub fn to_string(&self) -> (r: String)
        ensures
            r@ == decimal_text(self@),
    {
        let v: i128 = self.micros as i128;
        let m: i128 = if v < 0 { -v } else { v };
        let whole: u64 = (m / 1_000_000) as u64;
        let rest: u64 = (m % 1_000_000) as u64;
        let mut out = String::new();
        if v < 0 {
            out.push('-');
        }
        push_decimal(&mut out, whole);
        if rest != 0 {
            out.push('.');
            push_fraction(&mut out, rest, 100_000);
        }
        proof {
            reveal(decimal_text);
            assert(out@ =~= decimal_text(self@));
        }
        out
    }
}

/// Adding two moderate shifts one after the other to a moderate value is
/// adding their sum.
pub proof fn lemma_plus_twice(x: Scalar, a: Scalar, b: Scalar)
    requires
        x.moderate(),
        a.moderate(),
        b.moderate(),
    ensures
        x.spec_plus(a).spec_plus(b) == x.spec_plus(a.spec_plus(b)),
{
}

/// Multiplying by one changes nothing.
pub proof fn lemma_times_one(x: Scalar)
    ensures
        x.spec_times(Scalar::of(1_000_000)) == x,
{
    let n = x@ * 1_000_000;
    if x@ >= 0 {
        assert((2 * n + 1_000_000) / 2_000_000 == x@);
    } else {
        assert((2 * (-n) + 1_000_000) / 2_000_000 == -x@);
    }
}

/// Rounded division gives the nearest integer: the quotient times the
/// divisor differs from the numerator by at most half the divisor.
pub proof fn lemma_round_div_is_nearest(n: int, d: int)
    requires
        d > 0,
    ensures
        -d <= 2 * (round_div(n, d) * d - n) <= d,
{
    let m = if n >= 0 { n } else { -n };
    let q = (2 * m + d) / (2 * d);
    let r = (2 * m + d) % (2 * d);
    vstd::arithmetic::div_mod::lemma_fundamental_div_mod(2 * m + d, 2 * d);
    assert(0 <= r < 2 * d) by {
        vstd::arithmetic::div_mod::lemma_mod_pos_bound(2 * m + d, 2 * d);
    }
    assert(2 * (q * d - m) == d - r) by (nonlinear_arith)
        requires
            2 * m + d == (2 * d) * q + r,
    ;
    if n < 0 {
        assert((-q) * d == -(q * d)) by (nonlinear_arith);
    }
}

/// Rounded division is symmetric about zero.
pub proof fn lemma_round_div_negated(n: int, d: int)
    requires
        d > 0,
    ensures
        round_div(-n, d) == -round_div(n, d),
{
    if n == 0 {
        vstd::arithmetic::div_mod::lemma_basic_div(d, 2 * d);
    }
}

/// Flipping the sign of a factor flips the sign of the product, as long as
/// neither the flip nor the product reaches an end of the range.
pub proof fn lemma_times_negated(x: Scalar, s: Scalar)
    requires
        x@ != i64::MIN,
        s@ != i64::MIN,
        i64::MIN < round_div(x@ * s@, 1_000_000) <= i64::MAX,
    ensures
        x.spec_times(s.spec_negated()) == x.spec_times(s).spec_negated(),
        x.spec_negated().spec_times(s) == x.spec_times(s).spec_negated(),
{
    let p = x@ * s@;
    assert(x@ * (-s@) == -p) by (nonlinear_arith)
        requires
            p == x@ * s@,
    ;
    assert((-x@) * s@ == -p) by (nonlinear_arith)
        requires
            p == x@ * s@,
    ;
    lemma_round_div_negated(p, 1_000_000);
}

/// The step that `toward` takes is the nearest millionth to two thirds of
/// the distance: three times the step differs from twice the distance by at
/// most one millionth and a half.
pub proof fn lemma_toward_is_nearest(from: Scalar, to: Scalar)
    requires
        from.moderate(),
        to.moderate(),
    ensures
        -3 <= 2 * (3 * (from.spec_toward(to)@ - from@) - 2 * (to@ - from@)) <= 3,
{
    lemma_round_div_is_nearest(2 * (to@ - from@), 3);
}

} // verus!

//! Rational numbers, and the rescaling of integers by them.
use core::cmp::Ordering;
use core::ops::{Add, Div, Mul, Neg, Sub};
use vstd::arithmetic::div_mod::{
    lemma_fundamental_div_mod, lemma_fundamental_div_mod_converse, lemma_mod_multiples_basic,
};
use vstd::prelude::*;
use vstd::string::*;

use crate::common::text::push_decimal;

verus! {

/// How a quotient that is not whole is rounded.
#[derive(Debug, Clone, Copy, PartialEq, Eq, Structural)]
pub enum Rounding {
    /// Toward zero.
    Zero,
    /// Away from zero.
    Inf,
    /// Toward minus infinity.
    Down,
    /// Toward plus infinity.
    Up,
    /// To the nearest number, halfway cases away from zero.
    NearInf,
}

impl Rounding {
    /// The number by which a rounding is known.
    pub open spec fn number(self) -> u32 {
        match self {
            Rounding::Zero => 0,
            Rounding::Inf => 1,
            Rounding::Down => 2,
            Rounding::Up => 3,
            Rounding::NearInf => 5,
        }
    }

    /// The number by which a rounding is known.
    pub fn value(self) -> (r: u32)
        ensures
            r == self.number(),
    {
        match self {
            Rounding::Zero => 0,
            Rounding::Inf => 1,
            Rounding::Down => 2,
            Rounding::Up => 3,
            Rounding::NearInf => 5,
        }
    }

    /// The rounding of the negated quotient.
    pub open spec fn mirrored(self) -> Rounding {
        match self {
            Rounding::Down => Rounding::Up,
            Rounding::Up => Rounding::Down,
            other => other,
        }
    }
}

/// Flag that asks the rescaling functions to hand the least and the greatest `i64` through.
pub const ROUND_PASS_MINMAX: u32 = 8192;

/// A pair of a numerator and a denominator. The denominator is zero only for special values.
#[derive(Debug, Clone, Copy)]
pub struct Rational {
    pub num: i32,
    pub den: i32,
}

impl Default for Rational {
    fn default() -> (r: Rational)
        ensures
            r.num == 0,
            r.den == 0,
    {
        Rational { num: 0, den: 0 }
    }
}

impl Rational {
    /// A rational of a numerator and a denominator.
    pub fn new(num: i32, den: i32) -> (r: Rational)
        ensures
            r.num == num,
            r.den == den,
    {
        Rational { num, den }
    }

    /// Numerator and denominator swapped.
    pub fn invert(self) -> (r: Rational)
        ensures
            r.num == self.den,
            r.den == self.num,
    {
        Rational { num: self.den, den: self.num }
    }

    /// Brings the rational to lowest terms with parts of at most `max`, and says whether its value
    /// was kept.
    pub fn reduce(&mut self, max: i64) -> (exact: bool)
        ensures
            (final(self).num, final(self).den, exact) == reduce_spec(
                old(self).num as int,
                old(self).den as int,
                max,
            ),
    {
        let (num, den, exact) = reduce(self.num as i64, self.den as i64, max);
        self.num = num;
        self.den = den;
        exact
    }

    /// The rational as text: numerator, slash, denominator.
    pub fn to_text(self) -> (r: String)
        ensures
            r@ == crate::common::text::decimal_text(self.num as int) + "/"@
                + crate::common::text::decimal_text(self.den as int),
    {
        let mut s = String::new();
        push_decimal(&mut s, self.num as i64);
        s.append("/");
        push_decimal(&mut s, self.den as i64);
        assert(s@ =~= crate::common::text::decimal_text(self.num as int) + "/"@
            + crate::common::text::decimal_text(self.den as int));
        s
    }
}

/// The difference of the cross products of two rationals.
pub open spec fn cross_spec(a: Rational, b: Rational) -> int {
    a.num * b.den - b.num * a.den
}

fn cross(a: Rational, b: Rational) -> (r: i64)
    ensures
        r == cross_spec(a, b),
{
    proof {
        lemma_product_small(a.num, b.den);
        lemma_product_small(b.num, a.den);
    }
    a.num as i64 * b.den as i64 - b.num as i64 * a.den as i64
}

proof fn lemma_product_small(a: i32, b: i32)
    ensures
        -0x4000_0000_0000_0000 < a * b <= 0x4000_0000_0000_0000,
{
    assert(-0x4000_0000_0000_0000 < a * b <= 0x4000_0000_0000_0000) by (nonlinear_arith)
        requires
            -0x8000_0000 <= a <= 0x7fff_ffff,
            -0x8000_0000 <= b <= 0x7fff_ffff,
    ;
}

/// How two rationals compare: by the sign of the difference of their values; two infinities by
/// their signs; not at all where one of them is the indeterminate form.
pub open spec fn cmp_q_spec(a: Rational, b: Rational) -> Option<Ordering> {
    let d = cross_spec(a, b);
    if d != 0 {
        if (d < 0) ^ (a.den < 0) ^ (b.den < 0) {
            Some(Ordering::Less)
        } else {
            Some(Ordering::Greater)
        }
    } else if a.den != 0 && b.den != 0 {
        Some(Ordering::Equal)
    } else if a.num != 0 && b.num != 0 {
        if a.num < 0 && b.num >= 0 {
            Some(Ordering::Less)
        } else if a.num >= 0 && b.num < 0 {
            Some(Ordering::Greater)
        } else {
            Some(Ordering::Equal)
        }
    } else {
        None
    }
}

/// Compares two rationals. One that is the indeterminate form compares with none.
pub fn cmp_q(a: Rational, b: Rational) -> (r: Option<Ordering>)
    ensures
        r == cmp_q_spec(a, b),
{
    let d: i64 = cross(a, b);
    if d != 0 {
        if (d < 0) != ((a.den < 0) != (b.den < 0)) {
            Some(Ordering::Less)
        } else {
            Some(Ordering::Greater)
        }
    } else if a.den != 0 && b.den != 0 {
        Some(Ordering::Equal)
    } else if a.num != 0 && b.num != 0 {
        if a.num < 0 && b.num >= 0 {
            Some(Ordering::Less)
        } else if a.num >= 0 && b.num < 0 {
            Some(Ordering::Greater)
        } else {
            Some(Ordering::Equal)
        }
    } else {
        None
    }
}

impl PartialEq for Rational {
    fn eq(&self, other: &Rational) -> (r: bool) {
        match cmp_q(*self, *other) {
            Some(Ordering::Equal) => true,
            _ => false,
        }
    }
}

impl vstd::std_specs::cmp::PartialEqSpecImpl for Rational {
    open spec fn obeys_eq_spec() -> bool {
        true
    }

    open spec fn eq_spec(&self, other: &Rational) -> bool {
        cmp_q_spec(*self, *other) == Some(Ordering::Equal)
    }
}

impl Eq for Rational {

}

impl PartialOrd for Rational {
    fn partial_cmp(&self, other: &Rational) -> (r: Option<Ordering>) {
        cmp_q(*self, *other)
    }
}

impl vstd::std_specs::cmp::PartialOrdSpecImpl for Rational {
    open spec fn obeys_partial_cmp_spec() -> bool {
        true
    }

    open spec fn partial_cmp_spec(&self, other: &Rational) -> Option<Ordering> {
        cmp_q_spec(*self, *other)
    }
}

/// The greatest common divisor; that of zero and a number is the number.
pub open spec fn gcd_spec(a: nat, b: nat) -> nat
    decreases b,
{
    if b == 0 {
        a
    } else {
        gcd_spec(b, a % b)
    }
}

/// The greatest common divisor of two numbers divides both.
pub proof fn law_gcd_divides(a: nat, b: nat)
    requires
        a > 0 || b > 0,
    ensures
        gcd_spec(a, b) > 0,
        a % gcd_spec(a, b) == 0,
        b % gcd_spec(a, b) == 0,
    decreases b,
{
    let g = gcd_spec(a, b) as int;
    if b == 0 {
        lemma_mod_multiples_basic(1, a as int);
        lemma_mod_multiples_basic(0, a as int);
    } else {
        law_gcd_divides(b, a % b);
        let p = b as int / g;
        let q = (a % b) as int / g;
        let x = a as int / b as int;
        lemma_fundamental_div_mod(b as int, g);
        lemma_fundamental_div_mod((a % b) as int, g);
        lemma_fundamental_div_mod(a as int, b as int);
        assert(a == (x * p + q) * g) by (nonlinear_arith)
            requires
                a == b * x + a % b,
                b == g * p,
                (a % b) == g * q,
        ;
        lemma_mod_multiples_basic(x * p + q, g);
    }
}

/// Every common divisor of two numbers divides their greatest common divisor.
pub proof fn law_gcd_is_greatest(a: nat, b: nat, k: nat)
    requires
        k > 0,
        a % k == 0,
        b % k == 0,
    ensures
        gcd_spec(a, b) % k == 0,
    decreases b,
{
    if b > 0 {
        let p = b as int / k as int;
        let q = a as int / k as int;
        let x = a as int / b as int;
        lemma_fundamental_div_mod(b as int, k as int);
        lemma_fundamental_div_mod(a as int, k as int);
        lemma_fundamental_div_mod(a as int, b as int);
        assert(a % b == (q - x * p) * k) by (nonlinear_arith)
            requires
                a == b * x + a % b,
                b == k * p,
                a == k * q,
        ;
        lemma_mod_multiples_basic(q - x * p, k as int);
        law_gcd_is_greatest(b, a % b, k);
    }
}

/// Two numbers divided by their greatest common divisor have no common divisor but one.
pub proof fn law_gcd_of_reduced(a: nat, b: nat)
    requires
        a > 0 || b > 0,
    ensures
        gcd_spec(a / gcd_spec(a, b), b / gcd_spec(a, b)) == 1,
{
    law_gcd_divides(a, b);
    let g = gcd_spec(a, b);
    let x = a / g;
    let y = b / g;
    lemma_fundamental_div_mod(a as int, g as int);
    lemma_fundamental_div_mod(b as int, g as int);
    assert(x > 0 || y > 0) by (nonlinear_arith)
        requires
            a == g * x,
            b == g * y,
            a > 0 || b > 0,
    ;
    law_gcd_divides(x, y);
    let h = gcd_spec(x, y);
    let p = x / h;
    let q = y / h;
    lemma_fundamental_div_mod(x as int, h as int);
    lemma_fundamental_div_mod(y as int, h as int);
    let k = g * h;
    assert(a == p * k && k > 0) by (nonlinear_arith)
        requires
            a == g * x,
            x == h * p,
            k == g * h,
            g > 0,
            h > 0,
    ;
    assert(b == q * k) by (nonlinear_arith)
        requires
            b == g * y,
            y == h * q,
            k == g * h,
    ;
    lemma_mod_multiples_basic(p as int, k as int);
    lemma_mod_multiples_basic(q as int, k as int);
    law_gcd_is_greatest(a, b, k);
    lemma_fundamental_div_mod(g as int, k as int);
    let z = g / k;
    assert(h == 1) by (nonlinear_arith)
        requires
            g == k * z,
            k == g * h,
            g > 0,
            h > 0,
            z >= 0,
    ;
}

/// Greatest common divisor.
pub fn gcd(a: u64, b: u64) -> (r: u64)
    ensures
        r == gcd_spec(a as nat, b as nat),
{
    let mut x: u64 = a;
    let mut y: u64 = b;
    while y != 0
        invariant
            gcd_spec(x as nat, y as nat) == gcd_spec(a as nat, b as nat),
        decreases y,
    {
        let z: u64 = x % y;
        x = y;
        y = z;
    }
    x
}

/// The best approximation that the continued fraction of `num / den` gives with both parts at most
/// `max`. `a0` and `a1` are the last two convergents, `num / den` what is left to expand.
pub open spec fn approximation(
    num: nat,
    den: nat,
    a0: (nat, nat),
    a1: (nat, nat),
    max: nat,
) -> (nat, nat)
    decreases den,
{
    if den == 0 {
        a1
    } else {
        let x = num / den;
        let a2 = (x * a1.0 + a0.0, x * a1.1 + a0.1);
        if a2.0 > max || a2.1 > max {
            let k = last_quotient(x, a0, a1, max);
            if den * (2 * k * a1.1 + a0.1) > num * a1.1 {
                (k * a1.0 + a0.0, k * a1.1 + a0.1)
            } else {
                a1
            }
        } else {
            approximation(den, num % den, a1, a2, max)
        }
    }
}

/// The greatest quotient with which the next convergent stays within `max`.
pub open spec fn last_quotient(x: nat, a0: (nat, nat), a1: (nat, nat), max: nat) -> nat {
    let by_num = if a1.0 != 0 {
        ((max - a0.0) / (a1.0 as int)) as nat
    } else {
        x
    };
    let by_den = ((max - a0.1) / (a1.1 as int)) as nat;
    if a1.1 != 0 && by_den < by_num {
        by_den
    } else {
        by_num
    }
}

/// The absolute value of a number.
pub open spec fn magnitude(n: int) -> nat {
    if n < 0 {
        (-n) as nat
    } else {
        n as nat
    }
}

/// The parts of a fraction after the division by their greatest common divisor.
pub open spec fn lowest_terms(num: nat, den: nat) -> (nat, nat) {
    let g = gcd_spec(num, den);
    if g == 0 {
        (num, den)
    } else {
        (num / g, den / g)
    }
}

/// A fraction in lowest terms where both parts are then at most `max`, and its best approximation
/// of that size elsewhere.
pub open spec fn bounded_terms(num: nat, den: nat, max: nat) -> (nat, nat) {
    let t = lowest_terms(num, den);
    if t.0 <= max && t.1 <= max {
        t
    } else {
        approximation(t.0, t.1, (0, 1), (1, 0), max)
    }
}

/// The low 32 bits of a number, as a signed number.
pub open spec fn low_bits(n: nat) -> i32 {
    let m = n as int % 0x1_0000_0000;
    if m < 0x8000_0000 {
        m as i32
    } else {
        (m - 0x1_0000_0000) as i32
    }
}

/// The limit that a signed number stands for: a negative one sets none.
pub open spec fn limit_spec(max: i64) -> nat {
    if max < 0 {
        (max + 0x1_0000_0000_0000_0000) as nat
    } else {
        max as nat
    }
}

/// What a fraction reduces to under a limit, and whether its value was kept.
pub open spec fn reduce_spec(num: int, den: int, max: i64) -> (i32, i32, bool) {
    let n = magnitude(num);
    let d = magnitude(den);
    let t = lowest_terms(n, d);
    let r = bounded_terms(n, d, limit_spec(max));
    let sign = (num < 0) != (den < 0);
    (
        if sign {
            0i32.wrapping_sub(low_bits(r.0))
        } else {
            low_bits(r.0)
        },
        low_bits(r.1),
        t.1 == 0 || (t.0 <= limit_spec(max) && t.1 <= limit_spec(max)),
    )
}

/// Where a fraction is reduced exactly, its value is kept; elsewhere both parts of the
/// approximation are at most the limit.
pub proof fn law_bounded_terms(num: nat, den: nat, max: nat)
    requires
        max >= 1,
    ensures
        bounded_terms(num, den, max).0 <= max,
        bounded_terms(num, den, max).1 <= max,
        lowest_terms(num, den).0 <= max && lowest_terms(num, den).1 <= max ==> bounded_terms(
            num,
            den,
            max,
        ).0 * den == bounded_terms(num, den, max).1 * num,
{
    let t = lowest_terms(num, den);
    lemma_approximation_bounded(t.0, t.1, (0, 1), (1, 0), max);
    if num > 0 || den > 0 {
        law_gcd_divides(num, den);
        let g = gcd_spec(num, den);
        lemma_fundamental_div_mod(num as int, g as int);
        lemma_fundamental_div_mod(den as int, g as int);
        assert(t.0 * den == t.1 * num) by (nonlinear_arith)
            requires
                num == g * t.0,
                den == g * t.1,
        ;
    }
}

proof fn lemma_quotient_bounded(x: nat, a0: nat, a1: nat, max: nat, k: nat)
    requires
        a1 > 0,
        a0 <= max,
        k <= (max - a0) / (a1 as int),
    ensures
        k * a1 + a0 <= max,
{
    lemma_fundamental_div_mod(max - a0, a1 as int);
    let y = (max - a0) / (a1 as int);
    assert(k * a1 <= max - a0) by (nonlinear_arith)
        requires
            max - a0 >= a1 * y,
            k <= y,
            a1 > 0,
    ;
}

proof fn lemma_approximation_bounded(
    num: nat,
    den: nat,
    a0: (nat, nat),
    a1: (nat, nat),
    max: nat,
)
    requires
        max >= 1,
        a0.0 <= max,
        a0.1 <= max,
        a1.0 <= max,
        a1.1 <= max,
    ensures
        approximation(num, den, a0, a1, max).0 <= max,
        approximation(num, den, a0, a1, max).1 <= max,
    decreases den,
{
    if den != 0 {
        let x = num / den;
        let a2 = (x * a1.0 + a0.0, x * a1.1 + a0.1);
        if a2.0 > max || a2.1 > max {
            let k = last_quotient(x, a0, a1, max);
            if a1.0 != 0 {
                assert((max - a0.0) / (a1.0 as int) >= 0) by (nonlinear_arith)
                    requires
                        max >= a0.0,
                        a1.0 > 0,
                ;
                lemma_quotient_bounded(x, a0.0, a1.0, max, k);
            } else {
                assert(k * a1.0 == 0) by (nonlinear_arith)
                    requires
                        a1.0 == 0,
                ;
            }
            if a1.1 != 0 {
                assert((max - a0.1) / (a1.1 as int) >= 0) by (nonlinear_arith)
                    requires
                        max >= a0.1,
                        a1.1 > 0,
                ;
                lemma_quotient_bounded(x, a0.1, a1.1, max, k);
            } else {
                assert(k * a1.1 == 0) by (nonlinear_arith)
                    requires
                        a1.1 == 0,
                ;
            }
        } else {
            lemma_approximation_bounded(den, num % den, a1, a2, max);
        }
    }
}

fn magnitude_of(n: i64) -> (r: u64)
    ensures
        r == magnitude(n as int),
        r <= 0x8000_0000_0000_0000,
{
    if n == i64::MIN {
        0x8000_0000_0000_0000
    } else if n < 0 {
        (-n) as u64
    } else {
        n as u64
    }
}

fn low_bits_of(n: u64) -> (r: i32)
    ensures
        r == low_bits(n as nat),
{
    let m: u64 = n % 0x1_0000_0000;
    if m < 0x8000_0000 {
        m as i32
    } else {
        (m as i64 - 0x1_0000_0000) as i32
    }
}

fn limit_of(max: i64) -> (r: u64)
    ensures
        r == limit_spec(max),
{
    if max < 0 {
        ((max + i64::MAX) + 1) as u64 + 0x8000_0000_0000_0000
    } else {
        max as u64
    }
}

proof fn lemma_product_bounds(den: int, x: int, next: int, num: int, a0: int, a1: int, whole: int)
    requires
        den >= 1,
        next >= 0,
        x >= 0,
        a0 >= 0,
        a1 >= 0,
        num == den * x + next,
        whole == a1 * num + a0 * den,
    ensures
        whole == (x * a1 + a0) * den + a1 * next,
        0 <= x * a1 <= x * a1 + a0 <= whole,
        0 <= a1 * num <= whole,
        0 <= den * (x * a1 + a0) <= whole,
{
    assert(whole == (x * a1 + a0) * den + a1 * next) by (nonlinear_arith)
        requires
            num == den * x + next,
            whole == a1 * num + a0 * den,
    ;
    assert(x * a1 >= 0 && a1 * next >= 0 && a0 * den >= 0 && num >= 0) by (nonlinear_arith)
        requires
            x >= 0,
            a1 >= 0,
            next >= 0,
            a0 >= 0,
            den >= 1,
            num == den * x + next,
    ;
    let a2 = x * a1 + a0;
    assert(a2 <= a2 * den && a2 * den == den * a2) by (nonlinear_arith)
        requires
            a2 >= 0,
            den >= 1,
    ;
    assert(a1 * num >= 0) by (nonlinear_arith)
        requires
            a1 >= 0,
            num >= 0,
    ;
}

proof fn lemma_last_quotient(x: nat, a0: (nat, nat), a1: (nat, nat), max: nat, k: nat)
    requires
        a1.1 > 0,
        a0.0 <= max,
        a0.1 <= max,
        x * a1.0 + a0.0 > max || x * a1.1 + a0.1 > max,
        k == last_quotient(x, a0, a1, max),
    ensures
        k < x,
        k * a1.0 + a0.0 <= max,
        k * a1.1 + a0.1 <= max,
{
    assert((max - a0.1) / (a1.1 as int) >= 0) by (nonlinear_arith)
        requires
            max >= a0.1,
            a1.1 > 0,
    ;
    lemma_quotient_bounded(x, a0.1, a1.1, max, k);
    if a1.0 != 0 {
        assert((max - a0.0) / (a1.0 as int) >= 0) by (nonlinear_arith)
            requires
                max >= a0.0,
                a1.0 > 0,
        ;
        lemma_quotient_bounded(x, a0.0, a1.0, max, k);
    } else {
        assert(k * a1.0 == 0 && x * a1.0 == 0) by (nonlinear_arith)
            requires
                a1.0 == 0,
        ;
    }
    if k >= x {
        assert(k * a1.0 >= x * a1.0 && k * a1.1 >= x * a1.1) by (nonlinear_arith)
            requires
                k >= x,
                a1.0 >= 0,
                a1.1 >= 0,
        ;
    }
}

/// Reduces a fraction to lowest terms with parts of at most `max`. The last value of the result
/// says whether the value of the fraction was kept.
#[verifier::rlimit(40)]
pub fn reduce(num: i64, den: i64, max: i64) -> (r: (i32, i32, bool))
    ensures
        r == reduce_spec(num as int, den as int, max),
{
    let sign = (num < 0) != (den < 0);
    let mut n: u64 = magnitude_of(num);
    let mut d: u64 = magnitude_of(den);
    let limit: u64 = limit_of(max);
    let g: u64 = gcd(n, d);
    let ghost whole_n = n as nat;
    let ghost whole_d = d as nat;
    if g != 0 {
        proof {
            if whole_n > 0 || whole_d > 0 {
                law_gcd_of_reduced(whole_n, whole_d);
            }
            assert(whole_n / (g as nat) <= whole_n && whole_d / (g as nat) <= whole_d)
                by (nonlinear_arith)
                requires
                    g >= 1,
            ;
        }
        n = n / g;
        d = d / g;
    } else {
        proof {
            if whole_n > 0 || whole_d > 0 {
                law_gcd_divides(whole_n, whole_d);
            }
        }
    }
    let ghost n0 = n as nat;
    let ghost d0 = d as nat;
    assert((n0, d0) == lowest_terms(whole_n, whole_d));
    let mut a0: (u64, u64) = (0, 1);
    let mut a1: (u64, u64) = (1, 0);
    if n <= limit && d <= limit {
        a1 = (n, d);
        d = 0;
        let a = low_bits_of(a1.0);
        return (if sign {
            0i32.wrapping_sub(a)
        } else {
            a
        }, low_bits_of(a1.1), true);
    }
    assert(gcd_spec(n0, d0) == 1);
    assert(d0 == a1.1 * n + a0.1 * d) by (nonlinear_arith)
        requires
            a1.1 == 0,
            a0.1 == 1,
            d0 == d,
    ;
    assert(n0 == a1.0 * n + a0.0 * d) by (nonlinear_arith)
        requires
            a1.0 == 1,
            a0.0 == 0,
            n0 == n,
    ;
    while d != 0
        invariant
            n0 > limit || d0 > limit,
            n0 <= 0x8000_0000_0000_0000,
            d0 <= 0x8000_0000_0000_0000,
            gcd_spec(n as nat, d as nat) == 1,
            n0 == a1.0 * n + a0.0 * d,
            d0 == a1.1 * n + a0.1 * d,
            a1.1 == 0 ==> a0.0 == 0 && a0.1 == 1 && a1.0 == 1 && d == d0,
            a1.1 != 0 ==> limit >= 1 && a0.0 <= limit && a0.1 <= limit && a1.0 <= limit && a1.1
                <= limit && n > d && d0 > 0,
            (n0, d0) == lowest_terms(whole_n, whole_d),
            whole_n == magnitude(num as int),
            whole_d == magnitude(den as int),
            limit == limit_spec(max),
            sign == ((num < 0) != (den < 0)),
            approximation(
                n as nat,
                d as nat,
                (a0.0 as nat, a0.1 as nat),
                (a1.0 as nat, a1.1 as nat),
                limit as nat,
            ) == approximation(n0, d0, (0, 1), (1, 0), limit as nat),
        decreases d,
    {
        let x: u64 = n / d;
        let next: u64 = n % d;
        proof {
            lemma_fundamental_div_mod(n as int, d as int);
            lemma_product_bounds(
                d as int,
                x as int,
                next as int,
                n as int,
                a0.0 as int,
                a1.0 as int,
                n0 as int,
            );
            lemma_product_bounds(
                d as int,
                x as int,
                next as int,
                n as int,
                a0.1 as int,
                a1.1 as int,
                d0 as int,
            );
        }
        let a2: (u64, u64) = (x * a1.0 + a0.0, x * a1.1 + a0.1);
        if a2.0 > limit || a2.1 > limit {
            let mut k: u64 = x;
            if a1.0 != 0 {
                k = (limit - a0.0) / a1.0;
            }
            if a1.1 != 0 {
                let by_den: u64 = (limit - a0.1) / a1.1;
                if by_den < k {
                    k = by_den;
                }
            }
            assert(k == last_quotient(
                x as nat,
                (a0.0 as nat, a0.1 as nat),
                (a1.0 as nat, a1.1 as nat),
                limit as nat,
            ));
            proof {
                if a1.1 != 0 {
                    lemma_last_quotient(
                        x as nat,
                        (a0.0 as nat, a0.1 as nat),
                        (a1.0 as nat, a1.1 as nat),
                        limit as nat,
                        k as nat,
                    );
                    assert(2 * k * a1.1 + a0.1 <= 2 * (x * a1.1 + a0.1) - 2 * a1.1)
                        by (nonlinear_arith)
                        requires
                            k < x,
                            a1.1 > 0,
                            a0.1 >= 0,
                    ;
                    let t = 2 * k * a1.1 + a0.1;
                    let b = x * a1.1 + a0.1;
                    assert(0 <= d * t < 2 * d0) by (nonlinear_arith)
                        requires
                            0 <= t < 2 * b,
                            d * b <= d0,
                            d >= 1,
                    ;
                } else {
                    assert(2 * k * a1.1 + a0.1 == 1 && k * a1.1 == 0) by (nonlinear_arith)
                        requires
                            a1.1 == 0,
                            a0.1 == 1,
                    ;
                    assert(k * a1.0 + a0.0 <= limit) by {
                        assert(k == limit / 1);
                    }
                }
                assert(a1.1 * n == n * a1.1) by (nonlinear_arith);
                assert(k * a1.1 <= 2 * k * a1.1 && 2 * (k * a1.1) == 2 * k * a1.1)
                    by (nonlinear_arith)
                    requires
                        k >= 0,
                        a1.1 >= 0,
                ;
            }
            let twice: u64 = 2 * (k * a1.1) + a0.1;
            if d * twice > n * a1.1 {
                a1 = (k * a1.0 + a0.0, k * a1.1 + a0.1);
            }
            let a = low_bits_of(a1.0);
            return (if sign {
                0i32.wrapping_sub(a)
            } else {
                a
            }, low_bits_of(a1.1), false);
        }
        assert(d0 == a2.1 * d + a1.1 * next);
        assert(n0 == a2.0 * d + a1.0 * next);
        proof {
            if a1.1 != 0 {
                assert(x >= 1) by (nonlinear_arith)
                    requires
                        n > d,
                        n == d * x + next,
                        next < d,
                ;
                assert(x * a1.1 >= 1) by (nonlinear_arith)
                    requires
                        x >= 1,
                        a1.1 >= 1,
                ;
            }
        }
        a0 = a1;
        a1 = a2;
        n = d;
        d = next;
    }
    assert(n == 1);
    assert(a1.1 == 0 ==> d0 == 0);
    assert(a0.0 * 0 == 0 && a0.1 * 0 == 0);
    let a = low_bits_of(a1.0);
    (if sign {
        0i32.wrapping_sub(a)
    } else {
        a
    }, low_bits_of(a1.1), true)
}

/// What is added to a product before it is divided by `c`, so that the quotient is rounded.
pub open spec fn rounding_term(c: int, rnd: Rounding) -> int {
    match rnd {
        Rounding::NearInf => c / 2,
        Rounding::Inf | Rounding::Up => c - 1,
        _ => 0,
    }
}

/// `a * b / c`, rounded, for numbers that are not negative; the least `i64` where that is too
/// large.
pub open spec fn rescale_up(a: int, b: int, c: int, rnd: Rounding) -> i64 {
    let q = (a * b + rounding_term(c, rnd)) / c;
    if q > i64::MAX {
        i64::MIN
    } else {
        q as i64
    }
}

/// `a * b / c`, rounded. The least `i64` stands for a result that does not exist.
pub open spec fn rescale_spec(a: i64, b: i64, c: i64, rnd: Rounding, pass_minmax: bool) -> i64 {
    if c <= 0 || b < 0 {
        i64::MIN
    } else if pass_minmax && (a == i64::MIN || a == i64::MAX) {
        a
    } else if a < 0 {
        let m = if a == i64::MIN {
            i64::MAX as int
        } else {
            -a
        };
        let q = rescale_up(m, b as int, c as int, rnd.mirrored());
        if q == i64::MIN {
            i64::MIN
        } else {
            (-q) as i64
        }
    } else {
        rescale_up(a as int, b as int, c as int, rnd)
    }
}

fn rescale_unsigned(a: i64, b: i64, c: i64, rnd: Rounding) -> (r: i64)
    requires
        a >= 0,
        b >= 0,
        c > 0,
    ensures
        r == rescale_up(a as int, b as int, c as int, rnd),
        r == i64::MIN || r >= 0,
{
    let term: i64 = match rnd {
        Rounding::NearInf => c / 2,
        Rounding::Inf | Rounding::Up => c - 1,
        _ => 0,
    };
    assert(0 <= a * b <= 0x7fff_ffff_ffff_ffff * 0x7fff_ffff_ffff_ffff) by (nonlinear_arith)
        requires
            0 <= a <= 0x7fff_ffff_ffff_ffff,
            0 <= b <= 0x7fff_ffff_ffff_ffff,
    ;
    let product: u128 = a as u128 * b as u128 + term as u128;
    let q: u128 = product / (c as u128);
    assert(q == (a * b + term) / (c as int));
    if q > i64::MAX as u128 {
        i64::MIN
    } else {
        q as i64
    }
}

/// `a * b / c` with a rounding.
pub fn rescale_rnd(a: i64, b: i64, c: i64, rnd: Rounding, pass_minmax: bool) -> (r: i64)
    ensures
        r == rescale_spec(a, b, c, rnd, pass_minmax),
{
    if c <= 0 || b < 0 {
        return i64::MIN;
    }
    if pass_minmax && (a == i64::MIN || a == i64::MAX) {
        return a;
    }
    if a < 0 {
        let mirrored = match rnd {
            Rounding::Down => Rounding::Up,
            Rounding::Up => Rounding::Down,
            other => other,
        };
        let m: i64 = if a == i64::MIN {
            i64::MAX
        } else {
            -a
        };
        let q: i64 = rescale_unsigned(m, b, c, mirrored);
        if q == i64::MIN {
            i64::MIN
        } else {
            -q
        }
    } else {
        rescale_unsigned(a, b, c, rnd)
    }
}

/// `a * b / c`, rounded to the nearest number.
pub fn rescale(a: i64, b: i64, c: i64) -> (r: i64)
    ensures
        r == rescale_spec(a, b, c, Rounding::NearInf, false),
{
    rescale_rnd(a, b, c, Rounding::NearInf, false)
}

/// A number of units of `bq` as a number of units of `cq`, with a rounding.
pub fn rescale_q_rnd(a: i64, bq: Rational, cq: Rational, rnd: Rounding, pass_minmax: bool) -> (r:
    i64)
    ensures
        r == rescale_spec(
            a,
            (bq.num * cq.den) as i64,
            (cq.num * bq.den) as i64,
            rnd,
            pass_minmax,
        ),
{
    proof {
        lemma_product_small(bq.num, cq.den);
        lemma_product_small(cq.num, bq.den);
    }
    let b: i64 = bq.num as i64 * cq.den as i64;
    let c: i64 = cq.num as i64 * bq.den as i64;
    rescale_rnd(a, b, c, rnd, pass_minmax)
}

/// A number of units of `bq` as a number of units of `cq`, rounded to the nearest number.
pub fn rescale_q(a: i64, bq: Rational, cq: Rational) -> (r: i64)
    ensures
        r == rescale_spec(
            a,
            (bq.num * cq.den) as i64,
            (cq.num * bq.den) as i64,
            Rounding::NearInf,
            false,
        ),
{
    rescale_q_rnd(a, bq, cq, Rounding::NearInf, false)
}

/// Rescaling by a number and its own inverse changes nothing, whatever the rounding, but for the
/// least `i64`, whose magnitude is no `i64`.
pub proof fn law_rescale_by_one(a: i64, b: i64, rnd: Rounding, pass_minmax: bool)
    requires
        b > 0,
        a > i64::MIN,
    ensures
        rescale_spec(a, b, b, rnd, pass_minmax) == a,
{
    let m = if a < 0 {
        -a
    } else {
        a as int
    };
    let r = if a < 0 {
        rnd.mirrored()
    } else {
        rnd
    };
    let t = rounding_term(b as int, r);
    assert(m * b + t == b * m + t) by (nonlinear_arith);
    assert(0 <= t < b);
    lemma_fundamental_div_mod_converse(m * b + t, b as int, m, t);
}

/// Rescaling a negated number negates the result, with the rounding mirrored.
pub proof fn law_rescale_is_odd(a: i64, b: i64, c: i64, rnd: Rounding)
    requires
        a > i64::MIN,
        b >= 0,
        c > 0,
        rescale_spec(a, b, c, rnd, false) != i64::MIN,
    ensures
        rescale_spec((-a) as i64, b, c, rnd.mirrored(), false) == -rescale_spec(
            a,
            b,
            c,
            rnd,
            false,
        ),
{
    assert(rnd.mirrored().mirrored() == rnd);
    if a == 0 {
        let t = rounding_term(c as int, rnd);
        let u = rounding_term(c as int, rnd.mirrored());
        assert(0 * b == 0);
        lemma_fundamental_div_mod_converse(t, c as int, 0, t);
        lemma_fundamental_div_mod_converse(u, c as int, 0, u);
    }
}

/// The result rounded down and the result rounded up enclose the exact quotient, and differ by at
/// most one.
pub proof fn law_rescale_encloses(a: i64, b: i64, c: i64)
    requires
        a >= 0,
        b >= 0,
        c > 0,
        rescale_spec(a, b, c, Rounding::Up, false) != i64::MIN,
    ensures
        rescale_spec(a, b, c, Rounding::Down, false) * c <= a * b,
        a * b <= rescale_spec(a, b, c, Rounding::Up, false) * c,
        rescale_spec(a, b, c, Rounding::Up, false) <= rescale_spec(a, b, c, Rounding::Down, false)
            + 1,
{
    let p = a * b;
    let down = p / (c as int);
    let up = (p + (c - 1)) / (c as int);
    assert(p >= 0) by (nonlinear_arith)
        requires
            a >= 0,
            b >= 0,
            p == a * b,
    ;
    lemma_fundamental_div_mod(p, c as int);
    lemma_fundamental_div_mod(p + (c - 1), c as int);
    let rd = p % (c as int);
    let ru = (p + (c - 1)) % (c as int);
    assert(p == c * down + rd && p + (c - 1) == c * up + ru);
    assert(0 <= down <= up <= down + 1) by (nonlinear_arith)
        requires
            p == c * down + rd,
            p + (c - 1) == c * up + ru,
            0 <= rd < c,
            0 <= ru < c,
            c > 0,
            p >= 0,
    ;
    assert(down * c <= p <= up * c) by (nonlinear_arith)
        requires
            p == c * down + rd,
            p + (c - 1) == c * up + ru,
            0 <= rd < c,
            0 <= ru < c,
    ;
}

/// The value of a wrapping sum of two products.
pub open spec fn sum_of_products(a: Rational, b: Rational) -> i64 {
    ((a.num * b.den) as i64).wrapping_add((b.num * a.den) as i64)
}

/// The sum of two rationals.
pub open spec fn sum_spec(a: Rational, b: Rational) -> Rational {
    let t = reduce_spec(sum_of_products(a, b) as int, a.den * b.den, i32::MAX as i64);
    Rational { num: t.0, den: t.1 }
}

/// The product of two rationals.
pub open spec fn product_spec(a: Rational, b: Rational) -> Rational {
    let t = reduce_spec(a.num * b.num, a.den * b.den, i32::MAX as i64);
    Rational { num: t.0, den: t.1 }
}

/// A rational with its numerator negated; the least numerator stays.
pub open spec fn negated_spec(a: Rational) -> Rational {
    Rational { num: 0i32.wrapping_sub(a.num), den: a.den }
}

fn sum(a: Rational, b: Rational) -> (r: Rational)
    ensures
        r == sum_spec(a, b),
{
    proof {
        lemma_product_small(a.num, b.den);
        lemma_product_small(b.num, a.den);
        lemma_product_small(a.den, b.den);
    }
    let left: i64 = a.num as i64 * b.den as i64;
    let right: i64 = b.num as i64 * a.den as i64;
    let num: i64 = left.wrapping_add(right);
    let den: i64 = a.den as i64 * b.den as i64;
    let (n, d, _) = reduce(num, den, i32::MAX as i64);
    Rational { num: n, den: d }
}

fn product(a: Rational, b: Rational) -> (r: Rational)
    ensures
        r == product_spec(a, b),
{
    proof {
        lemma_product_small(a.num, b.num);
        lemma_product_small(a.den, b.den);
    }
    let num: i64 = a.num as i64 * b.num as i64;
    let den: i64 = a.den as i64 * b.den as i64;
    let (n, d, _) = reduce(num, den, i32::MAX as i64);
    Rational { num: n, den: d }
}

fn negated(a: Rational) -> (r: Rational)
    ensures
        r == negated_spec(a),
{
    Rational { num: 0i32.wrapping_sub(a.num), den: a.den }
}

impl Neg for Rational {
    type Output = Rational;

    fn neg(self) -> (r: Rational) {
        negated(self)
    }
}

impl vstd::std_specs::ops::NegSpecImpl for Rational {
    open spec fn obeys_neg_spec() -> bool {
        true
    }

    open spec fn neg_req(self) -> bool {
        true
    }

    open spec fn neg_spec(self) -> Rational {
        negated_spec(self)
    }
}

impl Add for Rational {
    type Output = Rational;

    fn add(self, rhs: Rational) -> (r: Rational) {
        sum(self, rhs)
    }
}

impl vstd::std_specs::ops::AddSpecImpl for Rational {
    open spec fn obeys_add_spec() -> bool {
        true
    }

    open spec fn add_req(self, rhs: Rational) -> bool {
        true
    }

    open spec fn add_spec(self, rhs: Rational) -> Rational {
        sum_spec(self, rhs)
    }
}

impl Sub for Rational {
    type Output = Rational;

    fn sub(self, rhs: Rational) -> (r: Rational) {
        sum(self, negated(rhs))
    }
}

impl vstd::std_specs::ops::SubSpecImpl for Rational {
    open spec fn obeys_sub_spec() -> bool {
        true
    }

    open spec fn sub_req(self, rhs: Rational) -> bool {
        true
    }

    open spec fn sub_spec(self, rhs: Rational) -> Rational {
        sum_spec(self, negated_spec(rhs))
    }
}

impl Mul for Rational {
    type Output = Rational;

    fn mul(self, rhs: Rational) -> (r: Rational) {
        product(self, rhs)
    }
}

impl vstd::std_specs::ops::MulSpecImpl for Rational {
    open spec fn obeys_mul_spec() -> bool {
        true
    }

    open spec fn mul_req(self, rhs: Rational) -> bool {
        true
    }

    open spec fn mul_spec(self, rhs: Rational) -> Rational {
        product_spec(self, rhs)
    }
}

impl Div for Rational {
    type Output = Rational;

    fn div(self, rhs: Rational) -> (r: Rational) {
        product(self, rhs.invert())
    }
}

impl vstd::std_specs::ops::DivSpecImpl for Rational {
    open spec fn obeys_div_spec() -> bool {
        true
    }

    open spec fn div_req(self, rhs: Rational) -> bool {
        true
    }

    open spec fn div_spec(self, rhs: Rational) -> Rational {
        product_spec(self, Rational { num: rhs.den, den: rhs.num })
    }
}

/// The numerator of a rational, with the sign of the denominator moved into it.
pub open spec fn signed_num(a: Rational) -> int {
    if a.den < 0 {
        -a.num
    } else {
        a.num as int
    }
}

/// The denominator of a rational without its sign.
pub open spec fn unsigned_den(a: Rational) -> int {
    if a.den < 0 {
        -a.den
    } else {
        a.den as int
    }
}

/// The signs of the products that two rationals are compared by.
proof fn lemma_signs(a: Rational, b: Rational)
    ensures
        signed_num(a) * unsigned_den(b) == (if (a.den < 0) != (b.den < 0) {
            -(a.num * b.den)
        } else {
            a.num * b.den
        }),
        signed_num(b) * unsigned_den(a) == (if (a.den < 0) != (b.den < 0) {
            -(b.num * a.den)
        } else {
            b.num * a.den
        }),
        a.num * b.den == 0 <==> a.num == 0 || b.den == 0,
        b.num * a.den == 0 <==> b.num == 0 || a.den == 0,
        a.num > 0 && b.den > 0 ==> a.num * b.den > 0,
        a.num > 0 && b.den < 0 ==> a.num * b.den < 0,
{
    let (x, y, u, v) = (a.num as int, a.den as int, b.num as int, b.den as int);
    assert((-x) * v == -(x * v) && x * (-v) == -(x * v) && (-x) * (-v) == x * v) by (nonlinear_arith);
    assert((-u) * y == -(u * y) && u * (-y) == -(u * y) && (-u) * (-y) == u * y) by (nonlinear_arith);
    assert(x * v == 0 <==> x == 0 || v == 0) by (nonlinear_arith);
    assert(u * y == 0 <==> u == 0 || y == 0) by (nonlinear_arith);
    assert(x > 0 && v > 0 ==> x * v > 0) by (nonlinear_arith);
    assert(x > 0 && v < 0 ==> x * v < 0) by (nonlinear_arith);
}

/// Rationals with a denominator compare as their values do, whatever the signs of the denominators.
pub proof fn law_order_of_values(a: Rational, b: Rational)
    requires
        a.den != 0,
        b.den != 0,
    ensures
        cmp_q_spec(a, b) == Some(Ordering::Less) <==> signed_num(a) * unsigned_den(b) < signed_num(b)
            * unsigned_den(a),
        cmp_q_spec(a, b) == Some(Ordering::Equal) <==> signed_num(a) * unsigned_den(b) == signed_num(
            b,
        ) * unsigned_den(a),
        cmp_q_spec(a, b) == Some(Ordering::Greater) <==> signed_num(a) * unsigned_den(b)
            > signed_num(b) * unsigned_den(a),
{
    lemma_signs(a, b);
}

/// Two rationals cannot be compared if and only if one of them is the indeterminate form.
pub proof fn law_order_is_missing_of_indeterminate(a: Rational, b: Rational)
    ensures
        cmp_q_spec(a, b) is None <==> (a.num == 0 && a.den == 0) || (b.num == 0 && b.den == 0),
{
    lemma_signs(a, b);
}

/// Comparing in the other direction gives the opposite.
pub proof fn law_order_is_reversed(a: Rational, b: Rational)
    ensures
        cmp_q_spec(b, a) == (match cmp_q_spec(a, b) {
            Some(Ordering::Less) => Some(Ordering::Greater),
            Some(Ordering::Equal) => Some(Ordering::Equal),
            Some(Ordering::Greater) => Some(Ordering::Less),
            None => None,
        }),
{
}

/// Infinities of one sign are equal, and the positive one is greater than the negative one and than
/// every rational with a denominator.
pub proof fn law_order_of_infinities(a: Rational, b: Rational)
    requires
        a.num > 0,
        a.den == 0,
        b.num != 0 || b.den != 0,
    ensures
        b.den == 0 && b.num > 0 ==> cmp_q_spec(a, b) == Some(Ordering::Equal),
        b.den == 0 && b.num < 0 ==> cmp_q_spec(a, b) == Some(Ordering::Greater),
        b.den != 0 ==> cmp_q_spec(a, b) == Some(Ordering::Greater),
{
    lemma_signs(a, b);
}

/// A sum and a product do not depend on the order of their operands.
pub proof fn law_sum_and_product_commute(a: Rational, b: Rational)
    ensures
        sum_spec(a, b) == sum_spec(b, a),
        product_spec(a, b) == product_spec(b, a),
{
    assert(a.den * b.den == b.den * a.den && a.num * b.num == b.num * a.num) by (nonlinear_arith);
}

} // verus!

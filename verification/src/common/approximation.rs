//! Bounded fractions are the best approximations of their size.
use vstd::arithmetic::div_mod::lemma_fundamental_div_mod;
use vstd::prelude::*;

use crate::common::rational::{
    approximation, bounded_terms, gcd_spec, last_quotient, law_bounded_terms, law_gcd_divides,
    law_gcd_of_reduced, lowest_terms, magnitude, reduce_spec,
};

verus! {

/// Whether `r` is at most as far from `num / den` as the fraction `p / q`.
pub open spec fn at_least_as_near(num: int, den: int, r: (nat, nat), p: int, q: int) -> bool {
    magnitude(num * r.1 - den * r.0) * q <= magnitude(num * q - den * p) * r.1
}

/// Where `a` and `c` are neighbours on both sides of a value, every fraction is made up of them.
proof fn lemma_made_up(a: (int, int), c: (int, int), e: int, p: int, q: int, s: int, t: int)
    requires
        e == 1 || e == -1,
        a.0 * c.1 - c.0 * a.1 == e,
        s == e * (p * c.1 - q * c.0),
        t == e * (a.0 * q - a.1 * p),
    ensures
        p == s * a.0 + t * c.0,
        q == s * a.1 + t * c.1,
{
    let (an, ad, cn, cd) = (a.0, a.1, c.0, c.1);
    let y = p * cd - q * cn;
    let x = an * q - ad * p;
    let d = an * cd - cn * ad;
    lemma_split(y, p * cd, q * cn, an);
    lemma_split(y, p * cd, q * cn, ad);
    lemma_split(x, an * q, ad * p, cn);
    lemma_split(x, an * q, ad * p, cd);
    lemma_split(d, an * cd, cn * ad, p);
    lemma_split(d, an * cd, cn * ad, q);
    assert((p * cd) * an == (an * cd) * p) by (nonlinear_arith);
    assert((q * cn) * an == (an * q) * cn) by (nonlinear_arith);
    assert((ad * p) * cn == (cn * ad) * p) by (nonlinear_arith);
    assert((p * cd) * ad == (ad * p) * cd) by (nonlinear_arith);
    assert((q * cn) * ad == (cn * ad) * q) by (nonlinear_arith);
    assert((an * q) * cd == (an * cd) * q) by (nonlinear_arith);
    assert(y * an + x * cn == d * p);
    assert(y * ad + x * cd == d * q);
    lemma_unit(e, y, an);
    lemma_unit(e, x, cn);
    lemma_unit(e, y, ad);
    lemma_unit(e, x, cd);
    lemma_unit(e, e, p);
    lemma_unit(e, e, q);
    if e == 1 {
        assert(e * p == p && e * q == q);
    } else {
        assert(e * p == -p && e * q == -q);
    }
}

/// A product with a difference.
proof fn lemma_split(d: int, a: int, b: int, x: int)
    requires
        d == a - b,
    ensures
        d * x == a * x - b * x,
{
    assert(d * x == a * x - b * x) by (nonlinear_arith)
        requires
            d == a - b,
    ;
}

/// A product with a sign.
proof fn lemma_unit(e: int, y: int, x: int)
    requires
        e == 1 || e == -1,
    ensures
        e * y == (if e == 1 {
            y
        } else {
            -y
        }),
        (e * y) * x == (if e == 1 {
            y * x
        } else {
            -(y * x)
        }),
{
    assert(e * y == (if e == 1 {
        y
    } else {
        -y
    })) by (nonlinear_arith)
        requires
            e == 1 || e == -1,
    ;
    assert((-y) * x == -(y * x)) by (nonlinear_arith);
}

/// A value between two neighbours, and the differences from it.
proof fn lemma_differences(
    a: (int, int),
    c: (int, int),
    e: int,
    u: int,
    v: int,
    num: int,
    den: int,
    p: int,
    q: int,
    s: int,
    t: int,
)
    requires
        e == 1 || e == -1,
        a.0 * c.1 - c.0 * a.1 == e,
        num == u * a.0 + v * c.0,
        den == u * a.1 + v * c.1,
        s == e * (p * c.1 - q * c.0),
        t == e * (a.0 * q - a.1 * p),
    ensures
        num * a.1 - den * a.0 == -(v * e),
        num * c.1 - den * c.0 == u * e,
        num * q - den * p == e * (u * t - v * s),
{
    let (an, ad, cn, cd) = (a.0, a.1, c.0, c.1);
    lemma_split(num, u * an, -(v * cn), ad);
    lemma_split(den, u * ad, -(v * cd), an);
    lemma_split(num, u * an, -(v * cn), cd);
    lemma_split(den, u * ad, -(v * cd), cn);
    lemma_split(e, an * cd, cn * ad, u);
    lemma_split(e, an * cd, cn * ad, v);
    assert((u * an) * ad == (u * ad) * an) by (nonlinear_arith);
    assert((-(v * cn)) * ad == -((cn * ad) * v)) by (nonlinear_arith);
    assert((-(v * cd)) * an == -((an * cd) * v)) by (nonlinear_arith);
    assert((-(v * cn)) * cd == (-(v * cd)) * cn) by (nonlinear_arith);
    assert((u * an) * cd == (an * cd) * u) by (nonlinear_arith);
    assert((u * ad) * cn == (cn * ad) * u) by (nonlinear_arith);
    assert(v * e == e * v && u * e == e * u) by (nonlinear_arith);
    let x = an * q - ad * p;
    let y = p * cd - q * cn;
    lemma_split(num, u * an, -(v * cn), q);
    lemma_split(den, u * ad, -(v * cd), p);
    assert((u * an) * q == u * (an * q) && (u * ad) * p == u * (ad * p)) by (nonlinear_arith);
    assert((-(v * cn)) * q == -(v * (q * cn)) && (-(v * cd)) * p == -(v * (p * cd)))
        by (nonlinear_arith);
    assert(u * x == u * (an * q) - u * (ad * p)) by (nonlinear_arith)
        requires
            x == an * q - ad * p,
    ;
    assert(v * y == v * (p * cd) - v * (q * cn)) by (nonlinear_arith)
        requires
            y == p * cd - q * cn,
    ;
    assert(e * (u * (e * x) - v * (e * y)) == u * x - v * y) by (nonlinear_arith)
        requires
            e == 1 || e == -1,
    ;
}

/// No fraction whose parts are at most `max` lies between two neighbours whose sums of parts are not.
proof fn lemma_none_between(a: (int, int), c: (int, int), p: int, q: int, s: int, t: int, max: int)
    requires
        a.0 >= 0,
        a.1 >= 0,
        c.0 >= 0,
        c.1 >= 0,
        p == s * a.0 + t * c.0,
        q == s * a.1 + t * c.1,
        p <= max,
        q <= max,
        a.0 + c.0 > max || a.1 + c.1 > max,
    ensures
        s <= 0 || t <= 0,
{
    if s >= 1 && t >= 1 {
        let (an, ad, cn, cd) = (a.0, a.1, c.0, c.1);
        assert(s * an + t * cn >= an + cn) by (nonlinear_arith)
            requires
                s >= 1,
                t >= 1,
                an >= 0,
                cn >= 0,
        ;
        assert(s * ad + t * cd >= ad + cd) by (nonlinear_arith)
            requires
                s >= 1,
                t >= 1,
                ad >= 0,
                cd >= 0,
        ;
    }
}

/// A fraction on the far side of a neighbour is at least as far away.
proof fn lemma_far_side(ad: int, cd: int, u: int, v: int, q: int, s: int, t: int)
    requires
        ad >= 0,
        cd >= 0,
        u > 0,
        v > 0,
        q >= 1,
        q == s * ad + t * cd,
        t <= 0,
    ensures
        ad >= 1,
        u * t - v * s <= 0,
        v * q <= (v * s - u * t) * ad,
{
    assert(t * cd <= 0) by (nonlinear_arith)
        requires
            t <= 0,
            cd >= 0,
    ;
    assert(s >= 1 && ad >= 1) by (nonlinear_arith)
        requires
            s * ad >= 1,
            ad >= 0,
    ;
    assert(u * t <= 0 && v * s > 0) by (nonlinear_arith)
        requires
            u > 0,
            t <= 0,
            v > 0,
            s >= 1,
    ;
    assert(v * q <= v * (s * ad)) by (nonlinear_arith)
        requires
            q <= s * ad,
            v > 0,
    ;
    assert(v * (s * ad) <= (v * s - u * t) * ad) by (nonlinear_arith)
        requires
            u * t <= 0,
            ad >= 1,
    ;
}

/// Of three distances given as fractions, the first is at most the last where each is at most the next.
proof fn lemma_chain(x: int, b: int, y: int, m: int, z: int, q: int)
    requires
        b >= 0,
        m >= 1,
        q >= 1,
        x * m <= y * b,
        y * q <= z * m,
    ensures
        x * q <= z * b,
{
    assert((x * q) * m <= (z * b) * m) by (nonlinear_arith)
        requires
            b >= 0,
            q >= 1,
            x * m <= y * b,
            y * q <= z * m,
    ;
    assert(x * q <= z * b) by (nonlinear_arith)
        requires
            (x * q) * m <= (z * b) * m,
            m >= 1,
    ;
}

/// Of two neighbours on both sides of a value, the nearer one is at least as near as any fraction whose
/// parts are at most `max`, where the sums of their parts are not.
proof fn lemma_nearer_neighbour(
    a: (nat, nat),
    c: (nat, nat),
    e: int,
    u: int,
    v: int,
    num: int,
    den: int,
    p: int,
    q: int,
    max: int,
)
    requires
        e == 1 || e == -1,
        a.0 * c.1 - c.0 * a.1 == e,
        u > 0,
        v > 0,
        num == u * a.0 + v * c.0,
        den == u * a.1 + v * c.1,
        a.0 + c.0 > max || a.1 + c.1 > max,
        0 <= p <= max,
        1 <= q <= max,
    ensures
        ({
            let r = if v * c.1 > u * a.1 {
                c
            } else {
                a
            };
            r.1 >= 1 && at_least_as_near(num, den, r, p, q)
        }),
{
    let (an, ad, cn, cd) = (a.0 as int, a.1 as int, c.0 as int, c.1 as int);
    let s = e * (p * cd - q * cn);
    let t = e * (an * q - ad * p);
    lemma_made_up((an, ad), (cn, cd), e, p, q, s, t);
    lemma_differences((an, ad), (cn, cd), e, u, v, num, den, p, q, s, t);
    lemma_none_between((an, ad), (cn, cd), p, q, s, t, max);
    let z = magnitude(num * q - den * p) as int;
    let w = u * t - v * s;
    assert(e * w == w || e * w == -w) by (nonlinear_arith)
        requires
            e == 1 || e == -1,
    ;
    assert(z == w || z == -w);
    assert(u * e == u || u * e == -u) by (nonlinear_arith)
        requires
            e == 1 || e == -1,
    ;
    assert(v * e == v || v * e == -v) by (nonlinear_arith)
        requires
            e == 1 || e == -1,
    ;
    assert(magnitude(num * ad - den * an) == v);
    assert(magnitude(num * cd - den * cn) == u);
    if t <= 0 {
        lemma_far_side(ad, cd, u, v, q, s, t);
        assert(z == v * s - u * t);
        assert(v * q <= z * ad);
        if v * cd > u * ad {
            assert(cd >= 1) by (nonlinear_arith)
                requires
                    v * cd > u * ad,
                    u > 0,
                    v > 0,
                    ad >= 0,
            ;
            lemma_chain(u, cd, v, ad, z, q);
        }
    } else {
        assert(q == t * cd + s * ad);
        lemma_far_side(cd, ad, v, u, q, t, s);
        assert(z == u * t - v * s);
        assert(u * q <= z * cd);
        if !(v * cd > u * ad) {
            assert(ad >= 1) by (nonlinear_arith)
                requires
                    v * cd <= u * ad,
                    u > 0,
                    v > 0,
                    cd >= 1,
            ;
            lemma_chain(v, ad, u, cd, z, q);
        }
    }
}

/// The last quotient is the greatest that keeps within the limit.
proof fn lemma_greatest_quotient(x: nat, a0: (nat, nat), a1: (nat, nat), max: nat, k: nat)
    requires
        a1.0 > 0 || a1.1 > 0,
        a0.0 <= max,
        a0.1 <= max,
        x * a1.0 + a0.0 > max || x * a1.1 + a0.1 > max,
        k == last_quotient(x, a0, a1, max),
    ensures
        k < x,
        (k + 1) * a1.0 + a0.0 > max || (k + 1) * a1.1 + a0.1 > max,
{
    let (m, n0, d0, n1, d1) = (
        max as int,
        a0.0 as int,
        a0.1 as int,
        a1.0 as int,
        a1.1 as int,
    );
    if n1 > 0 {
        lemma_quotient_limit(m - n0, n1, x as int);
        assert((m - n0) / n1 >= 0) by (nonlinear_arith)
            requires
                m >= n0,
                n1 > 0,
        ;
    } else {
        assert(x * n1 == 0) by (nonlinear_arith)
            requires
                n1 == 0,
        ;
    }
    if d1 > 0 {
        lemma_quotient_limit(m - d0, d1, x as int);
        assert((m - d0) / d1 >= 0) by (nonlinear_arith)
            requires
                m >= d0,
                d1 > 0,
        ;
    } else {
        assert(x * d1 == 0) by (nonlinear_arith)
            requires
                d1 == 0,
        ;
    }
}

proof fn lemma_quotient_limit(m: int, d: int, x: int)
    requires
        m >= 0,
        d > 0,
    ensures
        (m / d + 1) * d > m,
        x * d > m ==> m / d < x,
{
    lemma_fundamental_div_mod(m, d);
    vstd::arithmetic::div_mod::lemma_mod_bound(m, d);
    let y = m / d;
    assert((y + 1) * d == d * y + d) by (nonlinear_arith);
    if x * d > m && y >= x {
        assert(d * y >= x * d) by (nonlinear_arith)
            requires
                y >= x,
                d > 0,
        ;
    }
}

proof fn lemma_approximation_best(
    whole_num: nat,
    whole_den: nat,
    num: nat,
    den: nat,
    a0: (nat, nat),
    a1: (nat, nat),
    max: nat,
    p: nat,
    q: nat,
)
    requires
        a0.0 <= max,
        a0.1 <= max,
        a1.0 <= max,
        a1.1 <= max,
        whole_num > max || whole_den > max,
        whole_num == num * a1.0 + den * a0.0,
        whole_den == num * a1.1 + den * a0.1,
        a1.0 * a0.1 - a0.0 * a1.1 == 1 || a1.0 * a0.1 - a0.0 * a1.1 == -1,
        gcd_spec(num, den) == 1,
        p <= max,
        1 <= q <= max,
    ensures
        ({
            let r = approximation(num, den, a0, a1, max);
            r.1 >= 1 && at_least_as_near(whole_num as int, whole_den as int, r, p as int, q as int)
        }),
    decreases den,
{
    if den == 0 {
        assert(num == 1);
        assert(num * a1.0 == a1.0 && num * a1.1 == a1.1 && den * a0.0 == 0 && den * a0.1 == 0)
            by (nonlinear_arith)
            requires
                num == 1,
                den == 0,
        ;
    } else {
        let x = num / den;
        let rest = num % den;
        let a2 = (x * a1.0 + a0.0, x * a1.1 + a0.1);
        lemma_fundamental_div_mod(num as int, den as int);
        let e = a1.0 * a0.1 - a0.0 * a1.1;
        if a2.0 > max || a2.1 > max {
            let k = last_quotient(x, a0, a1, max);
            if a1.0 == 0 && a1.1 == 0 {
                assert(a1.0 * a0.1 == 0 && a0.0 * a1.1 == 0) by (nonlinear_arith)
                    requires
                        a1.0 == 0,
                        a1.1 == 0,
                ;
            }
            lemma_greatest_quotient(x, a0, a1, max, k);
            let c = (k * a1.0 + a0.0, k * a1.1 + a0.1);
            let u = num - k * den;
            assert(u > 0) by (nonlinear_arith)
                requires
                    u == num - k * den,
                    num == den * x + rest,
                    rest >= 0,
                    k < x,
                    den >= 1,
            ;
            lemma_regroup(num as int, den as int, k as int, a0.0 as int, a1.0 as int);
            lemma_regroup(num as int, den as int, k as int, a0.1 as int, a1.1 as int);
            lemma_neighbours(k as int, a0.0 as int, a0.1 as int, a1.0 as int, a1.1 as int);
            assert((k + 1) * a1.0 == k * a1.0 + a1.0 && (k + 1) * a1.1 == k * a1.1 + a1.1)
                by (nonlinear_arith);
            lemma_nearer_neighbour(
                a1,
                c,
                e,
                u,
                den as int,
                whole_num as int,
                whole_den as int,
                p as int,
                q as int,
                max as int,
            );
            lemma_split(u, num as int, (k * den) as int, a1.1 as int);
            assert((k * den) * a1.1 == den * (k * a1.1)) by (nonlinear_arith);
            assert(2 * k * a1.1 + a0.1 == k * a1.1 + c.1) by (nonlinear_arith)
                requires
                    c.1 == k * a1.1 + a0.1,
            ;
            assert(den * (k * a1.1 + c.1) == den * (k * a1.1) + den * c.1) by (nonlinear_arith);
        } else {
            assert(rest == num - x * den) by (nonlinear_arith)
                requires
                    num == den * x + rest,
            ;
            lemma_regroup(num as int, den as int, x as int, a0.0 as int, a1.0 as int);
            lemma_regroup(num as int, den as int, x as int, a0.1 as int, a1.1 as int);
            lemma_neighbours(x as int, a0.0 as int, a0.1 as int, a1.0 as int, a1.1 as int);
            assert(a2.0 * a1.1 - a1.0 * a2.1 == -e);
            lemma_approximation_best(whole_num, whole_den, den, rest, a1, a2, max, p, q);
        }
    }
}

/// A convergent and the one behind it are neighbours.
proof fn lemma_neighbours(k: int, n0: int, d0: int, n1: int, d1: int)
    ensures
        n1 * (k * d1 + d0) - (k * n1 + n0) * d1 == n1 * d0 - n0 * d1,
{
    assert(n1 * (k * d1 + d0) == n1 * (k * d1) + n1 * d0) by (nonlinear_arith);
    lemma_split(k * n1 + n0, k * n1, -n0, d1);
    assert((-n0) * d1 == -(n0 * d1)) by (nonlinear_arith);
    assert(n1 * (k * d1) == (k * n1) * d1) by (nonlinear_arith);
}

/// A value in terms of two convergents, and in terms of the second and the one behind it.
proof fn lemma_regroup(num: int, den: int, k: int, a0: int, a1: int)
    ensures
        num * a1 + den * a0 == (num - k * den) * a1 + den * (k * a1 + a0),
{
    lemma_split(num - k * den, num, k * den, a1);
    assert((k * den) * a1 == den * (k * a1)) by (nonlinear_arith);
    assert(den * (k * a1 + a0) == den * (k * a1) + den * a0) by (nonlinear_arith);
}

/// What a fraction is brought to under a limit is a fraction whose parts are within the limit, and no
/// other such fraction is nearer to it.
pub proof fn law_bounded_terms_are_best(num: nat, den: nat, max: nat, p: nat, q: nat)
    requires
        den > 0,
        max >= 1,
        p <= max,
        1 <= q <= max,
    ensures
        bounded_terms(num, den, max).1 >= 1,
        at_least_as_near(
            num as int,
            den as int,
            bounded_terms(num, den, max),
            p as int,
            q as int,
        ),
{
    let g = gcd_spec(num, den);
    let t = lowest_terms(num, den);
    let r = bounded_terms(num, den, max);
    law_gcd_divides(num, den);
    lemma_fundamental_div_mod(num as int, g as int);
    lemma_fundamental_div_mod(den as int, g as int);
    assert(num == g * t.0 && den == g * t.1);
    assert(t.1 >= 1) by (nonlinear_arith)
        requires
            den == g * t.1,
            den > 0,
    ;
    if t.0 <= max && t.1 <= max {
        assert(t.0 * t.1 - t.1 * t.0 == 0) by (nonlinear_arith);
        let far = magnitude(t.0 * q - t.1 * p) as int;
        assert(far * t.1 >= 0) by (nonlinear_arith)
            requires
                far >= 0,
                t.1 >= 0,
        ;
        assert(0 * q == 0) by (nonlinear_arith);
        assert(at_least_as_near(t.0 as int, t.1 as int, r, p as int, q as int));
    } else {
        law_gcd_of_reduced(num, den);
        assert(t.0 * 1 + t.1 * 0 == t.0 && t.0 * 0 + t.1 * 1 == t.1) by (nonlinear_arith);
        lemma_approximation_best(t.0, t.1, t.0, t.1, (0, 1), (1, 0), max, p, q);
    }
    lemma_scaled(t.0 as int, t.1 as int, g as int, r.1 as int, r.0 as int);
    lemma_scaled(t.0 as int, t.1 as int, g as int, q as int, p as int);
    let x = magnitude(t.0 * r.1 - t.1 * r.0) as int;
    let z = magnitude(t.0 * q - t.1 * p) as int;
    assert((g * x) * q <= (g * z) * r.1) by (nonlinear_arith)
        requires
            x * q <= z * r.1,
            g >= 0,
    ;
}

proof fn lemma_scaled(n: int, d: int, g: int, a: int, b: int)
    requires
        g > 0,
    ensures
        magnitude((g * n) * a - (g * d) * b) == g * magnitude(n * a - d * b),
{
    let y = n * a - d * b;
    assert((g * n) * a - (g * d) * b == g * y) by (nonlinear_arith)
        requires
            y == n * a - d * b,
    ;
    assert(y < 0 ==> g * y < 0 && -(g * y) == g * (-y)) by (nonlinear_arith)
        requires
            g > 0,
    ;
    assert(y >= 0 ==> g * y >= 0) by (nonlinear_arith)
        requires
            g > 0,
    ;
}

/// What a fraction reduces to under a limit has a positive denominator and parts within the limit, and
/// no other such fraction is nearer to it.
pub proof fn law_reduced_is_best(num: int, den: int, max: i64, p: int, q: int)
    requires
        den != 0,
        1 <= max <= i32::MAX,
        -max <= p <= max,
        1 <= q <= max,
    ensures
        ({
            let r = reduce_spec(num, den, max);
            &&& -max <= r.0 <= max
            &&& 1 <= r.1 <= max
            &&& magnitude(num * r.1 - den * r.0) * q <= magnitude(num * q - den * p) * r.1
        }),
{
    let n = magnitude(num);
    let d = magnitude(den);
    let m = max as nat;
    let b = bounded_terms(n, d, m);
    let r = reduce_spec(num, den, max);
    let sign = (num < 0) != (den < 0);
    law_bounded_terms(n, d, m);
    assert(r.1 == b.1);
    assert(r.0 == if sign {
        -b.0
    } else {
        b.0 as int
    });
    lemma_signed(num, den, b.0 as int, b.1 as int);
    let t = if sign {
        -p
    } else {
        p
    };
    lemma_signed(num, den, t, q);
    let near = if t < 0 {
        0nat
    } else {
        t as nat
    };
    law_bounded_terms_are_best(n, d, m, near, q as nat);
    let x = magnitude(n * q - d * near) as int;
    let z = magnitude(n * q - d * t) as int;
    assert(x <= z) by {
        if t < 0 {
            assert(d * t <= 0 && d * 0 == 0 && n * q >= 0) by (nonlinear_arith)
                requires
                    d >= 0,
                    t < 0,
                    n >= 0,
                    q >= 1,
            ;
        }
    }
    assert(x * b.1 <= z * b.1) by (nonlinear_arith)
        requires
            x <= z,
            b.1 >= 0,
    ;
}

/// The difference of two fractions without the signs of the first.
proof fn lemma_signed(num: int, den: int, p: int, q: int)
    ensures
        magnitude(
            num * q - den * (if (num < 0) != (den < 0) {
                -p
            } else {
                p
            }),
        ) == magnitude(magnitude(num) * q - magnitude(den) * p),
{
    assert((-num) * q == -(num * q) && (-den) * p == -(den * p) && den * (-p) == -(den * p))
        by (nonlinear_arith);
}

} // verus!

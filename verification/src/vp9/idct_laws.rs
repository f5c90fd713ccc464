//! The transforms are those by cosines and sines, up to rounding.
use vstd::prelude::*;

use crate::vp9::idct::{
    combine_spec, dot_add_spec, dot_sub_spec, evens, half_diff_spec, half_neg_sum_spec,
    half_sum_spec, iadst16_spec, iadst4_spec, iadst8_spec, idct16_odd_spec, idct16_spec,
    idct32_odd_spec, idct32_spec, idct4_spec, idct8_odd_spec, idct8_spec, neg_spec, odds,
    round14_spec,
};

verus! {

/// Whether no value is farther from zero than `m`.
pub open spec fn within(x: Seq<i32>, m: int) -> bool {
    forall|i: int| 0 <= i < x.len() ==> -m <= #[trigger] x[i] <= m
}

/// Whether a value times 2^14 is at most `e` from `l`.
#[verifier::opaque]
pub open spec fn near(v: i32, l: int, e: int) -> bool {
    -e <= 16384 * v - l <= e
}

/// A sum in 32 bits.
#[verifier::opaque]
pub open spec fn plus(a: i32, b: i32) -> i32 {
    a.wrapping_add(b)
}

/// A difference in 32 bits.
#[verifier::opaque]
pub open spec fn minus(a: i32, b: i32) -> i32 {
    a.wrapping_sub(b)
}

pub proof fn lemma_exact(v: i32)
    ensures
        near(v, 16384 * v, 0),
{
    reveal(near);
}

pub proof fn lemma_wider(v: i32, l: int, e: int, m: int, f: int)
    requires
        near(v, l, e),
        e - f <= l - m <= f - e,
    ensures
        near(v, m, f),
{
    reveal(near);
}

pub proof fn lemma_add(a: i32, b: i32, la: int, lb: int, ea: int, eb: int, ba: int, bb: int)
    requires
        near(a, la, ea),
        near(b, lb, eb),
        -ba <= la <= ba,
        -bb <= lb <= bb,
        ba + ea + bb + eb < 16384 * 0x7fff_0000,
    ensures
        near(a.wrapping_add(b), la + lb, ea + eb),
        near(plus(a, b), la + lb, ea + eb),
{
    reveal(plus);
    reveal(near);
}

pub proof fn lemma_sub(a: i32, b: i32, la: int, lb: int, ea: int, eb: int, ba: int, bb: int)
    requires
        near(a, la, ea),
        near(b, lb, eb),
        -ba <= la <= ba,
        -bb <= lb <= bb,
        ba + ea + bb + eb < 16384 * 0x7fff_0000,
    ensures
        near(a.wrapping_sub(b), la - lb, ea + eb),
        near(minus(a, b), la - lb, ea + eb),
{
    reveal(minus);
    reveal(near);
}

pub proof fn lemma_neg(a: i32, la: int, ea: int, ba: int)
    requires
        near(a, la, ea),
        -ba <= la <= ba,
        ba + ea < 16384 * 0x7fff_0000,
    ensures
        near(neg_spec(a), -la, ea),
{
    reveal(near);
    reveal(neg_spec);
}

proof fn lemma_product(a: i32, p: int, la: int, ea: int, ba: int)
    requires
        near(a, la, ea),
        -ba <= la <= ba,
        0 <= p,
    ensures
        -(p * ea) <= 16384 * (p * a) - p * la <= p * ea,
        -(p * (ba + ea)) <= 16384 * (p * a) <= p * (ba + ea),
        p * a == a * p,
{
    reveal(near);
    let d = 16384 * a - la;
    assert(-(p * ea) <= p * d <= p * ea) by (nonlinear_arith)
        requires
            -ea <= d <= ea,
            0 <= p,
    ;
    assert(p * d == 16384 * (p * a) - p * la) by (nonlinear_arith)
        requires
            d == 16384 * a - la,
    ;
    assert(-(p * ba) <= p * la <= p * ba) by (nonlinear_arith)
        requires
            -ba <= la <= ba,
            0 <= p,
    ;
    assert(p * (ba + ea) == p * ba + p * ea) by (nonlinear_arith);
    assert(p * a == a * p) by (nonlinear_arith);
}

proof fn lemma_times(a: i32, p: i32, la: int, ea: int, ba: int)
    requires
        near(a, la, ea),
        -ba <= la <= ba,
        0 <= p,
        p * (ba + ea) < 16384 * 0x7fff_0000,
    ensures
        near(a.wrapping_mul(p), p * la, p * ea),
{
    lemma_product(a, p as int, la, ea, ba);
    reveal(near);
}

pub proof fn lemma_dot_add(
    a: i32,
    p: i32,
    b: i32,
    q: i32,
    la: int,
    lb: int,
    ea: int,
    eb: int,
    ba: int,
    bb: int,
)
    requires
        near(a, la, ea),
        near(b, lb, eb),
        -ba <= la <= ba,
        -bb <= lb <= bb,
        0 <= p,
        0 <= q,
        0 <= ea,
        0 <= eb,
        0 <= ba,
        0 <= bb,
        p * (ba + ea) + q * (bb + eb) < 16384 * 0x7fff_0000,
    ensures
        near(dot_add_spec(a, p, b, q), p * la + q * lb, p * ea + q * eb),
{
    lemma_product(a, p as int, la, ea, ba);
    lemma_product(b, q as int, lb, eb, bb);
    assert(p * (ba + ea) >= 0 && q * (bb + eb) >= 0) by (nonlinear_arith)
        requires
            0 <= p,
            0 <= q,
            0 <= ba + ea,
            0 <= bb + eb,
    ;
    reveal(near);
    reveal(dot_add_spec);
}

pub proof fn lemma_dot_sub(
    a: i32,
    p: i32,
    b: i32,
    q: i32,
    la: int,
    lb: int,
    ea: int,
    eb: int,
    ba: int,
    bb: int,
)
    requires
        near(a, la, ea),
        near(b, lb, eb),
        -ba <= la <= ba,
        -bb <= lb <= bb,
        0 <= p,
        0 <= q,
        0 <= ea,
        0 <= eb,
        0 <= ba,
        0 <= bb,
        p * (ba + ea) + q * (bb + eb) < 16384 * 0x7fff_0000,
    ensures
        near(dot_sub_spec(a, p, b, q), p * la - q * lb, p * ea + q * eb),
{
    lemma_product(a, p as int, la, ea, ba);
    lemma_product(b, q as int, lb, eb, bb);
    assert(p * (ba + ea) >= 0 && q * (bb + eb) >= 0) by (nonlinear_arith)
        requires
            0 <= p,
            0 <= q,
            0 <= ba + ea,
            0 <= bb + eb,
    ;
    reveal(near);
    reveal(dot_sub_spec);
}

/// The rounding shift by 14 bits is the rounded quotient by 2^14.
proof fn lemma_round14(w: i32)
    requires
        w < 0x7fff_0000,
    ensures
        w - 8192 <= 16384 * round14_spec(w) <= w + 8192,
{
    reveal(round14_spec);
    let x: i32 = (w + 8192) as i32;
    assert(x - 16383 <= 16384 * (x >> 14) && 16384 * (x >> 14) <= x) by (bit_vector);
}

pub proof fn lemma_round(w: i32, lw: int, ew: int, bw: int, lv: int, ev: int, res: int)
    requires
        near(w, lw, ew),
        -bw <= lw <= bw,
        bw + ew < 16384 * 0x7fff_0000,
        -res <= lw - 16384 * lv <= res,
        res + ew + 8192 * 16384 <= 16384 * ev,
    ensures
        near(round14_spec(w), lv, ev),
{
    reveal(near);
    lemma_round14(w);
}

pub proof fn lemma_half_sum(
    a: i32,
    b: i32,
    la: int,
    lb: int,
    ea: int,
    eb: int,
    ba: int,
    bb: int,
    lv: int,
    ev: int,
    res: int,
)
    requires
        near(a, la, ea),
        near(b, lb, eb),
        -ba <= la <= ba,
        -bb <= lb <= bb,
        0 <= ea,
        0 <= eb,
        11585 * (ba + ea) + 11585 * (bb + eb) < 16384 * 0x7fff_0000,
        -res <= 11585 * (la + lb) - 16384 * lv <= res,
        res + 11585 * ea + 11585 * eb + 8192 * 16384 <= 16384 * ev,
    ensures
        near(half_sum_spec(a, b), lv, ev),
{
    lemma_add(a, b, la, lb, ea, eb, ba, bb);
    lemma_times(a.wrapping_add(b), 11585, la + lb, ea + eb, ba + bb);
    reveal(half_sum_spec);
    lemma_round(
        a.wrapping_add(b).wrapping_mul(11585),
        11585 * (la + lb),
        11585 * (ea + eb),
        11585 * (ba + bb),
        lv,
        ev,
        res,
    );
}

pub proof fn lemma_half_diff(
    a: i32,
    b: i32,
    la: int,
    lb: int,
    ea: int,
    eb: int,
    ba: int,
    bb: int,
    lv: int,
    ev: int,
    res: int,
)
    requires
        near(a, la, ea),
        near(b, lb, eb),
        -ba <= la <= ba,
        -bb <= lb <= bb,
        0 <= ea,
        0 <= eb,
        11585 * (ba + ea) + 11585 * (bb + eb) < 16384 * 0x7fff_0000,
        -res <= 11585 * (la - lb) - 16384 * lv <= res,
        res + 11585 * ea + 11585 * eb + 8192 * 16384 <= 16384 * ev,
    ensures
        near(half_diff_spec(a, b), lv, ev),
{
    lemma_sub(a, b, la, lb, ea, eb, ba, bb);
    lemma_times(a.wrapping_sub(b), 11585, la - lb, ea + eb, ba + bb);
    reveal(half_diff_spec);
    lemma_round(
        a.wrapping_sub(b).wrapping_mul(11585),
        11585 * (la - lb),
        11585 * (ea + eb),
        11585 * (ba + bb),
        lv,
        ev,
        res,
    );
}

pub proof fn lemma_half_neg_sum(
    a: i32,
    b: i32,
    la: int,
    lb: int,
    ea: int,
    eb: int,
    ba: int,
    bb: int,
    lv: int,
    ev: int,
    res: int,
)
    requires
        near(a, la, ea),
        near(b, lb, eb),
        -ba <= la <= ba,
        -bb <= lb <= bb,
        0 <= ea,
        0 <= eb,
        11585 * (ba + ea) + 11585 * (bb + eb) < 16384 * 0x7fff_0000,
        -res <= 11585 * (-(la + lb)) - 16384 * lv <= res,
        res + 11585 * ea + 11585 * eb + 8192 * 16384 <= 16384 * ev,
    ensures
        near(half_neg_sum_spec(a, b), lv, ev),
{
    lemma_add(a, b, la, lb, ea, eb, ba, bb);
    lemma_neg(a.wrapping_add(b), la + lb, ea + eb, ba + bb);
    lemma_times(neg_spec(a.wrapping_add(b)), 11585, -(la + lb), ea + eb, ba + bb);
    reveal(half_neg_sum_spec);
    lemma_round(
        neg_spec(a.wrapping_add(b)).wrapping_mul(11585),
        11585 * (-(la + lb)),
        11585 * (ea + eb),
        11585 * (ba + bb),
        lv,
        ev,
        res,
    );
}

/// The same transform, with its sums and differences by name.
#[verifier::opaque]
spec fn idct8_odd_spec_ops(x: Seq<i32>) -> Seq<i32> {
    let t4a = round14_spec(dot_sub_spec(x[0], 3196, x[3], 16069));
    let t5a = round14_spec(dot_sub_spec(x[2], 13623, x[1], 9102));
    let t6a = round14_spec(dot_add_spec(x[2], 9102, x[1], 13623));
    let t7a = round14_spec(dot_add_spec(x[0], 16069, x[3], 3196));
    let t4 = plus(t4a, t5a);
    let t5a = minus(t4a, t5a);
    let t7 = plus(t7a, t6a);
    let t6a = minus(t7a, t6a);
    let t5 = half_diff_spec(t6a, t5a);
    let t6 = half_sum_spec(t6a, t5a);
    seq![t7, t6, t5, t4]
}

#[verifier::spinoff_prover]
proof fn lemma_idct8_odd_spec_ops(x: Seq<i32>)
    ensures
        idct8_odd_spec(x) == idct8_odd_spec_ops(x),
{
    reveal(idct8_odd_spec);
    reveal(idct8_odd_spec_ops);
    reveal(plus);
    reveal(minus);
}

/// Sums that the transform goes through are bounded.
proof fn lemma_odd_8_sums_0(x0: int, x1: int, x2: int, x3: int)
    requires
        -32767 <= x0 <= 32767,
        -32767 <= x1 <= 32767,
        -32767 <= x2 <= 32767,
        -32767 <= x3 <= 32767,
    ensures
        -10342502481920 <= 52363264 * x0 - 263274496 * x3 <= 10342502481920,
        -631256255 <= 3196 * x0 - 16069 * x3 <= 631256255,
        -12200019148800 <= -149127168 * x1 + 223199232 * x2 <= 12200019148800,
        -744630075 <= -9102 * x1 + 13623 * x2 <= 744630075,
        -12200019148800 <= 223199232 * x1 + 149127168 * x2 <= 12200019148800,
        -744630075 <= 13623 * x1 + 9102 * x2 <= 744630075,
        -10342502481920 <= 263274496 * x0 + 52363264 * x3 <= 10342502481920,
        -631256255 <= 16069 * x0 + 3196 * x3 <= 631256255,
        -1375886330 <= 3196 * x0 - 9102 * x1 + 13623 * x2 - 16069 * x3 <= 1375886330,
        -1375886330 <= 3196 * x0 + 9102 * x1 - 13623 * x2 - 16069 * x3 <= 1375886330,
        -1375886330 <= 16069 * x0 + 13623 * x1 + 9102 * x2 + 3196 * x3 <= 1375886330,
        -1375886330 <= 16069 * x0 - 13623 * x1 - 9102 * x2 + 3196 * x3 <= 1375886330,
        -1375886330 <= 9102 * x0 - 16069 * x1 + 3197 * x2 + 13622 * x3 <= 1375886330,
        -588102116 <= 6537 * x0 + 5371 * x1 - 3863 * x2 + 2177 * x3 <= 588102116,
        -1375886330 <= 13622 * x0 - 3197 * x1 - 16069 * x2 - 9102 * x3 <= 1375886330,
        -588102116 <= 2177 * x0 + 3863 * x1 + 5371 * x2 - 6537 * x3 <= 588102116,
        -65534 <= -1 * x0 - 1 * x1 <= 65534,
        -65534 <= 1 * x2 - 1 * x3 <= 65534,
{
}

spec fn odd_8_0(x: Seq<i32>) -> int {
    16069 * x[0] + 13623 * x[1] + 9102 * x[2] + 3196 * x[3]
}

spec fn odd_8_1(x: Seq<i32>) -> int {
    13623 * x[0] - 3196 * x[1] - 16069 * x[2] - 9102 * x[3]
}

spec fn odd_8_2(x: Seq<i32>) -> int {
    9102 * x[0] - 16069 * x[1] + 3196 * x[2] + 13623 * x[3]
}

spec fn odd_8_3(x: Seq<i32>) -> int {
    3196 * x[0] - 9102 * x[1] + 13623 * x[2] - 16069 * x[3]
}

/// The odd half of the 8-point transform.
#[verifier::rlimit(100)]
#[verifier::spinoff_prover]
proof fn lemma_odd_8(x: Seq<i32>)
    requires
        x.len() == 4,
        within(x, 32767),
    ensures
        idct8_odd_spec(x).len() == 4,
        ({
            let y = idct8_odd_spec(x);
            &&& near(y[0], odd_8_0(x), 132791)
            &&& near(y[1], odd_8_1(x), 132791)
            &&& near(y[2], odd_8_2(x), 132791)
            &&& near(y[3], odd_8_3(x), 132791)
        }),
{
    reveal(idct8_odd_spec_ops);
    lemma_idct8_odd_spec_ops(x);
    let x0 = x[0] as int;
    let l_x0 = 16384 * x0;
    lemma_exact(x[0]);
    let x1 = x[1] as int;
    let l_x1 = 16384 * x1;
    lemma_exact(x[1]);
    let x2 = x[2] as int;
    let l_x2 = 16384 * x2;
    lemma_exact(x[2]);
    let x3 = x[3] as int;
    let l_x3 = 16384 * x3;
    lemma_exact(x[3]);
    lemma_odd_8_sums_0(x0, x1, x2, x3);
    let v_w_2 = dot_sub_spec(x[0], 3196, x[3], 16069);
    let l_w_2 = 3196 * l_x0 - 16069 * l_x3;
    lemma_dot_sub(x[0], 3196, x[3], 16069, l_x0, l_x3, 0, 0, 536854528, 536854528);
    assert(near(v_w_2, l_w_2, 0));
    let v_t4a_1 = round14_spec(v_w_2);
    let l_t4a_1 = 3196 * x0 - 16069 * x3;
    lemma_round(v_w_2, l_w_2, 0, 10342502481920, l_t4a_1, 8192, 0);
    assert(near(v_t4a_1, l_t4a_1, 8192));
    let v_w_4 = dot_sub_spec(x[2], 13623, x[1], 9102);
    let l_w_4 = 13623 * l_x2 - 9102 * l_x1;
    lemma_dot_sub(x[2], 13623, x[1], 9102, l_x2, l_x1, 0, 0, 536854528, 536854528);
    assert(near(v_w_4, l_w_4, 0));
    let v_t5a_3 = round14_spec(v_w_4);
    let l_t5a_3 = -9102 * x1 + 13623 * x2;
    lemma_round(v_w_4, l_w_4, 0, 12200019148800, l_t5a_3, 8192, 0);
    assert(near(v_t5a_3, l_t5a_3, 8192));
    let v_w_6 = dot_add_spec(x[2], 9102, x[1], 13623);
    let l_w_6 = 9102 * l_x2 + 13623 * l_x1;
    lemma_dot_add(x[2], 9102, x[1], 13623, l_x2, l_x1, 0, 0, 536854528, 536854528);
    assert(near(v_w_6, l_w_6, 0));
    let v_t6a_5 = round14_spec(v_w_6);
    let l_t6a_5 = 13623 * x1 + 9102 * x2;
    lemma_round(v_w_6, l_w_6, 0, 12200019148800, l_t6a_5, 8192, 0);
    assert(near(v_t6a_5, l_t6a_5, 8192));
    let v_w_8 = dot_add_spec(x[0], 16069, x[3], 3196);
    let l_w_8 = 16069 * l_x0 + 3196 * l_x3;
    lemma_dot_add(x[0], 16069, x[3], 3196, l_x0, l_x3, 0, 0, 536854528, 536854528);
    assert(near(v_w_8, l_w_8, 0));
    let v_t7a_7 = round14_spec(v_w_8);
    let l_t7a_7 = 16069 * x0 + 3196 * x3;
    lemma_round(v_w_8, l_w_8, 0, 10342502481920, l_t7a_7, 8192, 0);
    assert(near(v_t7a_7, l_t7a_7, 8192));
    let v_t4_9 = plus(v_t4a_1, v_t5a_3);
    let l_t4_9 = l_t4a_1 + l_t5a_3;
    lemma_add(v_t4a_1, v_t5a_3, l_t4a_1, l_t5a_3, 8192, 8192, 631256255, 744630075);
    assert(near(v_t4_9, l_t4_9, 16384));
    let v_t5a_10 = minus(v_t4a_1, v_t5a_3);
    let l_t5a_10 = l_t4a_1 - l_t5a_3;
    lemma_sub(v_t4a_1, v_t5a_3, l_t4a_1, l_t5a_3, 8192, 8192, 631256255, 744630075);
    assert(near(v_t5a_10, l_t5a_10, 16384));
    let v_t7_11 = plus(v_t7a_7, v_t6a_5);
    let l_t7_11 = l_t7a_7 + l_t6a_5;
    lemma_add(v_t7a_7, v_t6a_5, l_t7a_7, l_t6a_5, 8192, 8192, 631256255, 744630075);
    assert(near(v_t7_11, l_t7_11, 16384));
    let v_t6a_12 = minus(v_t7a_7, v_t6a_5);
    let l_t6a_12 = l_t7a_7 - l_t6a_5;
    lemma_sub(v_t7a_7, v_t6a_5, l_t7a_7, l_t6a_5, 8192, 8192, 631256255, 744630075);
    assert(near(v_t6a_12, l_t6a_12, 16384));
    let v_t5_13 = half_diff_spec(v_t6a_12, v_t5a_10);
    let l_t5_13 = 9102 * x0 - 16069 * x1 + 3197 * x2 + 13622 * x3;
    lemma_half_diff(v_t6a_12, v_t5a_10, l_t6a_12, l_t5a_10, 16384, 16384, 1375886330, 1375886330, l_t5_13, 67257, 588102116);
    assert(near(v_t5_13, l_t5_13, 67257));
    let v_t6_14 = half_sum_spec(v_t6a_12, v_t5a_10);
    let l_t6_14 = 13622 * x0 - 3197 * x1 - 16069 * x2 - 9102 * x3;
    lemma_half_sum(v_t6a_12, v_t5a_10, l_t6a_12, l_t5a_10, 16384, 16384, 1375886330, 1375886330, l_t6_14, 67257, 588102116);
    assert(near(v_t6_14, l_t6_14, 67257));
    let y = idct8_odd_spec_ops(x);
    assert(y[0] == v_t7_11);
    lemma_wider(v_t7_11, l_t7_11, 16384, odd_8_0(x), 132791);
    assert(y[1] == v_t6_14);
    lemma_wider(v_t6_14, l_t6_14, 67257, odd_8_1(x), 132791);
    assert(y[2] == v_t5_13);
    lemma_wider(v_t5_13, l_t5_13, 67257, odd_8_2(x), 132791);
    assert(y[3] == v_t4_9);
    lemma_wider(v_t4_9, l_t4_9, 16384, odd_8_3(x), 132791);
}

/// The same transform, with its sums and differences by name.
#[verifier::opaque]
spec fn idct16_odd_spec_ops(x: Seq<i32>) -> Seq<i32> {
    let t8a = round14_spec(dot_sub_spec(x[0], 1606, x[7], 16305));
    let t15a = round14_spec(dot_add_spec(x[0], 16305, x[7], 1606));
    let t9a = round14_spec(dot_sub_spec(x[4], 12665, x[3], 10394));
    let t14a = round14_spec(dot_add_spec(x[4], 10394, x[3], 12665));
    let t10a = round14_spec(dot_sub_spec(x[2], 7723, x[5], 14449));
    let t13a = round14_spec(dot_add_spec(x[2], 14449, x[5], 7723));
    let t11a = round14_spec(dot_sub_spec(x[6], 15679, x[1], 4756));
    let t12a = round14_spec(dot_add_spec(x[6], 4756, x[1], 15679));
    let t8 = plus(t8a, t9a);
    let t9 = minus(t8a, t9a);
    let t10 = minus(t11a, t10a);
    let t11 = plus(t11a, t10a);
    let t12 = plus(t12a, t13a);
    let t13 = minus(t12a, t13a);
    let t14 = minus(t15a, t14a);
    let t15 = plus(t15a, t14a);
    let t9a = round14_spec(dot_sub_spec(t14, 6270, t9, 15137));
    let t14a = round14_spec(dot_add_spec(t14, 15137, t9, 6270));
    let t10a = round14_spec(neg_spec(dot_add_spec(t13, 15137, t10, 6270)));
    let t13a = round14_spec(dot_sub_spec(t13, 6270, t10, 15137));
    let t8a = plus(t8, t11);
    let t9 = plus(t9a, t10a);
    let t10 = minus(t9a, t10a);
    let t11a = minus(t8, t11);
    let t12a = minus(t15, t12);
    let t13 = minus(t14a, t13a);
    let t14 = plus(t14a, t13a);
    let t15a = plus(t15, t12);
    let t10a = half_diff_spec(t13, t10);
    let t13a = half_sum_spec(t13, t10);
    let t11 = half_diff_spec(t12a, t11a);
    let t12 = half_sum_spec(t12a, t11a);
    seq![t15a, t14, t13a, t12, t11, t10a, t9, t8a]
}

#[verifier::spinoff_prover]
proof fn lemma_idct16_odd_spec_ops(x: Seq<i32>)
    ensures
        idct16_odd_spec(x) == idct16_odd_spec_ops(x),
{
    reveal(idct16_odd_spec);
    reveal(idct16_odd_spec_ops);
    reveal(plus);
    reveal(minus);
}

/// Sums that the transform goes through are bounded.
proof fn lemma_odd_16_sums_0(x0: int, x1: int, x2: int, x3: int, x4: int, x5: int, x6: int, x7: int)
    requires
        -16383 <= x0 <= 16383,
        -16383 <= x1 <= 16383,
        -16383 <= x2 <= 16383,
        -16383 <= x3 <= 16383,
        -16383 <= x4 <= 16383,
        -16383 <= x5 <= 16383,
        -16383 <= x6 <= 16383,
        -16383 <= x7 <= 16383,
    ensures
        -4807653998592 <= 26312704 * x0 - 267141120 * x7 <= 4807653998592,
        -293435913 <= 1606 * x0 - 16305 * x7 <= 293435913,
        -4807653998592 <= 267141120 * x0 + 26312704 * x7 <= 4807653998592,
        -293435913 <= 16305 * x0 + 1606 * x7 <= 293435913,
        -6189475381248 <= -170295296 * x3 + 207503360 * x4 <= 6189475381248,
        -377775597 <= -10394 * x3 + 12665 * x4 <= 377775597,
        -6189475381248 <= 207503360 * x3 + 170295296 * x4 <= 6189475381248,
        -377775597 <= 12665 * x3 + 10394 * x4 <= 377775597,
        -5951387664384 <= 126533632 * x2 - 236732416 * x5 <= 5951387664384,
        -363243876 <= 7723 * x2 - 14449 * x5 <= 363243876,
        -5951387664384 <= 236732416 * x2 + 126533632 * x5 <= 5951387664384,
        -363243876 <= 14449 * x2 + 7723 * x5 <= 363243876,
        -5485143736320 <= -77922304 * x1 + 256884736 * x6 <= 5485143736320,
        -334786605 <= -4756 * x1 + 15679 * x6 <= 334786605,
        -5485143736320 <= 256884736 * x1 + 77922304 * x6 <= 5485143736320,
        -334786605 <= 15679 * x1 + 4756 * x6 <= 334786605,
        -671211510 <= 1606 * x0 - 10394 * x3 + 12665 * x4 - 16305 * x7 <= 671211510,
        -671211510 <= 1606 * x0 + 10394 * x3 - 12665 * x4 - 16305 * x7 <= 671211510,
        -698030481 <= -4756 * x1 - 7723 * x2 + 14449 * x5 + 15679 * x6 <= 698030481,
        -698030481 <= -4756 * x1 + 7723 * x2 - 14449 * x5 + 15679 * x6 <= 698030481,
        -698030481 <= 15679 * x1 + 14449 * x2 + 7723 * x5 + 4756 * x6 <= 698030481,
        -698030481 <= 15679 * x1 - 14449 * x2 - 7723 * x5 + 4756 * x6 <= 698030481,
        -671211510 <= 16305 * x0 - 12665 * x3 - 10394 * x4 + 1606 * x7 <= 671211510,
        -671211510 <= 16305 * x0 + 12665 * x3 + 10394 * x4 + 1606 * x7 <= 671211510,
        -11436709942638 <= 77922328 * x0 - 236743528 * x3 + 126539725 * x4 + 256878405 * x7 <= 11436709942638,
        -698046864 <= 4756 * x0 - 14450 * x3 + 7723 * x4 + 15679 * x7 <= 698046864,
        -290306760 <= 24 * x0 + 5272 * x3 + 6093 * x4 - 6331 * x7 <= 290306760,
        -11436709942638 <= 256878405 * x0 - 126539725 * x3 - 236743528 * x4 - 77922328 * x7 <= 11436709942638,
        -698046864 <= 15679 * x0 - 7723 * x3 - 14450 * x4 - 4756 * x7 <= 698046864,
        -290306760 <= -6331 * x0 - 6093 * x3 + 5272 * x4 - 24 * x7 <= 290306760,
        -10997209148667 <= 207512903 * x1 - 267137723 * x2 - 26307821 * x5 + 170298902 * x6 <= 10997209148667,
        -10997209148667 <= -207512903 * x1 + 267137723 * x2 + 26307821 * x5 - 170298902 * x6 <= 10997209148667,
        -671227893 <= -12666 * x1 + 16305 * x2 + 1606 * x5 - 10394 * x6 <= 671227893,
        -306804441 <= 6841 * x1 - 3397 * x2 - 4883 * x5 - 3606 * x6 <= 306804441,
        -10997209148667 <= 170298902 * x1 + 26307821 * x2 - 267137723 * x5 - 207512903 * x6 <= 10997209148667,
        -671227893 <= 10394 * x1 + 1606 * x2 - 16305 * x5 - 12666 * x6 <= 671227893,
        -306804441 <= 3606 * x1 - 4883 * x2 + 3397 * x5 + 6841 * x6 <= 306804441,
        -1369241991 <= 1606 * x0 - 4756 * x1 + 7723 * x2 - 10394 * x3 + 12665 * x4 - 14449 * x5 + 15679 * x6 - 16305 * x7 <= 1369241991,
        -1369274757 <= 4756 * x0 - 12666 * x1 + 16305 * x2 - 14450 * x3 + 7723 * x4 + 1606 * x5 - 10394 * x6 + 15679 * x7 <= 1369274757,
        -1369274757 <= 4756 * x0 + 12666 * x1 - 16305 * x2 - 14450 * x3 + 7723 * x4 - 1606 * x5 + 10394 * x6 + 15679 * x7 <= 1369274757,
        -1369241991 <= 1606 * x0 + 4756 * x1 - 7723 * x2 - 10394 * x3 + 12665 * x4 + 14449 * x5 - 15679 * x6 - 16305 * x7 <= 1369241991,
        -1369241991 <= 16305 * x0 - 15679 * x1 - 14449 * x2 + 12665 * x3 + 10394 * x4 - 7723 * x5 - 4756 * x6 + 1606 * x7 <= 1369241991,
        -1369274757 <= 15679 * x0 - 10394 * x1 - 1606 * x2 - 7723 * x3 - 14450 * x4 + 16305 * x5 + 12666 * x6 - 4756 * x7 <= 1369274757,
        -1369274757 <= 15679 * x0 + 10394 * x1 + 1606 * x2 - 7723 * x3 - 14450 * x4 - 16305 * x5 - 12666 * x6 - 4756 * x7 <= 1369274757,
        -1369241991 <= 16305 * x0 + 15679 * x1 + 14449 * x2 + 12665 * x3 + 10394 * x4 + 7723 * x5 + 4756 * x6 + 1606 * x7 <= 1369241991,
        -1369291140 <= 7724 * x0 - 16306 * x1 + 10394 * x2 + 4757 * x3 - 15678 * x4 + 12665 * x5 + 1607 * x6 - 14449 * x7 <= 1369291140,
        -877211352 <= -7061 * x0 + 7404 * x1 - 7381 * x2 - 6393 * x3 - 5853 * x4 - 4425 * x5 - 7968 * x6 - 7059 * x7 <= 877211352,
        -1369291140 <= 14449 * x0 + 1607 * x1 - 12665 * x2 - 15678 * x3 - 4757 * x4 + 10394 * x5 + 16306 * x6 + 7724 * x7 <= 1369291140,
{
}

/// Sums that the transform goes through are bounded.
proof fn lemma_odd_16_sums_1(x0: int, x1: int, x2: int, x3: int, x4: int, x5: int, x6: int, x7: int)
    requires
        -16383 <= x0 <= 16383,
        -16383 <= x1 <= 16383,
        -16383 <= x2 <= 16383,
        -16383 <= x3 <= 16383,
        -16383 <= x4 <= 16383,
        -16383 <= x5 <= 16383,
        -16383 <= x6 <= 16383,
        -16383 <= x7 <= 16383,
    ensures
        -877211352 <= 7059 * x0 - 7968 * x1 + 4425 * x2 - 5853 * x3 + 6393 * x4 - 7381 * x5 - 7404 * x6 - 7061 * x7 <= 877211352,
        -1369241991 <= 10394 * x0 - 14449 * x1 - 4756 * x2 + 16305 * x3 - 1606 * x4 - 15678 * x5 + 7724 * x6 + 12665 * x7 <= 1369241991,
        -639362958 <= -7381 * x0 - 7059 * x1 + 1594 * x2 - 2605 * x3 + 3169 * x4 + 5732 * x5 - 7061 * x6 - 4425 * x7 <= 639362958,
        -1369241991 <= 12665 * x0 - 7724 * x1 - 15678 * x2 + 1606 * x3 + 16305 * x4 + 4756 * x5 - 14449 * x6 - 10394 * x7 <= 1369241991,
        -639362958 <= -4425 * x0 + 7061 * x1 + 5732 * x2 - 3169 * x3 - 2605 * x4 - 1594 * x5 - 7059 * x6 + 7381 * x7 <= 639362958,
        -32766 <= -1 * x4 - 1 * x6 <= 32766,
        -81915 <= 1 * x1 + 1 * x3 - 1 * x4 + 1 * x6 + 1 * x7 <= 81915,
        -32766 <= -1 * x1 + 1 * x2 <= 32766,
        -32766 <= 1 * x5 + 1 * x6 <= 32766,
        -81915 <= 1 * x0 - 1 * x1 + 1 * x3 + 1 * x4 + 1 * x6 <= 81915,
        -32766 <= -1 * x1 - 1 * x3 <= 32766,
{
}

spec fn odd_16_0(x: Seq<i32>) -> int {
    16305 * x[0] + 15679 * x[1] + 14449 * x[2] + 12665 * x[3] + 10394 * x[4] + 7723 * x[5] + 4756 * x[6] + 1606 * x[7]
}

spec fn odd_16_1(x: Seq<i32>) -> int {
    15679 * x[0] + 10394 * x[1] + 1606 * x[2] - 7723 * x[3] - 14449 * x[4] - 16305 * x[5] - 12665 * x[6] - 4756 * x[7]
}

spec fn odd_16_2(x: Seq<i32>) -> int {
    14449 * x[0] + 1606 * x[1] - 12665 * x[2] - 15679 * x[3] - 4756 * x[4] + 10394 * x[5] + 16305 * x[6] + 7723 * x[7]
}

spec fn odd_16_3(x: Seq<i32>) -> int {
    12665 * x[0] - 7723 * x[1] - 15679 * x[2] + 1606 * x[3] + 16305 * x[4] + 4756 * x[5] - 14449 * x[6] - 10394 * x[7]
}

spec fn odd_16_4(x: Seq<i32>) -> int {
    10394 * x[0] - 14449 * x[1] - 4756 * x[2] + 16305 * x[3] - 1606 * x[4] - 15679 * x[5] + 7723 * x[6] + 12665 * x[7]
}

spec fn odd_16_5(x: Seq<i32>) -> int {
    7723 * x[0] - 16305 * x[1] + 10394 * x[2] + 4756 * x[3] - 15679 * x[4] + 12665 * x[5] + 1606 * x[6] - 14449 * x[7]
}

spec fn odd_16_6(x: Seq<i32>) -> int {
    4756 * x[0] - 12665 * x[1] + 16305 * x[2] - 14449 * x[3] + 7723 * x[4] + 1606 * x[5] - 10394 * x[6] + 15679 * x[7]
}

spec fn odd_16_7(x: Seq<i32>) -> int {
    1606 * x[0] - 4756 * x[1] + 7723 * x[2] - 10394 * x[3] + 12665 * x[4] - 14449 * x[5] + 15679 * x[6] - 16305 * x[7]
}

/// The odd half of the 16-point transform.
#[verifier::rlimit(100)]
#[verifier::spinoff_prover]
proof fn lemma_odd_16(x: Seq<i32>)
    requires
        x.len() == 8,
        within(x, 16383),
    ensures
        idct16_odd_spec(x).len() == 8,
        ({
            let y = idct16_odd_spec(x);
            &&& near(y[0], odd_16_0(x), 278905)
            &&& near(y[1], odd_16_1(x), 278905)
            &&& near(y[2], odd_16_2(x), 278905)
            &&& near(y[3], odd_16_3(x), 278905)
            &&& near(y[4], odd_16_4(x), 278905)
            &&& near(y[5], odd_16_5(x), 278905)
            &&& near(y[6], odd_16_6(x), 278905)
            &&& near(y[7], odd_16_7(x), 278905)
        }),
{
    reveal(idct16_odd_spec_ops);
    lemma_idct16_odd_spec_ops(x);
    let x0 = x[0] as int;
    let l_x0 = 16384 * x0;
    lemma_exact(x[0]);
    let x1 = x[1] as int;
    let l_x1 = 16384 * x1;
    lemma_exact(x[1]);
    let x2 = x[2] as int;
    let l_x2 = 16384 * x2;
    lemma_exact(x[2]);
    let x3 = x[3] as int;
    let l_x3 = 16384 * x3;
    lemma_exact(x[3]);
    let x4 = x[4] as int;
    let l_x4 = 16384 * x4;
    lemma_exact(x[4]);
    let x5 = x[5] as int;
    let l_x5 = 16384 * x5;
    lemma_exact(x[5]);
    let x6 = x[6] as int;
    let l_x6 = 16384 * x6;
    lemma_exact(x[6]);
    let x7 = x[7] as int;
    let l_x7 = 16384 * x7;
    lemma_exact(x[7]);
    lemma_odd_16_sums_0(x0, x1, x2, x3, x4, x5, x6, x7);
    lemma_odd_16_sums_1(x0, x1, x2, x3, x4, x5, x6, x7);
    let v_w_2 = dot_sub_spec(x[0], 1606, x[7], 16305);
    let l_w_2 = 1606 * l_x0 - 16305 * l_x7;
    lemma_dot_sub(x[0], 1606, x[7], 16305, l_x0, l_x7, 0, 0, 268419072, 268419072);
    assert(near(v_w_2, l_w_2, 0));
    let v_t8a_1 = round14_spec(v_w_2);
    let l_t8a_1 = 1606 * x0 - 16305 * x7;
    lemma_round(v_w_2, l_w_2, 0, 4807653998592, l_t8a_1, 8192, 0);
    assert(near(v_t8a_1, l_t8a_1, 8192));
    let v_w_4 = dot_add_spec(x[0], 16305, x[7], 1606);
    let l_w_4 = 16305 * l_x0 + 1606 * l_x7;
    lemma_dot_add(x[0], 16305, x[7], 1606, l_x0, l_x7, 0, 0, 268419072, 268419072);
    assert(near(v_w_4, l_w_4, 0));
    let v_t15a_3 = round14_spec(v_w_4);
    let l_t15a_3 = 16305 * x0 + 1606 * x7;
    lemma_round(v_w_4, l_w_4, 0, 4807653998592, l_t15a_3, 8192, 0);
    assert(near(v_t15a_3, l_t15a_3, 8192));
    let v_w_6 = dot_sub_spec(x[4], 12665, x[3], 10394);
    let l_w_6 = 12665 * l_x4 - 10394 * l_x3;
    lemma_dot_sub(x[4], 12665, x[3], 10394, l_x4, l_x3, 0, 0, 268419072, 268419072);
    assert(near(v_w_6, l_w_6, 0));
    let v_t9a_5 = round14_spec(v_w_6);
    let l_t9a_5 = -10394 * x3 + 12665 * x4;
    lemma_round(v_w_6, l_w_6, 0, 6189475381248, l_t9a_5, 8192, 0);
    assert(near(v_t9a_5, l_t9a_5, 8192));
    let v_w_8 = dot_add_spec(x[4], 10394, x[3], 12665);
    let l_w_8 = 10394 * l_x4 + 12665 * l_x3;
    lemma_dot_add(x[4], 10394, x[3], 12665, l_x4, l_x3, 0, 0, 268419072, 268419072);
    assert(near(v_w_8, l_w_8, 0));
    let v_t14a_7 = round14_spec(v_w_8);
    let l_t14a_7 = 12665 * x3 + 10394 * x4;
    lemma_round(v_w_8, l_w_8, 0, 6189475381248, l_t14a_7, 8192, 0);
    assert(near(v_t14a_7, l_t14a_7, 8192));
    let v_w_10 = dot_sub_spec(x[2], 7723, x[5], 14449);
    let l_w_10 = 7723 * l_x2 - 14449 * l_x5;
    lemma_dot_sub(x[2], 7723, x[5], 14449, l_x2, l_x5, 0, 0, 268419072, 268419072);
    assert(near(v_w_10, l_w_10, 0));
    let v_t10a_9 = round14_spec(v_w_10);
    let l_t10a_9 = 7723 * x2 - 14449 * x5;
    lemma_round(v_w_10, l_w_10, 0, 5951387664384, l_t10a_9, 8192, 0);
    assert(near(v_t10a_9, l_t10a_9, 8192));
    let v_w_12 = dot_add_spec(x[2], 14449, x[5], 7723);
    let l_w_12 = 14449 * l_x2 + 7723 * l_x5;
    lemma_dot_add(x[2], 14449, x[5], 7723, l_x2, l_x5, 0, 0, 268419072, 268419072);
    assert(near(v_w_12, l_w_12, 0));
    let v_t13a_11 = round14_spec(v_w_12);
    let l_t13a_11 = 14449 * x2 + 7723 * x5;
    lemma_round(v_w_12, l_w_12, 0, 5951387664384, l_t13a_11, 8192, 0);
    assert(near(v_t13a_11, l_t13a_11, 8192));
    let v_w_14 = dot_sub_spec(x[6], 15679, x[1], 4756);
    let l_w_14 = 15679 * l_x6 - 4756 * l_x1;
    lemma_dot_sub(x[6], 15679, x[1], 4756, l_x6, l_x1, 0, 0, 268419072, 268419072);
    assert(near(v_w_14, l_w_14, 0));
    let v_t11a_13 = round14_spec(v_w_14);
    let l_t11a_13 = -4756 * x1 + 15679 * x6;
    lemma_round(v_w_14, l_w_14, 0, 5485143736320, l_t11a_13, 8192, 0);
    assert(near(v_t11a_13, l_t11a_13, 8192));
    let v_w_16 = dot_add_spec(x[6], 4756, x[1], 15679);
    let l_w_16 = 4756 * l_x6 + 15679 * l_x1;
    lemma_dot_add(x[6], 4756, x[1], 15679, l_x6, l_x1, 0, 0, 268419072, 268419072);
    assert(near(v_w_16, l_w_16, 0));
    let v_t12a_15 = round14_spec(v_w_16);
    let l_t12a_15 = 15679 * x1 + 4756 * x6;
    lemma_round(v_w_16, l_w_16, 0, 5485143736320, l_t12a_15, 8192, 0);
    assert(near(v_t12a_15, l_t12a_15, 8192));
    let v_t8_17 = plus(v_t8a_1, v_t9a_5);
    let l_t8_17 = l_t8a_1 + l_t9a_5;
    lemma_add(v_t8a_1, v_t9a_5, l_t8a_1, l_t9a_5, 8192, 8192, 293435913, 377775597);
    assert(near(v_t8_17, l_t8_17, 16384));
    let v_t9_18 = minus(v_t8a_1, v_t9a_5);
    let l_t9_18 = l_t8a_1 - l_t9a_5;
    lemma_sub(v_t8a_1, v_t9a_5, l_t8a_1, l_t9a_5, 8192, 8192, 293435913, 377775597);
    assert(near(v_t9_18, l_t9_18, 16384));
    let v_t10_19 = minus(v_t11a_13, v_t10a_9);
    let l_t10_19 = l_t11a_13 - l_t10a_9;
    lemma_sub(v_t11a_13, v_t10a_9, l_t11a_13, l_t10a_9, 8192, 8192, 334786605, 363243876);
    assert(near(v_t10_19, l_t10_19, 16384));
    let v_t11_20 = plus(v_t11a_13, v_t10a_9);
    let l_t11_20 = l_t11a_13 + l_t10a_9;
    lemma_add(v_t11a_13, v_t10a_9, l_t11a_13, l_t10a_9, 8192, 8192, 334786605, 363243876);
    assert(near(v_t11_20, l_t11_20, 16384));
    let v_t12_21 = plus(v_t12a_15, v_t13a_11);
    let l_t12_21 = l_t12a_15 + l_t13a_11;
    lemma_add(v_t12a_15, v_t13a_11, l_t12a_15, l_t13a_11, 8192, 8192, 334786605, 363243876);
    assert(near(v_t12_21, l_t12_21, 16384));
    let v_t13_22 = minus(v_t12a_15, v_t13a_11);
    let l_t13_22 = l_t12a_15 - l_t13a_11;
    lemma_sub(v_t12a_15, v_t13a_11, l_t12a_15, l_t13a_11, 8192, 8192, 334786605, 363243876);
    assert(near(v_t13_22, l_t13_22, 16384));
    let v_t14_23 = minus(v_t15a_3, v_t14a_7);
    let l_t14_23 = l_t15a_3 - l_t14a_7;
    lemma_sub(v_t15a_3, v_t14a_7, l_t15a_3, l_t14a_7, 8192, 8192, 293435913, 377775597);
    assert(near(v_t14_23, l_t14_23, 16384));
    let v_t15_24 = plus(v_t15a_3, v_t14a_7);
    let l_t15_24 = l_t15a_3 + l_t14a_7;
    lemma_add(v_t15a_3, v_t14a_7, l_t15a_3, l_t14a_7, 8192, 8192, 293435913, 377775597);
    assert(near(v_t15_24, l_t15_24, 16384));
    let v_w_26 = dot_sub_spec(v_t14_23, 6270, v_t9_18, 15137);
    let l_w_26 = 6270 * l_t14_23 - 15137 * l_t9_18;
    lemma_dot_sub(v_t14_23, 6270, v_t9_18, 15137, l_t14_23, l_t9_18, 16384, 16384, 671211510, 671211510);
    assert(near(v_w_26, l_w_26, 350732288));
    let v_t9a_25 = round14_spec(v_w_26);
    let l_t9a_25 = 4756 * x0 - 14450 * x3 + 7723 * x4 + 15679 * x7;
    lemma_round(v_w_26, l_w_26, 350732288, 11436709942638, l_t9a_25, 47318, 290306760);
    assert(near(v_t9a_25, l_t9a_25, 47318));
    let v_w_28 = dot_add_spec(v_t14_23, 15137, v_t9_18, 6270);
    let l_w_28 = 15137 * l_t14_23 + 6270 * l_t9_18;
    lemma_dot_add(v_t14_23, 15137, v_t9_18, 6270, l_t14_23, l_t9_18, 16384, 16384, 671211510, 671211510);
    assert(near(v_w_28, l_w_28, 350732288));
    let v_t14a_27 = round14_spec(v_w_28);
    let l_t14a_27 = 15679 * x0 - 7723 * x3 - 14450 * x4 - 4756 * x7;
    lemma_round(v_w_28, l_w_28, 350732288, 11436709942638, l_t14a_27, 47318, 290306760);
    assert(near(v_t14a_27, l_t14a_27, 47318));
    let v_w_31 = dot_add_spec(v_t13_22, 15137, v_t10_19, 6270);
    let l_w_31 = 15137 * l_t13_22 + 6270 * l_t10_19;
    lemma_dot_add(v_t13_22, 15137, v_t10_19, 6270, l_t13_22, l_t10_19, 16384, 16384, 698030481, 698030481);
    assert(near(v_w_31, l_w_31, 350732288));
    let v_w_30 = neg_spec(v_w_31);
    let l_w_30 = -l_w_31;
    lemma_neg(v_w_31, l_w_31, 350732288, 10997209148667);
    assert(near(v_w_30, l_w_30, 350732288));
    let v_t10a_29 = round14_spec(v_w_30);
    let l_t10a_29 = -12666 * x1 + 16305 * x2 + 1606 * x5 - 10394 * x6;
    lemma_round(v_w_30, l_w_30, 350732288, 10997209148667, l_t10a_29, 48325, 306804441);
    assert(near(v_t10a_29, l_t10a_29, 48325));
    let v_w_33 = dot_sub_spec(v_t13_22, 6270, v_t10_19, 15137);
    let l_w_33 = 6270 * l_t13_22 - 15137 * l_t10_19;
    lemma_dot_sub(v_t13_22, 6270, v_t10_19, 15137, l_t13_22, l_t10_19, 16384, 16384, 698030481, 698030481);
    assert(near(v_w_33, l_w_33, 350732288));
    let v_t13a_32 = round14_spec(v_w_33);
    let l_t13a_32 = 10394 * x1 + 1606 * x2 - 16305 * x5 - 12666 * x6;
    lemma_round(v_w_33, l_w_33, 350732288, 10997209148667, l_t13a_32, 48325, 306804441);
    assert(near(v_t13a_32, l_t13a_32, 48325));
    let v_t8a_34 = plus(v_t8_17, v_t11_20);
    let l_t8a_34 = l_t8_17 + l_t11_20;
    lemma_add(v_t8_17, v_t11_20, l_t8_17, l_t11_20, 16384, 16384, 671211510, 698030481);
    assert(near(v_t8a_34, l_t8a_34, 32768));
    let v_t9_35 = plus(v_t9a_25, v_t10a_29);
    let l_t9_35 = l_t9a_25 + l_t10a_29;
    lemma_add(v_t9a_25, v_t10a_29, l_t9a_25, l_t10a_29, 47318, 48325, 698046864, 671227893);
    assert(near(v_t9_35, l_t9_35, 95643));
    let v_t10_36 = minus(v_t9a_25, v_t10a_29);
    let l_t10_36 = l_t9a_25 - l_t10a_29;
    lemma_sub(v_t9a_25, v_t10a_29, l_t9a_25, l_t10a_29, 47318, 48325, 698046864, 671227893);
    assert(near(v_t10_36, l_t10_36, 95643));
    let v_t11a_37 = minus(v_t8_17, v_t11_20);
    let l_t11a_37 = l_t8_17 - l_t11_20;
    lemma_sub(v_t8_17, v_t11_20, l_t8_17, l_t11_20, 16384, 16384, 671211510, 698030481);
    assert(near(v_t11a_37, l_t11a_37, 32768));
    let v_t12a_38 = minus(v_t15_24, v_t12_21);
    let l_t12a_38 = l_t15_24 - l_t12_21;
    lemma_sub(v_t15_24, v_t12_21, l_t15_24, l_t12_21, 16384, 16384, 671211510, 698030481);
    assert(near(v_t12a_38, l_t12a_38, 32768));
    let v_t13_39 = minus(v_t14a_27, v_t13a_32);
    let l_t13_39 = l_t14a_27 - l_t13a_32;
    lemma_sub(v_t14a_27, v_t13a_32, l_t14a_27, l_t13a_32, 47318, 48325, 698046864, 671227893);
    assert(near(v_t13_39, l_t13_39, 95643));
    let v_t14_40 = plus(v_t14a_27, v_t13a_32);
    let l_t14_40 = l_t14a_27 + l_t13a_32;
    lemma_add(v_t14a_27, v_t13a_32, l_t14a_27, l_t13a_32, 47318, 48325, 698046864, 671227893);
    assert(near(v_t14_40, l_t14_40, 95643));
    let v_t15a_41 = plus(v_t15_24, v_t12_21);
    let l_t15a_41 = l_t15_24 + l_t12_21;
    lemma_add(v_t15_24, v_t12_21, l_t15_24, l_t12_21, 16384, 16384, 671211510, 698030481);
    assert(near(v_t15a_41, l_t15a_41, 32768));
    let v_t10a_42 = half_diff_spec(v_t13_39, v_t10_36);
    let l_t10a_42 = 7724 * x0 - 16306 * x1 + 10394 * x2 + 4757 * x3 - 15678 * x4 + 12665 * x5 + 1607 * x6 - 14449 * x7;
    lemma_half_diff(v_t13_39, v_t10_36, l_t13_39, l_t10_36, 95643, 95643, 1369274757, 1369274757, l_t10a_42, 196990, 877211352);
    assert(near(v_t10a_42, l_t10a_42, 196990));
    let v_t13a_43 = half_sum_spec(v_t13_39, v_t10_36);
    let l_t13a_43 = 14449 * x0 + 1607 * x1 - 12665 * x2 - 15678 * x3 - 4757 * x4 + 10394 * x5 + 16306 * x6 + 7724 * x7;
    lemma_half_sum(v_t13_39, v_t10_36, l_t13_39, l_t10_36, 95643, 95643, 1369274757, 1369274757, l_t13a_43, 196990, 877211352);
    assert(near(v_t13a_43, l_t13a_43, 196990));
    let v_t11_44 = half_diff_spec(v_t12a_38, v_t11a_37);
    let l_t11_44 = 10394 * x0 - 14449 * x1 - 4756 * x2 + 16305 * x3 - 1606 * x4 - 15678 * x5 + 7724 * x6 + 12665 * x7;
    lemma_half_diff(v_t12a_38, v_t11a_37, l_t12a_38, l_t11a_37, 32768, 32768, 1369241991, 1369241991, l_t11_44, 93556, 639362958);
    assert(near(v_t11_44, l_t11_44, 93556));
    let v_t12_45 = half_sum_spec(v_t12a_38, v_t11a_37);
    let l_t12_45 = 12665 * x0 - 7724 * x1 - 15678 * x2 + 1606 * x3 + 16305 * x4 + 4756 * x5 - 14449 * x6 - 10394 * x7;
    lemma_half_sum(v_t12a_38, v_t11a_37, l_t12a_38, l_t11a_37, 32768, 32768, 1369241991, 1369241991, l_t12_45, 93556, 639362958);
    assert(near(v_t12_45, l_t12_45, 93556));
    let y = idct16_odd_spec_ops(x);
    assert(y[0] == v_t15a_41);
    lemma_wider(v_t15a_41, l_t15a_41, 32768, odd_16_0(x), 278905);
    assert(y[1] == v_t14_40);
    lemma_wider(v_t14_40, l_t14_40, 95643, odd_16_1(x), 278905);
    assert(y[2] == v_t13a_43);
    lemma_wider(v_t13a_43, l_t13a_43, 196990, odd_16_2(x), 278905);
    assert(y[3] == v_t12_45);
    lemma_wider(v_t12_45, l_t12_45, 93556, odd_16_3(x), 278905);
    assert(y[4] == v_t11_44);
    lemma_wider(v_t11_44, l_t11_44, 93556, odd_16_4(x), 278905);
    assert(y[5] == v_t10a_42);
    lemma_wider(v_t10a_42, l_t10a_42, 196990, odd_16_5(x), 278905);
    assert(y[6] == v_t9_35);
    lemma_wider(v_t9_35, l_t9_35, 95643, odd_16_6(x), 278905);
    assert(y[7] == v_t8a_34);
    lemma_wider(v_t8a_34, l_t8a_34, 32768, odd_16_7(x), 278905);
}

/// The same transform, with its sums and differences by name.
#[verifier::opaque]
spec fn iadst8_spec_ops(x: Seq<i32>) -> Seq<i32> {
    let t0a = dot_add_spec(x[7], 16305, x[0], 1606);
    let t1a = dot_sub_spec(x[7], 1606, x[0], 16305);
    let t2a = dot_add_spec(x[5], 14449, x[2], 7723);
    let t3a = dot_sub_spec(x[5], 7723, x[2], 14449);
    let t4a = dot_add_spec(x[3], 10394, x[4], 12665);
    let t5a = dot_sub_spec(x[3], 12665, x[4], 10394);
    let t6a = dot_add_spec(x[1], 4756, x[6], 15679);
    let t7a = dot_sub_spec(x[1], 15679, x[6], 4756);
    let t0 = round14_spec(plus(t0a, t4a));
    let t1 = round14_spec(plus(t1a, t5a));
    let t2 = round14_spec(plus(t2a, t6a));
    let t3 = round14_spec(plus(t3a, t7a));
    let t4 = round14_spec(minus(t0a, t4a));
    let t5 = round14_spec(minus(t1a, t5a));
    let t6 = round14_spec(minus(t2a, t6a));
    let t7 = round14_spec(minus(t3a, t7a));
    let t4a = dot_add_spec(t4, 15137, t5, 6270);
    let t5a = dot_sub_spec(t4, 6270, t5, 15137);
    let t6a = dot_sub_spec(t7, 15137, t6, 6270);
    let t7a = dot_add_spec(t7, 6270, t6, 15137);
    let out0 = plus(t0, t2);
    let out7 = neg_spec(plus(t1, t3));
    let t2 = minus(t0, t2);
    let t3 = minus(t1, t3);
    let out1 = round14_spec(plus(t4a, t6a));
    let out1 = neg_spec(out1);
    let out6 = round14_spec(plus(t5a, t7a));
    let t6 = round14_spec(minus(t4a, t6a));
    let t7 = round14_spec(minus(t5a, t7a));
    let out3 = half_sum_spec(t2, t3);
    let out3 = neg_spec(out3);
    let out4 = half_diff_spec(t2, t3);
    let out2 = half_sum_spec(t6, t7);
    let out5 = half_diff_spec(t6, t7);
    let out5 = neg_spec(out5);
    seq![out0, out1, out2, out3, out4, out5, out6, out7]
}

#[verifier::spinoff_prover]
proof fn lemma_iadst8_spec_ops(x: Seq<i32>)
    ensures
        iadst8_spec(x) == iadst8_spec_ops(x),
{
    reveal(iadst8_spec);
    reveal(iadst8_spec_ops);
    reveal(plus);
    reveal(minus);
}

/// Sums that the transform goes through are bounded.
proof fn lemma_sine_8_sums_0(x0: int, x1: int, x2: int, x3: int, x4: int, x5: int, x6: int, x7: int)
    requires
        -16383 <= x0 <= 16383,
        -16383 <= x1 <= 16383,
        -16383 <= x2 <= 16383,
        -16383 <= x3 <= 16383,
        -16383 <= x4 <= 16383,
        -16383 <= x5 <= 16383,
        -16383 <= x6 <= 16383,
        -16383 <= x7 <= 16383,
    ensures
        -4807653998592 <= 26312704 * x0 + 267141120 * x7 <= 4807653998592,
        -4807653998592 <= -267141120 * x0 + 26312704 * x7 <= 4807653998592,
        -5951387664384 <= 126533632 * x2 + 236732416 * x5 <= 5951387664384,
        -5951387664384 <= -236732416 * x2 + 126533632 * x5 <= 5951387664384,
        -6189475381248 <= 170295296 * x3 + 207503360 * x4 <= 6189475381248,
        -6189475381248 <= 207503360 * x3 - 170295296 * x4 <= 6189475381248,
        -5485143736320 <= 77922304 * x1 + 256884736 * x6 <= 5485143736320,
        -5485143736320 <= 256884736 * x1 - 77922304 * x6 <= 5485143736320,
        -10997129379840 <= 26312704 * x0 + 170295296 * x3 + 207503360 * x4 + 267141120 * x7 <= 10997129379840,
        -671211510 <= 1606 * x0 + 10394 * x3 + 12665 * x4 + 16305 * x7 <= 671211510,
        -10997129379840 <= -267141120 * x0 + 207503360 * x3 - 170295296 * x4 + 26312704 * x7 <= 10997129379840,
        -671211510 <= -16305 * x0 + 12665 * x3 - 10394 * x4 + 1606 * x7 <= 671211510,
        -11436531400704 <= 77922304 * x1 + 126533632 * x2 + 236732416 * x5 + 256884736 * x6 <= 11436531400704,
        -698030481 <= 4756 * x1 + 7723 * x2 + 14449 * x5 + 15679 * x6 <= 698030481,
        -11436531400704 <= 256884736 * x1 - 236732416 * x2 + 126533632 * x5 - 77922304 * x6 <= 11436531400704,
        -698030481 <= 15679 * x1 - 14449 * x2 + 7723 * x5 - 4756 * x6 <= 698030481,
        -10997129379840 <= 26312704 * x0 - 170295296 * x3 - 207503360 * x4 + 267141120 * x7 <= 10997129379840,
        -671211510 <= 1606 * x0 - 10394 * x3 - 12665 * x4 + 16305 * x7 <= 671211510,
        -10997129379840 <= -267141120 * x0 - 207503360 * x3 + 170295296 * x4 + 26312704 * x7 <= 10997129379840,
        -671211510 <= -16305 * x0 - 12665 * x3 + 10394 * x4 + 1606 * x7 <= 671211510,
        -11436531400704 <= -77922304 * x1 + 126533632 * x2 + 236732416 * x5 - 256884736 * x6 <= 11436531400704,
        -698030481 <= -4756 * x1 + 7723 * x2 + 14449 * x5 - 15679 * x6 <= 698030481,
        -11436531400704 <= -256884736 * x1 - 236732416 * x2 + 126533632 * x5 + 77922304 * x6 <= 11436531400704,
        -698030481 <= -15679 * x1 - 14449 * x2 + 7723 * x5 + 4756 * x6 <= 698030481,
        -11436709942638 <= -77922328 * x0 - 236743528 * x3 - 126539725 * x4 + 256878405 * x7 <= 11436709942638,
        -11436709942638 <= 256878405 * x0 + 126539725 * x3 - 236743528 * x4 + 77922328 * x7 <= 11436709942638,
        -10997209148667 <= -207512903 * x1 - 267137723 * x2 + 26307821 * x5 + 170298902 * x6 <= 10997209148667,
        -10997209148667 <= -170298902 * x1 + 26307821 * x2 + 267137723 * x5 - 207512903 * x6 <= 10997209148667,
        -1369241991 <= 1606 * x0 + 4756 * x1 + 7723 * x2 + 10394 * x3 + 12665 * x4 + 14449 * x5 + 15679 * x6 + 16305 * x7 <= 1369241991,
        -1369241991 <= -16305 * x0 + 15679 * x1 - 14449 * x2 + 12665 * x3 - 10394 * x4 + 7723 * x5 - 4756 * x6 + 1606 * x7 <= 1369241991,
        -1369241991 <= 16305 * x0 - 15679 * x1 + 14449 * x2 - 12665 * x3 + 10394 * x4 - 7723 * x5 + 4756 * x6 - 1606 * x7 <= 1369241991,
        -1369241991 <= 1606 * x0 - 4756 * x1 - 7723 * x2 + 10394 * x3 + 12665 * x4 - 14449 * x5 - 15679 * x6 + 16305 * x7 <= 1369241991,
        -1369241991 <= -16305 * x0 - 15679 * x1 + 14449 * x2 + 12665 * x3 - 10394 * x4 - 7723 * x5 + 4756 * x6 + 1606 * x7 <= 1369241991,
        -22433919091305 <= -77922328 * x0 - 207512903 * x1 - 267137723 * x2 - 236743528 * x3 - 126539725 * x4 + 26307821 * x5 + 170298902 * x6 + 256878405 * x7 <= 22433919091305,
        -1369274757 <= -4756 * x0 - 12666 * x1 - 16305 * x2 - 14450 * x3 - 7723 * x4 + 1606 * x5 + 10394 * x6 + 15679 * x7 <= 1369274757,
        -597111201 <= -24 * x0 + 6841 * x1 + 3397 * x2 + 5272 * x3 - 6093 * x4 - 4883 * x5 + 3606 * x6 - 6331 * x7 <= 597111201,
        -1369274757 <= 4756 * x0 + 12666 * x1 + 16305 * x2 + 14450 * x3 + 7723 * x4 - 1606 * x5 - 10394 * x6 - 15679 * x7 <= 1369274757,
        -22433919091305 <= 256878405 * x0 - 170298902 * x1 + 26307821 * x2 + 126539725 * x3 - 236743528 * x4 + 267137723 * x5 - 207512903 * x6 + 77922328 * x7 <= 22433919091305,
        -1369274757 <= 15679 * x0 - 10394 * x1 + 1606 * x2 + 7723 * x3 - 14450 * x4 + 16305 * x5 - 12666 * x6 + 4756 * x7 <= 1369274757,
{
}

/// Sums that the transform goes through are bounded.
proof fn lemma_sine_8_sums_1(x0: int, x1: int, x2: int, x3: int, x4: int, x5: int, x6: int, x7: int)
    requires
        -16383 <= x0 <= 16383,
        -16383 <= x1 <= 16383,
        -16383 <= x2 <= 16383,
        -16383 <= x3 <= 16383,
        -16383 <= x4 <= 16383,
        -16383 <= x5 <= 16383,
        -16383 <= x6 <= 16383,
        -16383 <= x7 <= 16383,
    ensures
        -597111201 <= -6331 * x0 - 3606 * x1 - 4883 * x2 + 6093 * x3 + 5272 * x4 - 3397 * x5 + 6841 * x6 + 24 * x7 <= 597111201,
        -22433919091305 <= -77922328 * x0 + 207512903 * x1 + 267137723 * x2 - 236743528 * x3 - 126539725 * x4 - 26307821 * x5 - 170298902 * x6 + 256878405 * x7 <= 22433919091305,
        -1369274757 <= -4756 * x0 + 12666 * x1 + 16305 * x2 - 14450 * x3 - 7723 * x4 - 1606 * x5 - 10394 * x6 + 15679 * x7 <= 1369274757,
        -597111201 <= -24 * x0 - 6841 * x1 - 3397 * x2 + 5272 * x3 - 6093 * x4 + 4883 * x5 - 3606 * x6 - 6331 * x7 <= 597111201,
        -22433919091305 <= 256878405 * x0 + 170298902 * x1 - 26307821 * x2 + 126539725 * x3 - 236743528 * x4 - 267137723 * x5 + 207512903 * x6 + 77922328 * x7 <= 22433919091305,
        -1369274757 <= 15679 * x0 + 10394 * x1 - 1606 * x2 + 7723 * x3 - 14450 * x4 - 16305 * x5 + 12666 * x6 + 4756 * x7 <= 1369274757,
        -597111201 <= -6331 * x0 + 3606 * x1 + 4883 * x2 + 6093 * x3 + 5272 * x4 + 3397 * x5 - 6841 * x6 + 24 * x7 <= 597111201,
        -1369241991 <= -10394 * x0 - 14449 * x1 + 4756 * x2 + 16305 * x3 + 1606 * x4 - 15678 * x5 - 7724 * x6 + 12665 * x7 <= 1369241991,
        -639362958 <= 7381 * x0 - 7059 * x1 - 1594 * x2 - 2605 * x3 - 3169 * x4 + 5732 * x5 + 7061 * x6 - 4425 * x7 <= 639362958,
        -1369241991 <= 10394 * x0 + 14449 * x1 - 4756 * x2 - 16305 * x3 - 1606 * x4 + 15678 * x5 + 7724 * x6 - 12665 * x7 <= 1369241991,
        -1369241991 <= 12665 * x0 + 7724 * x1 - 15678 * x2 - 1606 * x3 + 16305 * x4 - 4756 * x5 - 14449 * x6 + 10394 * x7 <= 1369241991,
        -639362958 <= -4425 * x0 - 7061 * x1 + 5732 * x2 + 3169 * x3 - 2605 * x4 + 1594 * x5 - 7059 * x6 - 7381 * x7 <= 639362958,
        -1369291140 <= 7724 * x0 + 16306 * x1 + 10394 * x2 - 4757 * x3 - 15678 * x4 - 12665 * x5 + 1607 * x6 + 14449 * x7 <= 1369291140,
        -877211352 <= -7061 * x0 - 7404 * x1 - 7381 * x2 + 6393 * x3 - 5853 * x4 + 4425 * x5 - 7968 * x6 + 7059 * x7 <= 877211352,
        -1369291140 <= -14449 * x0 + 1607 * x1 + 12665 * x2 - 15678 * x3 + 4757 * x4 + 10394 * x5 - 16306 * x6 + 7724 * x7 <= 1369291140,
        -877211352 <= -7059 * x0 - 7968 * x1 - 4425 * x2 - 5853 * x3 - 6393 * x4 - 7381 * x5 + 7404 * x6 - 7061 * x7 <= 877211352,
        -1369291140 <= 14449 * x0 - 1607 * x1 - 12665 * x2 + 15678 * x3 - 4757 * x4 - 10394 * x5 + 16306 * x6 - 7724 * x7 <= 1369291140,
        -32766 <= 1 * x1 + 1 * x3 <= 32766,
        -81915 <= 1 * x0 + 1 * x1 - 1 * x3 + 1 * x4 + 1 * x6 <= 81915,
        -32766 <= -1 * x5 + 1 * x6 <= 32766,
        -32766 <= 1 * x1 + 1 * x2 <= 32766,
        -81915 <= -1 * x1 - 1 * x3 - 1 * x4 + 1 * x6 - 1 * x7 <= 81915,
        -32766 <= -1 * x4 - 1 * x6 <= 32766,
{
}

spec fn sine_8_0(x: Seq<i32>) -> int {
    1606 * x[0] + 4756 * x[1] + 7723 * x[2] + 10394 * x[3] + 12665 * x[4] + 14449 * x[5] + 15679 * x[6] + 16305 * x[7]
}

spec fn sine_8_1(x: Seq<i32>) -> int {
    4756 * x[0] + 12665 * x[1] + 16305 * x[2] + 14449 * x[3] + 7723 * x[4] - 1606 * x[5] - 10394 * x[6] - 15679 * x[7]
}

spec fn sine_8_2(x: Seq<i32>) -> int {
    7723 * x[0] + 16305 * x[1] + 10394 * x[2] - 4756 * x[3] - 15679 * x[4] - 12665 * x[5] + 1606 * x[6] + 14449 * x[7]
}

spec fn sine_8_3(x: Seq<i32>) -> int {
    10394 * x[0] + 14449 * x[1] - 4756 * x[2] - 16305 * x[3] - 1606 * x[4] + 15679 * x[5] + 7723 * x[6] - 12665 * x[7]
}

spec fn sine_8_4(x: Seq<i32>) -> int {
    12665 * x[0] + 7723 * x[1] - 15679 * x[2] - 1606 * x[3] + 16305 * x[4] - 4756 * x[5] - 14449 * x[6] + 10394 * x[7]
}

spec fn sine_8_5(x: Seq<i32>) -> int {
    14449 * x[0] - 1606 * x[1] - 12665 * x[2] + 15679 * x[3] - 4756 * x[4] - 10394 * x[5] + 16305 * x[6] - 7723 * x[7]
}

spec fn sine_8_6(x: Seq<i32>) -> int {
    15679 * x[0] - 10394 * x[1] + 1606 * x[2] + 7723 * x[3] - 14449 * x[4] + 16305 * x[5] - 12665 * x[6] + 4756 * x[7]
}

spec fn sine_8_7(x: Seq<i32>) -> int {
    16305 * x[0] - 15679 * x[1] + 14449 * x[2] - 12665 * x[3] + 10394 * x[4] - 7723 * x[5] + 4756 * x[6] - 1606 * x[7]
}

/// The 8-point sine transform.
#[verifier::rlimit(100)]
#[verifier::spinoff_prover]
proof fn lemma_sine_8(x: Seq<i32>)
    requires
        x.len() == 8,
        within(x, 16383),
    ensures
        iadst8_spec(x).len() == 8,
        ({
            let y = iadst8_spec(x);
            &&& near(y[0], sine_8_0(x), 237047)
            &&& near(y[1], sine_8_1(x), 237047)
            &&& near(y[2], sine_8_2(x), 237047)
            &&& near(y[3], sine_8_3(x), 237047)
            &&& near(y[4], sine_8_4(x), 237047)
            &&& near(y[5], sine_8_5(x), 237047)
            &&& near(y[6], sine_8_6(x), 237047)
            &&& near(y[7], sine_8_7(x), 237047)
        }),
{
    reveal(iadst8_spec_ops);
    lemma_iadst8_spec_ops(x);
    let x0 = x[0] as int;
    let l_x0 = 16384 * x0;
    lemma_exact(x[0]);
    let x1 = x[1] as int;
    let l_x1 = 16384 * x1;
    lemma_exact(x[1]);
    let x2 = x[2] as int;
    let l_x2 = 16384 * x2;
    lemma_exact(x[2]);
    let x3 = x[3] as int;
    let l_x3 = 16384 * x3;
    lemma_exact(x[3]);
    let x4 = x[4] as int;
    let l_x4 = 16384 * x4;
    lemma_exact(x[4]);
    let x5 = x[5] as int;
    let l_x5 = 16384 * x5;
    lemma_exact(x[5]);
    let x6 = x[6] as int;
    let l_x6 = 16384 * x6;
    lemma_exact(x[6]);
    let x7 = x[7] as int;
    let l_x7 = 16384 * x7;
    lemma_exact(x[7]);
    lemma_sine_8_sums_0(x0, x1, x2, x3, x4, x5, x6, x7);
    lemma_sine_8_sums_1(x0, x1, x2, x3, x4, x5, x6, x7);
    let v_t0a_1 = dot_add_spec(x[7], 16305, x[0], 1606);
    let l_t0a_1 = 16305 * l_x7 + 1606 * l_x0;
    lemma_dot_add(x[7], 16305, x[0], 1606, l_x7, l_x0, 0, 0, 268419072, 268419072);
    assert(near(v_t0a_1, l_t0a_1, 0));
    let v_t1a_2 = dot_sub_spec(x[7], 1606, x[0], 16305);
    let l_t1a_2 = 1606 * l_x7 - 16305 * l_x0;
    lemma_dot_sub(x[7], 1606, x[0], 16305, l_x7, l_x0, 0, 0, 268419072, 268419072);
    assert(near(v_t1a_2, l_t1a_2, 0));
    let v_t2a_3 = dot_add_spec(x[5], 14449, x[2], 7723);
    let l_t2a_3 = 14449 * l_x5 + 7723 * l_x2;
    lemma_dot_add(x[5], 14449, x[2], 7723, l_x5, l_x2, 0, 0, 268419072, 268419072);
    assert(near(v_t2a_3, l_t2a_3, 0));
    let v_t3a_4 = dot_sub_spec(x[5], 7723, x[2], 14449);
    let l_t3a_4 = 7723 * l_x5 - 14449 * l_x2;
    lemma_dot_sub(x[5], 7723, x[2], 14449, l_x5, l_x2, 0, 0, 268419072, 268419072);
    assert(near(v_t3a_4, l_t3a_4, 0));
    let v_t4a_5 = dot_add_spec(x[3], 10394, x[4], 12665);
    let l_t4a_5 = 10394 * l_x3 + 12665 * l_x4;
    lemma_dot_add(x[3], 10394, x[4], 12665, l_x3, l_x4, 0, 0, 268419072, 268419072);
    assert(near(v_t4a_5, l_t4a_5, 0));
    let v_t5a_6 = dot_sub_spec(x[3], 12665, x[4], 10394);
    let l_t5a_6 = 12665 * l_x3 - 10394 * l_x4;
    lemma_dot_sub(x[3], 12665, x[4], 10394, l_x3, l_x4, 0, 0, 268419072, 268419072);
    assert(near(v_t5a_6, l_t5a_6, 0));
    let v_t6a_7 = dot_add_spec(x[1], 4756, x[6], 15679);
    let l_t6a_7 = 4756 * l_x1 + 15679 * l_x6;
    lemma_dot_add(x[1], 4756, x[6], 15679, l_x1, l_x6, 0, 0, 268419072, 268419072);
    assert(near(v_t6a_7, l_t6a_7, 0));
    let v_t7a_8 = dot_sub_spec(x[1], 15679, x[6], 4756);
    let l_t7a_8 = 15679 * l_x1 - 4756 * l_x6;
    lemma_dot_sub(x[1], 15679, x[6], 4756, l_x1, l_x6, 0, 0, 268419072, 268419072);
    assert(near(v_t7a_8, l_t7a_8, 0));
    let v_w_10 = plus(v_t0a_1, v_t4a_5);
    let l_w_10 = l_t0a_1 + l_t4a_5;
    lemma_add(v_t0a_1, v_t4a_5, l_t0a_1, l_t4a_5, 0, 0, 4807653998592, 6189475381248);
    assert(near(v_w_10, l_w_10, 0));
    let v_t0_9 = round14_spec(v_w_10);
    let l_t0_9 = 1606 * x0 + 10394 * x3 + 12665 * x4 + 16305 * x7;
    lemma_round(v_w_10, l_w_10, 0, 10997129379840, l_t0_9, 8192, 0);
    assert(near(v_t0_9, l_t0_9, 8192));
    let v_w_12 = plus(v_t1a_2, v_t5a_6);
    let l_w_12 = l_t1a_2 + l_t5a_6;
    lemma_add(v_t1a_2, v_t5a_6, l_t1a_2, l_t5a_6, 0, 0, 4807653998592, 6189475381248);
    assert(near(v_w_12, l_w_12, 0));
    let v_t1_11 = round14_spec(v_w_12);
    let l_t1_11 = -16305 * x0 + 12665 * x3 - 10394 * x4 + 1606 * x7;
    lemma_round(v_w_12, l_w_12, 0, 10997129379840, l_t1_11, 8192, 0);
    assert(near(v_t1_11, l_t1_11, 8192));
    let v_w_14 = plus(v_t2a_3, v_t6a_7);
    let l_w_14 = l_t2a_3 + l_t6a_7;
    lemma_add(v_t2a_3, v_t6a_7, l_t2a_3, l_t6a_7, 0, 0, 5951387664384, 5485143736320);
    assert(near(v_w_14, l_w_14, 0));
    let v_t2_13 = round14_spec(v_w_14);
    let l_t2_13 = 4756 * x1 + 7723 * x2 + 14449 * x5 + 15679 * x6;
    lemma_round(v_w_14, l_w_14, 0, 11436531400704, l_t2_13, 8192, 0);
    assert(near(v_t2_13, l_t2_13, 8192));
    let v_w_16 = plus(v_t3a_4, v_t7a_8);
    let l_w_16 = l_t3a_4 + l_t7a_8;
    lemma_add(v_t3a_4, v_t7a_8, l_t3a_4, l_t7a_8, 0, 0, 5951387664384, 5485143736320);
    assert(near(v_w_16, l_w_16, 0));
    let v_t3_15 = round14_spec(v_w_16);
    let l_t3_15 = 15679 * x1 - 14449 * x2 + 7723 * x5 - 4756 * x6;
    lemma_round(v_w_16, l_w_16, 0, 11436531400704, l_t3_15, 8192, 0);
    assert(near(v_t3_15, l_t3_15, 8192));
    let v_w_18 = minus(v_t0a_1, v_t4a_5);
    let l_w_18 = l_t0a_1 - l_t4a_5;
    lemma_sub(v_t0a_1, v_t4a_5, l_t0a_1, l_t4a_5, 0, 0, 4807653998592, 6189475381248);
    assert(near(v_w_18, l_w_18, 0));
    let v_t4_17 = round14_spec(v_w_18);
    let l_t4_17 = 1606 * x0 - 10394 * x3 - 12665 * x4 + 16305 * x7;
    lemma_round(v_w_18, l_w_18, 0, 10997129379840, l_t4_17, 8192, 0);
    assert(near(v_t4_17, l_t4_17, 8192));
    let v_w_20 = minus(v_t1a_2, v_t5a_6);
    let l_w_20 = l_t1a_2 - l_t5a_6;
    lemma_sub(v_t1a_2, v_t5a_6, l_t1a_2, l_t5a_6, 0, 0, 4807653998592, 6189475381248);
    assert(near(v_w_20, l_w_20, 0));
    let v_t5_19 = round14_spec(v_w_20);
    let l_t5_19 = -16305 * x0 - 12665 * x3 + 10394 * x4 + 1606 * x7;
    lemma_round(v_w_20, l_w_20, 0, 10997129379840, l_t5_19, 8192, 0);
    assert(near(v_t5_19, l_t5_19, 8192));
    let v_w_22 = minus(v_t2a_3, v_t6a_7);
    let l_w_22 = l_t2a_3 - l_t6a_7;
    lemma_sub(v_t2a_3, v_t6a_7, l_t2a_3, l_t6a_7, 0, 0, 5951387664384, 5485143736320);
    assert(near(v_w_22, l_w_22, 0));
    let v_t6_21 = round14_spec(v_w_22);
    let l_t6_21 = -4756 * x1 + 7723 * x2 + 14449 * x5 - 15679 * x6;
    lemma_round(v_w_22, l_w_22, 0, 11436531400704, l_t6_21, 8192, 0);
    assert(near(v_t6_21, l_t6_21, 8192));
    let v_w_24 = minus(v_t3a_4, v_t7a_8);
    let l_w_24 = l_t3a_4 - l_t7a_8;
    lemma_sub(v_t3a_4, v_t7a_8, l_t3a_4, l_t7a_8, 0, 0, 5951387664384, 5485143736320);
    assert(near(v_w_24, l_w_24, 0));
    let v_t7_23 = round14_spec(v_w_24);
    let l_t7_23 = -15679 * x1 - 14449 * x2 + 7723 * x5 + 4756 * x6;
    lemma_round(v_w_24, l_w_24, 0, 11436531400704, l_t7_23, 8192, 0);
    assert(near(v_t7_23, l_t7_23, 8192));
    let v_t4a_25 = dot_add_spec(v_t4_17, 15137, v_t5_19, 6270);
    let l_t4a_25 = 15137 * l_t4_17 + 6270 * l_t5_19;
    lemma_dot_add(v_t4_17, 15137, v_t5_19, 6270, l_t4_17, l_t5_19, 8192, 8192, 671211510, 671211510);
    assert(near(v_t4a_25, l_t4a_25, 175366144));
    let v_t5a_26 = dot_sub_spec(v_t4_17, 6270, v_t5_19, 15137);
    let l_t5a_26 = 6270 * l_t4_17 - 15137 * l_t5_19;
    lemma_dot_sub(v_t4_17, 6270, v_t5_19, 15137, l_t4_17, l_t5_19, 8192, 8192, 671211510, 671211510);
    assert(near(v_t5a_26, l_t5a_26, 175366144));
    let v_t6a_27 = dot_sub_spec(v_t7_23, 15137, v_t6_21, 6270);
    let l_t6a_27 = 15137 * l_t7_23 - 6270 * l_t6_21;
    lemma_dot_sub(v_t7_23, 15137, v_t6_21, 6270, l_t7_23, l_t6_21, 8192, 8192, 698030481, 698030481);
    assert(near(v_t6a_27, l_t6a_27, 175366144));
    let v_t7a_28 = dot_add_spec(v_t7_23, 6270, v_t6_21, 15137);
    let l_t7a_28 = 6270 * l_t7_23 + 15137 * l_t6_21;
    lemma_dot_add(v_t7_23, 6270, v_t6_21, 15137, l_t7_23, l_t6_21, 8192, 8192, 698030481, 698030481);
    assert(near(v_t7a_28, l_t7a_28, 175366144));
    let v_out0_29 = plus(v_t0_9, v_t2_13);
    let l_out0_29 = l_t0_9 + l_t2_13;
    lemma_add(v_t0_9, v_t2_13, l_t0_9, l_t2_13, 8192, 8192, 671211510, 698030481);
    assert(near(v_out0_29, l_out0_29, 16384));
    let v_w_31 = plus(v_t1_11, v_t3_15);
    let l_w_31 = l_t1_11 + l_t3_15;
    lemma_add(v_t1_11, v_t3_15, l_t1_11, l_t3_15, 8192, 8192, 671211510, 698030481);
    assert(near(v_w_31, l_w_31, 16384));
    let v_out7_30 = neg_spec(v_w_31);
    let l_out7_30 = -l_w_31;
    lemma_neg(v_w_31, l_w_31, 16384, 1369241991);
    assert(near(v_out7_30, l_out7_30, 16384));
    let v_t2_32 = minus(v_t0_9, v_t2_13);
    let l_t2_32 = l_t0_9 - l_t2_13;
    lemma_sub(v_t0_9, v_t2_13, l_t0_9, l_t2_13, 8192, 8192, 671211510, 698030481);
    assert(near(v_t2_32, l_t2_32, 16384));
    let v_t3_33 = minus(v_t1_11, v_t3_15);
    let l_t3_33 = l_t1_11 - l_t3_15;
    lemma_sub(v_t1_11, v_t3_15, l_t1_11, l_t3_15, 8192, 8192, 671211510, 698030481);
    assert(near(v_t3_33, l_t3_33, 16384));
    let v_w_35 = plus(v_t4a_25, v_t6a_27);
    let l_w_35 = l_t4a_25 + l_t6a_27;
    lemma_add(v_t4a_25, v_t6a_27, l_t4a_25, l_t6a_27, 175366144, 175366144, 11436709942638, 10997209148667);
    assert(near(v_w_35, l_w_35, 350732288));
    let v_out1_34 = round14_spec(v_w_35);
    let l_out1_34 = -4756 * x0 - 12666 * x1 - 16305 * x2 - 14450 * x3 - 7723 * x4 + 1606 * x5 + 10394 * x6 + 15679 * x7;
    lemma_round(v_w_35, l_w_35, 350732288, 22433919091305, l_out1_34, 66044, 597111201);
    assert(near(v_out1_34, l_out1_34, 66044));
    let v_out1_36 = neg_spec(v_out1_34);
    let l_out1_36 = -l_out1_34;
    lemma_neg(v_out1_34, l_out1_34, 66044, 1369274757);
    assert(near(v_out1_36, l_out1_36, 66044));
    let v_w_38 = plus(v_t5a_26, v_t7a_28);
    let l_w_38 = l_t5a_26 + l_t7a_28;
    lemma_add(v_t5a_26, v_t7a_28, l_t5a_26, l_t7a_28, 175366144, 175366144, 11436709942638, 10997209148667);
    assert(near(v_w_38, l_w_38, 350732288));
    let v_out6_37 = round14_spec(v_w_38);
    let l_out6_37 = 15679 * x0 - 10394 * x1 + 1606 * x2 + 7723 * x3 - 14450 * x4 + 16305 * x5 - 12666 * x6 + 4756 * x7;
    lemma_round(v_w_38, l_w_38, 350732288, 22433919091305, l_out6_37, 66044, 597111201);
    assert(near(v_out6_37, l_out6_37, 66044));
    let v_w_40 = minus(v_t4a_25, v_t6a_27);
    let l_w_40 = l_t4a_25 - l_t6a_27;
    lemma_sub(v_t4a_25, v_t6a_27, l_t4a_25, l_t6a_27, 175366144, 175366144, 11436709942638, 10997209148667);
    assert(near(v_w_40, l_w_40, 350732288));
    let v_t6_39 = round14_spec(v_w_40);
    let l_t6_39 = -4756 * x0 + 12666 * x1 + 16305 * x2 - 14450 * x3 - 7723 * x4 - 1606 * x5 - 10394 * x6 + 15679 * x7;
    lemma_round(v_w_40, l_w_40, 350732288, 22433919091305, l_t6_39, 66044, 597111201);
    assert(near(v_t6_39, l_t6_39, 66044));
    let v_w_42 = minus(v_t5a_26, v_t7a_28);
    let l_w_42 = l_t5a_26 - l_t7a_28;
    lemma_sub(v_t5a_26, v_t7a_28, l_t5a_26, l_t7a_28, 175366144, 175366144, 11436709942638, 10997209148667);
    assert(near(v_w_42, l_w_42, 350732288));
    let v_t7_41 = round14_spec(v_w_42);
    let l_t7_41 = 15679 * x0 + 10394 * x1 - 1606 * x2 + 7723 * x3 - 14450 * x4 - 16305 * x5 + 12666 * x6 + 4756 * x7;
    lemma_round(v_w_42, l_w_42, 350732288, 22433919091305, l_t7_41, 66044, 597111201);
    assert(near(v_t7_41, l_t7_41, 66044));
    let v_out3_43 = half_sum_spec(v_t2_32, v_t3_33);
    let l_out3_43 = -10394 * x0 - 14449 * x1 + 4756 * x2 + 16305 * x3 + 1606 * x4 - 15678 * x5 - 7724 * x6 + 12665 * x7;
    lemma_half_sum(v_t2_32, v_t3_33, l_t2_32, l_t3_33, 16384, 16384, 1369241991, 1369241991, l_out3_43, 70386, 639362958);
    assert(near(v_out3_43, l_out3_43, 70386));
    let v_out3_44 = neg_spec(v_out3_43);
    let l_out3_44 = -l_out3_43;
    lemma_neg(v_out3_43, l_out3_43, 70386, 1369241991);
    assert(near(v_out3_44, l_out3_44, 70386));
    let v_out4_45 = half_diff_spec(v_t2_32, v_t3_33);
    let l_out4_45 = 12665 * x0 + 7724 * x1 - 15678 * x2 - 1606 * x3 + 16305 * x4 - 4756 * x5 - 14449 * x6 + 10394 * x7;
    lemma_half_diff(v_t2_32, v_t3_33, l_t2_32, l_t3_33, 16384, 16384, 1369241991, 1369241991, l_out4_45, 70386, 639362958);
    assert(near(v_out4_45, l_out4_45, 70386));
    let v_out2_46 = half_sum_spec(v_t6_39, v_t7_41);
    let l_out2_46 = 7724 * x0 + 16306 * x1 + 10394 * x2 - 4757 * x3 - 15678 * x4 - 12665 * x5 + 1607 * x6 + 14449 * x7;
    lemma_half_sum(v_t6_39, v_t7_41, l_t6_39, l_t7_41, 66044, 66044, 1369274757, 1369274757, l_out2_46, 155132, 877211352);
    assert(near(v_out2_46, l_out2_46, 155132));
    let v_out5_47 = half_diff_spec(v_t6_39, v_t7_41);
    let l_out5_47 = -14449 * x0 + 1607 * x1 + 12665 * x2 - 15678 * x3 + 4757 * x4 + 10394 * x5 - 16306 * x6 + 7724 * x7;
    lemma_half_diff(v_t6_39, v_t7_41, l_t6_39, l_t7_41, 66044, 66044, 1369274757, 1369274757, l_out5_47, 155132, 877211352);
    assert(near(v_out5_47, l_out5_47, 155132));
    let v_out5_48 = neg_spec(v_out5_47);
    let l_out5_48 = -l_out5_47;
    lemma_neg(v_out5_47, l_out5_47, 155132, 1369291140);
    assert(near(v_out5_48, l_out5_48, 155132));
    let y = iadst8_spec_ops(x);
    assert(y[0] == v_out0_29);
    lemma_wider(v_out0_29, l_out0_29, 16384, sine_8_0(x), 237047);
    assert(y[1] == v_out1_36);
    lemma_wider(v_out1_36, l_out1_36, 66044, sine_8_1(x), 237047);
    assert(y[2] == v_out2_46);
    lemma_wider(v_out2_46, l_out2_46, 155132, sine_8_2(x), 237047);
    assert(y[3] == v_out3_44);
    lemma_wider(v_out3_44, l_out3_44, 70386, sine_8_3(x), 237047);
    assert(y[4] == v_out4_45);
    lemma_wider(v_out4_45, l_out4_45, 70386, sine_8_4(x), 237047);
    assert(y[5] == v_out5_48);
    lemma_wider(v_out5_48, l_out5_48, 155132, sine_8_5(x), 237047);
    assert(y[6] == v_out6_37);
    lemma_wider(v_out6_37, l_out6_37, 66044, sine_8_6(x), 237047);
    assert(y[7] == v_out7_30);
    lemma_wider(v_out7_30, l_out7_30, 16384, sine_8_7(x), 237047);
}

/// 2^14 times the cosine of `c` 64ths of a half turn, for the first quarter of a turn.
pub open spec fn first_quarter(c: int) -> int {
    if c <= 0 {
        16384
    } else if c == 1 {
        16364
    } else if c == 2 {
        16305
    } else if c == 3 {
        16207
    } else if c == 4 {
        16069
    } else if c == 5 {
        15893
    } else if c == 6 {
        15679
    } else if c == 7 {
        15426
    } else if c == 8 {
        15137
    } else if c == 9 {
        14811
    } else if c == 10 {
        14449
    } else if c == 11 {
        14053
    } else if c == 12 {
        13623
    } else if c == 13 {
        13160
    } else if c == 14 {
        12665
    } else if c == 15 {
        12140
    } else if c == 16 {
        11585
    } else if c == 17 {
        11003
    } else if c == 18 {
        10394
    } else if c == 19 {
        9760
    } else if c == 20 {
        9102
    } else if c == 21 {
        8423
    } else if c == 22 {
        7723
    } else if c == 23 {
        7005
    } else if c == 24 {
        6270
    } else if c == 25 {
        5520
    } else if c == 26 {
        4756
    } else if c == 27 {
        3981
    } else if c == 28 {
        3196
    } else if c == 29 {
        2404
    } else if c == 30 {
        1606
    } else if c == 31 {
        804
    } else {
        0
    }
}

/// 2^14 times the cosine of `j` 64ths of a half turn.
pub open spec fn cosine(j: int) -> int {
    let c = j % 128;
    let d = if c <= 64 {
        c
    } else {
        128 - c
    };
    if d <= 32 {
        first_quarter(d)
    } else {
        -first_quarter(64 - d)
    }
}

/// 2^14 times the sine of `j` 64ths of a half turn.
pub open spec fn sine(j: int) -> int {
    cosine(32 - j)
}

/// How often a size goes into 32.
pub open spec fn turns(size: int) -> int {
    if size == 4 {
        8
    } else if size == 8 {
        4
    } else if size == 16 {
        2
    } else {
        1
    }
}

/// The weight of the coefficient number `k` in the value number `n` of the cosine transform of a size.
pub open spec fn cosine_weight(k: int, n: int, size: int) -> int {
    if k == 0 {
        cosine(16)
    } else {
        cosine(k * ((2 * n + 1) * turns(size)))
    }
}

/// The value number `n` of the cosine transform of the first `k` coefficients.
pub open spec fn cosine_sum(x: Seq<i32>, n: int, k: int) -> int
    decreases k,
{
    if k <= 0 {
        0
    } else {
        cosine_sum(x, n, k - 1) + x[k - 1] * cosine_weight(k - 1, n, x.len() as int)
    }
}

/// The part of the coefficients at odd positions, given by themselves.
spec fn odd_sum(x: Seq<i32>, n: int, size: int, k: int) -> int
    decreases k,
{
    if k <= 0 {
        0
    } else {
        odd_sum(x, n, size, k - 1) + x[k - 1] * cosine_weight(2 * k - 1, n, size)
    }
}

/// A cosine is even, repeats itself, and changes its sign behind a half turn.
proof fn lemma_cosine(j: int, k: int)
    ensures
        cosine(64 * k - j) == (if k % 2 == 0 {
            cosine(j)
        } else {
            -cosine(j)
        }),
        -16384 <= cosine(j) <= 16384,
{
    let h = k / 2;
    let c = j % 128;
    if k % 2 == 0 {
        assert((64 * k - j) % 128 == (if c == 0 {
            0
        } else {
            128 - c
        })) by {
            assert(64 * k - j == 128 * (h - j / 128) - c);
        }
    } else {
        assert((64 * k - j) % 128 == (if c <= 64 {
            64 - c
        } else {
            192 - c
        })) by {
            assert(64 * k - j == 128 * (h - j / 128) + 64 - c);
        }
    }
}

proof fn lemma_term(x: i32, w: int, m: int)
    requires
        -m <= x <= m,
        -16384 <= w <= 16384,
    ensures
        -16384 * m <= x * w <= 16384 * m,
{
    assert(-16384 * m <= x * w <= 16384 * m) by (nonlinear_arith)
        requires
            -m <= x <= m,
            -16384 <= w <= 16384,
    ;
}

proof fn lemma_sum_bound(x: Seq<i32>, n: int, k: int, m: int)
    requires
        0 <= k <= x.len(),
        within(x, m),
    ensures
        -16384 * (k * m) <= cosine_sum(x, n, k) <= 16384 * (k * m),
    decreases k,
{
    if k > 0 {
        lemma_sum_bound(x, n, k - 1, m);
        let size = x.len() as int;
        lemma_cosine((k - 1) * ((2 * n + 1) * turns(size)), 0);
        lemma_cosine(16, 0);
        lemma_term(x[k - 1], cosine_weight(k - 1, n, size), m);
        assert((k - 1) * m + m == k * m) by (nonlinear_arith);
    } else {
        assert(k * m == 0) by (nonlinear_arith)
            requires
                k == 0,
        ;
    }
}

proof fn lemma_odd_bound(x: Seq<i32>, n: int, size: int, k: int, m: int)
    requires
        0 <= k <= x.len(),
        within(x, m),
    ensures
        -16384 * (k * m) <= odd_sum(x, n, size, k) <= 16384 * (k * m),
    decreases k,
{
    if k > 0 {
        lemma_odd_bound(x, n, size, k - 1, m);
        lemma_cosine((2 * k - 1) * ((2 * n + 1) * turns(size)), 0);
        lemma_term(x[k - 1], cosine_weight(2 * k - 1, n, size), m);
        assert((k - 1) * m + m == k * m) by (nonlinear_arith);
    } else {
        assert(k * m == 0) by (nonlinear_arith)
            requires
                k == 0,
        ;
    }
}

/// A transform is made of those of half its size: the coefficients at even positions count alike in a
/// value and in its mirror image, and those at odd positions with the opposite sign.
proof fn lemma_split(x: Seq<i32>, n: int, k: int)
    requires
        x.len() == 8 || x.len() == 16 || x.len() == 32,
        0 <= k <= x.len() / 2,
    ensures
        cosine_sum(x, n, 2 * k) == cosine_sum(evens(x), n, k) + odd_sum(
            odds(x),
            n,
            x.len() as int,
            k,
        ),
        cosine_sum(x, x.len() - 1 - n, 2 * k) == cosine_sum(evens(x), n, k) - odd_sum(
            odds(x),
            n,
            x.len() as int,
            k,
        ),
    decreases k,
{
    if k > 0 {
        let size = x.len() as int;
        let i = k - 1;
        lemma_split(x, n, i);
        lemma_weights(i, n, size);
        reveal_with_fuel(cosine_sum, 3);
        let a = x[2 * i + 1] as int;
        let w = cosine_weight(2 * i + 1, n, size);
        assert(a * (-w) == -(a * w)) by (nonlinear_arith);
        assert(odds(x)[i] == x[2 * i + 1] && evens(x)[i] == x[2 * i]);
        assert(2 * k - 1 == 2 * i + 1 && 2 * k - 2 == 2 * i);
    }
}

/// The weights of a transform, those of half its size, and those of the mirror image.
proof fn lemma_weights(i: int, n: int, size: int)
    requires
        size == 8 || size == 16 || size == 32,
        0 <= i,
    ensures
        cosine_weight(2 * i, n, size) == cosine_weight(i, n, size / 2),
        cosine_weight(2 * i, size - 1 - n, size) == cosine_weight(i, n, size / 2),
        cosine_weight(2 * i + 1, size - 1 - n, size) == -cosine_weight(2 * i + 1, n, size),
{
    let u = turns(size);
    let p = 2 * n + 1;
    let q = 2 * (size - 1 - n) + 1;
    assert(turns(size / 2) == 2 * u);
    assert(size * u == 32);
    assert((2 * i) * (p * u) == i * (p * (2 * u))) by (nonlinear_arith);
    assert(q * u == 64 - p * u) by (nonlinear_arith)
        requires
            q == 2 * size - p,
            size * u == 32,
    ;
    let m = p * u;
    assert((2 * i) * (64 - m) == 64 * (2 * i) - (2 * i) * m) by (nonlinear_arith);
    assert((2 * i + 1) * (64 - m) == 64 * (2 * i + 1) - (2 * i + 1) * m) by (nonlinear_arith);
    lemma_cosine((2 * i) * m, 2 * i);
    lemma_cosine((2 * i + 1) * m, 2 * i + 1);
}

// The weights of the values, in numbers.

proof fn lemma_weight(k: int, n: int, size: int, c: int, h: int)
    requires
        k > 0,
        0 <= c < 128,
        k * ((2 * n + 1) * turns(size)) == 128 * h + c,
    ensures
        cosine_weight(k, n, size) == cosine(c),
{
    assert((128 * h + c) % 128 == c % 128);
}

proof fn lemma_sine_weight_0(n: int, c: int, h: int)
    requires
        0 <= c < 128,
        32 - (2 * n + 1) * 2 == 128 * h + c,
    ensures
        sine_weight(0, n, 8) == cosine(c),
{
    let m = (2 * n + 1) * 2;
    assert((2 * 0 + 1) * m == m) by (nonlinear_arith);
    assert((128 * h + c) % 128 == c % 128);
}

proof fn lemma_sine_weight(k: int, n: int, c: int, h: int)
    requires
        0 <= c < 128,
        32 - (2 * k + 1) * ((2 * n + 1) * 2) == 128 * h + c,
    ensures
        sine_weight(k, n, 8) == cosine(c),
{
    assert((128 * h + c) % 128 == c % 128);
}

proof fn lemma_sum_4_0(x: Seq<i32>)
    requires
        x.len() == 4,
    ensures
        cosine_sum(x, 0, 4) == 11585 * x[0] + 15137 * x[1] + 11585 * x[2] + 6270 * x[3],
{
    reveal_with_fuel(cosine_sum, 5);
    assert(cosine(16) == 11585);
    assert(x[0] * cosine_weight(0, 0, 4) == 11585 * x[0]) by (nonlinear_arith)
        requires
            cosine_weight(0, 0, 4) == 11585,
    ;
    assert(cosine(8) == 15137);
    lemma_weight(1, 0, 4, 8, 0);
    assert(x[1] * cosine_weight(1, 0, 4) == 15137 * x[1]) by (nonlinear_arith)
        requires
            cosine_weight(1, 0, 4) == 15137,
    ;
    assert(cosine(16) == 11585);
    lemma_weight(2, 0, 4, 16, 0);
    assert(x[2] * cosine_weight(2, 0, 4) == 11585 * x[2]) by (nonlinear_arith)
        requires
            cosine_weight(2, 0, 4) == 11585,
    ;
    assert(cosine(24) == 6270);
    lemma_weight(3, 0, 4, 24, 0);
    assert(x[3] * cosine_weight(3, 0, 4) == 6270 * x[3]) by (nonlinear_arith)
        requires
            cosine_weight(3, 0, 4) == 6270,
    ;
}

proof fn lemma_sum_4_1(x: Seq<i32>)
    requires
        x.len() == 4,
    ensures
        cosine_sum(x, 1, 4) == 11585 * x[0] + 6270 * x[1] - 11585 * x[2] - 15137 * x[3],
{
    reveal_with_fuel(cosine_sum, 5);
    assert(cosine(16) == 11585);
    assert(x[0] * cosine_weight(0, 1, 4) == 11585 * x[0]) by (nonlinear_arith)
        requires
            cosine_weight(0, 1, 4) == 11585,
    ;
    assert(cosine(24) == 6270);
    lemma_weight(1, 1, 4, 24, 0);
    assert(x[1] * cosine_weight(1, 1, 4) == 6270 * x[1]) by (nonlinear_arith)
        requires
            cosine_weight(1, 1, 4) == 6270,
    ;
    assert(cosine(48) == -11585);
    lemma_weight(2, 1, 4, 48, 0);
    assert(x[2] * cosine_weight(2, 1, 4) == -11585 * x[2]) by (nonlinear_arith)
        requires
            cosine_weight(2, 1, 4) == -11585,
    ;
    assert(cosine(72) == -15137);
    lemma_weight(3, 1, 4, 72, 0);
    assert(x[3] * cosine_weight(3, 1, 4) == -15137 * x[3]) by (nonlinear_arith)
        requires
            cosine_weight(3, 1, 4) == -15137,
    ;
}

proof fn lemma_sum_4_2(x: Seq<i32>)
    requires
        x.len() == 4,
    ensures
        cosine_sum(x, 2, 4) == 11585 * x[0] - 6270 * x[1] - 11585 * x[2] + 15137 * x[3],
{
    reveal_with_fuel(cosine_sum, 5);
    assert(cosine(16) == 11585);
    assert(x[0] * cosine_weight(0, 2, 4) == 11585 * x[0]) by (nonlinear_arith)
        requires
            cosine_weight(0, 2, 4) == 11585,
    ;
    assert(cosine(40) == -6270);
    lemma_weight(1, 2, 4, 40, 0);
    assert(x[1] * cosine_weight(1, 2, 4) == -6270 * x[1]) by (nonlinear_arith)
        requires
            cosine_weight(1, 2, 4) == -6270,
    ;
    assert(cosine(80) == -11585);
    lemma_weight(2, 2, 4, 80, 0);
    assert(x[2] * cosine_weight(2, 2, 4) == -11585 * x[2]) by (nonlinear_arith)
        requires
            cosine_weight(2, 2, 4) == -11585,
    ;
    assert(cosine(120) == 15137);
    lemma_weight(3, 2, 4, 120, 0);
    assert(x[3] * cosine_weight(3, 2, 4) == 15137 * x[3]) by (nonlinear_arith)
        requires
            cosine_weight(3, 2, 4) == 15137,
    ;
}

proof fn lemma_sum_4_3(x: Seq<i32>)
    requires
        x.len() == 4,
    ensures
        cosine_sum(x, 3, 4) == 11585 * x[0] - 15137 * x[1] + 11585 * x[2] - 6270 * x[3],
{
    reveal_with_fuel(cosine_sum, 5);
    assert(cosine(16) == 11585);
    assert(x[0] * cosine_weight(0, 3, 4) == 11585 * x[0]) by (nonlinear_arith)
        requires
            cosine_weight(0, 3, 4) == 11585,
    ;
    assert(cosine(56) == -15137);
    lemma_weight(1, 3, 4, 56, 0);
    assert(x[1] * cosine_weight(1, 3, 4) == -15137 * x[1]) by (nonlinear_arith)
        requires
            cosine_weight(1, 3, 4) == -15137,
    ;
    assert(cosine(112) == 11585);
    lemma_weight(2, 3, 4, 112, 0);
    assert(x[2] * cosine_weight(2, 3, 4) == 11585 * x[2]) by (nonlinear_arith)
        requires
            cosine_weight(2, 3, 4) == 11585,
    ;
    assert(cosine(40) == -6270);
    lemma_weight(3, 3, 4, 40, 1);
    assert(x[3] * cosine_weight(3, 3, 4) == -6270 * x[3]) by (nonlinear_arith)
        requires
            cosine_weight(3, 3, 4) == -6270,
    ;
}

proof fn lemma_odd_sum_8_0(x: Seq<i32>)
    requires
        x.len() == 4,
    ensures
        odd_sum(x, 0, 8, 4) == odd_8_0(x),
{
    reveal_with_fuel(odd_sum, 5);
    assert(cosine(4) == 16069);
    lemma_weight(1, 0, 8, 4, 0);
    assert(x[0] * cosine_weight(1, 0, 8) == 16069 * x[0]) by (nonlinear_arith)
        requires
            cosine_weight(1, 0, 8) == 16069,
    ;
    assert(cosine(12) == 13623);
    lemma_weight(3, 0, 8, 12, 0);
    assert(x[1] * cosine_weight(3, 0, 8) == 13623 * x[1]) by (nonlinear_arith)
        requires
            cosine_weight(3, 0, 8) == 13623,
    ;
    assert(cosine(20) == 9102);
    lemma_weight(5, 0, 8, 20, 0);
    assert(x[2] * cosine_weight(5, 0, 8) == 9102 * x[2]) by (nonlinear_arith)
        requires
            cosine_weight(5, 0, 8) == 9102,
    ;
    assert(cosine(28) == 3196);
    lemma_weight(7, 0, 8, 28, 0);
    assert(x[3] * cosine_weight(7, 0, 8) == 3196 * x[3]) by (nonlinear_arith)
        requires
            cosine_weight(7, 0, 8) == 3196,
    ;
}

proof fn lemma_odd_sum_8_1(x: Seq<i32>)
    requires
        x.len() == 4,
    ensures
        odd_sum(x, 1, 8, 4) == odd_8_1(x),
{
    reveal_with_fuel(odd_sum, 5);
    assert(cosine(12) == 13623);
    lemma_weight(1, 1, 8, 12, 0);
    assert(x[0] * cosine_weight(1, 1, 8) == 13623 * x[0]) by (nonlinear_arith)
        requires
            cosine_weight(1, 1, 8) == 13623,
    ;
    assert(cosine(36) == -3196);
    lemma_weight(3, 1, 8, 36, 0);
    assert(x[1] * cosine_weight(3, 1, 8) == -3196 * x[1]) by (nonlinear_arith)
        requires
            cosine_weight(3, 1, 8) == -3196,
    ;
    assert(cosine(60) == -16069);
    lemma_weight(5, 1, 8, 60, 0);
    assert(x[2] * cosine_weight(5, 1, 8) == -16069 * x[2]) by (nonlinear_arith)
        requires
            cosine_weight(5, 1, 8) == -16069,
    ;
    assert(cosine(84) == -9102);
    lemma_weight(7, 1, 8, 84, 0);
    assert(x[3] * cosine_weight(7, 1, 8) == -9102 * x[3]) by (nonlinear_arith)
        requires
            cosine_weight(7, 1, 8) == -9102,
    ;
}

proof fn lemma_odd_sum_8_2(x: Seq<i32>)
    requires
        x.len() == 4,
    ensures
        odd_sum(x, 2, 8, 4) == odd_8_2(x),
{
    reveal_with_fuel(odd_sum, 5);
    assert(cosine(20) == 9102);
    lemma_weight(1, 2, 8, 20, 0);
    assert(x[0] * cosine_weight(1, 2, 8) == 9102 * x[0]) by (nonlinear_arith)
        requires
            cosine_weight(1, 2, 8) == 9102,
    ;
    assert(cosine(60) == -16069);
    lemma_weight(3, 2, 8, 60, 0);
    assert(x[1] * cosine_weight(3, 2, 8) == -16069 * x[1]) by (nonlinear_arith)
        requires
            cosine_weight(3, 2, 8) == -16069,
    ;
    assert(cosine(100) == 3196);
    lemma_weight(5, 2, 8, 100, 0);
    assert(x[2] * cosine_weight(5, 2, 8) == 3196 * x[2]) by (nonlinear_arith)
        requires
            cosine_weight(5, 2, 8) == 3196,
    ;
    assert(cosine(12) == 13623);
    lemma_weight(7, 2, 8, 12, 1);
    assert(x[3] * cosine_weight(7, 2, 8) == 13623 * x[3]) by (nonlinear_arith)
        requires
            cosine_weight(7, 2, 8) == 13623,
    ;
}

proof fn lemma_odd_sum_8_3(x: Seq<i32>)
    requires
        x.len() == 4,
    ensures
        odd_sum(x, 3, 8, 4) == odd_8_3(x),
{
    reveal_with_fuel(odd_sum, 5);
    assert(cosine(28) == 3196);
    lemma_weight(1, 3, 8, 28, 0);
    assert(x[0] * cosine_weight(1, 3, 8) == 3196 * x[0]) by (nonlinear_arith)
        requires
            cosine_weight(1, 3, 8) == 3196,
    ;
    assert(cosine(84) == -9102);
    lemma_weight(3, 3, 8, 84, 0);
    assert(x[1] * cosine_weight(3, 3, 8) == -9102 * x[1]) by (nonlinear_arith)
        requires
            cosine_weight(3, 3, 8) == -9102,
    ;
    assert(cosine(12) == 13623);
    lemma_weight(5, 3, 8, 12, 1);
    assert(x[2] * cosine_weight(5, 3, 8) == 13623 * x[2]) by (nonlinear_arith)
        requires
            cosine_weight(5, 3, 8) == 13623,
    ;
    assert(cosine(68) == -16069);
    lemma_weight(7, 3, 8, 68, 1);
    assert(x[3] * cosine_weight(7, 3, 8) == -16069 * x[3]) by (nonlinear_arith)
        requires
            cosine_weight(7, 3, 8) == -16069,
    ;
}

proof fn lemma_odd_sum_16_0(x: Seq<i32>)
    requires
        x.len() == 8,
    ensures
        odd_sum(x, 0, 16, 8) == odd_16_0(x),
{
    reveal_with_fuel(odd_sum, 9);
    assert(cosine(2) == 16305);
    lemma_weight(1, 0, 16, 2, 0);
    assert(x[0] * cosine_weight(1, 0, 16) == 16305 * x[0]) by (nonlinear_arith)
        requires
            cosine_weight(1, 0, 16) == 16305,
    ;
    assert(cosine(6) == 15679);
    lemma_weight(3, 0, 16, 6, 0);
    assert(x[1] * cosine_weight(3, 0, 16) == 15679 * x[1]) by (nonlinear_arith)
        requires
            cosine_weight(3, 0, 16) == 15679,
    ;
    assert(cosine(10) == 14449);
    lemma_weight(5, 0, 16, 10, 0);
    assert(x[2] * cosine_weight(5, 0, 16) == 14449 * x[2]) by (nonlinear_arith)
        requires
            cosine_weight(5, 0, 16) == 14449,
    ;
    assert(cosine(14) == 12665);
    lemma_weight(7, 0, 16, 14, 0);
    assert(x[3] * cosine_weight(7, 0, 16) == 12665 * x[3]) by (nonlinear_arith)
        requires
            cosine_weight(7, 0, 16) == 12665,
    ;
    assert(cosine(18) == 10394);
    lemma_weight(9, 0, 16, 18, 0);
    assert(x[4] * cosine_weight(9, 0, 16) == 10394 * x[4]) by (nonlinear_arith)
        requires
            cosine_weight(9, 0, 16) == 10394,
    ;
    assert(cosine(22) == 7723);
    lemma_weight(11, 0, 16, 22, 0);
    assert(x[5] * cosine_weight(11, 0, 16) == 7723 * x[5]) by (nonlinear_arith)
        requires
            cosine_weight(11, 0, 16) == 7723,
    ;
    assert(cosine(26) == 4756);
    lemma_weight(13, 0, 16, 26, 0);
    assert(x[6] * cosine_weight(13, 0, 16) == 4756 * x[6]) by (nonlinear_arith)
        requires
            cosine_weight(13, 0, 16) == 4756,
    ;
    assert(cosine(30) == 1606);
    lemma_weight(15, 0, 16, 30, 0);
    assert(x[7] * cosine_weight(15, 0, 16) == 1606 * x[7]) by (nonlinear_arith)
        requires
            cosine_weight(15, 0, 16) == 1606,
    ;
}

proof fn lemma_odd_sum_16_1(x: Seq<i32>)
    requires
        x.len() == 8,
    ensures
        odd_sum(x, 1, 16, 8) == odd_16_1(x),
{
    reveal_with_fuel(odd_sum, 9);
    assert(cosine(6) == 15679);
    lemma_weight(1, 1, 16, 6, 0);
    assert(x[0] * cosine_weight(1, 1, 16) == 15679 * x[0]) by (nonlinear_arith)
        requires
            cosine_weight(1, 1, 16) == 15679,
    ;
    assert(cosine(18) == 10394);
    lemma_weight(3, 1, 16, 18, 0);
    assert(x[1] * cosine_weight(3, 1, 16) == 10394 * x[1]) by (nonlinear_arith)
        requires
            cosine_weight(3, 1, 16) == 10394,
    ;
    assert(cosine(30) == 1606);
    lemma_weight(5, 1, 16, 30, 0);
    assert(x[2] * cosine_weight(5, 1, 16) == 1606 * x[2]) by (nonlinear_arith)
        requires
            cosine_weight(5, 1, 16) == 1606,
    ;
    assert(cosine(42) == -7723);
    lemma_weight(7, 1, 16, 42, 0);
    assert(x[3] * cosine_weight(7, 1, 16) == -7723 * x[3]) by (nonlinear_arith)
        requires
            cosine_weight(7, 1, 16) == -7723,
    ;
    assert(cosine(54) == -14449);
    lemma_weight(9, 1, 16, 54, 0);
    assert(x[4] * cosine_weight(9, 1, 16) == -14449 * x[4]) by (nonlinear_arith)
        requires
            cosine_weight(9, 1, 16) == -14449,
    ;
    assert(cosine(66) == -16305);
    lemma_weight(11, 1, 16, 66, 0);
    assert(x[5] * cosine_weight(11, 1, 16) == -16305 * x[5]) by (nonlinear_arith)
        requires
            cosine_weight(11, 1, 16) == -16305,
    ;
    assert(cosine(78) == -12665);
    lemma_weight(13, 1, 16, 78, 0);
    assert(x[6] * cosine_weight(13, 1, 16) == -12665 * x[6]) by (nonlinear_arith)
        requires
            cosine_weight(13, 1, 16) == -12665,
    ;
    assert(cosine(90) == -4756);
    lemma_weight(15, 1, 16, 90, 0);
    assert(x[7] * cosine_weight(15, 1, 16) == -4756 * x[7]) by (nonlinear_arith)
        requires
            cosine_weight(15, 1, 16) == -4756,
    ;
}

proof fn lemma_odd_sum_16_2(x: Seq<i32>)
    requires
        x.len() == 8,
    ensures
        odd_sum(x, 2, 16, 8) == odd_16_2(x),
{
    reveal_with_fuel(odd_sum, 9);
    assert(cosine(10) == 14449);
    lemma_weight(1, 2, 16, 10, 0);
    assert(x[0] * cosine_weight(1, 2, 16) == 14449 * x[0]) by (nonlinear_arith)
        requires
            cosine_weight(1, 2, 16) == 14449,
    ;
    assert(cosine(30) == 1606);
    lemma_weight(3, 2, 16, 30, 0);
    assert(x[1] * cosine_weight(3, 2, 16) == 1606 * x[1]) by (nonlinear_arith)
        requires
            cosine_weight(3, 2, 16) == 1606,
    ;
    assert(cosine(50) == -12665);
    lemma_weight(5, 2, 16, 50, 0);
    assert(x[2] * cosine_weight(5, 2, 16) == -12665 * x[2]) by (nonlinear_arith)
        requires
            cosine_weight(5, 2, 16) == -12665,
    ;
    assert(cosine(70) == -15679);
    lemma_weight(7, 2, 16, 70, 0);
    assert(x[3] * cosine_weight(7, 2, 16) == -15679 * x[3]) by (nonlinear_arith)
        requires
            cosine_weight(7, 2, 16) == -15679,
    ;
    assert(cosine(90) == -4756);
    lemma_weight(9, 2, 16, 90, 0);
    assert(x[4] * cosine_weight(9, 2, 16) == -4756 * x[4]) by (nonlinear_arith)
        requires
            cosine_weight(9, 2, 16) == -4756,
    ;
    assert(cosine(110) == 10394);
    lemma_weight(11, 2, 16, 110, 0);
    assert(x[5] * cosine_weight(11, 2, 16) == 10394 * x[5]) by (nonlinear_arith)
        requires
            cosine_weight(11, 2, 16) == 10394,
    ;
    assert(cosine(2) == 16305);
    lemma_weight(13, 2, 16, 2, 1);
    assert(x[6] * cosine_weight(13, 2, 16) == 16305 * x[6]) by (nonlinear_arith)
        requires
            cosine_weight(13, 2, 16) == 16305,
    ;
    assert(cosine(22) == 7723);
    lemma_weight(15, 2, 16, 22, 1);
    assert(x[7] * cosine_weight(15, 2, 16) == 7723 * x[7]) by (nonlinear_arith)
        requires
            cosine_weight(15, 2, 16) == 7723,
    ;
}

proof fn lemma_odd_sum_16_3(x: Seq<i32>)
    requires
        x.len() == 8,
    ensures
        odd_sum(x, 3, 16, 8) == odd_16_3(x),
{
    reveal_with_fuel(odd_sum, 9);
    assert(cosine(14) == 12665);
    lemma_weight(1, 3, 16, 14, 0);
    assert(x[0] * cosine_weight(1, 3, 16) == 12665 * x[0]) by (nonlinear_arith)
        requires
            cosine_weight(1, 3, 16) == 12665,
    ;
    assert(cosine(42) == -7723);
    lemma_weight(3, 3, 16, 42, 0);
    assert(x[1] * cosine_weight(3, 3, 16) == -7723 * x[1]) by (nonlinear_arith)
        requires
            cosine_weight(3, 3, 16) == -7723,
    ;
    assert(cosine(70) == -15679);
    lemma_weight(5, 3, 16, 70, 0);
    assert(x[2] * cosine_weight(5, 3, 16) == -15679 * x[2]) by (nonlinear_arith)
        requires
            cosine_weight(5, 3, 16) == -15679,
    ;
    assert(cosine(98) == 1606);
    lemma_weight(7, 3, 16, 98, 0);
    assert(x[3] * cosine_weight(7, 3, 16) == 1606 * x[3]) by (nonlinear_arith)
        requires
            cosine_weight(7, 3, 16) == 1606,
    ;
    assert(cosine(126) == 16305);
    lemma_weight(9, 3, 16, 126, 0);
    assert(x[4] * cosine_weight(9, 3, 16) == 16305 * x[4]) by (nonlinear_arith)
        requires
            cosine_weight(9, 3, 16) == 16305,
    ;
    assert(cosine(26) == 4756);
    lemma_weight(11, 3, 16, 26, 1);
    assert(x[5] * cosine_weight(11, 3, 16) == 4756 * x[5]) by (nonlinear_arith)
        requires
            cosine_weight(11, 3, 16) == 4756,
    ;
    assert(cosine(54) == -14449);
    lemma_weight(13, 3, 16, 54, 1);
    assert(x[6] * cosine_weight(13, 3, 16) == -14449 * x[6]) by (nonlinear_arith)
        requires
            cosine_weight(13, 3, 16) == -14449,
    ;
    assert(cosine(82) == -10394);
    lemma_weight(15, 3, 16, 82, 1);
    assert(x[7] * cosine_weight(15, 3, 16) == -10394 * x[7]) by (nonlinear_arith)
        requires
            cosine_weight(15, 3, 16) == -10394,
    ;
}

proof fn lemma_odd_sum_16_4(x: Seq<i32>)
    requires
        x.len() == 8,
    ensures
        odd_sum(x, 4, 16, 8) == odd_16_4(x),
{
    reveal_with_fuel(odd_sum, 9);
    assert(cosine(18) == 10394);
    lemma_weight(1, 4, 16, 18, 0);
    assert(x[0] * cosine_weight(1, 4, 16) == 10394 * x[0]) by (nonlinear_arith)
        requires
            cosine_weight(1, 4, 16) == 10394,
    ;
    assert(cosine(54) == -14449);
    lemma_weight(3, 4, 16, 54, 0);
    assert(x[1] * cosine_weight(3, 4, 16) == -14449 * x[1]) by (nonlinear_arith)
        requires
            cosine_weight(3, 4, 16) == -14449,
    ;
    assert(cosine(90) == -4756);
    lemma_weight(5, 4, 16, 90, 0);
    assert(x[2] * cosine_weight(5, 4, 16) == -4756 * x[2]) by (nonlinear_arith)
        requires
            cosine_weight(5, 4, 16) == -4756,
    ;
    assert(cosine(126) == 16305);
    lemma_weight(7, 4, 16, 126, 0);
    assert(x[3] * cosine_weight(7, 4, 16) == 16305 * x[3]) by (nonlinear_arith)
        requires
            cosine_weight(7, 4, 16) == 16305,
    ;
    assert(cosine(34) == -1606);
    lemma_weight(9, 4, 16, 34, 1);
    assert(x[4] * cosine_weight(9, 4, 16) == -1606 * x[4]) by (nonlinear_arith)
        requires
            cosine_weight(9, 4, 16) == -1606,
    ;
    assert(cosine(70) == -15679);
    lemma_weight(11, 4, 16, 70, 1);
    assert(x[5] * cosine_weight(11, 4, 16) == -15679 * x[5]) by (nonlinear_arith)
        requires
            cosine_weight(11, 4, 16) == -15679,
    ;
    assert(cosine(106) == 7723);
    lemma_weight(13, 4, 16, 106, 1);
    assert(x[6] * cosine_weight(13, 4, 16) == 7723 * x[6]) by (nonlinear_arith)
        requires
            cosine_weight(13, 4, 16) == 7723,
    ;
    assert(cosine(14) == 12665);
    lemma_weight(15, 4, 16, 14, 2);
    assert(x[7] * cosine_weight(15, 4, 16) == 12665 * x[7]) by (nonlinear_arith)
        requires
            cosine_weight(15, 4, 16) == 12665,
    ;
}

proof fn lemma_odd_sum_16_5(x: Seq<i32>)
    requires
        x.len() == 8,
    ensures
        odd_sum(x, 5, 16, 8) == odd_16_5(x),
{
    reveal_with_fuel(odd_sum, 9);
    assert(cosine(22) == 7723);
    lemma_weight(1, 5, 16, 22, 0);
    assert(x[0] * cosine_weight(1, 5, 16) == 7723 * x[0]) by (nonlinear_arith)
        requires
            cosine_weight(1, 5, 16) == 7723,
    ;
    assert(cosine(66) == -16305);
    lemma_weight(3, 5, 16, 66, 0);
    assert(x[1] * cosine_weight(3, 5, 16) == -16305 * x[1]) by (nonlinear_arith)
        requires
            cosine_weight(3, 5, 16) == -16305,
    ;
    assert(cosine(110) == 10394);
    lemma_weight(5, 5, 16, 110, 0);
    assert(x[2] * cosine_weight(5, 5, 16) == 10394 * x[2]) by (nonlinear_arith)
        requires
            cosine_weight(5, 5, 16) == 10394,
    ;
    assert(cosine(26) == 4756);
    lemma_weight(7, 5, 16, 26, 1);
    assert(x[3] * cosine_weight(7, 5, 16) == 4756 * x[3]) by (nonlinear_arith)
        requires
            cosine_weight(7, 5, 16) == 4756,
    ;
    assert(cosine(70) == -15679);
    lemma_weight(9, 5, 16, 70, 1);
    assert(x[4] * cosine_weight(9, 5, 16) == -15679 * x[4]) by (nonlinear_arith)
        requires
            cosine_weight(9, 5, 16) == -15679,
    ;
    assert(cosine(114) == 12665);
    lemma_weight(11, 5, 16, 114, 1);
    assert(x[5] * cosine_weight(11, 5, 16) == 12665 * x[5]) by (nonlinear_arith)
        requires
            cosine_weight(11, 5, 16) == 12665,
    ;
    assert(cosine(30) == 1606);
    lemma_weight(13, 5, 16, 30, 2);
    assert(x[6] * cosine_weight(13, 5, 16) == 1606 * x[6]) by (nonlinear_arith)
        requires
            cosine_weight(13, 5, 16) == 1606,
    ;
    assert(cosine(74) == -14449);
    lemma_weight(15, 5, 16, 74, 2);
    assert(x[7] * cosine_weight(15, 5, 16) == -14449 * x[7]) by (nonlinear_arith)
        requires
            cosine_weight(15, 5, 16) == -14449,
    ;
}

proof fn lemma_odd_sum_16_6(x: Seq<i32>)
    requires
        x.len() == 8,
    ensures
        odd_sum(x, 6, 16, 8) == odd_16_6(x),
{
    reveal_with_fuel(odd_sum, 9);
    assert(cosine(26) == 4756);
    lemma_weight(1, 6, 16, 26, 0);
    assert(x[0] * cosine_weight(1, 6, 16) == 4756 * x[0]) by (nonlinear_arith)
        requires
            cosine_weight(1, 6, 16) == 4756,
    ;
    assert(cosine(78) == -12665);
    lemma_weight(3, 6, 16, 78, 0);
    assert(x[1] * cosine_weight(3, 6, 16) == -12665 * x[1]) by (nonlinear_arith)
        requires
            cosine_weight(3, 6, 16) == -12665,
    ;
    assert(cosine(2) == 16305);
    lemma_weight(5, 6, 16, 2, 1);
    assert(x[2] * cosine_weight(5, 6, 16) == 16305 * x[2]) by (nonlinear_arith)
        requires
            cosine_weight(5, 6, 16) == 16305,
    ;
    assert(cosine(54) == -14449);
    lemma_weight(7, 6, 16, 54, 1);
    assert(x[3] * cosine_weight(7, 6, 16) == -14449 * x[3]) by (nonlinear_arith)
        requires
            cosine_weight(7, 6, 16) == -14449,
    ;
    assert(cosine(106) == 7723);
    lemma_weight(9, 6, 16, 106, 1);
    assert(x[4] * cosine_weight(9, 6, 16) == 7723 * x[4]) by (nonlinear_arith)
        requires
            cosine_weight(9, 6, 16) == 7723,
    ;
    assert(cosine(30) == 1606);
    lemma_weight(11, 6, 16, 30, 2);
    assert(x[5] * cosine_weight(11, 6, 16) == 1606 * x[5]) by (nonlinear_arith)
        requires
            cosine_weight(11, 6, 16) == 1606,
    ;
    assert(cosine(82) == -10394);
    lemma_weight(13, 6, 16, 82, 2);
    assert(x[6] * cosine_weight(13, 6, 16) == -10394 * x[6]) by (nonlinear_arith)
        requires
            cosine_weight(13, 6, 16) == -10394,
    ;
    assert(cosine(6) == 15679);
    lemma_weight(15, 6, 16, 6, 3);
    assert(x[7] * cosine_weight(15, 6, 16) == 15679 * x[7]) by (nonlinear_arith)
        requires
            cosine_weight(15, 6, 16) == 15679,
    ;
}

proof fn lemma_odd_sum_16_7(x: Seq<i32>)
    requires
        x.len() == 8,
    ensures
        odd_sum(x, 7, 16, 8) == odd_16_7(x),
{
    reveal_with_fuel(odd_sum, 9);
    assert(cosine(30) == 1606);
    lemma_weight(1, 7, 16, 30, 0);
    assert(x[0] * cosine_weight(1, 7, 16) == 1606 * x[0]) by (nonlinear_arith)
        requires
            cosine_weight(1, 7, 16) == 1606,
    ;
    assert(cosine(90) == -4756);
    lemma_weight(3, 7, 16, 90, 0);
    assert(x[1] * cosine_weight(3, 7, 16) == -4756 * x[1]) by (nonlinear_arith)
        requires
            cosine_weight(3, 7, 16) == -4756,
    ;
    assert(cosine(22) == 7723);
    lemma_weight(5, 7, 16, 22, 1);
    assert(x[2] * cosine_weight(5, 7, 16) == 7723 * x[2]) by (nonlinear_arith)
        requires
            cosine_weight(5, 7, 16) == 7723,
    ;
    assert(cosine(82) == -10394);
    lemma_weight(7, 7, 16, 82, 1);
    assert(x[3] * cosine_weight(7, 7, 16) == -10394 * x[3]) by (nonlinear_arith)
        requires
            cosine_weight(7, 7, 16) == -10394,
    ;
    assert(cosine(14) == 12665);
    lemma_weight(9, 7, 16, 14, 2);
    assert(x[4] * cosine_weight(9, 7, 16) == 12665 * x[4]) by (nonlinear_arith)
        requires
            cosine_weight(9, 7, 16) == 12665,
    ;
    assert(cosine(74) == -14449);
    lemma_weight(11, 7, 16, 74, 2);
    assert(x[5] * cosine_weight(11, 7, 16) == -14449 * x[5]) by (nonlinear_arith)
        requires
            cosine_weight(11, 7, 16) == -14449,
    ;
    assert(cosine(6) == 15679);
    lemma_weight(13, 7, 16, 6, 3);
    assert(x[6] * cosine_weight(13, 7, 16) == 15679 * x[6]) by (nonlinear_arith)
        requires
            cosine_weight(13, 7, 16) == 15679,
    ;
    assert(cosine(66) == -16305);
    lemma_weight(15, 7, 16, 66, 3);
    assert(x[7] * cosine_weight(15, 7, 16) == -16305 * x[7]) by (nonlinear_arith)
        requires
            cosine_weight(15, 7, 16) == -16305,
    ;
}

proof fn lemma_sine_sum_8_0(x: Seq<i32>)
    requires
        x.len() == 8,
    ensures
        sine_sum(x, 0, 8) == sine_8_0(x),
{
    reveal_with_fuel(sine_sum, 9);
    assert(cosine(30) == 1606);
    lemma_sine_weight_0(0, 30, 0);
    assert(x[0] * sine_weight(0, 0, 8) == 1606 * x[0]) by (nonlinear_arith)
        requires
            sine_weight(0, 0, 8) == 1606,
    ;
    assert(cosine(26) == 4756);
    lemma_sine_weight(1, 0, 26, 0);
    assert(x[1] * sine_weight(1, 0, 8) == 4756 * x[1]) by (nonlinear_arith)
        requires
            sine_weight(1, 0, 8) == 4756,
    ;
    assert(cosine(22) == 7723);
    lemma_sine_weight(2, 0, 22, 0);
    assert(x[2] * sine_weight(2, 0, 8) == 7723 * x[2]) by (nonlinear_arith)
        requires
            sine_weight(2, 0, 8) == 7723,
    ;
    assert(cosine(18) == 10394);
    lemma_sine_weight(3, 0, 18, 0);
    assert(x[3] * sine_weight(3, 0, 8) == 10394 * x[3]) by (nonlinear_arith)
        requires
            sine_weight(3, 0, 8) == 10394,
    ;
    assert(cosine(14) == 12665);
    lemma_sine_weight(4, 0, 14, 0);
    assert(x[4] * sine_weight(4, 0, 8) == 12665 * x[4]) by (nonlinear_arith)
        requires
            sine_weight(4, 0, 8) == 12665,
    ;
    assert(cosine(10) == 14449);
    lemma_sine_weight(5, 0, 10, 0);
    assert(x[5] * sine_weight(5, 0, 8) == 14449 * x[5]) by (nonlinear_arith)
        requires
            sine_weight(5, 0, 8) == 14449,
    ;
    assert(cosine(6) == 15679);
    lemma_sine_weight(6, 0, 6, 0);
    assert(x[6] * sine_weight(6, 0, 8) == 15679 * x[6]) by (nonlinear_arith)
        requires
            sine_weight(6, 0, 8) == 15679,
    ;
    assert(cosine(2) == 16305);
    lemma_sine_weight(7, 0, 2, 0);
    assert(x[7] * sine_weight(7, 0, 8) == 16305 * x[7]) by (nonlinear_arith)
        requires
            sine_weight(7, 0, 8) == 16305,
    ;
}

proof fn lemma_sine_sum_8_1(x: Seq<i32>)
    requires
        x.len() == 8,
    ensures
        sine_sum(x, 1, 8) == sine_8_1(x),
{
    reveal_with_fuel(sine_sum, 9);
    assert(cosine(26) == 4756);
    lemma_sine_weight_0(1, 26, 0);
    assert(x[0] * sine_weight(0, 1, 8) == 4756 * x[0]) by (nonlinear_arith)
        requires
            sine_weight(0, 1, 8) == 4756,
    ;
    assert(cosine(14) == 12665);
    lemma_sine_weight(1, 1, 14, 0);
    assert(x[1] * sine_weight(1, 1, 8) == 12665 * x[1]) by (nonlinear_arith)
        requires
            sine_weight(1, 1, 8) == 12665,
    ;
    assert(cosine(2) == 16305);
    lemma_sine_weight(2, 1, 2, 0);
    assert(x[2] * sine_weight(2, 1, 8) == 16305 * x[2]) by (nonlinear_arith)
        requires
            sine_weight(2, 1, 8) == 16305,
    ;
    assert(cosine(118) == 14449);
    lemma_sine_weight(3, 1, 118, -1);
    assert(x[3] * sine_weight(3, 1, 8) == 14449 * x[3]) by (nonlinear_arith)
        requires
            sine_weight(3, 1, 8) == 14449,
    ;
    assert(cosine(106) == 7723);
    lemma_sine_weight(4, 1, 106, -1);
    assert(x[4] * sine_weight(4, 1, 8) == 7723 * x[4]) by (nonlinear_arith)
        requires
            sine_weight(4, 1, 8) == 7723,
    ;
    assert(cosine(94) == -1606);
    lemma_sine_weight(5, 1, 94, -1);
    assert(x[5] * sine_weight(5, 1, 8) == -1606 * x[5]) by (nonlinear_arith)
        requires
            sine_weight(5, 1, 8) == -1606,
    ;
    assert(cosine(82) == -10394);
    lemma_sine_weight(6, 1, 82, -1);
    assert(x[6] * sine_weight(6, 1, 8) == -10394 * x[6]) by (nonlinear_arith)
        requires
            sine_weight(6, 1, 8) == -10394,
    ;
    assert(cosine(70) == -15679);
    lemma_sine_weight(7, 1, 70, -1);
    assert(x[7] * sine_weight(7, 1, 8) == -15679 * x[7]) by (nonlinear_arith)
        requires
            sine_weight(7, 1, 8) == -15679,
    ;
}

proof fn lemma_sine_sum_8_2(x: Seq<i32>)
    requires
        x.len() == 8,
    ensures
        sine_sum(x, 2, 8) == sine_8_2(x),
{
    reveal_with_fuel(sine_sum, 9);
    assert(cosine(22) == 7723);
    lemma_sine_weight_0(2, 22, 0);
    assert(x[0] * sine_weight(0, 2, 8) == 7723 * x[0]) by (nonlinear_arith)
        requires
            sine_weight(0, 2, 8) == 7723,
    ;
    assert(cosine(2) == 16305);
    lemma_sine_weight(1, 2, 2, 0);
    assert(x[1] * sine_weight(1, 2, 8) == 16305 * x[1]) by (nonlinear_arith)
        requires
            sine_weight(1, 2, 8) == 16305,
    ;
    assert(cosine(110) == 10394);
    lemma_sine_weight(2, 2, 110, -1);
    assert(x[2] * sine_weight(2, 2, 8) == 10394 * x[2]) by (nonlinear_arith)
        requires
            sine_weight(2, 2, 8) == 10394,
    ;
    assert(cosine(90) == -4756);
    lemma_sine_weight(3, 2, 90, -1);
    assert(x[3] * sine_weight(3, 2, 8) == -4756 * x[3]) by (nonlinear_arith)
        requires
            sine_weight(3, 2, 8) == -4756,
    ;
    assert(cosine(70) == -15679);
    lemma_sine_weight(4, 2, 70, -1);
    assert(x[4] * sine_weight(4, 2, 8) == -15679 * x[4]) by (nonlinear_arith)
        requires
            sine_weight(4, 2, 8) == -15679,
    ;
    assert(cosine(50) == -12665);
    lemma_sine_weight(5, 2, 50, -1);
    assert(x[5] * sine_weight(5, 2, 8) == -12665 * x[5]) by (nonlinear_arith)
        requires
            sine_weight(5, 2, 8) == -12665,
    ;
    assert(cosine(30) == 1606);
    lemma_sine_weight(6, 2, 30, -1);
    assert(x[6] * sine_weight(6, 2, 8) == 1606 * x[6]) by (nonlinear_arith)
        requires
            sine_weight(6, 2, 8) == 1606,
    ;
    assert(cosine(10) == 14449);
    lemma_sine_weight(7, 2, 10, -1);
    assert(x[7] * sine_weight(7, 2, 8) == 14449 * x[7]) by (nonlinear_arith)
        requires
            sine_weight(7, 2, 8) == 14449,
    ;
}

proof fn lemma_sine_sum_8_3(x: Seq<i32>)
    requires
        x.len() == 8,
    ensures
        sine_sum(x, 3, 8) == sine_8_3(x),
{
    reveal_with_fuel(sine_sum, 9);
    assert(cosine(18) == 10394);
    lemma_sine_weight_0(3, 18, 0);
    assert(x[0] * sine_weight(0, 3, 8) == 10394 * x[0]) by (nonlinear_arith)
        requires
            sine_weight(0, 3, 8) == 10394,
    ;
    assert(cosine(118) == 14449);
    lemma_sine_weight(1, 3, 118, -1);
    assert(x[1] * sine_weight(1, 3, 8) == 14449 * x[1]) by (nonlinear_arith)
        requires
            sine_weight(1, 3, 8) == 14449,
    ;
    assert(cosine(90) == -4756);
    lemma_sine_weight(2, 3, 90, -1);
    assert(x[2] * sine_weight(2, 3, 8) == -4756 * x[2]) by (nonlinear_arith)
        requires
            sine_weight(2, 3, 8) == -4756,
    ;
    assert(cosine(62) == -16305);
    lemma_sine_weight(3, 3, 62, -1);
    assert(x[3] * sine_weight(3, 3, 8) == -16305 * x[3]) by (nonlinear_arith)
        requires
            sine_weight(3, 3, 8) == -16305,
    ;
    assert(cosine(34) == -1606);
    lemma_sine_weight(4, 3, 34, -1);
    assert(x[4] * sine_weight(4, 3, 8) == -1606 * x[4]) by (nonlinear_arith)
        requires
            sine_weight(4, 3, 8) == -1606,
    ;
    assert(cosine(6) == 15679);
    lemma_sine_weight(5, 3, 6, -1);
    assert(x[5] * sine_weight(5, 3, 8) == 15679 * x[5]) by (nonlinear_arith)
        requires
            sine_weight(5, 3, 8) == 15679,
    ;
    assert(cosine(106) == 7723);
    lemma_sine_weight(6, 3, 106, -2);
    assert(x[6] * sine_weight(6, 3, 8) == 7723 * x[6]) by (nonlinear_arith)
        requires
            sine_weight(6, 3, 8) == 7723,
    ;
    assert(cosine(78) == -12665);
    lemma_sine_weight(7, 3, 78, -2);
    assert(x[7] * sine_weight(7, 3, 8) == -12665 * x[7]) by (nonlinear_arith)
        requires
            sine_weight(7, 3, 8) == -12665,
    ;
}

proof fn lemma_sine_sum_8_4(x: Seq<i32>)
    requires
        x.len() == 8,
    ensures
        sine_sum(x, 4, 8) == sine_8_4(x),
{
    reveal_with_fuel(sine_sum, 9);
    assert(cosine(14) == 12665);
    lemma_sine_weight_0(4, 14, 0);
    assert(x[0] * sine_weight(0, 4, 8) == 12665 * x[0]) by (nonlinear_arith)
        requires
            sine_weight(0, 4, 8) == 12665,
    ;
    assert(cosine(106) == 7723);
    lemma_sine_weight(1, 4, 106, -1);
    assert(x[1] * sine_weight(1, 4, 8) == 7723 * x[1]) by (nonlinear_arith)
        requires
            sine_weight(1, 4, 8) == 7723,
    ;
    assert(cosine(70) == -15679);
    lemma_sine_weight(2, 4, 70, -1);
    assert(x[2] * sine_weight(2, 4, 8) == -15679 * x[2]) by (nonlinear_arith)
        requires
            sine_weight(2, 4, 8) == -15679,
    ;
    assert(cosine(34) == -1606);
    lemma_sine_weight(3, 4, 34, -1);
    assert(x[3] * sine_weight(3, 4, 8) == -1606 * x[3]) by (nonlinear_arith)
        requires
            sine_weight(3, 4, 8) == -1606,
    ;
    assert(cosine(126) == 16305);
    lemma_sine_weight(4, 4, 126, -2);
    assert(x[4] * sine_weight(4, 4, 8) == 16305 * x[4]) by (nonlinear_arith)
        requires
            sine_weight(4, 4, 8) == 16305,
    ;
    assert(cosine(90) == -4756);
    lemma_sine_weight(5, 4, 90, -2);
    assert(x[5] * sine_weight(5, 4, 8) == -4756 * x[5]) by (nonlinear_arith)
        requires
            sine_weight(5, 4, 8) == -4756,
    ;
    assert(cosine(54) == -14449);
    lemma_sine_weight(6, 4, 54, -2);
    assert(x[6] * sine_weight(6, 4, 8) == -14449 * x[6]) by (nonlinear_arith)
        requires
            sine_weight(6, 4, 8) == -14449,
    ;
    assert(cosine(18) == 10394);
    lemma_sine_weight(7, 4, 18, -2);
    assert(x[7] * sine_weight(7, 4, 8) == 10394 * x[7]) by (nonlinear_arith)
        requires
            sine_weight(7, 4, 8) == 10394,
    ;
}

proof fn lemma_sine_sum_8_5(x: Seq<i32>)
    requires
        x.len() == 8,
    ensures
        sine_sum(x, 5, 8) == sine_8_5(x),
{
    reveal_with_fuel(sine_sum, 9);
    assert(cosine(10) == 14449);
    lemma_sine_weight_0(5, 10, 0);
    assert(x[0] * sine_weight(0, 5, 8) == 14449 * x[0]) by (nonlinear_arith)
        requires
            sine_weight(0, 5, 8) == 14449,
    ;
    assert(cosine(94) == -1606);
    lemma_sine_weight(1, 5, 94, -1);
    assert(x[1] * sine_weight(1, 5, 8) == -1606 * x[1]) by (nonlinear_arith)
        requires
            sine_weight(1, 5, 8) == -1606,
    ;
    assert(cosine(50) == -12665);
    lemma_sine_weight(2, 5, 50, -1);
    assert(x[2] * sine_weight(2, 5, 8) == -12665 * x[2]) by (nonlinear_arith)
        requires
            sine_weight(2, 5, 8) == -12665,
    ;
    assert(cosine(6) == 15679);
    lemma_sine_weight(3, 5, 6, -1);
    assert(x[3] * sine_weight(3, 5, 8) == 15679 * x[3]) by (nonlinear_arith)
        requires
            sine_weight(3, 5, 8) == 15679,
    ;
    assert(cosine(90) == -4756);
    lemma_sine_weight(4, 5, 90, -2);
    assert(x[4] * sine_weight(4, 5, 8) == -4756 * x[4]) by (nonlinear_arith)
        requires
            sine_weight(4, 5, 8) == -4756,
    ;
    assert(cosine(46) == -10394);
    lemma_sine_weight(5, 5, 46, -2);
    assert(x[5] * sine_weight(5, 5, 8) == -10394 * x[5]) by (nonlinear_arith)
        requires
            sine_weight(5, 5, 8) == -10394,
    ;
    assert(cosine(2) == 16305);
    lemma_sine_weight(6, 5, 2, -2);
    assert(x[6] * sine_weight(6, 5, 8) == 16305 * x[6]) by (nonlinear_arith)
        requires
            sine_weight(6, 5, 8) == 16305,
    ;
    assert(cosine(86) == -7723);
    lemma_sine_weight(7, 5, 86, -3);
    assert(x[7] * sine_weight(7, 5, 8) == -7723 * x[7]) by (nonlinear_arith)
        requires
            sine_weight(7, 5, 8) == -7723,
    ;
}

proof fn lemma_sine_sum_8_6(x: Seq<i32>)
    requires
        x.len() == 8,
    ensures
        sine_sum(x, 6, 8) == sine_8_6(x),
{
    reveal_with_fuel(sine_sum, 9);
    assert(cosine(6) == 15679);
    lemma_sine_weight_0(6, 6, 0);
    assert(x[0] * sine_weight(0, 6, 8) == 15679 * x[0]) by (nonlinear_arith)
        requires
            sine_weight(0, 6, 8) == 15679,
    ;
    assert(cosine(82) == -10394);
    lemma_sine_weight(1, 6, 82, -1);
    assert(x[1] * sine_weight(1, 6, 8) == -10394 * x[1]) by (nonlinear_arith)
        requires
            sine_weight(1, 6, 8) == -10394,
    ;
    assert(cosine(30) == 1606);
    lemma_sine_weight(2, 6, 30, -1);
    assert(x[2] * sine_weight(2, 6, 8) == 1606 * x[2]) by (nonlinear_arith)
        requires
            sine_weight(2, 6, 8) == 1606,
    ;
    assert(cosine(106) == 7723);
    lemma_sine_weight(3, 6, 106, -2);
    assert(x[3] * sine_weight(3, 6, 8) == 7723 * x[3]) by (nonlinear_arith)
        requires
            sine_weight(3, 6, 8) == 7723,
    ;
    assert(cosine(54) == -14449);
    lemma_sine_weight(4, 6, 54, -2);
    assert(x[4] * sine_weight(4, 6, 8) == -14449 * x[4]) by (nonlinear_arith)
        requires
            sine_weight(4, 6, 8) == -14449,
    ;
    assert(cosine(2) == 16305);
    lemma_sine_weight(5, 6, 2, -2);
    assert(x[5] * sine_weight(5, 6, 8) == 16305 * x[5]) by (nonlinear_arith)
        requires
            sine_weight(5, 6, 8) == 16305,
    ;
    assert(cosine(78) == -12665);
    lemma_sine_weight(6, 6, 78, -3);
    assert(x[6] * sine_weight(6, 6, 8) == -12665 * x[6]) by (nonlinear_arith)
        requires
            sine_weight(6, 6, 8) == -12665,
    ;
    assert(cosine(26) == 4756);
    lemma_sine_weight(7, 6, 26, -3);
    assert(x[7] * sine_weight(7, 6, 8) == 4756 * x[7]) by (nonlinear_arith)
        requires
            sine_weight(7, 6, 8) == 4756,
    ;
}

proof fn lemma_sine_sum_8_7(x: Seq<i32>)
    requires
        x.len() == 8,
    ensures
        sine_sum(x, 7, 8) == sine_8_7(x),
{
    reveal_with_fuel(sine_sum, 9);
    assert(cosine(2) == 16305);
    lemma_sine_weight_0(7, 2, 0);
    assert(x[0] * sine_weight(0, 7, 8) == 16305 * x[0]) by (nonlinear_arith)
        requires
            sine_weight(0, 7, 8) == 16305,
    ;
    assert(cosine(70) == -15679);
    lemma_sine_weight(1, 7, 70, -1);
    assert(x[1] * sine_weight(1, 7, 8) == -15679 * x[1]) by (nonlinear_arith)
        requires
            sine_weight(1, 7, 8) == -15679,
    ;
    assert(cosine(10) == 14449);
    lemma_sine_weight(2, 7, 10, -1);
    assert(x[2] * sine_weight(2, 7, 8) == 14449 * x[2]) by (nonlinear_arith)
        requires
            sine_weight(2, 7, 8) == 14449,
    ;
    assert(cosine(78) == -12665);
    lemma_sine_weight(3, 7, 78, -2);
    assert(x[3] * sine_weight(3, 7, 8) == -12665 * x[3]) by (nonlinear_arith)
        requires
            sine_weight(3, 7, 8) == -12665,
    ;
    assert(cosine(18) == 10394);
    lemma_sine_weight(4, 7, 18, -2);
    assert(x[4] * sine_weight(4, 7, 8) == 10394 * x[4]) by (nonlinear_arith)
        requires
            sine_weight(4, 7, 8) == 10394,
    ;
    assert(cosine(86) == -7723);
    lemma_sine_weight(5, 7, 86, -3);
    assert(x[5] * sine_weight(5, 7, 8) == -7723 * x[5]) by (nonlinear_arith)
        requires
            sine_weight(5, 7, 8) == -7723,
    ;
    assert(cosine(26) == 4756);
    lemma_sine_weight(6, 7, 26, -3);
    assert(x[6] * sine_weight(6, 7, 8) == 4756 * x[6]) by (nonlinear_arith)
        requires
            sine_weight(6, 7, 8) == 4756,
    ;
    assert(cosine(94) == -1606);
    lemma_sine_weight(7, 7, 94, -4);
    assert(x[7] * sine_weight(7, 7, 8) == -1606 * x[7]) by (nonlinear_arith)
        requires
            sine_weight(7, 7, 8) == -1606,
    ;
}

/// The 4-point transform is that by cosines: a value times 2^14 is within 2^14 of the sum of the
/// coefficients, each times its cosine.
pub proof fn law_idct4_is_cosine_transform(x: Seq<i32>)
    requires
        x.len() == 4,
        within(x, 32767),
    ensures
        idct4_spec(x).len() == 4,
        forall|n: int|
            0 <= n < 4 ==> near(#[trigger] idct4_spec(x)[n], cosine_sum(x, n, 4), 16384),
{
    reveal(idct4_spec);
    let (x0, x1, x2, x3) = (x[0] as int, x[1] as int, x[2] as int, x[3] as int);
    let m = 536854528int;
    lemma_exact(x[0]);
    lemma_exact(x[1]);
    lemma_exact(x[2]);
    lemma_exact(x[3]);
    let (l0, l1, l2, l3) = (16384 * x0, 16384 * x1, 16384 * x2, 16384 * x3);
    let (s, d) = (11585 * x0 + 11585 * x2, 11585 * x0 - 11585 * x2);
    lemma_half_sum(x[0], x[2], l0, l2, 0, 0, m, m, s, 8192, 0);
    lemma_half_diff(x[0], x[2], l0, l2, 0, 0, m, m, d, 8192, 0);
    let (p, q) = (15137 * x1 + 6270 * x3, 6270 * x1 - 15137 * x3);
    lemma_dot_add(x[1], 15137, x[3], 6270, l1, l3, 0, 0, m, m);
    lemma_dot_sub(x[1], 6270, x[3], 15137, l1, l3, 0, 0, m, m);
    lemma_round(
        dot_add_spec(x[1], 15137, x[3], 6270),
        15137 * l1 + 6270 * l3,
        0,
        21407 * m,
        p,
        8192,
        0,
    );
    lemma_round(
        dot_sub_spec(x[1], 6270, x[3], 15137),
        6270 * l1 - 15137 * l3,
        0,
        21407 * m,
        q,
        8192,
        0,
    );
    let (t0, t1) = (half_sum_spec(x[0], x[2]), half_diff_spec(x[0], x[2]));
    let t3 = round14_spec(dot_add_spec(x[1], 15137, x[3], 6270));
    let t2 = round14_spec(dot_sub_spec(x[1], 6270, x[3], 15137));
    lemma_add(t0, t3, s, p, 8192, 8192, 2 * m, 2 * m);
    lemma_add(t1, t2, d, q, 8192, 8192, 2 * m, 2 * m);
    lemma_sub(t1, t2, d, q, 8192, 8192, 2 * m, 2 * m);
    lemma_sub(t0, t3, s, p, 8192, 8192, 2 * m, 2 * m);
    lemma_sum_4_0(x);
    lemma_sum_4_1(x);
    lemma_sum_4_2(x);
    lemma_sum_4_3(x);
    assert(cosine_sum(x, 0, 4) == s + p);
    assert(cosine_sum(x, 1, 4) == d + q);
    assert(cosine_sum(x, 2, 4) == d - q);
    assert(cosine_sum(x, 3, 4) == s - p);
}

/// The two halves of a transform make up the whole.
proof fn lemma_halves_near(x: Seq<i32>, e: Seq<i32>, o: Seq<i32>, m: int, ee: int, eo: int)
    requires
        x.len() == 8 || x.len() == 16 || x.len() == 32,
        within(x, m),
        0 <= m <= 32767,
        0 <= ee <= 0x1_0000_0000,
        0 <= eo <= 0x1_0000_0000,
        e.len() == x.len() / 2,
        o.len() == x.len() / 2,
        forall|n: int|
            0 <= n < e.len() ==> near(
                #[trigger] e[n],
                cosine_sum(evens(x), n, e.len() as int),
                ee,
            ),
        forall|n: int|
            0 <= n < o.len() ==> near(
                #[trigger] o[n],
                odd_sum(odds(x), n, x.len() as int, o.len() as int),
                eo,
            ),
    ensures
        combine_spec(e, o).len() == x.len(),
        forall|n: int|
            0 <= n < x.len() ==> near(
                #[trigger] combine_spec(e, o)[n],
                cosine_sum(x, n, x.len() as int),
                ee + eo,
            ),
{
    let h = e.len() as int;
    let size = x.len() as int;
    let y = combine_spec(e, o);
    assert(within(evens(x), m));
    assert(within(odds(x), m));
    assert(h * m <= 16 * 32767) by (nonlinear_arith)
        requires
            0 <= h <= 16,
            0 <= m <= 32767,
    ;
    assert forall|n: int| 0 <= n < size implies near(#[trigger] y[n], cosine_sum(x, n, size), ee + eo) by {
        let k = if n < h {
            n
        } else {
            size - 1 - n
        };
        lemma_split(x, k, h);
        lemma_sum_bound(evens(x), k, h, m);
        lemma_odd_bound(odds(x), k, size, h, m);
        let le = cosine_sum(evens(x), k, h);
        let lo = odd_sum(odds(x), k, size, h);
        let b = 8589672448int;
        assert(near(e[k], le, ee));
        assert(near(o[k], lo, eo));
        lemma_add(e[k], o[k], le, lo, ee, eo, b, b);
        lemma_sub(e[k], o[k], le, lo, ee, eo, b, b);
    }
}

/// The 8-point transform is that by cosines, up to rounding: a value is within 10 of the sum of the
/// coefficients, each times its cosine.
pub proof fn law_idct8_is_cosine_transform(x: Seq<i32>)
    requires
        x.len() == 8,
        within(x, 32767),
    ensures
        idct8_spec(x).len() == 8,
        forall|n: int|
            0 <= n < 8 ==> near(#[trigger] idct8_spec(x)[n], cosine_sum(x, n, 8), 163840),
{
    let e = idct4_spec(evens(x));
    let o = idct8_odd_spec(odds(x));
    assert(within(evens(x), 32767));
    assert(within(odds(x), 32767));
    law_idct4_is_cosine_transform(evens(x));
    lemma_odd_8(odds(x));
    assert forall|n: int| 0 <= n < 4 implies near(#[trigger] o[n], odd_sum(odds(x), n, 8, 4), 132791) by {
        lemma_odd_sum_8_0(odds(x));
        lemma_odd_sum_8_1(odds(x));
        lemma_odd_sum_8_2(odds(x));
        lemma_odd_sum_8_3(odds(x));
    }
    lemma_halves_near(x, e, o, 32767, 16384, 132791);
    lemma_relax(idct8_spec(x), x, 16384int + 132791, 163840);
}

proof fn lemma_relax(y: Seq<i32>, x: Seq<i32>, e: int, f: int)
    requires
        y.len() == x.len(),
        e <= f,
        forall|n: int|
            0 <= n < x.len() ==> near(#[trigger] y[n], cosine_sum(x, n, x.len() as int), e),
    ensures
        forall|n: int|
            0 <= n < x.len() ==> near(#[trigger] y[n], cosine_sum(x, n, x.len() as int), f),
{
    reveal(near);
}

/// The 16-point transform is that by cosines, up to rounding: a value is within 28 of the sum of the
/// coefficients, each times its cosine.
pub proof fn law_idct16_is_cosine_transform(x: Seq<i32>)
    requires
        x.len() == 16,
        within(x, 16383),
    ensures
        idct16_spec(x).len() == 16,
        forall|n: int|
            0 <= n < 16 ==> near(#[trigger] idct16_spec(x)[n], cosine_sum(x, n, 16), 458752),
{
    let e = idct8_spec(evens(x));
    let o = idct16_odd_spec(odds(x));
    assert(within(evens(x), 16383));
    assert(within(evens(x), 32767));
    assert(within(odds(x), 16383));
    law_idct8_is_cosine_transform(evens(x));
    lemma_odd_16(odds(x));
    assert forall|n: int| 0 <= n < 8 implies near(#[trigger] o[n], odd_sum(odds(x), n, 16, 8), 278905) by {
        lemma_odd_sum_16_0(odds(x));
        lemma_odd_sum_16_1(odds(x));
        lemma_odd_sum_16_2(odds(x));
        lemma_odd_sum_16_3(odds(x));
        lemma_odd_sum_16_4(odds(x));
        lemma_odd_sum_16_5(odds(x));
        lemma_odd_sum_16_6(odds(x));
        lemma_odd_sum_16_7(odds(x));
    }
    lemma_halves_near(x, e, o, 16383, 163840, 278905);
    lemma_relax(idct16_spec(x), x, 163840int + 278905, 458752);
}

/// The weight of the coefficient number `k` in the value number `n` of the sine transform of a size.
pub open spec fn sine_weight(k: int, n: int, size: int) -> int {
    sine((2 * k + 1) * ((2 * n + 1) * (if size == 8 {
        2int
    } else {
        1int
    })))
}

/// The value number `n` of the sine transform of the first `k` coefficients, for the sizes 8 and 16.
pub open spec fn sine_sum(x: Seq<i32>, n: int, k: int) -> int
    decreases k,
{
    if k <= 0 {
        0
    } else {
        sine_sum(x, n, k - 1) + x[k - 1] * sine_weight(k - 1, n, x.len() as int)
    }
}

/// The 4-point sine transform: a value times 2^14 is within 2^13 of the sum of the coefficients, each
/// times its sine.
pub proof fn law_iadst4_is_sine_transform(x: Seq<i32>)
    requires
        x.len() == 4,
        within(x, 32767),
    ensures
        iadst4_spec(x).len() == 4,
        near(iadst4_spec(x)[0], 5283 * x[0] + 13377 * x[1] + 15212 * x[2] + 9929 * x[3], 8192),
        near(iadst4_spec(x)[1], 9929 * x[0] + 13377 * x[1] - 5283 * x[2] - 15212 * x[3], 8192),
        near(iadst4_spec(x)[2], 13377 * x[0] - 13377 * x[2] + 13377 * x[3], 8192),
        near(iadst4_spec(x)[3], 15212 * x[0] - 13377 * x[1] + 9929 * x[2] - 5283 * x[3], 8192),
{
    reveal(iadst4_spec);
    let (x0, x1, x2, x3) = (x[0] as int, x[1] as int, x[2] as int, x[3] as int);
    let (l0, l1, l2, l3) = (16384 * x0, 16384 * x1, 16384 * x2, 16384 * x3);
    let m = 536854528int;
    lemma_exact(x[0]);
    lemma_exact(x[1]);
    lemma_exact(x[2]);
    lemma_exact(x[3]);
    lemma_dot_add(x[0], 5283, x[2], 15212, l0, l2, 0, 0, m, m);
    lemma_dot_sub(x[0], 9929, x[2], 5283, l0, l2, 0, 0, m, m);
    lemma_times(x[3], 9929, l3, 0, m);
    lemma_times(x[3], 15212, l3, 0, m);
    lemma_times(x[1], 13377, l1, 0, m);
    let (d0, d1) = (5283 * l0 + 15212 * l2, 9929 * l0 - 5283 * l2);
    let (p0, p1, p3) = (9929 * l3, 15212 * l3, 13377 * l1);
    let t0 = dot_add_spec(x[0], 5283, x[2], 15212).wrapping_add(x[3].wrapping_mul(9929));
    let t1 = dot_sub_spec(x[0], 9929, x[2], 5283).wrapping_sub(x[3].wrapping_mul(15212));
    let t3 = x[1].wrapping_mul(13377);
    let w = 20495 * m;
    lemma_add(
        dot_add_spec(x[0], 5283, x[2], 15212),
        x[3].wrapping_mul(9929),
        d0,
        p0,
        0,
        0,
        w,
        w,
    );
    lemma_sub(
        dot_sub_spec(x[0], 9929, x[2], 5283),
        x[3].wrapping_mul(15212),
        d1,
        p1,
        0,
        0,
        w,
        w,
    );
    let v = 30424 * m;
    lemma_add(t0, t3, d0 + p0, p3, 0, 0, v, 13377 * m);
    lemma_add(t1, t3, d1 - p1, p3, 0, 0, v, 13377 * m);
    lemma_round(
        t0.wrapping_add(t3),
        d0 + p0 + p3,
        0,
        43801 * m,
        5283 * x0 + 13377 * x1 + 15212 * x2 + 9929 * x3,
        8192,
        0,
    );
    lemma_round(
        t1.wrapping_add(t3),
        d1 - p1 + p3,
        0,
        43801 * m,
        9929 * x0 + 13377 * x1 - 5283 * x2 - 15212 * x3,
        8192,
        0,
    );
    let s = x[0].wrapping_sub(x[2]);
    lemma_sub(x[0], x[2], l0, l2, 0, 0, m, m);
    lemma_add(s, x[3], l0 - l2, l3, 0, 0, 2 * m, m);
    lemma_times(s.wrapping_add(x[3]), 13377, l0 - l2 + l3, 0, 3 * m);
    lemma_round(
        s.wrapping_add(x[3]).wrapping_mul(13377),
        13377 * (l0 - l2 + l3),
        0,
        40131 * m,
        13377 * x0 - 13377 * x2 + 13377 * x3,
        8192,
        0,
    );
    lemma_add(t0, t1, d0 + p0, d1 - p1, 0, 0, v, v);
    lemma_sub(t0.wrapping_add(t1), t3, d0 + p0 + (d1 - p1), p3, 0, 0, 30424 * m, 13377 * m);
    lemma_round(
        t0.wrapping_add(t1).wrapping_sub(t3),
        d0 + p0 + (d1 - p1) - p3,
        0,
        43801 * m,
        15212 * x0 - 13377 * x1 + 9929 * x2 - 5283 * x3,
        8192,
        0,
    );
}

/// The 8-point sine transform is that by sines, up to rounding: a value is within 15 of the sum of the
/// coefficients, each times its sine.
pub proof fn law_iadst8_is_sine_transform(x: Seq<i32>)
    requires
        x.len() == 8,
        within(x, 16383),
    ensures
        iadst8_spec(x).len() == 8,
        forall|n: int|
            0 <= n < 8 ==> near(#[trigger] iadst8_spec(x)[n], sine_sum(x, n, 8), 245760),
{
    lemma_sine_8(x);
    let y = iadst8_spec(x);
    assert forall|n: int| 0 <= n < 8 implies near(#[trigger] y[n], sine_sum(x, n, 8), 245760) by {
        reveal(near);
        lemma_sine_sum_8_0(x);
        lemma_sine_sum_8_1(x);
        lemma_sine_sum_8_2(x);
        lemma_sine_sum_8_3(x);
        lemma_sine_sum_8_4(x);
        lemma_sine_sum_8_5(x);
        lemma_sine_sum_8_6(x);
        lemma_sine_sum_8_7(x);
    }
}

} // verus!

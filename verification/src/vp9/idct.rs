//! Inverse transforms: DCT, ADST and Walsh-Hadamard.
//!
//! All intermediate values are 32-bit and wrap. The constants are cosines scaled
//! by 2^14, so that a product is brought back by a rounding shift of 14 bits.
//! An inverse DCT of even size is the inverse DCT of half the size on the even
//! coefficients, combined with an odd half of its own.
use vstd::prelude::*;

use crate::vp9::types::{TxSize, TxType};

verus! {

/// Rounding shift by 14 bits.
#[verifier::opaque]
pub open spec fn round14_spec(x: i32) -> i32 {
    x.wrapping_add(8192) >> 14
}

fn round14(x: i32) -> (r: i32)
    ensures
        r == round14_spec(x),
{
    proof {
        reveal(round14_spec);
    }
    x.wrapping_add(8192) >> 14
}

/// `a * ca + b * cb`.
#[verifier::opaque]
pub open spec fn dot_add_spec(a: i32, ca: i32, b: i32, cb: i32) -> i32 {
    a.wrapping_mul(ca).wrapping_add(b.wrapping_mul(cb))
}

fn dot_add(a: i32, ca: i32, b: i32, cb: i32) -> (r: i32)
    ensures
        r == dot_add_spec(a, ca, b, cb),
{
    proof {
        reveal(dot_add_spec);
    }
    a.wrapping_mul(ca).wrapping_add(b.wrapping_mul(cb))
}

/// `a * ca - b * cb`.
#[verifier::opaque]
pub open spec fn dot_sub_spec(a: i32, ca: i32, b: i32, cb: i32) -> i32 {
    a.wrapping_mul(ca).wrapping_sub(b.wrapping_mul(cb))
}

fn dot_sub(a: i32, ca: i32, b: i32, cb: i32) -> (r: i32)
    ensures
        r == dot_sub_spec(a, ca, b, cb),
{
    proof {
        reveal(dot_sub_spec);
    }
    a.wrapping_mul(ca).wrapping_sub(b.wrapping_mul(cb))
}

/// `-x`.
#[verifier::opaque]
pub open spec fn neg_spec(x: i32) -> i32 {
    0i32.wrapping_sub(x)
}

fn neg(x: i32) -> (r: i32)
    ensures
        r == neg_spec(x),
{
    proof {
        reveal(neg_spec);
    }
    0i32.wrapping_sub(x)
}

/// `(a + b) / sqrt(2)`.
#[verifier::opaque]
pub open spec fn half_sum_spec(a: i32, b: i32) -> i32 {
    round14_spec(a.wrapping_add(b).wrapping_mul(11585))
}

fn half_sum(a: i32, b: i32) -> (r: i32)
    ensures
        r == half_sum_spec(a, b),
{
    proof {
        reveal(half_sum_spec);
    }
    round14(a.wrapping_add(b).wrapping_mul(11585))
}

/// `(a - b) / sqrt(2)`.
#[verifier::opaque]
pub open spec fn half_diff_spec(a: i32, b: i32) -> i32 {
    round14_spec(a.wrapping_sub(b).wrapping_mul(11585))
}

fn half_diff(a: i32, b: i32) -> (r: i32)
    ensures
        r == half_diff_spec(a, b),
{
    proof {
        reveal(half_diff_spec);
    }
    round14(a.wrapping_sub(b).wrapping_mul(11585))
}

/// `-(a + b) / sqrt(2)`.
#[verifier::opaque]
pub open spec fn half_neg_sum_spec(a: i32, b: i32) -> i32 {
    round14_spec(neg_spec(a.wrapping_add(b)).wrapping_mul(11585))
}

fn half_neg_sum(a: i32, b: i32) -> (r: i32)
    ensures
        r == half_neg_sum_spec(a, b),
{
    proof {
        reveal(half_neg_sum_spec);
    }
    round14(neg(a.wrapping_add(b)).wrapping_mul(11585))
}

/// The coefficients at even positions.
pub open spec fn evens(x: Seq<i32>) -> Seq<i32> {
    Seq::new((x.len() / 2) as nat, |k: int| x[2 * k])
}

/// The coefficients at odd positions.
pub open spec fn odds(x: Seq<i32>) -> Seq<i32> {
    Seq::new((x.len() / 2) as nat, |k: int| x[2 * k + 1])
}

/// The full result of an inverse DCT from its two halves: sums going up, then
/// differences coming down.
pub open spec fn combine_spec(e: Seq<i32>, o: Seq<i32>) -> Seq<i32> {
    let n = e.len() as int;
    Seq::new(
        (2 * n) as nat,
        |k: int|
            if k < n {
                e[k].wrapping_add(o[k])
            } else {
                e[2 * n - 1 - k].wrapping_sub(o[2 * n - 1 - k])
            },
    )
}

/// Writes the combination of two halves to `out`.
fn combine(e: &[i32], o: &[i32], out: &mut [i32])
    requires
        e@.len() == o@.len(),
        old(out)@.len() == 2 * e@.len(),
    ensures
        final(out)@ == combine_spec(e@, o@),
{
    let n: usize = e.len();
    let mut k: usize = 0;
    while k < n
        invariant
            k <= n,
            n == e@.len(),
            o@.len() == n,
            out@.len() == 2 * n,
            forall|j: int| 0 <= j < k ==> out@[j] == combine_spec(e@, o@)[j],
            forall|j: int|
                2 * n - k <= j < 2 * n ==> #[trigger] out@[j] == combine_spec(e@, o@)[j],
        decreases n - k,
    {
        out[k] = e[k].wrapping_add(o[k]);
        out[n + (n - 1 - k)] = e[k].wrapping_sub(o[k]);
        k += 1;
    }
    assert(out@ =~= combine_spec(e@, o@));
}

/// Copies `src` to `dst`.
fn copy_into(dst: &mut [i32], src: &[i32])
    requires
        old(dst)@.len() == src@.len(),
    ensures
        final(dst)@ == src@,
{
    let mut k: usize = 0;
    while k < src.len()
        invariant
            k <= src@.len(),
            dst@.len() == src@.len(),
            forall|j: int| 0 <= j < k ==> dst@[j] == src@[j],
        decreases src.len() - k,
    {
        dst[k] = src[k];
        k += 1;
    }
    assert(dst@ =~= src@);
}

/// Writes the even and the odd entries of `x` to `e` and `o`.
fn split(x: &[i32], e: &mut [i32], o: &mut [i32])
    requires
        x@.len() % 2 == 0,
        2 * old(e)@.len() == x@.len(),
        2 * old(o)@.len() == x@.len(),
    ensures
        final(e)@ == evens(x@),
        final(o)@ == odds(x@),
{
    let n: usize = x.len() / 2;
    let mut k: usize = 0;
    while k < n
        invariant
            k <= n,
            x.len() == 2 * n,
            e@.len() == n,
            o@.len() == n,
            forall|j: int| 0 <= j < k ==> e@[j] == x@[2 * j],
            forall|j: int| 0 <= j < k ==> o@[j] == x@[2 * j + 1],
        decreases n - k,
    {
        e[k] = x[2 * k];
        o[k] = x[2 * k + 1];
        k += 1;
    }
    assert(e@ =~= evens(x@));
    assert(o@ =~= odds(x@));
}

/// The 4-point inverse DCT.
#[verifier::opaque]
pub open spec fn idct4_spec(x: Seq<i32>) -> Seq<i32> {
    combine_spec(
        seq![half_sum_spec(x[0], x[2]), half_diff_spec(x[0], x[2])],
        seq![
            round14_spec(dot_add_spec(x[1], 15137, x[3], 6270)),
            round14_spec(dot_sub_spec(x[1], 6270, x[3], 15137)),
        ],
    )
}

/// 4-point inverse DCT.
pub fn idct4(input: &[i32; 4], output: &mut [i32; 4])
    ensures
        final(output)@ == idct4_spec(input@),
{
    let t0: i32 = half_sum(input[0], input[2]);
    let t1: i32 = half_diff(input[0], input[2]);
    let t2: i32 = round14(dot_sub(input[1], 6270, input[3], 15137));
    let t3: i32 = round14(dot_add(input[1], 15137, input[3], 6270));
    output[0] = t0.wrapping_add(t3);
    output[1] = t1.wrapping_add(t2);
    output[2] = t1.wrapping_sub(t2);
    output[3] = t0.wrapping_sub(t3);
    proof {
        reveal(idct4_spec);
        assert(output@ =~= idct4_spec(input@));
    }
}

/// The 4-point inverse ADST.
#[verifier::opaque]
pub open spec fn iadst4_spec(x: Seq<i32>) -> Seq<i32> {
    let t0 = dot_add_spec(x[0], 5283, x[2], 15212).wrapping_add(x[3].wrapping_mul(9929));
    let t1 = dot_sub_spec(x[0], 9929, x[2], 5283).wrapping_sub(x[3].wrapping_mul(15212));
    let t2 = x[0].wrapping_sub(x[2]).wrapping_add(x[3]).wrapping_mul(13377);
    let t3 = x[1].wrapping_mul(13377);
    seq![
        round14_spec(t0.wrapping_add(t3)),
        round14_spec(t1.wrapping_add(t3)),
        round14_spec(t2),
        round14_spec(t0.wrapping_add(t1).wrapping_sub(t3)),
    ]
}

/// 4-point inverse ADST.
pub fn iadst4(input: &[i32; 4], output: &mut [i32; 4])
    ensures
        final(output)@ == iadst4_spec(input@),
{
    let (i0, i1, i2, i3): (i32, i32, i32, i32) = (input[0], input[1], input[2], input[3]);
    let t0: i32 = dot_add(i0, 5283, i2, 15212).wrapping_add(i3.wrapping_mul(9929));
    let t1: i32 = dot_sub(i0, 9929, i2, 5283).wrapping_sub(i3.wrapping_mul(15212));
    let t2: i32 = i0.wrapping_sub(i2).wrapping_add(i3).wrapping_mul(13377);
    let t3: i32 = i1.wrapping_mul(13377);
    output[0] = round14(t0.wrapping_add(t3));
    output[1] = round14(t1.wrapping_add(t3));
    output[2] = round14(t2);
    output[3] = round14(t0.wrapping_add(t1).wrapping_sub(t3));
    proof {
        reveal(iadst4_spec);
        assert(output@ =~= iadst4_spec(input@));
    }
}

/// The 4-point inverse Walsh-Hadamard transform. The inputs of the first pass
/// (`pass == 0`) are divided by 4; those of the second are taken as they are.
#[verifier::opaque]
pub open spec fn iwht4_spec(x: Seq<i32>, pass: int) -> Seq<i32> {
    let sh = |v: i32| if pass == 0 { v >> 2 } else { v };
    let a = sh(x[0]).wrapping_add(sh(x[1]));
    let d = sh(x[2]).wrapping_sub(sh(x[3]));
    let e = a.wrapping_sub(d) >> 1;
    let b = e.wrapping_sub(sh(x[3]));
    let c = e.wrapping_sub(sh(x[1]));
    seq![a.wrapping_sub(b), b, c, d.wrapping_add(c)]
}

fn iwht4_1d(input: &[i32; 4], output: &mut [i32; 4], pass: usize)
    ensures
        final(output)@ == iwht4_spec(input@, pass as int),
{
    let (t0, t1, t2, t3): (i32, i32, i32, i32) = if pass == 0 {
        (input[0] >> 2, input[3] >> 2, input[1] >> 2, input[2] >> 2)
    } else {
        (input[0], input[3], input[1], input[2])
    };
    let t0: i32 = t0.wrapping_add(t2);
    let t3: i32 = t3.wrapping_sub(t1);
    let t4: i32 = t0.wrapping_sub(t3) >> 1;
    let t1: i32 = t4.wrapping_sub(t1);
    let t2: i32 = t4.wrapping_sub(t2);
    let t0: i32 = t0.wrapping_sub(t1);
    let t3: i32 = t3.wrapping_add(t2);
    output[0] = t0;
    output[1] = t1;
    output[2] = t2;
    output[3] = t3;
    proof {
        reveal(iwht4_spec);
        assert(output@ =~= iwht4_spec(input@, pass as int));
    }
}

/// First pass of the 4-point inverse Walsh-Hadamard transform.
pub fn iwht4(input: &[i32; 4], output: &mut [i32; 4])
    ensures
        final(output)@ == iwht4_spec(input@, 0),
{
    iwht4_1d(input, output, 0);
}

/// Odd half of the 8-point inverse DCT, from the odd coefficients.
#[verifier::opaque]
pub open spec fn idct8_odd_spec(x: Seq<i32>) -> Seq<i32> {
    let t4a = round14_spec(dot_sub_spec(x[0], 3196, x[3], 16069));
    let t5a = round14_spec(dot_sub_spec(x[2], 13623, x[1], 9102));
    let t6a = round14_spec(dot_add_spec(x[2], 9102, x[1], 13623));
    let t7a = round14_spec(dot_add_spec(x[0], 16069, x[3], 3196));
    let t4 = t4a.wrapping_add(t5a);
    let t5a = t4a.wrapping_sub(t5a);
    let t7 = t7a.wrapping_add(t6a);
    let t6a = t7a.wrapping_sub(t6a);
    let t5 = half_diff_spec(t6a, t5a);
    let t6 = half_sum_spec(t6a, t5a);
    seq![t7, t6, t5, t4]
}

fn idct8_odd(x: &[i32; 4]) -> (r: [i32; 4])
    ensures
        r@ == idct8_odd_spec(x@),
{
    proof {
        reveal(idct8_odd_spec);
    }
    let t4a: i32 = round14(dot_sub(x[0], 3196, x[3], 16069));
    let t5a: i32 = round14(dot_sub(x[2], 13623, x[1], 9102));
    let t6a: i32 = round14(dot_add(x[2], 9102, x[1], 13623));
    let t7a: i32 = round14(dot_add(x[0], 16069, x[3], 3196));
    let t4: i32 = t4a.wrapping_add(t5a);
    let t5a: i32 = t4a.wrapping_sub(t5a);
    let t7: i32 = t7a.wrapping_add(t6a);
    let t6a: i32 = t7a.wrapping_sub(t6a);
    let t5: i32 = half_diff(t6a, t5a);
    let t6: i32 = half_sum(t6a, t5a);
    let r: [i32; 4] = [t7, t6, t5, t4];
    assert(r@ =~= idct8_odd_spec(x@));
    r
}

/// Odd half of the 16-point inverse DCT, from the odd coefficients.
#[verifier::opaque]
pub open spec fn idct16_odd_spec(x: Seq<i32>) -> Seq<i32> {
    let t8a = round14_spec(dot_sub_spec(x[0], 1606, x[7], 16305));
    let t15a = round14_spec(dot_add_spec(x[0], 16305, x[7], 1606));
    let t9a = round14_spec(dot_sub_spec(x[4], 12665, x[3], 10394));
    let t14a = round14_spec(dot_add_spec(x[4], 10394, x[3], 12665));
    let t10a = round14_spec(dot_sub_spec(x[2], 7723, x[5], 14449));
    let t13a = round14_spec(dot_add_spec(x[2], 14449, x[5], 7723));
    let t11a = round14_spec(dot_sub_spec(x[6], 15679, x[1], 4756));
    let t12a = round14_spec(dot_add_spec(x[6], 4756, x[1], 15679));
    let t8 = t8a.wrapping_add(t9a);
    let t9 = t8a.wrapping_sub(t9a);
    let t10 = t11a.wrapping_sub(t10a);
    let t11 = t11a.wrapping_add(t10a);
    let t12 = t12a.wrapping_add(t13a);
    let t13 = t12a.wrapping_sub(t13a);
    let t14 = t15a.wrapping_sub(t14a);
    let t15 = t15a.wrapping_add(t14a);
    let t9a = round14_spec(dot_sub_spec(t14, 6270, t9, 15137));
    let t14a = round14_spec(dot_add_spec(t14, 15137, t9, 6270));
    let t10a = round14_spec(neg_spec(dot_add_spec(t13, 15137, t10, 6270)));
    let t13a = round14_spec(dot_sub_spec(t13, 6270, t10, 15137));
    let t8a = t8.wrapping_add(t11);
    let t9 = t9a.wrapping_add(t10a);
    let t10 = t9a.wrapping_sub(t10a);
    let t11a = t8.wrapping_sub(t11);
    let t12a = t15.wrapping_sub(t12);
    let t13 = t14a.wrapping_sub(t13a);
    let t14 = t14a.wrapping_add(t13a);
    let t15a = t15.wrapping_add(t12);
    let t10a = half_diff_spec(t13, t10);
    let t13a = half_sum_spec(t13, t10);
    let t11 = half_diff_spec(t12a, t11a);
    let t12 = half_sum_spec(t12a, t11a);
    seq![t15a, t14, t13a, t12, t11, t10a, t9, t8a]
}

fn idct16_odd(x: &[i32; 8]) -> (r: [i32; 8])
    ensures
        r@ == idct16_odd_spec(x@),
{
    proof {
        reveal(idct16_odd_spec);
    }
    let t8a: i32 = round14(dot_sub(x[0], 1606, x[7], 16305));
    let t15a: i32 = round14(dot_add(x[0], 16305, x[7], 1606));
    let t9a: i32 = round14(dot_sub(x[4], 12665, x[3], 10394));
    let t14a: i32 = round14(dot_add(x[4], 10394, x[3], 12665));
    let t10a: i32 = round14(dot_sub(x[2], 7723, x[5], 14449));
    let t13a: i32 = round14(dot_add(x[2], 14449, x[5], 7723));
    let t11a: i32 = round14(dot_sub(x[6], 15679, x[1], 4756));
    let t12a: i32 = round14(dot_add(x[6], 4756, x[1], 15679));
    let t8: i32 = t8a.wrapping_add(t9a);
    let t9: i32 = t8a.wrapping_sub(t9a);
    let t10: i32 = t11a.wrapping_sub(t10a);
    let t11: i32 = t11a.wrapping_add(t10a);
    let t12: i32 = t12a.wrapping_add(t13a);
    let t13: i32 = t12a.wrapping_sub(t13a);
    let t14: i32 = t15a.wrapping_sub(t14a);
    let t15: i32 = t15a.wrapping_add(t14a);
    let t9a: i32 = round14(dot_sub(t14, 6270, t9, 15137));
    let t14a: i32 = round14(dot_add(t14, 15137, t9, 6270));
    let t10a: i32 = round14(neg(dot_add(t13, 15137, t10, 6270)));
    let t13a: i32 = round14(dot_sub(t13, 6270, t10, 15137));
    let t8a: i32 = t8.wrapping_add(t11);
    let t9: i32 = t9a.wrapping_add(t10a);
    let t10: i32 = t9a.wrapping_sub(t10a);
    let t11a: i32 = t8.wrapping_sub(t11);
    let t12a: i32 = t15.wrapping_sub(t12);
    let t13: i32 = t14a.wrapping_sub(t13a);
    let t14: i32 = t14a.wrapping_add(t13a);
    let t15a: i32 = t15.wrapping_add(t12);
    let t10a: i32 = half_diff(t13, t10);
    let t13a: i32 = half_sum(t13, t10);
    let t11: i32 = half_diff(t12a, t11a);
    let t12: i32 = half_sum(t12a, t11a);
    let r: [i32; 8] = [t15a, t14, t13a, t12, t11, t10a, t9, t8a];
    assert(r@ =~= idct16_odd_spec(x@));
    r
}

/// Odd half of the 32-point inverse DCT, from the odd coefficients.
#[verifier::opaque]
pub open spec fn idct32_odd_spec(x: Seq<i32>) -> Seq<i32> {
    let t16a = round14_spec(dot_sub_spec(x[0], 804, x[15], 16364));
    let t31a = round14_spec(dot_add_spec(x[0], 16364, x[15], 804));
    let t17a = round14_spec(dot_sub_spec(x[8], 12140, x[7], 11003));
    let t30a = round14_spec(dot_add_spec(x[8], 11003, x[7], 12140));
    let t18a = round14_spec(dot_sub_spec(x[4], 7005, x[11], 14811));
    let t29a = round14_spec(dot_add_spec(x[4], 14811, x[11], 7005));
    let t19a = round14_spec(dot_sub_spec(x[12], 15426, x[3], 5520));
    let t28a = round14_spec(dot_add_spec(x[12], 5520, x[3], 15426));
    let t20a = round14_spec(dot_sub_spec(x[2], 3981, x[13], 15893));
    let t27a = round14_spec(dot_add_spec(x[2], 15893, x[13], 3981));
    let t21a = round14_spec(dot_sub_spec(x[10], 14053, x[5], 8423));
    let t26a = round14_spec(dot_add_spec(x[10], 8423, x[5], 14053));
    let t22a = round14_spec(dot_sub_spec(x[6], 9760, x[9], 13160));
    let t25a = round14_spec(dot_add_spec(x[6], 13160, x[9], 9760));
    let t23a = round14_spec(dot_sub_spec(x[14], 16207, x[1], 2404));
    let t24a = round14_spec(dot_add_spec(x[14], 2404, x[1], 16207));
    let t16 = t16a.wrapping_add(t17a);
    let t17 = t16a.wrapping_sub(t17a);
    let t18 = t19a.wrapping_sub(t18a);
    let t19 = t19a.wrapping_add(t18a);
    let t20 = t20a.wrapping_add(t21a);
    let t21 = t20a.wrapping_sub(t21a);
    let t22 = t23a.wrapping_sub(t22a);
    let t23 = t23a.wrapping_add(t22a);
    let t24 = t24a.wrapping_add(t25a);
    let t25 = t24a.wrapping_sub(t25a);
    let t26 = t27a.wrapping_sub(t26a);
    let t27 = t27a.wrapping_add(t26a);
    let t28 = t28a.wrapping_add(t29a);
    let t29 = t28a.wrapping_sub(t29a);
    let t30 = t31a.wrapping_sub(t30a);
    let t31 = t31a.wrapping_add(t30a);
    let t17a = round14_spec(dot_sub_spec(t30, 3196, t17, 16069));
    let t30a = round14_spec(dot_add_spec(t30, 16069, t17, 3196));
    let t18a = round14_spec(neg_spec(dot_add_spec(t29, 16069, t18, 3196)));
    let t29a = round14_spec(dot_sub_spec(t29, 3196, t18, 16069));
    let t21a = round14_spec(dot_sub_spec(t26, 13623, t21, 9102));
    let t26a = round14_spec(dot_add_spec(t26, 9102, t21, 13623));
    let t22a = round14_spec(neg_spec(dot_add_spec(t25, 9102, t22, 13623)));
    let t25a = round14_spec(dot_sub_spec(t25, 13623, t22, 9102));
    let t16a = t16.wrapping_add(t19);
    let t17 = t17a.wrapping_add(t18a);
    let t18 = t17a.wrapping_sub(t18a);
    let t19a = t16.wrapping_sub(t19);
    let t20a = t23.wrapping_sub(t20);
    let t21 = t22a.wrapping_sub(t21a);
    let t22 = t22a.wrapping_add(t21a);
    let t23a = t23.wrapping_add(t20);
    let t24a = t24.wrapping_add(t27);
    let t25 = t25a.wrapping_add(t26a);
    let t26 = t25a.wrapping_sub(t26a);
    let t27a = t24.wrapping_sub(t27);
    let t28a = t31.wrapping_sub(t28);
    let t29 = t30a.wrapping_sub(t29a);
    let t30 = t30a.wrapping_add(t29a);
    let t31a = t31.wrapping_add(t28);
    let t18a = round14_spec(dot_sub_spec(t29, 6270, t18, 15137));
    let t29a = round14_spec(dot_add_spec(t29, 15137, t18, 6270));
    let t19 = round14_spec(dot_sub_spec(t28a, 6270, t19a, 15137));
    let t28 = round14_spec(dot_add_spec(t28a, 15137, t19a, 6270));
    let t20 = round14_spec(neg_spec(dot_add_spec(t27a, 15137, t20a, 6270)));
    let t27 = round14_spec(dot_sub_spec(t27a, 6270, t20a, 15137));
    let t21a = round14_spec(neg_spec(dot_add_spec(t26, 15137, t21, 6270)));
    let t26a = round14_spec(dot_sub_spec(t26, 6270, t21, 15137));
    let t16 = t16a.wrapping_add(t23a);
    let t17a = t17.wrapping_add(t22);
    let t18 = t18a.wrapping_add(t21a);
    let t19a = t19.wrapping_add(t20);
    let t20a = t19.wrapping_sub(t20);
    let t21 = t18a.wrapping_sub(t21a);
    let t22a = t17.wrapping_sub(t22);
    let t23 = t16a.wrapping_sub(t23a);
    let t24 = t31a.wrapping_sub(t24a);
    let t25a = t30.wrapping_sub(t25);
    let t26 = t29a.wrapping_sub(t26a);
    let t27a = t28.wrapping_sub(t27);
    let t28a = t28.wrapping_add(t27);
    let t29 = t29a.wrapping_add(t26a);
    let t30a = t30.wrapping_add(t25);
    let t31 = t31a.wrapping_add(t24a);
    let t20 = half_diff_spec(t27a, t20a);
    let t27 = half_sum_spec(t27a, t20a);
    let t21a = half_diff_spec(t26, t21);
    let t26a = half_sum_spec(t26, t21);
    let t22 = half_diff_spec(t25a, t22a);
    let t25 = half_sum_spec(t25a, t22a);
    let t23a = half_diff_spec(t24, t23);
    let t24a = half_sum_spec(t24, t23);
    seq![t31, t30a, t29, t28a, t27, t26a, t25, t24a, t23a, t22, t21a, t20, t19a, t18, t17a, t16]
}

fn idct32_odd(x: &[i32; 16]) -> (r: [i32; 16])
    ensures
        r@ == idct32_odd_spec(x@),
{
    proof {
        reveal(idct32_odd_spec);
    }
    let t16a: i32 = round14(dot_sub(x[0], 804, x[15], 16364));
    let t31a: i32 = round14(dot_add(x[0], 16364, x[15], 804));
    let t17a: i32 = round14(dot_sub(x[8], 12140, x[7], 11003));
    let t30a: i32 = round14(dot_add(x[8], 11003, x[7], 12140));
    let t18a: i32 = round14(dot_sub(x[4], 7005, x[11], 14811));
    let t29a: i32 = round14(dot_add(x[4], 14811, x[11], 7005));
    let t19a: i32 = round14(dot_sub(x[12], 15426, x[3], 5520));
    let t28a: i32 = round14(dot_add(x[12], 5520, x[3], 15426));
    let t20a: i32 = round14(dot_sub(x[2], 3981, x[13], 15893));
    let t27a: i32 = round14(dot_add(x[2], 15893, x[13], 3981));
    let t21a: i32 = round14(dot_sub(x[10], 14053, x[5], 8423));
    let t26a: i32 = round14(dot_add(x[10], 8423, x[5], 14053));
    let t22a: i32 = round14(dot_sub(x[6], 9760, x[9], 13160));
    let t25a: i32 = round14(dot_add(x[6], 13160, x[9], 9760));
    let t23a: i32 = round14(dot_sub(x[14], 16207, x[1], 2404));
    let t24a: i32 = round14(dot_add(x[14], 2404, x[1], 16207));
    let t16: i32 = t16a.wrapping_add(t17a);
    let t17: i32 = t16a.wrapping_sub(t17a);
    let t18: i32 = t19a.wrapping_sub(t18a);
    let t19: i32 = t19a.wrapping_add(t18a);
    let t20: i32 = t20a.wrapping_add(t21a);
    let t21: i32 = t20a.wrapping_sub(t21a);
    let t22: i32 = t23a.wrapping_sub(t22a);
    let t23: i32 = t23a.wrapping_add(t22a);
    let t24: i32 = t24a.wrapping_add(t25a);
    let t25: i32 = t24a.wrapping_sub(t25a);
    let t26: i32 = t27a.wrapping_sub(t26a);
    let t27: i32 = t27a.wrapping_add(t26a);
    let t28: i32 = t28a.wrapping_add(t29a);
    let t29: i32 = t28a.wrapping_sub(t29a);
    let t30: i32 = t31a.wrapping_sub(t30a);
    let t31: i32 = t31a.wrapping_add(t30a);
    let t17a: i32 = round14(dot_sub(t30, 3196, t17, 16069));
    let t30a: i32 = round14(dot_add(t30, 16069, t17, 3196));
    let t18a: i32 = round14(neg(dot_add(t29, 16069, t18, 3196)));
    let t29a: i32 = round14(dot_sub(t29, 3196, t18, 16069));
    let t21a: i32 = round14(dot_sub(t26, 13623, t21, 9102));
    let t26a: i32 = round14(dot_add(t26, 9102, t21, 13623));
    let t22a: i32 = round14(neg(dot_add(t25, 9102, t22, 13623)));
    let t25a: i32 = round14(dot_sub(t25, 13623, t22, 9102));
    let t16a: i32 = t16.wrapping_add(t19);
    let t17: i32 = t17a.wrapping_add(t18a);
    let t18: i32 = t17a.wrapping_sub(t18a);
    let t19a: i32 = t16.wrapping_sub(t19);
    let t20a: i32 = t23.wrapping_sub(t20);
    let t21: i32 = t22a.wrapping_sub(t21a);
    let t22: i32 = t22a.wrapping_add(t21a);
    let t23a: i32 = t23.wrapping_add(t20);
    let t24a: i32 = t24.wrapping_add(t27);
    let t25: i32 = t25a.wrapping_add(t26a);
    let t26: i32 = t25a.wrapping_sub(t26a);
    let t27a: i32 = t24.wrapping_sub(t27);
    let t28a: i32 = t31.wrapping_sub(t28);
    let t29: i32 = t30a.wrapping_sub(t29a);
    let t30: i32 = t30a.wrapping_add(t29a);
    let t31a: i32 = t31.wrapping_add(t28);
    let t18a: i32 = round14(dot_sub(t29, 6270, t18, 15137));
    let t29a: i32 = round14(dot_add(t29, 15137, t18, 6270));
    let t19: i32 = round14(dot_sub(t28a, 6270, t19a, 15137));
    let t28: i32 = round14(dot_add(t28a, 15137, t19a, 6270));
    let t20: i32 = round14(neg(dot_add(t27a, 15137, t20a, 6270)));
    let t27: i32 = round14(dot_sub(t27a, 6270, t20a, 15137));
    let t21a: i32 = round14(neg(dot_add(t26, 15137, t21, 6270)));
    let t26a: i32 = round14(dot_sub(t26, 6270, t21, 15137));
    let t16: i32 = t16a.wrapping_add(t23a);
    let t17a: i32 = t17.wrapping_add(t22);
    let t18: i32 = t18a.wrapping_add(t21a);
    let t19a: i32 = t19.wrapping_add(t20);
    let t20a: i32 = t19.wrapping_sub(t20);
    let t21: i32 = t18a.wrapping_sub(t21a);
    let t22a: i32 = t17.wrapping_sub(t22);
    let t23: i32 = t16a.wrapping_sub(t23a);
    let t24: i32 = t31a.wrapping_sub(t24a);
    let t25a: i32 = t30.wrapping_sub(t25);
    let t26: i32 = t29a.wrapping_sub(t26a);
    let t27a: i32 = t28.wrapping_sub(t27);
    let t28a: i32 = t28.wrapping_add(t27);
    let t29: i32 = t29a.wrapping_add(t26a);
    let t30a: i32 = t30.wrapping_add(t25);
    let t31: i32 = t31a.wrapping_add(t24a);
    let t20: i32 = half_diff(t27a, t20a);
    let t27: i32 = half_sum(t27a, t20a);
    let t21a: i32 = half_diff(t26, t21);
    let t26a: i32 = half_sum(t26, t21);
    let t22: i32 = half_diff(t25a, t22a);
    let t25: i32 = half_sum(t25a, t22a);
    let t23a: i32 = half_diff(t24, t23);
    let t24a: i32 = half_sum(t24, t23);
    let r: [i32; 16] = [t31, t30a, t29, t28a, t27, t26a, t25, t24a, t23a, t22, t21a, t20, t19a, t18, t17a, t16];
    assert(r@ =~= idct32_odd_spec(x@));
    r
}

/// The 8-point inverse ADST.
#[verifier::opaque]
pub open spec fn iadst8_spec(x: Seq<i32>) -> Seq<i32> {
    let t0a = dot_add_spec(x[7], 16305, x[0], 1606);
    let t1a = dot_sub_spec(x[7], 1606, x[0], 16305);
    let t2a = dot_add_spec(x[5], 14449, x[2], 7723);
    let t3a = dot_sub_spec(x[5], 7723, x[2], 14449);
    let t4a = dot_add_spec(x[3], 10394, x[4], 12665);
    let t5a = dot_sub_spec(x[3], 12665, x[4], 10394);
    let t6a = dot_add_spec(x[1], 4756, x[6], 15679);
    let t7a = dot_sub_spec(x[1], 15679, x[6], 4756);
    let t0 = round14_spec(t0a.wrapping_add(t4a));
    let t1 = round14_spec(t1a.wrapping_add(t5a));
    let t2 = round14_spec(t2a.wrapping_add(t6a));
    let t3 = round14_spec(t3a.wrapping_add(t7a));
    let t4 = round14_spec(t0a.wrapping_sub(t4a));
    let t5 = round14_spec(t1a.wrapping_sub(t5a));
    let t6 = round14_spec(t2a.wrapping_sub(t6a));
    let t7 = round14_spec(t3a.wrapping_sub(t7a));
    let t4a = dot_add_spec(t4, 15137, t5, 6270);
    let t5a = dot_sub_spec(t4, 6270, t5, 15137);
    let t6a = dot_sub_spec(t7, 15137, t6, 6270);
    let t7a = dot_add_spec(t7, 6270, t6, 15137);
    let out0 = t0.wrapping_add(t2);
    let out7 = neg_spec(t1.wrapping_add(t3));
    let t2 = t0.wrapping_sub(t2);
    let t3 = t1.wrapping_sub(t3);
    let out1 = round14_spec(t4a.wrapping_add(t6a));
    let out1 = neg_spec(out1);
    let out6 = round14_spec(t5a.wrapping_add(t7a));
    let t6 = round14_spec(t4a.wrapping_sub(t6a));
    let t7 = round14_spec(t5a.wrapping_sub(t7a));
    let out3 = half_sum_spec(t2, t3);
    let out3 = neg_spec(out3);
    let out4 = half_diff_spec(t2, t3);
    let out2 = half_sum_spec(t6, t7);
    let out5 = half_diff_spec(t6, t7);
    let out5 = neg_spec(out5);
    seq![out0, out1, out2, out3, out4, out5, out6, out7]
}

fn iadst8_values(x: &[i32; 8]) -> (r: [i32; 8])
    ensures
        r@ == iadst8_spec(x@),
{
    proof {
        reveal(iadst8_spec);
    }
    let t0a: i32 = dot_add(x[7], 16305, x[0], 1606);
    let t1a: i32 = dot_sub(x[7], 1606, x[0], 16305);
    let t2a: i32 = dot_add(x[5], 14449, x[2], 7723);
    let t3a: i32 = dot_sub(x[5], 7723, x[2], 14449);
    let t4a: i32 = dot_add(x[3], 10394, x[4], 12665);
    let t5a: i32 = dot_sub(x[3], 12665, x[4], 10394);
    let t6a: i32 = dot_add(x[1], 4756, x[6], 15679);
    let t7a: i32 = dot_sub(x[1], 15679, x[6], 4756);
    let t0: i32 = round14(t0a.wrapping_add(t4a));
    let t1: i32 = round14(t1a.wrapping_add(t5a));
    let t2: i32 = round14(t2a.wrapping_add(t6a));
    let t3: i32 = round14(t3a.wrapping_add(t7a));
    let t4: i32 = round14(t0a.wrapping_sub(t4a));
    let t5: i32 = round14(t1a.wrapping_sub(t5a));
    let t6: i32 = round14(t2a.wrapping_sub(t6a));
    let t7: i32 = round14(t3a.wrapping_sub(t7a));
    let t4a: i32 = dot_add(t4, 15137, t5, 6270);
    let t5a: i32 = dot_sub(t4, 6270, t5, 15137);
    let t6a: i32 = dot_sub(t7, 15137, t6, 6270);
    let t7a: i32 = dot_add(t7, 6270, t6, 15137);
    let out0: i32 = t0.wrapping_add(t2);
    let out7: i32 = neg(t1.wrapping_add(t3));
    let t2: i32 = t0.wrapping_sub(t2);
    let t3: i32 = t1.wrapping_sub(t3);
    let out1: i32 = round14(t4a.wrapping_add(t6a));
    let out1: i32 = neg(out1);
    let out6: i32 = round14(t5a.wrapping_add(t7a));
    let t6: i32 = round14(t4a.wrapping_sub(t6a));
    let t7: i32 = round14(t5a.wrapping_sub(t7a));
    let out3: i32 = half_sum(t2, t3);
    let out3: i32 = neg(out3);
    let out4: i32 = half_diff(t2, t3);
    let out2: i32 = half_sum(t6, t7);
    let out5: i32 = half_diff(t6, t7);
    let out5: i32 = neg(out5);
    let r: [i32; 8] = [out0, out1, out2, out3, out4, out5, out6, out7];
    assert(r@ =~= iadst8_spec(x@));
    r
}

/// The 16-point inverse ADST.
#[verifier::opaque]
pub open spec fn iadst16_spec(x: Seq<i32>) -> Seq<i32> {
    let t0 = dot_add_spec(x[15], 16364, x[0], 804);
    let t1 = dot_sub_spec(x[15], 804, x[0], 16364);
    let t2 = dot_add_spec(x[13], 15893, x[2], 3981);
    let t3 = dot_sub_spec(x[13], 3981, x[2], 15893);
    let t4 = dot_add_spec(x[11], 14811, x[4], 7005);
    let t5 = dot_sub_spec(x[11], 7005, x[4], 14811);
    let t6 = dot_add_spec(x[9], 13160, x[6], 9760);
    let t7 = dot_sub_spec(x[9], 9760, x[6], 13160);
    let t8 = dot_add_spec(x[7], 11003, x[8], 12140);
    let t9 = dot_sub_spec(x[7], 12140, x[8], 11003);
    let t10 = dot_add_spec(x[5], 8423, x[10], 14053);
    let t11 = dot_sub_spec(x[5], 14053, x[10], 8423);
    let t12 = dot_add_spec(x[3], 5520, x[12], 15426);
    let t13 = dot_sub_spec(x[3], 15426, x[12], 5520);
    let t14 = dot_add_spec(x[1], 2404, x[14], 16207);
    let t15 = dot_sub_spec(x[1], 16207, x[14], 2404);
    let t0a = round14_spec(t0.wrapping_add(t8));
    let t1a = round14_spec(t1.wrapping_add(t9));
    let t2a = round14_spec(t2.wrapping_add(t10));
    let t3a = round14_spec(t3.wrapping_add(t11));
    let t4a = round14_spec(t4.wrapping_add(t12));
    let t5a = round14_spec(t5.wrapping_add(t13));
    let t6a = round14_spec(t6.wrapping_add(t14));
    let t7a = round14_spec(t7.wrapping_add(t15));
    let t8a = round14_spec(t0.wrapping_sub(t8));
    let t9a = round14_spec(t1.wrapping_sub(t9));
    let t10a = round14_spec(t2.wrapping_sub(t10));
    let t11a = round14_spec(t3.wrapping_sub(t11));
    let t12a = round14_spec(t4.wrapping_sub(t12));
    let t13a = round14_spec(t5.wrapping_sub(t13));
    let t14a = round14_spec(t6.wrapping_sub(t14));
    let t15a = round14_spec(t7.wrapping_sub(t15));
    let t8 = dot_add_spec(t8a, 16069, t9a, 3196);
    let t9 = dot_sub_spec(t8a, 3196, t9a, 16069);
    let t10 = dot_add_spec(t10a, 9102, t11a, 13623);
    let t11 = dot_sub_spec(t10a, 13623, t11a, 9102);
    let t12 = dot_sub_spec(t13a, 16069, t12a, 3196);
    let t13 = dot_add_spec(t13a, 3196, t12a, 16069);
    let t14 = dot_sub_spec(t15a, 9102, t14a, 13623);
    let t15 = dot_add_spec(t15a, 13623, t14a, 9102);
    let t0 = t0a.wrapping_add(t4a);
    let t1 = t1a.wrapping_add(t5a);
    let t2 = t2a.wrapping_add(t6a);
    let t3 = t3a.wrapping_add(t7a);
    let t4 = t0a.wrapping_sub(t4a);
    let t5 = t1a.wrapping_sub(t5a);
    let t6 = t2a.wrapping_sub(t6a);
    let t7 = t3a.wrapping_sub(t7a);
    let t8a = round14_spec(t8.wrapping_add(t12));
    let t9a = round14_spec(t9.wrapping_add(t13));
    let t10a = round14_spec(t10.wrapping_add(t14));
    let t11a = round14_spec(t11.wrapping_add(t15));
    let t12a = round14_spec(t8.wrapping_sub(t12));
    let t13a = round14_spec(t9.wrapping_sub(t13));
    let t14a = round14_spec(t10.wrapping_sub(t14));
    let t15a = round14_spec(t11.wrapping_sub(t15));
    let t4a = dot_add_spec(t4, 15137, t5, 6270);
    let t5a = dot_sub_spec(t4, 6270, t5, 15137);
    let t6a = dot_sub_spec(t7, 15137, t6, 6270);
    let t7a = dot_add_spec(t7, 6270, t6, 15137);
    let t12 = dot_add_spec(t12a, 15137, t13a, 6270);
    let t13 = dot_sub_spec(t12a, 6270, t13a, 15137);
    let t14 = dot_sub_spec(t15a, 15137, t14a, 6270);
    let t15 = dot_add_spec(t15a, 6270, t14a, 15137);
    let out0 = t0.wrapping_add(t2);
    let out15 = neg_spec(t1.wrapping_add(t3));
    let t2a = t0.wrapping_sub(t2);
    let t3a = t1.wrapping_sub(t3);
    let out3 = round14_spec(t4a.wrapping_add(t6a));
    let out3 = neg_spec(out3);
    let out12 = round14_spec(t5a.wrapping_add(t7a));
    let t6 = round14_spec(t4a.wrapping_sub(t6a));
    let t7 = round14_spec(t5a.wrapping_sub(t7a));
    let out1 = neg_spec(t8a.wrapping_add(t10a));
    let out14 = t9a.wrapping_add(t11a);
    let t10 = t8a.wrapping_sub(t10a);
    let t11 = t9a.wrapping_sub(t11a);
    let out2 = round14_spec(t12.wrapping_add(t14));
    let out13 = round14_spec(t13.wrapping_add(t15));
    let out13 = neg_spec(out13);
    let t14a = round14_spec(t12.wrapping_sub(t14));
    let t15a = round14_spec(t13.wrapping_sub(t15));
    let out7 = half_neg_sum_spec(t2a, t3a);
    let out8 = half_diff_spec(t2a, t3a);
    let out4 = half_sum_spec(t7, t6);
    let out11 = half_diff_spec(t7, t6);
    let out6 = half_sum_spec(t11, t10);
    let out9 = half_diff_spec(t11, t10);
    let out5 = half_neg_sum_spec(t14a, t15a);
    let out10 = half_diff_spec(t14a, t15a);
    seq![out0, out1, out2, out3, out4, out5, out6, out7, out8, out9, out10, out11, out12, out13, out14, out15]
}

fn iadst16_values(x: &[i32; 16]) -> (r: [i32; 16])
    ensures
        r@ == iadst16_spec(x@),
{
    proof {
        reveal(iadst16_spec);
    }
    let t0: i32 = dot_add(x[15], 16364, x[0], 804);
    let t1: i32 = dot_sub(x[15], 804, x[0], 16364);
    let t2: i32 = dot_add(x[13], 15893, x[2], 3981);
    let t3: i32 = dot_sub(x[13], 3981, x[2], 15893);
    let t4: i32 = dot_add(x[11], 14811, x[4], 7005);
    let t5: i32 = dot_sub(x[11], 7005, x[4], 14811);
    let t6: i32 = dot_add(x[9], 13160, x[6], 9760);
    let t7: i32 = dot_sub(x[9], 9760, x[6], 13160);
    let t8: i32 = dot_add(x[7], 11003, x[8], 12140);
    let t9: i32 = dot_sub(x[7], 12140, x[8], 11003);
    let t10: i32 = dot_add(x[5], 8423, x[10], 14053);
    let t11: i32 = dot_sub(x[5], 14053, x[10], 8423);
    let t12: i32 = dot_add(x[3], 5520, x[12], 15426);
    let t13: i32 = dot_sub(x[3], 15426, x[12], 5520);
    let t14: i32 = dot_add(x[1], 2404, x[14], 16207);
    let t15: i32 = dot_sub(x[1], 16207, x[14], 2404);
    let t0a: i32 = round14(t0.wrapping_add(t8));
    let t1a: i32 = round14(t1.wrapping_add(t9));
    let t2a: i32 = round14(t2.wrapping_add(t10));
    let t3a: i32 = round14(t3.wrapping_add(t11));
    let t4a: i32 = round14(t4.wrapping_add(t12));
    let t5a: i32 = round14(t5.wrapping_add(t13));
    let t6a: i32 = round14(t6.wrapping_add(t14));
    let t7a: i32 = round14(t7.wrapping_add(t15));
    let t8a: i32 = round14(t0.wrapping_sub(t8));
    let t9a: i32 = round14(t1.wrapping_sub(t9));
    let t10a: i32 = round14(t2.wrapping_sub(t10));
    let t11a: i32 = round14(t3.wrapping_sub(t11));
    let t12a: i32 = round14(t4.wrapping_sub(t12));
    let t13a: i32 = round14(t5.wrapping_sub(t13));
    let t14a: i32 = round14(t6.wrapping_sub(t14));
    let t15a: i32 = round14(t7.wrapping_sub(t15));
    let t8: i32 = dot_add(t8a, 16069, t9a, 3196);
    let t9: i32 = dot_sub(t8a, 3196, t9a, 16069);
    let t10: i32 = dot_add(t10a, 9102, t11a, 13623);
    let t11: i32 = dot_sub(t10a, 13623, t11a, 9102);
    let t12: i32 = dot_sub(t13a, 16069, t12a, 3196);
    let t13: i32 = dot_add(t13a, 3196, t12a, 16069);
    let t14: i32 = dot_sub(t15a, 9102, t14a, 13623);
    let t15: i32 = dot_add(t15a, 13623, t14a, 9102);
    let t0: i32 = t0a.wrapping_add(t4a);
    let t1: i32 = t1a.wrapping_add(t5a);
    let t2: i32 = t2a.wrapping_add(t6a);
    let t3: i32 = t3a.wrapping_add(t7a);
    let t4: i32 = t0a.wrapping_sub(t4a);
    let t5: i32 = t1a.wrapping_sub(t5a);
    let t6: i32 = t2a.wrapping_sub(t6a);
    let t7: i32 = t3a.wrapping_sub(t7a);
    let t8a: i32 = round14(t8.wrapping_add(t12));
    let t9a: i32 = round14(t9.wrapping_add(t13));
    let t10a: i32 = round14(t10.wrapping_add(t14));
    let t11a: i32 = round14(t11.wrapping_add(t15));
    let t12a: i32 = round14(t8.wrapping_sub(t12));
    let t13a: i32 = round14(t9.wrapping_sub(t13));
    let t14a: i32 = round14(t10.wrapping_sub(t14));
    let t15a: i32 = round14(t11.wrapping_sub(t15));
    let t4a: i32 = dot_add(t4, 15137, t5, 6270);
    let t5a: i32 = dot_sub(t4, 6270, t5, 15137);
    let t6a: i32 = dot_sub(t7, 15137, t6, 6270);
    let t7a: i32 = dot_add(t7, 6270, t6, 15137);
    let t12: i32 = dot_add(t12a, 15137, t13a, 6270);
    let t13: i32 = dot_sub(t12a, 6270, t13a, 15137);
    let t14: i32 = dot_sub(t15a, 15137, t14a, 6270);
    let t15: i32 = dot_add(t15a, 6270, t14a, 15137);
    let out0: i32 = t0.wrapping_add(t2);
    let out15: i32 = neg(t1.wrapping_add(t3));
    let t2a: i32 = t0.wrapping_sub(t2);
    let t3a: i32 = t1.wrapping_sub(t3);
    let out3: i32 = round14(t4a.wrapping_add(t6a));
    let out3: i32 = neg(out3);
    let out12: i32 = round14(t5a.wrapping_add(t7a));
    let t6: i32 = round14(t4a.wrapping_sub(t6a));
    let t7: i32 = round14(t5a.wrapping_sub(t7a));
    let out1: i32 = neg(t8a.wrapping_add(t10a));
    let out14: i32 = t9a.wrapping_add(t11a);
    let t10: i32 = t8a.wrapping_sub(t10a);
    let t11: i32 = t9a.wrapping_sub(t11a);
    let out2: i32 = round14(t12.wrapping_add(t14));
    let out13: i32 = round14(t13.wrapping_add(t15));
    let out13: i32 = neg(out13);
    let t14a: i32 = round14(t12.wrapping_sub(t14));
    let t15a: i32 = round14(t13.wrapping_sub(t15));
    let out7: i32 = half_neg_sum(t2a, t3a);
    let out8: i32 = half_diff(t2a, t3a);
    let out4: i32 = half_sum(t7, t6);
    let out11: i32 = half_diff(t7, t6);
    let out6: i32 = half_sum(t11, t10);
    let out9: i32 = half_diff(t11, t10);
    let out5: i32 = half_neg_sum(t14a, t15a);
    let out10: i32 = half_diff(t14a, t15a);
    let r: [i32; 16] = [out0, out1, out2, out3, out4, out5, out6, out7, out8, out9, out10, out11, out12, out13, out14, out15];
    assert(r@ =~= iadst16_spec(x@));
    r
}
/// The 8-point inverse DCT.
pub open spec fn idct8_spec(x: Seq<i32>) -> Seq<i32> {
    combine_spec(idct4_spec(evens(x)), idct8_odd_spec(odds(x)))
}

/// 8-point inverse DCT.
pub fn idct8(input: &[i32; 8], output: &mut [i32; 8])
    ensures
        final(output)@ == idct8_spec(input@),
{
    let mut x: [i32; 4] = [0i32; 4];
    let mut y: [i32; 4] = [0i32; 4];
    let mut e: [i32; 4] = [0i32; 4];
    split(input, &mut x, &mut y);
    idct4(&x, &mut e);
    let o: [i32; 4] = idct8_odd(&y);
    proof {
        reveal(idct4_spec);
    }
    combine(&e, &o, output);
}

/// The 16-point inverse DCT.
pub open spec fn idct16_spec(x: Seq<i32>) -> Seq<i32> {
    combine_spec(idct8_spec(evens(x)), idct16_odd_spec(odds(x)))
}

/// 16-point inverse DCT.
pub fn idct16(input: &[i32; 16], output: &mut [i32; 16])
    ensures
        final(output)@ == idct16_spec(input@),
{
    let mut x: [i32; 8] = [0i32; 8];
    let mut y: [i32; 8] = [0i32; 8];
    let mut e: [i32; 8] = [0i32; 8];
    split(input, &mut x, &mut y);
    idct8(&x, &mut e);
    let o: [i32; 8] = idct16_odd(&y);
    combine(&e, &o, output);
}

/// The 32-point inverse DCT.
pub open spec fn idct32_spec(x: Seq<i32>) -> Seq<i32> {
    combine_spec(idct16_spec(evens(x)), idct32_odd_spec(odds(x)))
}

/// 32-point inverse DCT.
pub fn idct32(input: &[i32; 32], output: &mut [i32; 32])
    ensures
        final(output)@ == idct32_spec(input@),
{
    let mut x: [i32; 16] = [0i32; 16];
    let mut y: [i32; 16] = [0i32; 16];
    let mut e: [i32; 16] = [0i32; 16];
    split(input, &mut x, &mut y);
    idct16(&x, &mut e);
    let o: [i32; 16] = idct32_odd(&y);
    combine(&e, &o, output);
}

/// 8-point inverse ADST.
pub fn iadst8(input: &[i32; 8], output: &mut [i32; 8])
    ensures
        final(output)@ == iadst8_spec(input@),
{
    *output = iadst8_values(input);
}

/// 16-point inverse ADST.
pub fn iadst16(input: &[i32; 16], output: &mut [i32; 16])
    ensures
        final(output)@ == iadst16_spec(input@),
{
    *output = iadst16_values(input);
}

/// The one-dimensional transform of size `n`: 4, 8, 16 or 32.
pub open spec fn txfm_1d_spec(n: int, adst: bool, x: Seq<i32>) -> Seq<i32> {
    if n == 4 {
        if adst { iadst4_spec(x) } else { idct4_spec(x) }
    } else if n == 8 {
        if adst { iadst8_spec(x) } else { idct8_spec(x) }
    } else if n == 16 {
        if adst { iadst16_spec(x) } else { idct16_spec(x) }
    } else {
        idct32_spec(x)
    }
}

/// A transform gives as many values as it takes.
proof fn lemma_txfm_1d_len(n: int, adst: bool, x: Seq<i32>)
    requires
        n == 4 || n == 8 || n == 16 || n == 32,
        x.len() == n,
    ensures
        txfm_1d_spec(n, adst, x).len() == n,
{
    reveal(idct4_spec);
    reveal(iadst4_spec);
    reveal(iadst8_spec);
    reveal(iadst16_spec);
}

/// Applies the one-dimensional transform of size `n`.
fn apply_1d_txfm(n: usize, use_adst: bool, input: &[i32], output: &mut [i32])
    requires
        n == 4 || n == 8 || n == 16 || (n == 32 && !use_adst),
        input@.len() == n,
        old(output)@.len() == n,
    ensures
        final(output)@ == txfm_1d_spec(n as int, use_adst, input@),
        final(output)@.len() == n,
{
    proof {
        lemma_txfm_1d_len(n as int, use_adst, input@);
    }
    if n == 4 {
        let mut a: [i32; 4] = [0i32; 4];
        let mut b: [i32; 4] = [0i32; 4];
        copy_into(&mut a, input);
        if use_adst {
            iadst4(&a, &mut b);
        } else {
            idct4(&a, &mut b);
        }
        copy_into(output, &b);
    } else if n == 8 {
        let mut a: [i32; 8] = [0i32; 8];
        let mut b: [i32; 8] = [0i32; 8];
        copy_into(&mut a, input);
        if use_adst {
            iadst8(&a, &mut b);
        } else {
            idct8(&a, &mut b);
        }
        copy_into(output, &b);
    } else if n == 16 {
        let mut a: [i32; 16] = [0i32; 16];
        let mut b: [i32; 16] = [0i32; 16];
        copy_into(&mut a, input);
        if use_adst {
            iadst16(&a, &mut b);
        } else {
            idct16(&a, &mut b);
        }
        copy_into(output, &b);
    } else {
        let mut a: [i32; 32] = [0i32; 32];
        let mut b: [i32; 32] = [0i32; 32];
        copy_into(&mut a, input);
        idct32(&a, &mut b);
        copy_into(output, &b);
    }
}

/// Whether the rows of a block are transformed by the ADST.
pub open spec fn row_adst_spec(tx_type: TxType) -> bool {
    tx_type == TxType::AdstDct || tx_type == TxType::AdstAdst
}

/// Whether the columns of a block are transformed by the ADST.
pub open spec fn col_adst_spec(tx_type: TxType) -> bool {
    tx_type == TxType::DctAdst || tx_type == TxType::AdstAdst
}

/// Applies the row transform of `tx_type`.
fn apply_row_txfm(n: usize, tx_type: TxType, input: &[i32], output: &mut [i32])
    requires
        n == 4 || n == 8 || n == 16 || (n == 32 && tx_type == TxType::DctDct),
        input@.len() == n,
        old(output)@.len() == n,
    ensures
        final(output)@ == txfm_1d_spec(n as int, row_adst_spec(tx_type), input@),
        final(output)@.len() == n,
{
    let use_adst = matches!(tx_type, TxType::AdstDct | TxType::AdstAdst);
    apply_1d_txfm(n, use_adst, input, output);
}

/// Applies the column transform of `tx_type`.
fn apply_col_txfm(n: usize, tx_type: TxType, input: &[i32], output: &mut [i32])
    requires
        n == 4 || n == 8 || n == 16 || (n == 32 && tx_type == TxType::DctDct),
        input@.len() == n,
        old(output)@.len() == n,
    ensures
        final(output)@ == txfm_1d_spec(n as int, col_adst_spec(tx_type), input@),
        final(output)@.len() == n,
{
    let use_adst = matches!(tx_type, TxType::DctAdst | TxType::AdstAdst);
    apply_1d_txfm(n, use_adst, input, output);
}

/// The low 16 bits of `v`, as a signed number: what a 16-bit store keeps.
pub open spec fn low16(v: i32) -> i32 {
    v as i16 as i32
}

/// Entry `k` of the column of an `n` by `n` matrix in row-major order.
pub open spec fn column(m: Seq<i32>, n: int, col: int) -> Seq<i32> {
    Seq::new(n as nat, |row: int| m[row * n + col])
}

/// First pass on one column of coefficients.
pub open spec fn pass1_spec(coefs: Seq<i32>, n: int, tx_type: TxType, col: int) -> Seq<i32> {
    txfm_1d_spec(n, col_adst_spec(tx_type), column(coefs, n, col)).map_values(|v: i32| low16(v))
}

/// Second pass on one column of the block, from what the first pass left.
pub open spec fn pass2_spec(coefs: Seq<i32>, n: int, tx_type: TxType, col: int) -> Seq<i32> {
    txfm_1d_spec(
        n,
        row_adst_spec(tx_type),
        Seq::new(n as nat, |k: int| pass1_spec(coefs, n, tx_type, k)[col]),
    )
}

/// Rounding shift by `bits` bits.
pub open spec fn round_shift_spec(v: i32, bits: u32) -> i32 {
    if bits > 0 {
        v.wrapping_add(1i32 << (bits - 1) as u32) >> bits
    } else {
        v
    }
}

fn round_shift(v: i32, bits: u32) -> (r: i32)
    requires
        bits < 32,
    ensures
        r == round_shift_spec(v, bits),
{
    if bits > 0 {
        v.wrapping_add(1i32 << (bits - 1)) >> bits
    } else {
        v
    }
}

/// What every pixel of a block gains where only the first coefficient is set.
pub open spec fn dc_residual_spec(dc: i32, bits: u32) -> i32 {
    round_shift_spec(
        round14_spec(round14_spec(dc.wrapping_mul(11585)).wrapping_mul(11585)),
        bits,
    )
}

/// What the pixel at `row` and `col` of a block gains.
pub open spec fn residual_spec(
    coefs: Seq<i32>,
    n: int,
    tx_type: TxType,
    eob: int,
    bits: u32,
    row: int,
    col: int,
) -> i32 {
    if eob == 1 && tx_type == TxType::DctDct {
        dc_residual_spec(coefs[0], bits)
    } else {
        round_shift_spec(low16(pass2_spec(coefs, n, tx_type, col)[row]), bits)
    }
}

/// `v` brought into `0..=max_val`, as a byte.
pub open spec fn clip_pixel_spec(v: i32, max_val: i32) -> u8 {
    if v < 0 {
        0
    } else if v > max_val {
        max_val as u8
    } else {
        v as u8
    }
}

fn clip_pixel(v: i32, max_val: i32) -> (r: u8)
    requires
        max_val >= 0,
    ensures
        r == clip_pixel_spec(v, max_val),
{
    if v < 0 {
        0
    } else if v > max_val {
        max_val as u8
    } else {
        v as u8
    }
}

/// The pixel `p` with `add` added to it.
pub open spec fn add_pixel_spec(p: u8, add: i32, max_val: i32) -> u8 {
    clip_pixel_spec((p as i32).wrapping_add(add), max_val)
}

/// The largest pixel value at a bit depth.
pub open spec fn max_pixel_spec(bit_depth: u8) -> i32 {
    ((1i32 << bit_depth) - 1) as i32
}

fn max_pixel(bit_depth: u8) -> (r: i32)
    requires
        bit_depth <= 30,
    ensures
        r == max_pixel_spec(bit_depth),
        r >= 0,
{
    assert((1i32 << bit_depth) >= 1) by (bit_vector)
        requires
            bit_depth <= 30,
    ;
    (1i32 << bit_depth) - 1
}

/// Whether a block of `n` by `n` pixels lies in a plane of `len` bytes, its rows
/// `stride` bytes apart.
pub open spec fn block_fits(len: int, stride: int, n: int) -> bool {
    n <= stride && (n - 1) * stride + n <= len
}

/// Whether position `p` of the plane lies in the first `cols` columns of the block.
pub open spec fn in_block(p: int, stride: int, n: int, cols: int) -> bool {
    0 <= p / stride < n && p % stride < cols
}

/// The plane `dst` after `residual(row, col)` was added to the first `cols`
/// columns of the block at its start.
pub open spec fn add_block_spec(
    dst: Seq<u8>,
    stride: int,
    n: int,
    cols: int,
    residual: spec_fn(int, int) -> i32,
    max_val: i32,
) -> Seq<u8> {
    Seq::new(
        dst.len(),
        |p: int|
            if in_block(p, stride, n, cols) {
                add_pixel_spec(dst[p], residual(p / stride, p % stride), max_val)
            } else {
                dst[p]
            },
    )
}

/// Position of `row` and `col` in a plane, and back.
pub proof fn lemma_position(row: int, col: int, stride: int)
    requires
        0 <= col < stride,
        0 <= row,
    ensures
        (row * stride + col) / stride == row,
        (row * stride + col) % stride == col,
{
    vstd::arithmetic::div_mod::lemma_fundamental_div_mod_converse(
        row * stride + col,
        stride,
        row,
        col,
    );
}

/// Adds one column of residuals to the block at the start of `dst`.
fn add_column(
    dst: &mut [u8],
    stride: usize,
    n: usize,
    col: usize,
    add: &[i32],
    max_val: i32,
    Ghost(residual): Ghost<spec_fn(int, int) -> i32>,
    Ghost(before): Ghost<Seq<u8>>,
)
    requires
        col < n,
        add@.len() == n,
        max_val >= 0,
        block_fits(before.len() as int, stride as int, n as int),
        before.len() == old(dst)@.len(),
        old(dst)@ == add_block_spec(
            before,
            stride as int,
            n as int,
            col as int,
            residual,
            max_val,
        ),
        forall|row: int| 0 <= row < n ==> #[trigger] add@[row] == residual(row, col as int),
    ensures
        final(dst)@ == add_block_spec(
            before,
            stride as int,
            n as int,
            col + 1,
            residual,
            max_val,
        ),
{
    let ghost start = dst@;
    let mut row: usize = 0;
    let mut base: usize = 0;
    while row < n
        invariant
            row <= n,
            col < n,
            add@.len() == n,
            max_val >= 0,
            base == row * stride || row == n,
            block_fits(before.len() as int, stride as int, n as int),
            before.len() == dst@.len(),
            start.len() == dst@.len(),
            start == add_block_spec(
                before,
                stride as int,
                n as int,
                col as int,
                residual,
                max_val,
            ),
            forall|row: int| 0 <= row < n ==> #[trigger] add@[row] == residual(row, col as int),
            forall|p: int|
                0 <= p < dst@.len() ==> #[trigger] dst@[p] == (if p / (stride as int) < row && p
                    % (stride as int) == col {
                    add_pixel_spec(before[p], residual(p / (stride as int), col as int), max_val)
                } else {
                    start[p]
                }),
        decreases n - row,
    {
        proof {
            assert(row * stride + col < dst@.len()) by (nonlinear_arith)
                requires
                    row <= n - 1,
                    (n - 1) * stride + n <= dst@.len(),
                    col < n,
                    0 <= stride,
            ;
            lemma_position(row as int, col as int, stride as int);
            assert(base == row * stride);
            assert(dst.len() == dst@.len());
        }
        let at: usize = base + col;
        let p: i32 = dst[at] as i32;
        let ghost prev = dst@;
        dst[at] = clip_pixel(p.wrapping_add(add[row]), max_val);
        proof {
            assert forall|q: int| 0 <= q < dst@.len() implies #[trigger] dst@[q] == (if q / (
            stride as int) < row + 1 && q % (stride as int) == col {
                add_pixel_spec(before[q], residual(q / (stride as int), col as int), max_val)
            } else {
                start[q]
            }) by {
                vstd::arithmetic::div_mod::lemma_fundamental_div_mod(q, stride as int);
                if q != at {
                    assert(dst@[q] == prev[q]);
                    if q / (stride as int) == row && q % (stride as int) == col {
                        assert((stride as int) * (q / (stride as int)) == row * stride)
                            by (nonlinear_arith)
                            requires
                                q / (stride as int) == row,
                        ;
                    }
                } else {
                    assert(prev[q] == start[q]);
                    assert(start[q] == before[q]);
                }
            }
        }
        row += 1;
        if row < n {
            proof {
                assert(row * stride + n <= dst@.len() && row * stride == (row - 1) * stride
                    + stride) by (nonlinear_arith)
                    requires
                        1 <= row <= n - 1,
                        (n - 1) * stride + n <= dst@.len(),
                        0 <= stride,
                ;
            }
            base = base + stride;
        }
    }
    assert(dst@ =~= add_block_spec(
        before,
        stride as int,
        n as int,
        col + 1,
        residual,
        max_val,
    )) by {
        assert forall|q: int| 0 <= q < dst@.len() implies #[trigger] (q / (stride as int)) >= 0 by {
            vstd::arithmetic::div_mod::lemma_div_pos_is_pos(q, stride as int);
        }
    }
}

/// Adds the inverse transform of a block of `n` by `n` coefficients to the block
/// at the start of `dst`.
fn itxfm_add_nxn(
    dst: &mut [u8],
    stride: usize,
    coefs: &[i32],
    n: usize,
    tx_type: TxType,
    max_val: i32,
    eob: usize,
    bits: u32,
)
    requires
        n == 4 || n == 8 || n == 16 || (n == 32 && tx_type == TxType::DctDct),
        coefs@.len() >= n * n,
        max_val >= 0,
        bits < 32,
        block_fits(old(dst)@.len() as int, stride as int, n as int),
    ensures
        final(dst)@ == add_block_spec(
            old(dst)@,
            stride as int,
            n as int,
            n as int,
            |row: int, col: int|
                residual_spec(coefs@, n as int, tx_type, eob as int, bits, row, col),
            max_val,
        ),
{
    let ghost before = dst@;
    let ghost residual = |row: int, col: int|
        residual_spec(coefs@, n as int, tx_type, eob as int, bits, row, col);
    proof {
        assert(before =~= add_block_spec(
            before,
            stride as int,
            n as int,
            0,
            residual,
            max_val,
        )) by {
            assert forall|q: int| 0 <= q < before.len() implies #[trigger] (q % (stride as int))
                >= 0 by {
                vstd::arithmetic::div_mod::lemma_mod_bound(q, stride as int);
            }
        }
        assert(n * n >= 1) by (nonlinear_arith)
            requires
                n >= 4,
        ;
    }
    if eob == 1 && matches!(tx_type, TxType::DctDct) {
        let t: i32 = round14(coefs[0].wrapping_mul(11585));
        let t: i32 = round14(t.wrapping_mul(11585));
        let v: i32 = round_shift(t, bits);
        let add: Vec<i32> = vec![v; n];
        let mut col: usize = 0;
        while col < n
            invariant
                col <= n,
                n >= 4,
                add@.len() == n,
                max_val >= 0,
                before.len() == dst@.len(),
                block_fits(before.len() as int, stride as int, n as int),
                dst@ == add_block_spec(
                    before,
                    stride as int,
                    n as int,
                    col as int,
                    residual,
                    max_val,
                ),
                forall|row: int, c: int|
                    0 <= row < n ==> #[trigger] add@[row] == #[trigger] residual(row, c),
            decreases n - col,
        {
            add_column(dst, stride, n, col, add.as_slice(), max_val, Ghost(residual), Ghost(before));
            col += 1;
        }
        return ;
    }
    let mut tmp: Vec<i32> = Vec::new();
    let mut col: usize = 0;
    while col < n
        invariant
            col <= n,
            n == 4 || n == 8 || n == 16 || (n == 32 && tx_type == TxType::DctDct),
            coefs@.len() >= n * n,
            tmp@.len() == col * n,
            forall|c: int, k: int|
                0 <= c < col && 0 <= k < n ==> #[trigger] tmp@[c * n + k] == pass1_spec(
                    coefs@,
                    n as int,
                    tx_type,
                    c,
                )[k],
        decreases n - col,
    {
        let mut col_in: Vec<i32> = Vec::new();
        let mut row: usize = 0;
        while row < n
            invariant
                row <= n,
                col < n,
                n <= 32,
                coefs@.len() >= n * n,
                col_in@.len() == row,
                forall|k: int|
                    0 <= k < row ==> #[trigger] col_in@[k] == column(
                        coefs@,
                        n as int,
                        col as int,
                    )[k],
            decreases n - row,
        {
            proof {
                lemma_cell(row as int, col as int, n as int);
            }
            col_in.push(coefs[row * n + col]);
            row += 1;
        }
        let mut col_out: Vec<i32> = vec![0i32; n];
        assert(col_in@ =~= column(coefs@, n as int, col as int));
        apply_col_txfm(n, tx_type, col_in.as_slice(), col_out.as_mut_slice());
        let ghost start = tmp@;
        let ghost one = pass1_spec(coefs@, n as int, tx_type, col as int);
        let mut k: usize = 0;
        while k < n
            invariant
                k <= n,
                col_out@.len() == n,
                one.len() == n,
                one == col_out@.map_values(|v: i32| low16(v)),
                tmp@ == start + one.subrange(0, k as int),
            decreases n - k,
        {
            let v: i32 = col_out[k];
            tmp.push(v as i16 as i32);
            assert(tmp@ =~= start + one.subrange(0, k + 1));
            k += 1;
        }
        proof {
            assert((col + 1) * n == col * n + n) by (nonlinear_arith);
            assert forall|c: int, k: int| 0 <= c < col + 1 && 0 <= k < n implies
                #[trigger] tmp@[c * n + k] == pass1_spec(coefs@, n as int, tx_type, c)[k] by {
                if c < col {
                    assert(0 <= c * n + k < col * n) by (nonlinear_arith)
                        requires
                            0 <= c <= col - 1,
                            0 <= k < n,
                    ;
                    assert(tmp@[c * n + k] == start[c * n + k]);
                } else {
                    assert(c * n + k == col * n + k);
                    assert(tmp@[col * n + k] == one[k]);
                }
            }
        }
        col += 1;
    }
    let mut col: usize = 0;
    while col < n
        invariant
            col <= n,
            n == 4 || n == 8 || n == 16 || (n == 32 && tx_type == TxType::DctDct),
            coefs@.len() >= n * n,
            bits < 32,
            max_val >= 0,
            !(eob == 1 && tx_type == TxType::DctDct),
            tmp@.len() == n * n,
            forall|c: int, k: int|
                0 <= c < n && 0 <= k < n ==> #[trigger] tmp@[c * n + k] == pass1_spec(
                    coefs@,
                    n as int,
                    tx_type,
                    c,
                )[k],
            before.len() == dst@.len(),
            block_fits(before.len() as int, stride as int, n as int),
            residual == |row: int, col: int|
                residual_spec(coefs@, n as int, tx_type, eob as int, bits, row, col),
            dst@ == add_block_spec(
                before,
                stride as int,
                n as int,
                col as int,
                residual,
                max_val,
            ),
        decreases n - col,
    {
        let ghost line = Seq::new(
            n as nat,
            |k: int| pass1_spec(coefs@, n as int, tx_type, k)[col as int],
        );
        let mut col_in: Vec<i32> = Vec::new();
        let mut row: usize = 0;
        while row < n
            invariant
                row <= n,
                col < n,
                n <= 32,
                tmp@.len() == n * n,
                line.len() == n,
                forall|k: int| 0 <= k < n ==> #[trigger] line[k] == tmp@[k * n + col],
                col_in@ == line.subrange(0, row as int),
            decreases n - row,
        {
            proof {
                lemma_cell(row as int, col as int, n as int);
            }
            col_in.push(tmp[row * n + col]);
            row += 1;
            assert(col_in@ =~= line.subrange(0, row as int));
        }
        assert(col_in@ =~= line);
        let mut col_out: Vec<i32> = vec![0i32; n];
        apply_row_txfm(n, tx_type, col_in.as_slice(), col_out.as_mut_slice());
        let mut add: Vec<i32> = Vec::new();
        let mut row: usize = 0;
        while row < n
            invariant
                row <= n,
                bits < 32,
                col_out@.len() == n,
                add@.len() == row,
                forall|k: int|
                    0 <= k < row ==> #[trigger] add@[k] == round_shift_spec(
                        low16(col_out@[k]),
                        bits,
                    ),
            decreases n - row,
        {
            let v: i32 = col_out[row];
            add.push(round_shift(v as i16 as i32, bits));
            row += 1;
        }
        proof {
            assert(col_out@ == pass2_spec(coefs@, n as int, tx_type, col as int));
        }
        add_column(dst, stride, n, col, add.as_slice(), max_val, Ghost(residual), Ghost(before));
        col += 1;
    }
}

/// A cell of an `n` by `n` matrix lies in it.
proof fn lemma_cell(row: int, col: int, n: int)
    requires
        0 <= row < n,
        0 <= col < n,
        n <= 64,
    ensures
        0 <= row * n,
        row * n + col < n * n,
        n * n <= 4096,
{
    assert(0 <= row * n && row * n + col < n * n && n * n <= 4096) by (nonlinear_arith)
        requires
            0 <= row < n,
            0 <= col < n,
            n <= 64,
    ;
}

/// Side of a transform block.
pub open spec fn tx_side_spec(tx_size: TxSize) -> int {
    match tx_size {
        TxSize::Tx4x4 => 4,
        TxSize::Tx8x8 => 8,
        TxSize::Tx16x16 => 16,
        TxSize::Tx32x32 => 32,
    }
}

/// Final rounding shift of a transform size.
pub open spec fn tx_bits_spec(tx_size: TxSize) -> u32 {
    match tx_size {
        TxSize::Tx4x4 => 4,
        TxSize::Tx8x8 => 5,
        TxSize::Tx16x16 => 6,
        TxSize::Tx32x32 => 6,
    }
}

/// The transform type that a block uses: the largest size has the DCT only.
pub open spec fn tx_type_spec(tx_size: TxSize, tx_type: TxType) -> TxType {
    if tx_size == TxSize::Tx32x32 {
        TxType::DctDct
    } else {
        tx_type
    }
}

/// The plane `dst` after the inverse transform of `coefs` was added to the block
/// at its start. `eob` is the number of coefficients up to the last one that is
/// not zero; a block without any is left as it is.
pub open spec fn itxfm_add_spec(
    dst: Seq<u8>,
    stride: int,
    coefs: Seq<i32>,
    tx_size: TxSize,
    tx_type: TxType,
    bit_depth: u8,
    eob: int,
) -> Seq<u8> {
    if eob == 0 {
        dst
    } else {
        let n = tx_side_spec(tx_size);
        add_block_spec(
            dst,
            stride,
            n,
            n,
            |row: int, col: int|
                residual_spec(
                    coefs,
                    n,
                    tx_type_spec(tx_size, tx_type),
                    eob,
                    tx_bits_spec(tx_size),
                    row,
                    col,
                ),
            max_pixel_spec(bit_depth),
        )
    }
}

/// Applies the inverse two-dimensional transform and adds it to the prediction.
///
/// `dst` starts at the block; its rows are `stride` bytes apart. `coefs` holds the
/// coefficients in row-major order. `eob` is the position behind the last
/// coefficient that is not zero.
pub fn itxfm_add(
    dst: &mut [u8],
    stride: usize,
    coefs: &[i32],
    tx_size: TxSize,
    tx_type: TxType,
    bit_depth: u8,
    eob: usize,
)
    requires
        eob > 0 ==> bit_depth <= 30,
        eob > 0 ==> coefs@.len() >= tx_side_spec(tx_size) * tx_side_spec(tx_size),
        eob > 0 ==> block_fits(old(dst)@.len() as int, stride as int, tx_side_spec(tx_size)),
    ensures
        final(dst)@ == itxfm_add_spec(
            old(dst)@,
            stride as int,
            coefs@,
            tx_size,
            tx_type,
            bit_depth,
            eob as int,
        ),
{
    if eob == 0 {
        return ;
    }
    let max_val: i32 = max_pixel(bit_depth);
    match tx_size {
        TxSize::Tx4x4 => itxfm_add_nxn(dst, stride, coefs, 4, tx_type, max_val, eob, 4),
        TxSize::Tx8x8 => itxfm_add_nxn(dst, stride, coefs, 8, tx_type, max_val, eob, 5),
        TxSize::Tx16x16 => itxfm_add_nxn(dst, stride, coefs, 16, tx_type, max_val, eob, 6),
        TxSize::Tx32x32 => itxfm_add_nxn(dst, stride, coefs, 32, TxType::DctDct, max_val, eob, 6),
    }
}

/// What the pixel at `row` and `col` of a lossless block gains.
pub open spec fn lossless_residual_spec(coefs: Seq<i32>, row: int, col: int) -> i32 {
    iwht4_spec(Seq::new(4, |k: int| iwht4_spec(column(coefs, 4, k), 0)[col]), 1)[row]
}

/// Applies the inverse Walsh-Hadamard transform of a lossless 4x4 block and adds
/// it to the prediction.
pub fn itxfm_add_lossless(dst: &mut [u8], stride: usize, coefs: &[i32], bit_depth: u8)
    requires
        bit_depth <= 30,
        coefs@.len() >= 16,
        block_fits(old(dst)@.len() as int, stride as int, 4),
    ensures
        final(dst)@ == add_block_spec(
            old(dst)@,
            stride as int,
            4,
            4,
            |row: int, col: int| lossless_residual_spec(coefs@, row, col),
            max_pixel_spec(bit_depth),
        ),
{
    let ghost before = dst@;
    let ghost residual = |row: int, col: int| lossless_residual_spec(coefs@, row, col);
    let max_val: i32 = max_pixel(bit_depth);
    proof {
        reveal(iwht4_spec);
        assert(before =~= add_block_spec(before, stride as int, 4, 0, residual, max_val)) by {
            assert forall|q: int| 0 <= q < before.len() implies #[trigger] (q % (stride as int))
                >= 0 by {
                vstd::arithmetic::div_mod::lemma_mod_bound(q, stride as int);
            }
        }
    }
    let mut tmp: [i32; 16] = [0i32; 16];
    let mut col: usize = 0;
    while col < 4
        invariant
            col <= 4,
            coefs@.len() >= 16,
            forall|c: int, k: int|
                0 <= c < col && 0 <= k < 4 ==> #[trigger] tmp@[4 * c + k] == iwht4_spec(
                    column(coefs@, 4, c),
                    0,
                )[k],
        decreases 4 - col,
    {
        let inp: [i32; 4] = [coefs[col], coefs[col + 4], coefs[col + 8], coefs[col + 12]];
        assert(inp@ =~= column(coefs@, 4, col as int));
        let mut out: [i32; 4] = [0i32; 4];
        iwht4_1d(&inp, &mut out, 0);
        tmp[4 * col] = out[0];
        tmp[4 * col + 1] = out[1];
        tmp[4 * col + 2] = out[2];
        tmp[4 * col + 3] = out[3];
        col += 1;
    }
    let mut col: usize = 0;
    while col < 4
        invariant
            col <= 4,
            max_val >= 0,
            forall|c: int, k: int|
                0 <= c < 4 && 0 <= k < 4 ==> #[trigger] tmp@[4 * c + k] == iwht4_spec(
                    column(coefs@, 4, c),
                    0,
                )[k],
            before.len() == dst@.len(),
            block_fits(before.len() as int, stride as int, 4),
            residual == |row: int, col: int| lossless_residual_spec(coefs@, row, col),
            dst@ == add_block_spec(before, stride as int, 4, col as int, residual, max_val),
        decreases 4 - col,
    {
        let inp: [i32; 4] = [tmp[col], tmp[col + 4], tmp[col + 8], tmp[col + 12]];
        proof {
            assert(inp@[0] == tmp@[4 * 0 + col]);
            assert(inp@[1] == tmp@[4 * 1 + col]);
            assert(inp@[2] == tmp@[4 * 2 + col]);
            assert(inp@[3] == tmp@[4 * 3 + col]);
            assert(inp@ =~= Seq::new(
                4,
                |k: int| iwht4_spec(column(coefs@, 4, k), 0)[col as int],
            ));
        }
        let mut out: [i32; 4] = [0i32; 4];
        iwht4_1d(&inp, &mut out, 1);
        add_column(dst, stride, 4, col, &out, max_val, Ghost(residual), Ghost(before));
        col += 1;
    }
}

/// A block whose coefficients are all zero adds nothing.
pub proof fn law_empty_block_adds_nothing(
    dst: Seq<u8>,
    stride: int,
    coefs: Seq<i32>,
    tx_size: TxSize,
    tx_type: TxType,
    bit_depth: u8,
)
    ensures
        itxfm_add_spec(dst, stride, coefs, tx_size, tx_type, bit_depth, 0) == dst,
{
}

/// With only the first coefficient set, every pixel of a DCT block gains the same.
pub proof fn law_dc_only_is_uniform(
    coefs: Seq<i32>,
    n: int,
    bits: u32,
    row1: int,
    col1: int,
    row2: int,
    col2: int,
)
    ensures
        residual_spec(coefs, n, TxType::DctDct, 1, bits, row1, col1) == residual_spec(
            coefs,
            n,
            TxType::DctDct,
            1,
            bits,
            row2,
            col2,
        ),
{
}

/// Adding a transform leaves every pixel outside the block as it was.
pub proof fn law_itxfm_add_stays_in_block(
    dst: Seq<u8>,
    stride: int,
    coefs: Seq<i32>,
    tx_size: TxSize,
    tx_type: TxType,
    bit_depth: u8,
    eob: int,
    p: int,
)
    requires
        0 <= p < dst.len(),
        !in_block(p, stride, tx_side_spec(tx_size), tx_side_spec(tx_size)),
    ensures
        itxfm_add_spec(dst, stride, coefs, tx_size, tx_type, bit_depth, eob).len() == dst.len(),
        itxfm_add_spec(dst, stride, coefs, tx_size, tx_type, bit_depth, eob)[p] == dst[p],
{
}

/// Sums of products of zeros, and their rounding, are zero.
proof fn lemma_zeros()
    ensures
        forall|ca: i32, cb: i32| #[trigger] dot_add_spec(0, ca, 0, cb) == 0,
        forall|ca: i32, cb: i32| #[trigger] dot_sub_spec(0, ca, 0, cb) == 0,
        neg_spec(0) == 0,
        round14_spec(0) == 0,
        half_sum_spec(0, 0) == 0,
        half_diff_spec(0, 0) == 0,
{
    reveal(dot_add_spec);
    reveal(dot_sub_spec);
    reveal(neg_spec);
    reveal(round14_spec);
    reveal(half_sum_spec);
    reveal(half_diff_spec);
    assert(8192i32 >> 14 == 0) by (bit_vector);
}

/// Whether all values of a sequence but the first are zero.
spec fn is_lone(x: Seq<i32>) -> bool {
    forall|i: int| 1 <= i < x.len() ==> #[trigger] x[i] == 0
}

/// Whether all values of a sequence are the same.
spec fn is_uniform(x: Seq<i32>, n: int, v: i32) -> bool {
    x.len() == n && forall|i: int| 0 <= i < n ==> #[trigger] x[i] == v
}

/// The DCT of a lone first value gives the same value everywhere.
proof fn lemma_lone_dct(n: int, x: Seq<i32>)
    requires
        n == 4 || n == 8 || n == 16 || n == 32,
        x.len() == n,
        is_lone(x),
    ensures
        is_uniform(txfm_1d_spec(n, false, x), n, half_sum_spec(x[0], 0)),
    decreases n,
{
    lemma_zeros();
    if n == 4 {
        reveal(idct4_spec);
        reveal(half_sum_spec);
        reveal(half_diff_spec);
    } else {
        let e = evens(x);
        let o = odds(x);
        assert(is_lone(e));
        lemma_lone_dct(n / 2, e);
        assert(is_uniform(o, n / 2, 0));
        lemma_odd_of_zeros(n, o);
    }
}

/// The odd half of a DCT of zeros is zero.
proof fn lemma_odd_of_zeros(n: int, o: Seq<i32>)
    requires
        n == 8 || n == 16 || n == 32,
        is_uniform(o, n / 2, 0),
    ensures
        n == 8 ==> is_uniform(idct8_odd_spec(o), 4, 0),
        n == 16 ==> is_uniform(idct16_odd_spec(o), 8, 0),
        n == 32 ==> is_uniform(idct32_odd_spec(o), 16, 0),
{
    lemma_zeros();
    if n == 8 {
        reveal(idct8_odd_spec);
    } else if n == 16 {
        reveal(idct16_odd_spec);
    } else {
        reveal(idct32_odd_spec);
    }
}

/// A step of the DCT of a lone value stays in 16 bits.
proof fn lemma_lone_step(v: i32)
    requires
        -32768 <= v <= 32767,
    ensures
        half_sum_spec(v, 0) == round14_spec(v.wrapping_mul(11585)),
        -32768 <= half_sum_spec(v, 0) <= 32767,
{
    reveal(half_sum_spec);
    reveal(round14_spec);
    let x: i32 = (v * 11585 + 8192) as i32;
    assert(-32768 <= x >> 14 && x >> 14 <= 32767) by (bit_vector)
        requires
            -400000000 <= x <= 400000000,
    ;
}

/// With only the first coefficient set, the full transform of a DCT block gives what its shortcut
/// gives, and nothing is added where no coefficient counts. No pixel outside the block changes.
pub proof fn law_dc_shortcut_is_exact(
    dst: Seq<u8>,
    stride: int,
    coefs: Seq<i32>,
    tx_size: TxSize,
    bit_depth: u8,
    eob: int,
)
    requires
        eob >= 0,
        coefs.len() >= tx_side_spec(tx_size) * tx_side_spec(tx_size),
        -32768 < coefs[0] < 32768,
        forall|i: int|
            1 <= i < tx_side_spec(tx_size) * tx_side_spec(tx_size) ==> #[trigger] coefs[i] == 0,
        block_fits(dst.len() as int, stride, tx_side_spec(tx_size)),
    ensures
        ({
            let d = itxfm_add_spec(dst, stride, coefs, tx_size, TxType::DctDct, bit_depth, eob);
            let n = tx_side_spec(tx_size);
            &&& eob == 0 ==> d == dst
            &&& eob >= 1 ==> d == itxfm_add_spec(
                dst,
                stride,
                coefs,
                tx_size,
                TxType::DctDct,
                bit_depth,
                1,
            )
            &&& d.len() == dst.len()
            &&& forall|p: int|
                0 <= p < dst.len() && !in_block(p, stride, n, n) ==> #[trigger] d[p] == dst[p]
        }),
{
    let n = tx_side_spec(tx_size);
    let bits = tx_bits_spec(tx_size);
    let t = TxType::DctDct;
    let dc = coefs[0];
    let h = half_sum_spec(dc, 0);
    lemma_zeros();
    lemma_lone_step(dc);
    lemma_lone_step(h);
    assert forall|col: int, row: int| 0 <= col < n && 0 <= row < n implies #[trigger] pass1_spec(
        coefs,
        n,
        t,
        col,
    )[row] == (if col == 0 {
        h
    } else {
        0
    }) by {
        let x = column(coefs, n, col);
        assert forall|i: int| 0 <= i < n implies #[trigger] x[i] == (if i == 0 && col == 0 {
            dc
        } else {
            0
        }) by {
            assert(0 <= i * n + col < n * n && (i > 0 ==> i * n + col >= 1)) by (nonlinear_arith)
                requires
                    0 <= i < n,
                    0 <= col < n,
            ;
        }
        assert(is_lone(x));
        lemma_lone_dct(n, x);
    }
    assert forall|row: int, col: int|
        0 <= row < n && 0 <= col < n implies #[trigger] residual_spec(
        coefs,
        n,
        t,
        eob,
        bits,
        row,
        col,
    ) == dc_residual_spec(dc, bits) by {
        let y = Seq::new(n as nat, |k: int| pass1_spec(coefs, n, t, k)[col]);
        assert forall|k: int| 0 <= k < n implies #[trigger] y[k] == (if k == 0 {
            h
        } else {
            0
        }) by {
            assert(pass1_spec(coefs, n, t, k)[col] == (if k == 0 {
                h
            } else {
                0
            }));
        }
        assert(is_lone(y));
        lemma_lone_dct(n, y);
    }
    let a = itxfm_add_spec(dst, stride, coefs, tx_size, t, bit_depth, eob);
    let b = itxfm_add_spec(dst, stride, coefs, tx_size, t, bit_depth, 1);
    assert forall|p: int| 0 <= p < dst.len() && eob >= 1 implies #[trigger] a[p] == b[p] by {
        if in_block(p, stride, n, n) {
            assert(0 <= p % stride) by {
                vstd::arithmetic::div_mod::lemma_mod_bound(p, stride);
            }
            assert(residual_spec(coefs, n, t, eob, bits, p / stride, p % stride) == dc_residual_spec(
                dc,
                bits,
            ));
        }
    }
    if eob >= 1 {
        assert(a =~= b);
    }
}

/// Whether all values at odd positions are zero.
pub open spec fn only_evens(x: Seq<i32>) -> bool {
    forall|k: int| 0 <= k < x.len() && k % 2 == 1 ==> #[trigger] x[k] == 0
}

/// Whether all values at even positions are zero.
pub open spec fn only_odds(x: Seq<i32>) -> bool {
    forall|k: int| 0 <= k < x.len() && k % 2 == 0 ==> #[trigger] x[k] == 0
}

/// Whether the second half of `n` values mirrors the first, which is `e`.
pub open spec fn mirrors(x: Seq<i32>, e: Seq<i32>, n: int) -> bool {
    &&& x.len() == n
    &&& forall|k: int| 0 <= k < n / 2 ==> #[trigger] x[k] == e[k] && x[n - 1 - k] == e[k]
}

/// Whether the second half of `n` values mirrors the first with the opposite sign.
pub open spec fn mirrors_negated(x: Seq<i32>, n: int) -> bool {
    &&& x.len() == n
    &&& forall|k: int| 0 <= k < n / 2 ==> x[n - 1 - k] == 0i32.wrapping_sub(#[trigger] x[k])
}

/// The two halves of a DCT.
proof fn lemma_halves(n: int, x: Seq<i32>)
    requires
        n == 8 || n == 16 || n == 32,
        x.len() == n,
    ensures
        only_evens(x) ==> mirrors(
            txfm_1d_spec(n, false, x),
            txfm_1d_spec(n / 2, false, evens(x)),
            n,
        ),
        only_odds(x) ==> mirrors_negated(txfm_1d_spec(n, false, x), n),
{
    let y = txfm_1d_spec(n, false, x);
    let e = evens(x);
    let o = odds(x);
    lemma_txfm_1d_len(n, false, x);
    lemma_txfm_1d_len(n / 2, false, e);
    if only_evens(x) {
        assert(is_uniform(o, n / 2, 0));
        lemma_odd_of_zeros(n, o);
    }
    if only_odds(x) {
        lemma_zeros();
        assert(is_uniform(e, n / 2, 0));
        assert(is_lone(e));
        lemma_lone_dct(n / 2, e);
        assert(is_uniform(txfm_1d_spec(n / 2, false, e), n / 2, 0));
    }
}

/// The 8-point DCT of coefficients at even positions alone is the 4-point DCT of these, and its mirror
/// image; that of coefficients at odd positions alone is its own mirror image with the opposite sign.
pub proof fn law_idct8_halves(x: Seq<i32>)
    requires
        x.len() == 8,
    ensures
        only_evens(x) ==> mirrors(idct8_spec(x), idct4_spec(evens(x)), 8),
        only_odds(x) ==> mirrors_negated(idct8_spec(x), 8),
{
    lemma_halves(8, x);
}

/// The 16-point DCT of coefficients at even positions alone is the 8-point DCT of these, and its mirror
/// image; that of coefficients at odd positions alone is its own mirror image with the opposite sign.
pub proof fn law_idct16_halves(x: Seq<i32>)
    requires
        x.len() == 16,
    ensures
        only_evens(x) ==> mirrors(idct16_spec(x), idct8_spec(evens(x)), 16),
        only_odds(x) ==> mirrors_negated(idct16_spec(x), 16),
{
    lemma_halves(16, x);
}

/// The 32-point DCT of coefficients at even positions alone is the 16-point DCT of these, and its mirror
/// image; that of coefficients at odd positions alone is its own mirror image with the opposite sign.
pub proof fn law_idct32_halves(x: Seq<i32>)
    requires
        x.len() == 32,
    ensures
        only_evens(x) ==> mirrors(idct32_spec(x), idct16_spec(evens(x)), 32),
        only_odds(x) ==> mirrors_negated(idct32_spec(x), 32),
{
    lemma_halves(32, x);
}

/// Coefficients of the first row alone, where the columns go through the DCT: every row of pixels
/// gains one value throughout.
pub proof fn law_first_row_varies_downwards(
    coefs: Seq<i32>,
    n: int,
    tx_type: TxType,
    eob: int,
    bits: u32,
    row: int,
    col: int,
)
    requires
        n == 4 || n == 8 || n == 16 || n == 32,
        tx_type == TxType::DctDct || tx_type == TxType::AdstDct,
        eob != 1,
        coefs.len() >= n * n,
        forall|i: int| n <= i < n * n ==> #[trigger] coefs[i] == 0,
        0 <= row < n,
        0 <= col < n,
    ensures
        residual_spec(coefs, n, tx_type, eob, bits, row, col) == residual_spec(
            coefs,
            n,
            tx_type,
            eob,
            bits,
            row,
            0,
        ),
{
    assert forall|k: int| 0 <= k < n implies #[trigger] pass1_spec(coefs, n, tx_type, k)[col]
        == pass1_spec(coefs, n, tx_type, k)[0] by {
        let x = column(coefs, n, k);
        assert forall|i: int| 1 <= i < x.len() implies #[trigger] x[i] == 0 by {
            assert(n <= i * n + k < n * n) by (nonlinear_arith)
                requires
                    1 <= i < n,
                    0 <= k < n,
            ;
        }
        lemma_lone_dct(n, x);
    }
    let here = Seq::new(n as nat, |k: int| pass1_spec(coefs, n, tx_type, k)[col]);
    let first = Seq::new(n as nat, |k: int| pass1_spec(coefs, n, tx_type, k)[0]);
    assert(here =~= first);
}

/// Coefficients of the first column alone, where the rows go through the DCT: every column of pixels
/// gains one value throughout.
pub proof fn law_first_column_varies_across(
    coefs: Seq<i32>,
    n: int,
    tx_type: TxType,
    eob: int,
    bits: u32,
    row: int,
    col: int,
)
    requires
        n == 4 || n == 8 || n == 16 || n == 32,
        tx_type == TxType::DctDct || tx_type == TxType::DctAdst,
        eob != 1,
        coefs.len() >= n * n,
        forall|i: int, k: int| 0 <= i < n && 1 <= k < n ==> coefs[#[trigger] (i * n + k)] == 0,
        0 <= row < n,
        0 <= col < n,
    ensures
        residual_spec(coefs, n, tx_type, eob, bits, row, col) == residual_spec(
            coefs,
            n,
            tx_type,
            eob,
            bits,
            0,
            col,
        ),
{
    let here = Seq::new(n as nat, |k: int| pass1_spec(coefs, n, tx_type, k)[col]);
    assert forall|k: int| 1 <= k < here.len() implies #[trigger] here[k] == 0 by {
        let x = column(coefs, n, k);
        assert(is_uniform(x, n, 0)) by {
            assert forall|i: int| 0 <= i < n implies #[trigger] x[i] == 0 by {
                assert(coefs[i * n + k] == 0);
            }
        }
        lemma_zero_transform(n, col_adst_spec(tx_type), x);
    }
    lemma_lone_dct(n, here);
}

/// Zeros alone stay zeros.
proof fn lemma_zero_transform(n: int, adst: bool, x: Seq<i32>)
    requires
        n == 4 || n == 8 || n == 16 || n == 32,
        is_uniform(x, n, 0),
    ensures
        is_uniform(txfm_1d_spec(n, adst, x), n, 0),
        low16(0) == 0,
{
    lemma_zeros();
    assert(0i32 as i16 as i32 == 0i32) by (bit_vector);
    if !adst || n == 32 {
        lemma_lone_dct(n, x);
    } else if n == 4 {
        reveal(iadst4_spec);
        assert(is_uniform(iadst4_spec(x), 4, 0));
    } else if n == 8 {
        reveal(iadst8_spec);
        assert(is_uniform(iadst8_spec(x), 8, 0));
    } else {
        reveal(iadst16_spec);
        assert(half_neg_sum_spec(0, 0) == 0) by {
            reveal(half_neg_sum_spec);
            reveal(round14_spec);
        }
        assert(is_uniform(iadst16_spec(x), 16, 0));
    }
}

/// The Walsh-Hadamard transform loses nothing: what went in can be had from what came out.
pub proof fn law_walsh_hadamard_can_be_undone(x: Seq<i32>)
    requires
        x.len() == 4,
        forall|i: int| 0 <= i < 4 ==> -0x1000_0000 <= #[trigger] x[i] <= 0x1000_0000,
    ensures
        ({
            let y = iwht4_spec(x, 1);
            let sum = y[0] + y[1];
            let difference = y[3] - y[2];
            let half = (sum - difference) / 2;
            &&& x[3] == half - y[1]
            &&& x[1] == half - y[2]
            &&& x[0] == sum - x[1]
            &&& x[2] == difference + x[3]
        }),
{
    reveal(iwht4_spec);
    let a = x[0].wrapping_add(x[1]);
    let d = x[2].wrapping_sub(x[3]);
    let v = a.wrapping_sub(d);
    assert(v >> 1 == v / 2i32) by (bit_vector);
}

/// The first pass of a lossless block takes coefficients in quarters.
pub proof fn law_lossless_coefficients_are_in_quarters(x: Seq<i32>, y: Seq<i32>)
    requires
        x.len() == 4,
        y.len() == 4,
        forall|i: int| 0 <= i < 4 ==> #[trigger] x[i] == 4 * y[i],
    ensures
        iwht4_spec(x, 0) == iwht4_spec(y, 1),
{
    reveal(iwht4_spec);
    lemma_quarter(x[0], y[0]);
    lemma_quarter(x[1], y[1]);
    lemma_quarter(x[2], y[2]);
    lemma_quarter(x[3], y[3]);
}

proof fn lemma_quarter(x: i32, y: i32)
    requires
        x == 4 * y,
    ensures
        x >> 2 == y,
{
    assert(x >> 2 == x / 4i32) by (bit_vector);
}

} // verus!

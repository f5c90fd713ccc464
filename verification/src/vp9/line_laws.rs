//! The longest transforms, of coefficients that lie on a line.
use vstd::prelude::*;

use crate::vp9::idct::{
    dot_add_spec, dot_sub_spec, evens, half_diff_spec, half_neg_sum_spec, half_sum_spec,
    iadst16_spec, idct16_spec, idct32_odd_spec, idct32_spec, idct4_spec, idct8_spec, neg_spec, odds,
    round14_spec,
};
use crate::vp9::idct_laws::{
    lemma_add, lemma_dot_add, lemma_dot_sub, lemma_exact, lemma_half_diff, lemma_half_neg_sum,
    lemma_half_sum, lemma_neg, lemma_round, lemma_sub, lemma_wider, minus, near, plus,
};

verus! {

/// Whether `n` coefficients lie on a line: the first is `u + w`, and each is `w` more than the one before
/// it.
pub open spec fn on_a_line(x: Seq<i32>, n: int, u: int, w: int) -> bool {
    &&& x.len() == n
    &&& -480 <= u <= 480
    &&& -480 <= w <= 480
    &&& forall|k: int| 0 <= k < n ==> #[trigger] x[k] == u + (k + 1) * w
}

/// The same transform, with its sums and differences by name.
#[verifier::opaque]
spec fn idct32_odd_spec_ops(x: Seq<i32>) -> Seq<i32> {
    let t16a = round14_spec(dot_sub_spec(x[0], 804, x[15], 16364));
    let t31a = round14_spec(dot_add_spec(x[0], 16364, x[15], 804));
    let t17a = round14_spec(dot_sub_spec(x[8], 12140, x[7], 11003));
    let t30a = round14_spec(dot_add_spec(x[8], 11003, x[7], 12140));
    let t18a = round14_spec(dot_sub_spec(x[4], 7005, x[11], 14811));
    let t29a = round14_spec(dot_add_spec(x[4], 14811, x[11], 7005));
    let t19a = round14_spec(dot_sub_spec(x[12], 15426, x[3], 5520));
    let t28a = round14_spec(dot_add_spec(x[12], 5520, x[3], 15426));
    let t20a = round14_spec(dot_sub_spec(x[2], 3981, x[13], 15893));
    let t27a = round14_spec(dot_add_spec(x[2], 15893, x[13], 3981));
    let t21a = round14_spec(dot_sub_spec(x[10], 14053, x[5], 8423));
    let t26a = round14_spec(dot_add_spec(x[10], 8423, x[5], 14053));
    let t22a = round14_spec(dot_sub_spec(x[6], 9760, x[9], 13160));
    let t25a = round14_spec(dot_add_spec(x[6], 13160, x[9], 9760));
    let t23a = round14_spec(dot_sub_spec(x[14], 16207, x[1], 2404));
    let t24a = round14_spec(dot_add_spec(x[14], 2404, x[1], 16207));
    let t16 = plus(t16a, t17a);
    let t17 = minus(t16a, t17a);
    let t18 = minus(t19a, t18a);
    let t19 = plus(t19a, t18a);
    let t20 = plus(t20a, t21a);
    let t21 = minus(t20a, t21a);
    let t22 = minus(t23a, t22a);
    let t23 = plus(t23a, t22a);
    let t24 = plus(t24a, t25a);
    let t25 = minus(t24a, t25a);
    let t26 = minus(t27a, t26a);
    let t27 = plus(t27a, t26a);
    let t28 = plus(t28a, t29a);
    let t29 = minus(t28a, t29a);
    let t30 = minus(t31a, t30a);
    let t31 = plus(t31a, t30a);
    let t17a = round14_spec(dot_sub_spec(t30, 3196, t17, 16069));
    let t30a = round14_spec(dot_add_spec(t30, 16069, t17, 3196));
    let t18a = round14_spec(neg_spec(dot_add_spec(t29, 16069, t18, 3196)));
    let t29a = round14_spec(dot_sub_spec(t29, 3196, t18, 16069));
    let t21a = round14_spec(dot_sub_spec(t26, 13623, t21, 9102));
    let t26a = round14_spec(dot_add_spec(t26, 9102, t21, 13623));
    let t22a = round14_spec(neg_spec(dot_add_spec(t25, 9102, t22, 13623)));
    let t25a = round14_spec(dot_sub_spec(t25, 13623, t22, 9102));
    let t16a = plus(t16, t19);
    let t17 = plus(t17a, t18a);
    let t18 = minus(t17a, t18a);
    let t19a = minus(t16, t19);
    let t20a = minus(t23, t20);
    let t21 = minus(t22a, t21a);
    let t22 = plus(t22a, t21a);
    let t23a = plus(t23, t20);
    let t24a = plus(t24, t27);
    let t25 = plus(t25a, t26a);
    let t26 = minus(t25a, t26a);
    let t27a = minus(t24, t27);
    let t28a = minus(t31, t28);
    let t29 = minus(t30a, t29a);
    let t30 = plus(t30a, t29a);
    let t31a = plus(t31, t28);
    let t18a = round14_spec(dot_sub_spec(t29, 6270, t18, 15137));
    let t29a = round14_spec(dot_add_spec(t29, 15137, t18, 6270));
    let t19 = round14_spec(dot_sub_spec(t28a, 6270, t19a, 15137));
    let t28 = round14_spec(dot_add_spec(t28a, 15137, t19a, 6270));
    let t20 = round14_spec(neg_spec(dot_add_spec(t27a, 15137, t20a, 6270)));
    let t27 = round14_spec(dot_sub_spec(t27a, 6270, t20a, 15137));
    let t21a = round14_spec(neg_spec(dot_add_spec(t26, 15137, t21, 6270)));
    let t26a = round14_spec(dot_sub_spec(t26, 6270, t21, 15137));
    let t16 = plus(t16a, t23a);
    let t17a = plus(t17, t22);
    let t18 = plus(t18a, t21a);
    let t19a = plus(t19, t20);
    let t20a = minus(t19, t20);
    let t21 = minus(t18a, t21a);
    let t22a = minus(t17, t22);
    let t23 = minus(t16a, t23a);
    let t24 = minus(t31a, t24a);
    let t25a = minus(t30, t25);
    let t26 = minus(t29a, t26a);
    let t27a = minus(t28, t27);
    let t28a = plus(t28, t27);
    let t29 = plus(t29a, t26a);
    let t30a = plus(t30, t25);
    let t31 = plus(t31a, t24a);
    let t20 = half_diff_spec(t27a, t20a);
    let t27 = half_sum_spec(t27a, t20a);
    let t21a = half_diff_spec(t26, t21);
    let t26a = half_sum_spec(t26, t21);
    let t22 = half_diff_spec(t25a, t22a);
    let t25 = half_sum_spec(t25a, t22a);
    let t23a = half_diff_spec(t24, t23);
    let t24a = half_sum_spec(t24, t23);
    seq![t31, t30a, t29, t28a, t27, t26a, t25, t24a, t23a, t22, t21a, t20, t19a, t18, t17a, t16]
}

#[verifier::spinoff_prover]
proof fn lemma_idct32_odd_spec_ops(x: Seq<i32>)
    ensures
        idct32_odd_spec(x) == idct32_odd_spec_ops(x),
{
    reveal(idct32_odd_spec);
    reveal(idct32_odd_spec_ops);
    reveal(plus);
    reveal(minus);
}

/// The cosines of the odd frequencies at a place, together and each as often as it stands in its row, in
/// units of 2^-14.
pub open spec fn cosine_line_weights(i: int) -> (int, int) {
    if i == 0 {
        (166953, 1055522)
    } else if i == 1 {
        (-55830, -1109388)
    } else if i == 2 {
        (33715, 488994)
    } else if i == 3 {
        (-24317, -435203)
    } else if i == 4 {
        (19160, 295886)
    } else if i == 5 {
        (-15935, -276213)
    } else if i == 6 {
        (13752, 217635)
    } else if i == 7 {
        (-12198, -208004)
    } else if i == 8 {
        (11056, 177415)
    } else if i == 9 {
        (-10199, -172067)
    } else if i == 10 {
        (9551, 154726)
    } else if i == 11 {
        (-9062, -151667)
    } else if i == 12 {
        (8701, 142003)
    } else if i == 13 {
        (-8445, -140402)
    } else if i == 14 {
        (8282, 136033)
    } else {
        (-8202, -135532)
    }
}

/// The odd half of the 32-point transform, on a line.
#[verifier::rlimit(100)]
#[verifier::spinoff_prover]
proof fn lemma_cosine_line(x: Seq<i32>, u: int, w: int)
    requires
        on_a_line(x, 16, u, w),
    ensures
        idct32_odd_spec(x).len() == 16,
        near(idct32_odd_spec(x)[0], 166953 * u + 1055522 * w, 256166),
        near(idct32_odd_spec(x)[1], -55830 * u - 1109388 * w, 256166),
        near(idct32_odd_spec(x)[2], 33715 * u + 488994 * w, 256166),
        near(idct32_odd_spec(x)[3], -24317 * u - 435203 * w, 256166),
        near(idct32_odd_spec(x)[4], 19160 * u + 295886 * w, 256166),
        near(idct32_odd_spec(x)[5], -15935 * u - 276213 * w, 256166),
        near(idct32_odd_spec(x)[6], 13752 * u + 217635 * w, 256166),
        near(idct32_odd_spec(x)[7], -12198 * u - 208004 * w, 256166),
        near(idct32_odd_spec(x)[8], 11056 * u + 177415 * w, 256166),
        near(idct32_odd_spec(x)[9], -10199 * u - 172067 * w, 256166),
        near(idct32_odd_spec(x)[10], 9551 * u + 154726 * w, 256166),
        near(idct32_odd_spec(x)[11], -9062 * u - 151667 * w, 256166),
        near(idct32_odd_spec(x)[12], 8701 * u + 142003 * w, 256166),
        near(idct32_odd_spec(x)[13], -8445 * u - 140402 * w, 256166),
        near(idct32_odd_spec(x)[14], 8282 * u + 136033 * w, 256166),
        near(idct32_odd_spec(x)[15], -8202 * u - 135532 * w, 256166),
{
    reveal(idct32_odd_spec_ops);
    lemma_idct32_odd_spec_ops(x);
    let l_x0 = 16384 * u + 16384 * w;
    lemma_exact(x[0]);
    assert(l_x0 == 16384 * x[0]);
    let l_x1 = 16384 * u + 32768 * w;
    lemma_exact(x[1]);
    assert(l_x1 == 16384 * x[1]);
    let l_x2 = 16384 * u + 49152 * w;
    lemma_exact(x[2]);
    assert(l_x2 == 16384 * x[2]);
    let l_x3 = 16384 * u + 65536 * w;
    lemma_exact(x[3]);
    assert(l_x3 == 16384 * x[3]);
    let l_x4 = 16384 * u + 81920 * w;
    lemma_exact(x[4]);
    assert(l_x4 == 16384 * x[4]);
    let l_x5 = 16384 * u + 98304 * w;
    lemma_exact(x[5]);
    assert(l_x5 == 16384 * x[5]);
    let l_x6 = 16384 * u + 114688 * w;
    lemma_exact(x[6]);
    assert(l_x6 == 16384 * x[6]);
    let l_x7 = 16384 * u + 131072 * w;
    lemma_exact(x[7]);
    assert(l_x7 == 16384 * x[7]);
    let l_x8 = 16384 * u + 147456 * w;
    lemma_exact(x[8]);
    assert(l_x8 == 16384 * x[8]);
    let l_x9 = 16384 * u + 163840 * w;
    lemma_exact(x[9]);
    assert(l_x9 == 16384 * x[9]);
    let l_x10 = 16384 * u + 180224 * w;
    lemma_exact(x[10]);
    assert(l_x10 == 16384 * x[10]);
    let l_x11 = 16384 * u + 196608 * w;
    lemma_exact(x[11]);
    assert(l_x11 == 16384 * x[11]);
    let l_x12 = 16384 * u + 212992 * w;
    lemma_exact(x[12]);
    assert(l_x12 == 16384 * x[12]);
    let l_x13 = 16384 * u + 229376 * w;
    lemma_exact(x[13]);
    assert(l_x13 == 16384 * x[13]);
    let l_x14 = 16384 * u + 245760 * w;
    lemma_exact(x[14]);
    assert(l_x14 == 16384 * x[14]);
    let l_x15 = 16384 * u + 262144 * w;
    lemma_exact(x[15]);
    assert(l_x15 == 16384 * x[15]);
    let v_w_2 = dot_sub_spec(x[0], 804, x[15], 16364);
    let l_w_2 = -254935040 * u - 4276551680 * w;
    lemma_dot_sub(x[0], 804, x[15], 16364, l_x0, l_x15, 0, 0, 15728640, 133693440);
    assert(near(v_w_2, l_w_2, 0));
    let v_t16a_1 = round14_spec(v_w_2);
    let l_t16a_1 = -15560 * u - 261020 * w;
    lemma_round(v_w_2, l_w_2, 0, 2175113625600, l_t16a_1, 8192, 0);
    assert(near(v_t16a_1, l_t16a_1, 8192));
    let v_w_4 = dot_add_spec(x[0], 16364, x[15], 804);
    let l_w_4 = 281280512 * u + 478871552 * w;
    lemma_dot_add(x[0], 16364, x[15], 804, l_x0, l_x15, 0, 0, 15728640, 133693440);
    assert(near(v_w_4, l_w_4, 0));
    let v_t31a_3 = round14_spec(v_w_4);
    let l_t31a_3 = 17168 * u + 29228 * w;
    lemma_round(v_w_4, l_w_4, 0, 364872990720, l_t31a_3, 8192, 0);
    assert(near(v_t31a_3, l_t31a_3, 8192));
    let v_w_6 = dot_sub_spec(x[8], 12140, x[7], 11003);
    let l_w_6 = 18628608 * u + 347930624 * w;
    lemma_dot_sub(x[8], 12140, x[7], 11003, l_x8, l_x7, 0, 0, 78643200, 70778880);
    assert(near(v_w_6, l_w_6, 0));
    let v_t17a_5 = round14_spec(v_w_6);
    let l_t17a_5 = 1137 * u + 21236 * w;
    lemma_round(v_w_6, l_w_6, 0, 175948431360, l_t17a_5, 8192, 0);
    assert(near(v_t17a_5, l_t17a_5, 8192));
    let v_w_8 = dot_add_spec(x[8], 11003, x[7], 12140);
    let l_w_8 = 379174912 * u + 3213672448 * w;
    lemma_dot_add(x[8], 11003, x[7], 12140, l_x8, l_x7, 0, 0, 78643200, 70778880);
    assert(near(v_w_8, l_w_8, 0));
    let v_t30a_7 = round14_spec(v_w_8);
    let l_t30a_7 = 23143 * u + 196147 * w;
    lemma_round(v_w_8, l_w_8, 0, 1724566732800, l_t30a_7, 8192, 0);
    assert(near(v_t30a_7, l_t30a_7, 8192));
    let v_w_10 = dot_sub_spec(x[4], 7005, x[11], 14811);
    let l_w_10 = -127893504 * u - 2338111488 * w;
    lemma_dot_sub(x[4], 7005, x[11], 14811, l_x4, l_x11, 0, 0, 47185920, 102236160);
    assert(near(v_w_10, l_w_10, 0));
    let v_t18a_9 = round14_spec(v_w_10);
    let l_t18a_9 = -7806 * u - 142707 * w;
    lemma_round(v_w_10, l_w_10, 0, 1183682396160, l_t18a_9, 8192, 0);
    assert(near(v_t18a_9, l_t18a_9, 8192));
    let v_w_12 = dot_add_spec(x[4], 14811, x[11], 7005);
    let l_w_12 = 357433344 * u + 2590556160 * w;
    lemma_dot_add(x[4], 14811, x[11], 7005, l_x4, l_x11, 0, 0, 47185920, 102236160);
    assert(near(v_w_12, l_w_12, 0));
    let v_t29a_11 = round14_spec(v_w_12);
    let l_t29a_11 = 21816 * u + 158115 * w;
    lemma_round(v_w_12, l_w_12, 0, 1415034961920, l_t29a_11, 8192, 0);
    assert(near(v_t29a_11, l_t29a_11, 8192));
    let v_w_14 = dot_sub_spec(x[12], 15426, x[3], 5520);
    let l_w_14 = 162299904 * u + 2923855872 * w;
    lemma_dot_sub(x[12], 15426, x[3], 5520, l_x12, l_x3, 0, 0, 110100480, 39321600);
    assert(near(v_w_14, l_w_14, 0));
    let v_t19a_13 = round14_spec(v_w_14);
    let l_t19a_13 = 9906 * u + 178458 * w;
    lemma_round(v_w_14, l_w_14, 0, 1481354772480, l_t19a_13, 8192, 0);
    assert(near(v_t19a_13, l_t19a_13, 8192));
    let v_w_16 = dot_add_spec(x[12], 5520, x[3], 15426);
    let l_w_16 = 343179264 * u + 2186674176 * w;
    lemma_dot_add(x[12], 5520, x[3], 15426, l_x12, l_x3, 0, 0, 110100480, 39321600);
    assert(near(v_w_16, l_w_16, 0));
    let v_t28a_15 = round14_spec(v_w_16);
    let l_t28a_15 = 20946 * u + 133464 * w;
    lemma_round(v_w_16, l_w_16, 0, 1214329651200, l_t28a_15, 8192, 0);
    assert(near(v_t28a_15, l_t28a_15, 8192));
    let v_w_18 = dot_sub_spec(x[2], 3981, x[13], 15893);
    let l_w_18 = -195166208 * u - 3449798656 * w;
    lemma_dot_sub(x[2], 3981, x[13], 15893, l_x2, l_x13, 0, 0, 31457280, 117964800);
    assert(near(v_w_18, l_w_18, 0));
    let v_t20a_17 = round14_spec(v_w_18);
    let l_t20a_17 = -11912 * u - 210559 * w;
    lemma_round(v_w_18, l_w_18, 0, 1749583134720, l_t20a_17, 8192, 0);
    assert(near(v_t20a_17, l_t20a_17, 8192));
    let v_w_20 = dot_add_spec(x[2], 15893, x[13], 3981);
    let l_w_20 = 325615616 * u + 1694318592 * w;
    lemma_dot_add(x[2], 15893, x[13], 3981, l_x2, l_x13, 0, 0, 31457280, 117964800);
    assert(near(v_w_20, l_w_20, 0));
    let v_t27a_19 = round14_spec(v_w_20);
    let l_t27a_19 = 19874 * u + 103413 * w;
    lemma_round(v_w_20, l_w_20, 0, 969568419840, l_t27a_19, 8192, 0);
    assert(near(v_t27a_19, l_t27a_19, 8192));
    let v_w_22 = dot_sub_spec(x[10], 14053, x[5], 8423);
    let l_w_22 = 92241920 * u + 1704673280 * w;
    lemma_dot_sub(x[10], 14053, x[5], 8423, l_x10, l_x5, 0, 0, 94371840, 55050240);
    assert(near(v_w_22, l_w_22, 0));
    let v_t21a_21 = round14_spec(v_w_22);
    let l_t21a_21 = 5630 * u + 104045 * w;
    lemma_round(v_w_22, l_w_22, 0, 862519296000, l_t21a_21, 8192, 0);
    assert(near(v_t21a_21, l_t21a_21, 8192));
    let v_w_24 = dot_add_spec(x[10], 8423, x[5], 14053);
    let l_w_24 = 368246784 * u + 2899492864 * w;
    lemma_dot_add(x[10], 8423, x[5], 14053, l_x10, l_x5, 0, 0, 94371840, 55050240);
    assert(near(v_w_24, l_w_24, 0));
    let v_t26a_23 = round14_spec(v_w_24);
    let l_t26a_23 = 22476 * u + 176971 * w;
    lemma_round(v_w_24, l_w_24, 0, 1568515031040, l_t26a_23, 8192, 0);
    assert(near(v_t26a_23, l_t26a_23, 8192));
    let v_w_26 = dot_sub_spec(x[6], 9760, x[9], 13160);
    let l_w_26 = -55705600 * u - 1036779520 * w;
    lemma_dot_sub(x[6], 9760, x[9], 13160, l_x6, l_x9, 0, 0, 62914560, 86507520);
    assert(near(v_w_26, l_w_26, 0));
    let v_t22a_25 = round14_spec(v_w_26);
    let l_t22a_25 = -3400 * u - 63280 * w;
    lemma_round(v_w_26, l_w_26, 0, 524392857600, l_t22a_25, 8192, 0);
    assert(near(v_t22a_25, l_t22a_25, 8192));
    let v_w_28 = dot_add_spec(x[6], 13160, x[9], 9760);
    let l_w_28 = 375521280 * u + 3108372480 * w;
    lemma_dot_add(x[6], 13160, x[9], 9760, l_x6, l_x9, 0, 0, 62914560, 86507520);
    assert(near(v_w_28, l_w_28, 0));
    let v_t25a_27 = round14_spec(v_w_28);
    let l_t25a_27 = 22920 * u + 189720 * w;
    lemma_round(v_w_28, l_w_28, 0, 1672269004800, l_t25a_27, 8192, 0);
    assert(near(v_t25a_27, l_t25a_27, 8192));
    let v_w_30 = dot_sub_spec(x[14], 16207, x[1], 2404);
    let l_w_30 = 226148352 * u + 3904258048 * w;
    lemma_dot_sub(x[14], 16207, x[1], 2404, l_x14, l_x1, 0, 0, 125829120, 23592960);
    assert(near(v_w_30, l_w_30, 0));
    let v_t23a_29 = round14_spec(v_w_30);
    let l_t23a_29 = 13803 * u + 238297 * w;
    lemma_round(v_w_30, l_w_30, 0, 1982595072000, l_t23a_29, 8192, 0);
    assert(near(v_t23a_29, l_t23a_29, 8192));
    let v_w_32 = dot_add_spec(x[14], 2404, x[1], 16207);
    let l_w_32 = 304922624 * u + 1121878016 * w;
    lemma_dot_add(x[14], 2404, x[1], 16207, l_x14, l_x1, 0, 0, 125829120, 23592960);
    assert(near(v_w_32, l_w_32, 0));
    let v_t24a_31 = round14_spec(v_w_32);
    let l_t24a_31 = 18611 * u + 68474 * w;
    lemma_round(v_w_32, l_w_32, 0, 684864307200, l_t24a_31, 8192, 0);
    assert(near(v_t24a_31, l_t24a_31, 8192));
    let v_t16_33 = plus(v_t16a_1, v_t17a_5);
    let l_t16_33 = -14423 * u - 239784 * w;
    lemma_add(v_t16a_1, v_t17a_5, l_t16a_1, l_t17a_5, 8192, 8192, 132758400, 10739040);
    assert(near(v_t16_33, l_t16_33, 16384));
    let v_t17_34 = minus(v_t16a_1, v_t17a_5);
    let l_t17_34 = -16697 * u - 282256 * w;
    lemma_sub(v_t16a_1, v_t17a_5, l_t16a_1, l_t17a_5, 8192, 8192, 132758400, 10739040);
    assert(near(v_t17_34, l_t17_34, 16384));
    let v_t18_35 = minus(v_t19a_13, v_t18a_9);
    let l_t18_35 = 17712 * u + 321165 * w;
    lemma_sub(v_t19a_13, v_t18a_9, l_t19a_13, l_t18a_9, 8192, 8192, 90414720, 72246240);
    assert(near(v_t18_35, l_t18_35, 16384));
    let v_t19_36 = plus(v_t19a_13, v_t18a_9);
    let l_t19_36 = 2100 * u + 35751 * w;
    lemma_add(v_t19a_13, v_t18a_9, l_t19a_13, l_t18a_9, 8192, 8192, 90414720, 72246240);
    assert(near(v_t19_36, l_t19_36, 16384));
    let v_t20_37 = plus(v_t20a_17, v_t21a_21);
    let l_t20_37 = -6282 * u - 106514 * w;
    lemma_add(v_t20a_17, v_t21a_21, l_t20a_17, l_t21a_21, 8192, 8192, 106786080, 52644000);
    assert(near(v_t20_37, l_t20_37, 16384));
    let v_t21_38 = minus(v_t20a_17, v_t21a_21);
    let l_t21_38 = -17542 * u - 314604 * w;
    lemma_sub(v_t20a_17, v_t21a_21, l_t20a_17, l_t21a_21, 8192, 8192, 106786080, 52644000);
    assert(near(v_t21_38, l_t21_38, 16384));
    let v_t22_39 = minus(v_t23a_29, v_t22a_25);
    let l_t22_39 = 17203 * u + 301577 * w;
    lemma_sub(v_t23a_29, v_t22a_25, l_t23a_29, l_t22a_25, 8192, 8192, 121008000, 32006400);
    assert(near(v_t22_39, l_t22_39, 16384));
    let v_t23_40 = plus(v_t23a_29, v_t22a_25);
    let l_t23_40 = 10403 * u + 175017 * w;
    lemma_add(v_t23a_29, v_t22a_25, l_t23a_29, l_t22a_25, 8192, 8192, 121008000, 32006400);
    assert(near(v_t23_40, l_t23_40, 16384));
    let v_t24_41 = plus(v_t24a_31, v_t25a_27);
    let l_t24_41 = 41531 * u + 258194 * w;
    lemma_add(v_t24a_31, v_t25a_27, l_t24a_31, l_t25a_27, 8192, 8192, 41800800, 102067200);
    assert(near(v_t24_41, l_t24_41, 16384));
    let v_t25_42 = minus(v_t24a_31, v_t25a_27);
    let l_t25_42 = -4309 * u - 121246 * w;
    lemma_sub(v_t24a_31, v_t25a_27, l_t24a_31, l_t25a_27, 8192, 8192, 41800800, 102067200);
    assert(near(v_t25_42, l_t25_42, 16384));
    let v_t26_43 = minus(v_t27a_19, v_t26a_23);
    let l_t26_43 = -2602 * u - 73558 * w;
    lemma_sub(v_t27a_19, v_t26a_23, l_t27a_19, l_t26a_23, 8192, 8192, 59177760, 95734560);
    assert(near(v_t26_43, l_t26_43, 16384));
    let v_t27_44 = plus(v_t27a_19, v_t26a_23);
    let l_t27_44 = 42350 * u + 280384 * w;
    lemma_add(v_t27a_19, v_t26a_23, l_t27a_19, l_t26a_23, 8192, 8192, 59177760, 95734560);
    assert(near(v_t27_44, l_t27_44, 16384));
    let v_t28_45 = plus(v_t28a_15, v_t29a_11);
    let l_t28_45 = 42762 * u + 291579 * w;
    lemma_add(v_t28a_15, v_t29a_11, l_t28a_15, l_t29a_11, 8192, 8192, 74116800, 86366880);
    assert(near(v_t28_45, l_t28_45, 16384));
    let v_t29_46 = minus(v_t28a_15, v_t29a_11);
    let l_t29_46 = -870 * u - 24651 * w;
    lemma_sub(v_t28a_15, v_t29a_11, l_t28a_15, l_t29a_11, 8192, 8192, 74116800, 86366880);
    assert(near(v_t29_46, l_t29_46, 16384));
    let v_t30_47 = minus(v_t31a_3, v_t30a_7);
    let l_t30_47 = -5975 * u - 166919 * w;
    lemma_sub(v_t31a_3, v_t30a_7, l_t31a_3, l_t30a_7, 8192, 8192, 22270080, 105259200);
    assert(near(v_t30_47, l_t30_47, 16384));
    let v_t31_48 = plus(v_t31a_3, v_t30a_7);
    let l_t31_48 = 40311 * u + 225375 * w;
    lemma_add(v_t31a_3, v_t30a_7, l_t31a_3, l_t30a_7, 8192, 8192, 22270080, 105259200);
    assert(near(v_t31_48, l_t31_48, 16384));
    let v_w_50 = dot_sub_spec(v_t30_47, 3196, v_t17_34, 16069);
    let l_w_50 = 249207993 * u + 4002098540 * w;
    lemma_dot_sub(v_t30_47, 3196, v_t17_34, 16069, l_t30_47, l_t17_34, 16384, 16384, 82989120, 143497440);
    assert(near(v_w_50, l_w_50, 315637760));
    let v_t17a_49 = round14_spec(v_w_50);
    let l_t17a_49 = 15210 * u + 244269 * w;
    lemma_round(v_w_50, l_w_50, 315637760, 2040627135840, l_t17a_49, 27812, 5812320);
    assert(near(v_t17a_49, l_t17a_49, 27812));
    let v_w_52 = dot_add_spec(v_t30_47, 16069, v_t17_34, 3196);
    let l_w_52 = -149375887 * u - 3584311587 * w;
    lemma_dot_add(v_t30_47, 16069, v_t17_34, 3196, l_t30_47, l_t17_34, 16384, 16384, 82989120, 143497440);
    assert(near(v_w_52, l_w_52, 315637760));
    let v_t30a_51 = round14_spec(v_w_52);
    let l_t30a_51 = -9117 * u - 218769 * w;
    lemma_round(v_w_52, l_w_52, 315637760, 1792169987520, l_t30a_51, 27553, 1560000);
    assert(near(v_t30a_51, l_t30a_51, 27553));
    let v_w_55 = dot_add_spec(v_t29_46, 16069, v_t18_35, 3196);
    let l_w_55 = 42627522 * u + 630326421 * w;
    lemma_dot_add(v_t29_46, 16069, v_t18_35, 3196, l_t29_46, l_t18_35, 16384, 16384, 12250080, 162660960);
    assert(near(v_w_55, l_w_55, 315637760));
    let v_w_54 = neg_spec(v_w_55);
    let l_w_54 = -42627522 * u - 630326421 * w;
    lemma_neg(v_w_55, l_w_55, 315637760, 323017892640);
    assert(near(v_w_54, l_w_54, 315637760));
    let v_t18a_53 = round14_spec(v_w_54);
    let l_t18a_53 = -2602 * u - 38472 * w;
    lemma_round(v_w_54, l_w_54, 315637760, 323017892640, l_t18a_53, 27599, 2313120);
    assert(near(v_t18a_53, l_t18a_53, 27599));
    let v_w_57 = dot_sub_spec(v_t29_46, 3196, v_t18_35, 16069);
    let l_w_57 = -287394648 * u - 5239584981 * w;
    lemma_dot_sub(v_t29_46, 3196, v_t18_35, 16069, l_t29_46, l_t18_35, 16384, 16384, 12250080, 162660960);
    assert(near(v_w_57, l_w_57, 315637760));
    let v_t29a_56 = round14_spec(v_w_57);
    let l_t29a_56 = -17541 * u - 319799 * w;
    lemma_round(v_w_57, l_w_57, 315637760, 2652950221920, l_t29a_56, 27596, 2274720);
    assert(near(v_t29a_56, l_t29a_56, 27596));
    let v_w_59 = dot_sub_spec(v_t26_43, 13623, v_t21_38, 9102);
    let l_w_59 = 124220238 * u + 1861444974 * w;
    lemma_dot_sub(v_t26_43, 13623, v_t21_38, 9102, l_t26_43, l_t21_38, 16384, 16384, 36556800, 159430080);
    assert(near(v_w_59, l_w_59, 372326400));
    let v_t21a_58 = round14_spec(v_w_59);
    let l_t21a_58 = 7582 * u + 113614 * w;
    lemma_round(v_w_59, l_w_59, 372326400, 953119301760, l_t21a_58, 31212, 4824960);
    assert(near(v_t21a_58, l_t21a_58, 31212));
    let v_w_61 = dot_add_spec(v_t26_43, 9102, v_t21_38, 13623);
    let l_w_61 = -262658070 * u - 4955375208 * w;
    lemma_dot_add(v_t26_43, 9102, v_t21_38, 13623, l_t26_43, l_t21_38, 16384, 16384, 36556800, 159430080);
    assert(near(v_w_61, l_w_61, 372326400));
    let v_t26a_60 = round14_spec(v_w_61);
    let l_t26a_60 = -16031 * u - 302452 * w;
    lemma_round(v_w_61, l_w_61, 372326400, 2504655973440, l_t26a_60, 31146, 3746880);
    assert(near(v_t26a_60, l_t26a_60, 31146));
    let v_w_64 = dot_add_spec(v_t25_42, 9102, v_t22_39, 13623);
    let l_w_64 = 195135951 * u + 3004802379 * w;
    lemma_dot_add(v_t25_42, 9102, v_t22_39, 13623, l_t25_42, l_t22_39, 16384, 16384, 60266400, 153014400);
    assert(near(v_w_64, l_w_64, 372326400));
    let v_w_63 = neg_spec(v_w_64);
    let l_w_63 = -195135951 * u - 3004802379 * w;
    lemma_neg(v_w_64, l_w_64, 372326400, 1535970398400);
    assert(near(v_w_63, l_w_63, 372326400));
    let v_t22a_62 = round14_spec(v_w_63);
    let l_t22a_62 = -11910 * u - 183399 * w;
    lemma_round(v_w_63, l_w_63, 372326400, 1535970398400, l_t22a_62, 31191, 4487040);
    assert(near(v_t22a_62, l_t22a_62, 31191));
    let v_w_66 = dot_sub_spec(v_t25_42, 13623, v_t22_39, 9102);
    let l_w_66 = -215283213 * u - 4396688112 * w;
    lemma_dot_sub(v_t25_42, 13623, v_t22_39, 9102, l_t25_42, l_t22_39, 16384, 16384, 60266400, 153014400);
    assert(near(v_w_66, l_w_66, 372326400));
    let v_t25a_65 = round14_spec(v_w_66);
    let l_t25a_65 = -13140 * u - 268353 * w;
    lemma_round(v_w_66, l_w_66, 372326400, 2213746236000, l_t25a_65, 31210, 4793760);
    assert(near(v_t25a_65, l_t25a_65, 31210));
    let v_t16a_67 = plus(v_t16_33, v_t19_36);
    let l_t16a_67 = -12323 * u - 204033 * w;
    lemma_add(v_t16_33, v_t19_36, l_t16_33, l_t19_36, 16384, 16384, 122019360, 18168480);
    assert(near(v_t16a_67, l_t16a_67, 32768));
    let v_t17_68 = plus(v_t17a_49, v_t18a_53);
    let l_t17_68 = 12608 * u + 205797 * w;
    lemma_add(v_t17a_49, v_t18a_53, l_t17a_49, l_t18a_53, 27812, 27599, 124549920, 19715520);
    assert(near(v_t17_68, l_t17_68, 55411));
    let v_t18_69 = minus(v_t17a_49, v_t18a_53);
    let l_t18_69 = 17812 * u + 282741 * w;
    lemma_sub(v_t17a_49, v_t18a_53, l_t17a_49, l_t18a_53, 27812, 27599, 124549920, 19715520);
    assert(near(v_t18_69, l_t18_69, 55411));
    let v_t19a_70 = minus(v_t16_33, v_t19_36);
    let l_t19a_70 = -16523 * u - 275535 * w;
    lemma_sub(v_t16_33, v_t19_36, l_t16_33, l_t19_36, 16384, 16384, 122019360, 18168480);
    assert(near(v_t19a_70, l_t19a_70, 32768));
    let v_t20a_71 = minus(v_t23_40, v_t20_37);
    let l_t20a_71 = 16685 * u + 281531 * w;
    lemma_sub(v_t23_40, v_t20_37, l_t23_40, l_t20_37, 16384, 16384, 89001600, 54142080);
    assert(near(v_t20a_71, l_t20a_71, 32768));
    let v_t21_72 = minus(v_t22a_62, v_t21a_58);
    let l_t21_72 = -19492 * u - 297013 * w;
    lemma_sub(v_t22a_62, v_t21a_58, l_t22a_62, l_t21a_58, 31191, 31212, 93748320, 58174080);
    assert(near(v_t21_72, l_t21_72, 62403));
    let v_t22_73 = plus(v_t22a_62, v_t21a_58);
    let l_t22_73 = -4328 * u - 69785 * w;
    lemma_add(v_t22a_62, v_t21a_58, l_t22a_62, l_t21a_58, 31191, 31212, 93748320, 58174080);
    assert(near(v_t22_73, l_t22_73, 62403));
    let v_t23a_74 = plus(v_t23_40, v_t20_37);
    let l_t23a_74 = 4121 * u + 68503 * w;
    lemma_add(v_t23_40, v_t20_37, l_t23_40, l_t20_37, 16384, 16384, 89001600, 54142080);
    assert(near(v_t23a_74, l_t23a_74, 32768));
    let v_t24a_75 = plus(v_t24_41, v_t27_44);
    let l_t24a_75 = 83881 * u + 538578 * w;
    lemma_add(v_t24_41, v_t27_44, l_t24_41, l_t27_44, 16384, 16384, 143868000, 154912320);
    assert(near(v_t24a_75, l_t24a_75, 32768));
    let v_t25_76 = plus(v_t25a_65, v_t26a_60);
    let l_t25_76 = -29171 * u - 570805 * w;
    lemma_add(v_t25a_65, v_t26a_60, l_t25a_65, l_t26a_60, 31210, 31146, 135116640, 152871840);
    assert(near(v_t25_76, l_t25_76, 62356));
    let v_t26_77 = minus(v_t25a_65, v_t26a_60);
    let l_t26_77 = 2891 * u + 34099 * w;
    lemma_sub(v_t25a_65, v_t26a_60, l_t25a_65, l_t26a_60, 31210, 31146, 135116640, 152871840);
    assert(near(v_t26_77, l_t26_77, 62356));
    let v_t27a_78 = minus(v_t24_41, v_t27_44);
    let l_t27a_78 = -819 * u - 22190 * w;
    lemma_sub(v_t24_41, v_t27_44, l_t24_41, l_t27_44, 16384, 16384, 143868000, 154912320);
    assert(near(v_t27a_78, l_t27a_78, 32768));
    let v_t28a_79 = minus(v_t31_48, v_t28_45);
    let l_t28a_79 = -2451 * u - 66204 * w;
    lemma_sub(v_t31_48, v_t28_45, l_t31_48, l_t28_45, 16384, 16384, 127529280, 160483680);
    assert(near(v_t28a_79, l_t28a_79, 32768));
    let v_t29_80 = minus(v_t30a_51, v_t29a_56);
    let l_t29_80 = 8424 * u + 101030 * w;
    lemma_sub(v_t30a_51, v_t29a_56, l_t30a_51, l_t29a_56, 27553, 27596, 109385280, 161923200);
    assert(near(v_t29_80, l_t29_80, 55149));
    let v_t30_81 = plus(v_t30a_51, v_t29a_56);
    let l_t30_81 = -26658 * u - 538568 * w;
    lemma_add(v_t30a_51, v_t29a_56, l_t30a_51, l_t29a_56, 27553, 27596, 109385280, 161923200);
    assert(near(v_t30_81, l_t30_81, 55149));
    let v_t31a_82 = plus(v_t31_48, v_t28_45);
    let l_t31a_82 = 83073 * u + 516954 * w;
    lemma_add(v_t31_48, v_t28_45, l_t31_48, l_t28_45, 16384, 16384, 127529280, 160483680);
    assert(near(v_t31a_82, l_t31a_82, 32768));
    let v_w_84 = dot_sub_spec(v_t29_80, 6270, v_t18_69, 15137);
    let l_w_84 = -216801764 * u - 3646392417 * w;
    lemma_dot_sub(v_t29_80, 6270, v_t18_69, 15137, l_t29_80, l_t18_69, 55149, 55411, 52537920, 144265440);
    assert(near(v_w_84, l_w_84, 1184540537));
    let v_t18a_83 = round14_spec(v_w_84);
    let l_t18a_83 = -13233 * u - 222558 * w;
    lemma_round(v_w_84, l_w_84, 1184540537, 1854333206880, l_t18a_83, 80780, 4729440);
    assert(near(v_t18a_83, l_t18a_83, 80780));
    let v_w_86 = dot_add_spec(v_t29_80, 15137, v_t18_69, 6270);
    let l_w_86 = 239195328 * u + 3302077180 * w;
    lemma_dot_add(v_t29_80, 15137, v_t18_69, 6270, l_t29_80, l_t18_69, 55149, 55411, 52537920, 144265440);
    assert(near(v_w_86, l_w_86, 1182217383));
    let v_t29a_85 = round14_spec(v_w_86);
    let l_t29a_85 = 14599 * u + 201543 * w;
    lemma_round(v_w_86, l_w_86, 1182217383, 1699810803840, l_t29a_85, 80603, 4149120);
    assert(near(v_t29a_85, l_t29a_85, 80603));
    let v_w_88 = dot_sub_spec(v_t28a_79, 6270, v_t19a_70, 15137);
    let l_w_88 = 234740881 * u + 3755674215 * w;
    lemma_dot_sub(v_t28a_79, 6270, v_t19a_70, 15137, l_t28a_79, l_t19a_70, 32768, 32768, 32954400, 140187840);
    assert(near(v_w_88, l_w_88, 701464576));
    let v_t19_87 = round14_spec(v_w_88);
    let l_t19_87 = 14327 * u + 229228 * w;
    lemma_round(v_w_88, l_w_88, 701464576, 1915399246080, l_t19_87, 51299, 4788480);
    assert(near(v_t19_87, l_t19_87, 51299));
    let v_w_90 = dot_add_spec(v_t28a_79, 15137, v_t19a_70, 6270);
    let l_w_90 = -140699997 * u - 2729734398 * w;
    lemma_dot_add(v_t28a_79, 15137, v_t19a_70, 6270, l_t28a_79, l_t19a_70, 32768, 32768, 32954400, 140187840);
    assert(near(v_w_90, l_w_90, 701464576));
    let v_t28_89 = round14_spec(v_w_90);
    let l_t28_89 = -8588 * u - 166610 * w;
    lemma_round(v_w_90, l_w_90, 701464576, 1377808509600, l_t28_89, 51289, 4625760);
    assert(near(v_t28_89, l_t28_89, 51289));
    let v_w_93 = dot_add_spec(v_t27a_78, 15137, v_t20a_71, 6270);
    let l_w_93 = 92217747 * u + 1429309340 * w;
    lemma_dot_add(v_t27a_78, 15137, v_t20a_71, 6270, l_t27a_78, l_t20a_71, 32768, 32768, 11044320, 143143680);
    assert(near(v_w_93, l_w_93, 701464576));
    let v_w_92 = neg_spec(v_w_93);
    let l_w_92 = -92217747 * u - 1429309340 * w;
    lemma_neg(v_w_93, l_w_93, 701464576, 730333001760);
    assert(near(v_w_92, l_w_92, 701464576));
    let v_t20_91 = round14_spec(v_w_92);
    let l_t20_91 = -5629 * u - 87238 * w;
    lemma_round(v_w_92, l_w_92, 701464576, 730333001760, l_t20_91, 51292, 4673760);
    assert(near(v_t20_91, l_t20_91, 51292));
    let v_w_95 = dot_sub_spec(v_t27a_78, 6270, v_t20a_71, 15137);
    let l_w_95 = -257695975 * u - 4400666047 * w;
    lemma_dot_sub(v_t27a_78, 6270, v_t20a_71, 15137, l_t27a_78, l_t20a_71, 32768, 32768, 11044320, 143143680);
    assert(near(v_w_95, l_w_95, 701464576));
    let v_t27_94 = round14_spec(v_w_95);
    let l_t27_94 = -15729 * u - 268595 * w;
    lemma_round(v_w_95, l_w_95, 701464576, 2236013770560, l_t27_94, 51403, 6493440);
    assert(near(v_t27_94, l_t27_94, 51403));
    let v_w_98 = dot_add_spec(v_t26_77, 15137, v_t21_72, 6270);
    let l_w_98 = -78453773 * u - 1346114947 * w;
    lemma_dot_add(v_t26_77, 15137, v_t21_72, 6270, l_t26_77, l_t21_72, 62356, 62403, 17755200, 151922400);
    assert(near(v_w_98, l_w_98, 1335149582));
    let v_w_97 = neg_spec(v_w_98);
    let l_w_97 = 78453773 * u + 1346114947 * w;
    lemma_neg(v_w_98, l_w_98, 1335149582, 683792985600);
    assert(near(v_w_97, l_w_97, 1335149582));
    let v_t21a_96 = round14_spec(v_w_97);
    let l_t21a_96 = 4788 * u + 82160 * w;
    lemma_round(v_w_97, l_w_97, 1335149582, 683792985600, l_t21a_96, 90055, 6090240);
    assert(near(v_t21a_96, l_t21a_96, 90055));
    let v_w_100 = dot_sub_spec(v_t26_77, 6270, v_t21_72, 15137);
    let l_w_100 = 313176974 * u + 4709686511 * w;
    lemma_dot_sub(v_t26_77, 6270, v_t21_72, 15137, l_t26_77, l_t21_72, 62356, 62403, 17755200, 151922400);
    assert(near(v_w_100, l_w_100, 1335566331));
    let v_t26a_99 = round14_spec(v_w_100);
    let l_t26a_99 = 19115 * u + 287456 * w;
    lemma_round(v_w_100, l_w_100, 1335566331, 2410974472800, l_t26a_99, 90019, 5084640);
    assert(near(v_t26a_99, l_t26a_99, 90019));
    let v_t16_101 = plus(v_t16a_67, v_t23a_74);
    let l_t16_101 = -8202 * u - 135530 * w;
    lemma_add(v_t16a_67, v_t23a_74, l_t16a_67, l_t23a_74, 32768, 32768, 103850880, 34859520);
    assert(near(v_t16_101, l_t16_101, 65536));
    let v_t17a_102 = plus(v_t17_68, v_t22_73);
    let l_t17a_102 = 8280 * u + 136012 * w;
    lemma_add(v_t17_68, v_t22_73, l_t17_68, l_t22_73, 55411, 62403, 104834400, 35574240);
    assert(near(v_t17a_102, l_t17a_102, 117814));
    let v_t18_103 = plus(v_t18a_83, v_t21a_96);
    let l_t18_103 = -8445 * u - 140398 * w;
    lemma_add(v_t18a_83, v_t21a_96, l_t18a_83, l_t21a_96, 80780, 90055, 113179680, 41735040);
    assert(near(v_t18_103, l_t18_103, 170835));
    let v_t19a_104 = plus(v_t19_87, v_t20_91);
    let l_t19a_104 = 8698 * u + 141990 * w;
    lemma_add(v_t19_87, v_t20_91, l_t19_87, l_t20_91, 51299, 51292, 116906400, 44576160);
    assert(near(v_t19a_104, l_t19a_104, 102591));
    let v_t20a_105 = minus(v_t19_87, v_t20_91);
    let l_t20a_105 = 19956 * u + 316466 * w;
    lemma_sub(v_t19_87, v_t20_91, l_t19_87, l_t20_91, 51299, 51292, 116906400, 44576160);
    assert(near(v_t20a_105, l_t20a_105, 102591));
    let v_t21_106 = minus(v_t18a_83, v_t21a_96);
    let l_t21_106 = -18021 * u - 304718 * w;
    lemma_sub(v_t18a_83, v_t21a_96, l_t18a_83, l_t21a_96, 80780, 90055, 113179680, 41735040);
    assert(near(v_t21_106, l_t21_106, 170835));
    let v_t22a_107 = minus(v_t17_68, v_t22_73);
    let l_t22a_107 = 16936 * u + 275582 * w;
    lemma_sub(v_t17_68, v_t22_73, l_t17_68, l_t22_73, 55411, 62403, 104834400, 35574240);
    assert(near(v_t22a_107, l_t22a_107, 117814));
    let v_t23_108 = minus(v_t16a_67, v_t23a_74);
    let l_t23_108 = -16444 * u - 272536 * w;
    lemma_sub(v_t16a_67, v_t23a_74, l_t16a_67, l_t23a_74, 32768, 32768, 103850880, 34859520);
    assert(near(v_t23_108, l_t23_108, 65536));
    let v_t24_109 = minus(v_t31a_82, v_t24a_75);
    let l_t24_109 = -808 * u - 21624 * w;
    lemma_sub(v_t31a_82, v_t24a_75, l_t31a_82, l_t24a_75, 32768, 32768, 288012960, 298780320);
    assert(near(v_t24_109, l_t24_109, 65536));
    let v_t25a_110 = minus(v_t30_81, v_t25_76);
    let l_t25a_110 = 2513 * u + 32237 * w;
    lemma_sub(v_t30_81, v_t25_76, l_t30_81, l_t25_76, 55149, 62356, 271308480, 287988480);
    assert(near(v_t25a_110, l_t25a_110, 117505));
    let v_t26_111 = minus(v_t29a_85, v_t26a_99);
    let l_t26_111 = -4516 * u - 85913 * w;
    lemma_sub(v_t29a_85, v_t26a_99, l_t29a_85, l_t26a_99, 80603, 90019, 103748160, 147154080);
    assert(near(v_t26_111, l_t26_111, 170622));
    let v_t27a_112 = minus(v_t28_89, v_t27_94);
    let l_t27a_112 = 7141 * u + 101985 * w;
    lemma_sub(v_t28_89, v_t27_94, l_t28_89, l_t27_94, 51289, 51403, 84095040, 136475520);
    assert(near(v_t27a_112, l_t27a_112, 102692));
    let v_t28a_113 = plus(v_t28_89, v_t27_94);
    let l_t28a_113 = -24317 * u - 435205 * w;
    lemma_add(v_t28_89, v_t27_94, l_t28_89, l_t27_94, 51289, 51403, 84095040, 136475520);
    assert(near(v_t28a_113, l_t28a_113, 102692));
    let v_t29_114 = plus(v_t29a_85, v_t26a_99);
    let l_t29_114 = 33714 * u + 488999 * w;
    lemma_add(v_t29a_85, v_t26a_99, l_t29a_85, l_t26a_99, 80603, 90019, 103748160, 147154080);
    assert(near(v_t29_114, l_t29_114, 170622));
    let v_t30a_115 = plus(v_t30_81, v_t25_76);
    let l_t30a_115 = -55829 * u - 1109373 * w;
    lemma_add(v_t30_81, v_t25_76, l_t30_81, l_t25_76, 55149, 62356, 271308480, 287988480);
    assert(near(v_t30a_115, l_t30a_115, 117505));
    let v_t31_116 = plus(v_t31a_82, v_t24a_75);
    let l_t31_116 = 166954 * u + 1055532 * w;
    lemma_add(v_t31a_82, v_t24a_75, l_t31a_82, l_t24a_75, 32768, 32768, 288012960, 298780320);
    assert(near(v_t31_116, l_t31_116, 65536));
    let v_t20_117 = half_diff_spec(v_t27a_112, v_t20a_105);
    let l_t20_117 = -9061 * u - 151658 * w;
    lemma_half_diff(v_t27a_112, v_t20a_105, l_t27a_112, l_t20a_105, 102692, 102591, 52380480, 161482560, l_t20_117, 153600, 4146240);
    assert(near(v_t20_117, l_t20_117, 153600));
    let v_t27_118 = half_sum_spec(v_t27a_112, v_t20a_105);
    let l_t27_118 = 19160 * u + 295883 * w;
    lemma_half_sum(v_t27a_112, v_t20a_105, l_t27a_112, l_t20a_105, 102692, 102591, 52380480, 161482560, l_t27_118, 153612, 4352640);
    assert(near(v_t27_118, l_t27_118, 153612));
    let v_t21a_119 = half_diff_spec(v_t26_111, v_t21_106);
    let l_t21a_119 = 9549 * u + 154715 * w;
    lemma_half_diff(v_t26_111, v_t21_106, l_t26_111, l_t21_106, 170622, 170835, 43405920, 154914720, l_t21a_119, 249926, 4787520);
    assert(near(v_t21a_119, l_t21a_119, 249926));
    let v_t26a_120 = half_sum_spec(v_t26_111, v_t21_106);
    let l_t26a_120 = -15936 * u - 276212 * w;
    lemma_half_sum(v_t26_111, v_t21_106, l_t26_111, l_t21_106, 170622, 170835, 43405920, 154914720, l_t26a_120, 249839, 3362880);
    assert(near(v_t26a_120, l_t26a_120, 249839));
    let v_t22_121 = half_diff_spec(v_t25a_110, v_t22a_107);
    let l_t22_121 = -10198 * u - 172067 * w;
    lemma_half_diff(v_t25a_110, v_t22a_107, l_t25a_110, l_t22a_107, 117505, 117814, 16680000, 140408640, l_t22_121, 174952, 6009600);
    assert(near(v_t22_121, l_t22_121, 174952));
    let v_t25_122 = half_sum_spec(v_t25a_110, v_t22a_107);
    let l_t25_122 = 13752 * u + 217656 * w;
    lemma_half_sum(v_t25a_110, v_t22a_107, l_t25a_110, l_t22a_107, 117505, 117814, 16680000, 140408640, l_t25_122, 174910, 5331840);
    assert(near(v_t25_122, l_t25_122, 174910));
    let v_t23a_123 = half_diff_spec(v_t24_109, v_t23_108);
    let l_t23a_123 = 11056 * u + 177418 * w;
    lemma_half_diff(v_t24_109, v_t23_108, l_t24_109, l_t23_108, 65536, 65536, 10767360, 138710400, l_t23a_123, 100947, 1223040);
    assert(near(v_t23a_123, l_t23a_123, 100947));
    let v_t24a_124 = half_sum_spec(v_t24_109, v_t23_108);
    let l_t24a_124 = -12199 * u - 207998 * w;
    lemma_half_sum(v_t24_109, v_t23_108, l_t24_109, l_t23_108, 65536, 65536, 10767360, 138710400, l_t24a_124, 101118, 4014720);
    assert(near(v_t24a_124, l_t24a_124, 101118));
    let y = idct32_odd_spec_ops(x);
    assert(y[0] == v_t31_116);
    lemma_wider(v_t31_116, l_t31_116, 65536, 166953 * u + 1055522 * w, 256166);
    assert(y[1] == v_t30a_115);
    lemma_wider(v_t30a_115, l_t30a_115, 117505, -55830 * u - 1109388 * w, 256166);
    assert(y[2] == v_t29_114);
    lemma_wider(v_t29_114, l_t29_114, 170622, 33715 * u + 488994 * w, 256166);
    assert(y[3] == v_t28a_113);
    lemma_wider(v_t28a_113, l_t28a_113, 102692, -24317 * u - 435203 * w, 256166);
    assert(y[4] == v_t27_118);
    lemma_wider(v_t27_118, l_t27_118, 153612, 19160 * u + 295886 * w, 256166);
    assert(y[5] == v_t26a_120);
    lemma_wider(v_t26a_120, l_t26a_120, 249839, -15935 * u - 276213 * w, 256166);
    assert(y[6] == v_t25_122);
    lemma_wider(v_t25_122, l_t25_122, 174910, 13752 * u + 217635 * w, 256166);
    assert(y[7] == v_t24a_124);
    lemma_wider(v_t24a_124, l_t24a_124, 101118, -12198 * u - 208004 * w, 256166);
    assert(y[8] == v_t23a_123);
    lemma_wider(v_t23a_123, l_t23a_123, 100947, 11056 * u + 177415 * w, 256166);
    assert(y[9] == v_t22_121);
    lemma_wider(v_t22_121, l_t22_121, 174952, -10199 * u - 172067 * w, 256166);
    assert(y[10] == v_t21a_119);
    lemma_wider(v_t21a_119, l_t21a_119, 249926, 9551 * u + 154726 * w, 256166);
    assert(y[11] == v_t20_117);
    lemma_wider(v_t20_117, l_t20_117, 153600, -9062 * u - 151667 * w, 256166);
    assert(y[12] == v_t19a_104);
    lemma_wider(v_t19a_104, l_t19a_104, 102591, 8701 * u + 142003 * w, 256166);
    assert(y[13] == v_t18_103);
    lemma_wider(v_t18_103, l_t18_103, 170835, -8445 * u - 140402 * w, 256166);
    assert(y[14] == v_t17a_102);
    lemma_wider(v_t17a_102, l_t17a_102, 117814, 8282 * u + 136033 * w, 256166);
    assert(y[15] == v_t16_101);
    lemma_wider(v_t16_101, l_t16_101, 65536, -8202 * u - 135532 * w, 256166);
}

/// The same transform, with its sums and differences by name.
#[verifier::opaque]
spec fn iadst16_spec_ops(x: Seq<i32>) -> Seq<i32> {
    let t0 = dot_add_spec(x[15], 16364, x[0], 804);
    let t1 = dot_sub_spec(x[15], 804, x[0], 16364);
    let t2 = dot_add_spec(x[13], 15893, x[2], 3981);
    let t3 = dot_sub_spec(x[13], 3981, x[2], 15893);
    let t4 = dot_add_spec(x[11], 14811, x[4], 7005);
    let t5 = dot_sub_spec(x[11], 7005, x[4], 14811);
    let t6 = dot_add_spec(x[9], 13160, x[6], 9760);
    let t7 = dot_sub_spec(x[9], 9760, x[6], 13160);
    let t8 = dot_add_spec(x[7], 11003, x[8], 12140);
    let t9 = dot_sub_spec(x[7], 12140, x[8], 11003);
    let t10 = dot_add_spec(x[5], 8423, x[10], 14053);
    let t11 = dot_sub_spec(x[5], 14053, x[10], 8423);
    let t12 = dot_add_spec(x[3], 5520, x[12], 15426);
    let t13 = dot_sub_spec(x[3], 15426, x[12], 5520);
    let t14 = dot_add_spec(x[1], 2404, x[14], 16207);
    let t15 = dot_sub_spec(x[1], 16207, x[14], 2404);
    let t0a = round14_spec(plus(t0, t8));
    let t1a = round14_spec(plus(t1, t9));
    let t2a = round14_spec(plus(t2, t10));
    let t3a = round14_spec(plus(t3, t11));
    let t4a = round14_spec(plus(t4, t12));
    let t5a = round14_spec(plus(t5, t13));
    let t6a = round14_spec(plus(t6, t14));
    let t7a = round14_spec(plus(t7, t15));
    let t8a = round14_spec(minus(t0, t8));
    let t9a = round14_spec(minus(t1, t9));
    let t10a = round14_spec(minus(t2, t10));
    let t11a = round14_spec(minus(t3, t11));
    let t12a = round14_spec(minus(t4, t12));
    let t13a = round14_spec(minus(t5, t13));
    let t14a = round14_spec(minus(t6, t14));
    let t15a = round14_spec(minus(t7, t15));
    let t8 = dot_add_spec(t8a, 16069, t9a, 3196);
    let t9 = dot_sub_spec(t8a, 3196, t9a, 16069);
    let t10 = dot_add_spec(t10a, 9102, t11a, 13623);
    let t11 = dot_sub_spec(t10a, 13623, t11a, 9102);
    let t12 = dot_sub_spec(t13a, 16069, t12a, 3196);
    let t13 = dot_add_spec(t13a, 3196, t12a, 16069);
    let t14 = dot_sub_spec(t15a, 9102, t14a, 13623);
    let t15 = dot_add_spec(t15a, 13623, t14a, 9102);
    let t0 = plus(t0a, t4a);
    let t1 = plus(t1a, t5a);
    let t2 = plus(t2a, t6a);
    let t3 = plus(t3a, t7a);
    let t4 = minus(t0a, t4a);
    let t5 = minus(t1a, t5a);
    let t6 = minus(t2a, t6a);
    let t7 = minus(t3a, t7a);
    let t8a = round14_spec(plus(t8, t12));
    let t9a = round14_spec(plus(t9, t13));
    let t10a = round14_spec(plus(t10, t14));
    let t11a = round14_spec(plus(t11, t15));
    let t12a = round14_spec(minus(t8, t12));
    let t13a = round14_spec(minus(t9, t13));
    let t14a = round14_spec(minus(t10, t14));
    let t15a = round14_spec(minus(t11, t15));
    let t4a = dot_add_spec(t4, 15137, t5, 6270);
    let t5a = dot_sub_spec(t4, 6270, t5, 15137);
    let t6a = dot_sub_spec(t7, 15137, t6, 6270);
    let t7a = dot_add_spec(t7, 6270, t6, 15137);
    let t12 = dot_add_spec(t12a, 15137, t13a, 6270);
    let t13 = dot_sub_spec(t12a, 6270, t13a, 15137);
    let t14 = dot_sub_spec(t15a, 15137, t14a, 6270);
    let t15 = dot_add_spec(t15a, 6270, t14a, 15137);
    let out0 = plus(t0, t2);
    let out15 = neg_spec(plus(t1, t3));
    let t2a = minus(t0, t2);
    let t3a = minus(t1, t3);
    let out3 = round14_spec(plus(t4a, t6a));
    let out3 = neg_spec(out3);
    let out12 = round14_spec(plus(t5a, t7a));
    let t6 = round14_spec(minus(t4a, t6a));
    let t7 = round14_spec(minus(t5a, t7a));
    let out1 = neg_spec(plus(t8a, t10a));
    let out14 = plus(t9a, t11a);
    let t10 = minus(t8a, t10a);
    let t11 = minus(t9a, t11a);
    let out2 = round14_spec(plus(t12, t14));
    let out13 = round14_spec(plus(t13, t15));
    let out13 = neg_spec(out13);
    let t14a = round14_spec(minus(t12, t14));
    let t15a = round14_spec(minus(t13, t15));
    let out7 = half_neg_sum_spec(t2a, t3a);
    let out8 = half_diff_spec(t2a, t3a);
    let out4 = half_sum_spec(t7, t6);
    let out11 = half_diff_spec(t7, t6);
    let out6 = half_sum_spec(t11, t10);
    let out9 = half_diff_spec(t11, t10);
    let out5 = half_neg_sum_spec(t14a, t15a);
    let out10 = half_diff_spec(t14a, t15a);
    seq![out0, out1, out2, out3, out4, out5, out6, out7, out8, out9, out10, out11, out12, out13, out14, out15]
}

#[verifier::spinoff_prover]
proof fn lemma_iadst16_spec_ops(x: Seq<i32>)
    ensures
        iadst16_spec(x) == iadst16_spec_ops(x),
{
    reveal(iadst16_spec);
    reveal(iadst16_spec_ops);
    reveal(plus);
    reveal(minus);
}

/// The sines at a place, together and each as often as it stands in its row, in units of 2^-14.
pub open spec fn sine_line_weights(i: int) -> (int, int) {
    if i == 0 {
        (166953, 1782681)
    } else if i == 1 {
        (55830, -160273)
    } else if i == 2 {
        (33715, 84156)
    } else if i == 3 {
        (24317, -21822)
    } else if i == 4 {
        (19160, 29835)
    } else if i == 5 {
        (15935, -5325)
    } else if i == 6 {
        (13752, 16147)
    } else if i == 7 {
        (12198, -630)
    } else if i == 8 {
        (11056, 10538)
    } else if i == 9 {
        (10199, 1317)
    } else if i == 10 {
        (9551, 7638)
    } else if i == 11 {
        (9062, 2388)
    } else if i == 12 {
        (8701, 5907)
    } else if i == 13 {
        (8445, 3165)
    } else if i == 14 {
        (8282, 4755)
    } else {
        (8202, 3899)
    }
}

/// The 16-point sine transform, on a line.
#[verifier::rlimit(100)]
#[verifier::spinoff_prover]
proof fn lemma_sine_line(x: Seq<i32>, u: int, w: int)
    requires
        on_a_line(x, 16, u, w),
    ensures
        iadst16_spec(x).len() == 16,
        near(iadst16_spec(x)[0], 166953 * u + 1782681 * w, 136063),
        near(iadst16_spec(x)[1], 55830 * u - 160273 * w, 136063),
        near(iadst16_spec(x)[2], 33715 * u + 84156 * w, 136063),
        near(iadst16_spec(x)[3], 24317 * u - 21822 * w, 136063),
        near(iadst16_spec(x)[4], 19160 * u + 29835 * w, 136063),
        near(iadst16_spec(x)[5], 15935 * u - 5325 * w, 136063),
        near(iadst16_spec(x)[6], 13752 * u + 16147 * w, 136063),
        near(iadst16_spec(x)[7], 12198 * u - 630 * w, 136063),
        near(iadst16_spec(x)[8], 11056 * u + 10538 * w, 136063),
        near(iadst16_spec(x)[9], 10199 * u + 1317 * w, 136063),
        near(iadst16_spec(x)[10], 9551 * u + 7638 * w, 136063),
        near(iadst16_spec(x)[11], 9062 * u + 2388 * w, 136063),
        near(iadst16_spec(x)[12], 8701 * u + 5907 * w, 136063),
        near(iadst16_spec(x)[13], 8445 * u + 3165 * w, 136063),
        near(iadst16_spec(x)[14], 8282 * u + 4755 * w, 136063),
        near(iadst16_spec(x)[15], 8202 * u + 3899 * w, 136063),
{
    reveal(iadst16_spec_ops);
    lemma_iadst16_spec_ops(x);
    let l_x0 = 16384 * u + 16384 * w;
    lemma_exact(x[0]);
    assert(l_x0 == 16384 * x[0]);
    let l_x1 = 16384 * u + 32768 * w;
    lemma_exact(x[1]);
    assert(l_x1 == 16384 * x[1]);
    let l_x2 = 16384 * u + 49152 * w;
    lemma_exact(x[2]);
    assert(l_x2 == 16384 * x[2]);
    let l_x3 = 16384 * u + 65536 * w;
    lemma_exact(x[3]);
    assert(l_x3 == 16384 * x[3]);
    let l_x4 = 16384 * u + 81920 * w;
    lemma_exact(x[4]);
    assert(l_x4 == 16384 * x[4]);
    let l_x5 = 16384 * u + 98304 * w;
    lemma_exact(x[5]);
    assert(l_x5 == 16384 * x[5]);
    let l_x6 = 16384 * u + 114688 * w;
    lemma_exact(x[6]);
    assert(l_x6 == 16384 * x[6]);
    let l_x7 = 16384 * u + 131072 * w;
    lemma_exact(x[7]);
    assert(l_x7 == 16384 * x[7]);
    let l_x8 = 16384 * u + 147456 * w;
    lemma_exact(x[8]);
    assert(l_x8 == 16384 * x[8]);
    let l_x9 = 16384 * u + 163840 * w;
    lemma_exact(x[9]);
    assert(l_x9 == 16384 * x[9]);
    let l_x10 = 16384 * u + 180224 * w;
    lemma_exact(x[10]);
    assert(l_x10 == 16384 * x[10]);
    let l_x11 = 16384 * u + 196608 * w;
    lemma_exact(x[11]);
    assert(l_x11 == 16384 * x[11]);
    let l_x12 = 16384 * u + 212992 * w;
    lemma_exact(x[12]);
    assert(l_x12 == 16384 * x[12]);
    let l_x13 = 16384 * u + 229376 * w;
    lemma_exact(x[13]);
    assert(l_x13 == 16384 * x[13]);
    let l_x14 = 16384 * u + 245760 * w;
    lemma_exact(x[14]);
    assert(l_x14 == 16384 * x[14]);
    let l_x15 = 16384 * u + 262144 * w;
    lemma_exact(x[15]);
    assert(l_x15 == 16384 * x[15]);
    let v_t0_1 = dot_add_spec(x[15], 16364, x[0], 804);
    let l_t0_1 = 281280512 * u + 4302897152 * w;
    lemma_dot_add(x[15], 16364, x[0], 804, l_x15, l_x0, 0, 0, 133693440, 15728640);
    assert(near(v_t0_1, l_t0_1, 0));
    let v_t1_2 = dot_sub_spec(x[15], 804, x[0], 16364);
    let l_t1_2 = -254935040 * u - 57344000 * w;
    lemma_dot_sub(x[15], 804, x[0], 16364, l_x15, l_x0, 0, 0, 133693440, 15728640);
    assert(near(v_t1_2, l_t1_2, 0));
    let v_t2_3 = dot_add_spec(x[13], 15893, x[2], 3981);
    let l_t2_3 = 325615616 * u + 3841146880 * w;
    lemma_dot_add(x[13], 15893, x[2], 3981, l_x13, l_x2, 0, 0, 117964800, 31457280);
    assert(near(v_t2_3, l_t2_3, 0));
    let v_t3_4 = dot_sub_spec(x[13], 3981, x[2], 15893);
    let l_t3_4 = -195166208 * u + 131973120 * w;
    lemma_dot_sub(x[13], 3981, x[2], 15893, l_x13, l_x2, 0, 0, 117964800, 31457280);
    assert(near(v_t3_4, l_t3_4, 0));
    let v_t4_5 = dot_add_spec(x[11], 14811, x[4], 7005);
    let l_t4_5 = 357433344 * u + 3485810688 * w;
    lemma_dot_add(x[11], 14811, x[4], 7005, l_x11, l_x4, 0, 0, 102236160, 47185920);
    assert(near(v_t4_5, l_t4_5, 0));
    let v_t5_6 = dot_sub_spec(x[11], 7005, x[4], 14811);
    let l_t5_6 = -127893504 * u + 163921920 * w;
    lemma_dot_sub(x[11], 7005, x[4], 14811, l_x11, l_x4, 0, 0, 102236160, 47185920);
    assert(near(v_t5_6, l_t5_6, 0));
    let v_t6_7 = dot_add_spec(x[9], 13160, x[6], 9760);
    let l_t6_7 = 375521280 * u + 3275489280 * w;
    lemma_dot_add(x[9], 13160, x[6], 9760, l_x9, l_x6, 0, 0, 86507520, 62914560);
    assert(near(v_t6_7, l_t6_7, 0));
    let v_t7_8 = dot_sub_spec(x[9], 9760, x[6], 13160);
    let l_t7_8 = -55705600 * u + 89784320 * w;
    lemma_dot_sub(x[9], 9760, x[6], 13160, l_x9, l_x6, 0, 0, 86507520, 62914560);
    assert(near(v_t7_8, l_t7_8, 0));
    let v_t8_9 = dot_add_spec(x[7], 11003, x[8], 12140);
    let l_t8_9 = 379174912 * u + 3232301056 * w;
    lemma_dot_add(x[7], 11003, x[8], 12140, l_x7, l_x8, 0, 0, 70778880, 78643200);
    assert(near(v_t8_9, l_t8_9, 0));
    let v_t9_10 = dot_sub_spec(x[7], 12140, x[8], 11003);
    let l_t9_10 = 18628608 * u - 31244288 * w;
    lemma_dot_sub(x[7], 12140, x[8], 11003, l_x7, l_x8, 0, 0, 70778880, 78643200);
    assert(near(v_t9_10, l_t9_10, 0));
    let v_t10_11 = dot_add_spec(x[5], 8423, x[10], 14053);
    let l_t10_11 = 368246784 * u + 3360702464 * w;
    lemma_dot_add(x[5], 8423, x[10], 14053, l_x5, l_x10, 0, 0, 55050240, 94371840);
    assert(near(v_t10_11, l_t10_11, 0));
    let v_t11_12 = dot_sub_spec(x[5], 14053, x[10], 8423);
    let l_t11_12 = 92241920 * u - 136560640 * w;
    lemma_dot_sub(x[5], 14053, x[10], 8423, l_x5, l_x10, 0, 0, 55050240, 94371840);
    assert(near(v_t11_12, l_t11_12, 0));
    let v_t12_13 = dot_add_spec(x[3], 5520, x[12], 15426);
    let l_t12_13 = 343179264 * u + 3647373312 * w;
    lemma_dot_add(x[3], 5520, x[12], 15426, l_x3, l_x12, 0, 0, 39321600, 110100480);
    assert(near(v_t12_13, l_t12_13, 0));
    let v_t13_14 = dot_sub_spec(x[3], 15426, x[12], 5520);
    let l_t13_14 = 162299904 * u - 164757504 * w;
    lemma_dot_sub(x[3], 15426, x[12], 5520, l_x3, l_x12, 0, 0, 39321600, 110100480);
    assert(near(v_t13_14, l_t13_14, 0));
    let v_t14_15 = dot_add_spec(x[1], 2404, x[14], 16207);
    let l_t14_15 = 304922624 * u + 4061806592 * w;
    lemma_dot_add(x[1], 2404, x[14], 16207, l_x1, l_x14, 0, 0, 23592960, 125829120);
    assert(near(v_t14_15, l_t14_15, 0));
    let v_t15_16 = dot_sub_spec(x[1], 16207, x[14], 2404);
    let l_t15_16 = 226148352 * u - 59736064 * w;
    lemma_dot_sub(x[1], 16207, x[14], 2404, l_x1, l_x14, 0, 0, 23592960, 125829120);
    assert(near(v_t15_16, l_t15_16, 0));
    let v_w_18 = plus(v_t0_1, v_t8_9);
    let l_w_18 = 660455424 * u + 7535198208 * w;
    lemma_add(v_t0_1, v_t8_9, l_t0_1, l_t8_9, 0, 0, 2200405278720, 1733508464640);
    assert(near(v_w_18, l_w_18, 0));
    let v_t0a_17 = round14_spec(v_w_18);
    let l_t0a_17 = 40311 * u + 459912 * w;
    lemma_round(v_w_18, l_w_18, 0, 3933913743360, l_t0a_17, 8192, 0);
    assert(near(v_t0a_17, l_t0a_17, 8192));
    let v_w_20 = plus(v_t1_2, v_t9_10);
    let l_w_20 = -236306432 * u - 88588288 * w;
    lemma_add(v_t1_2, v_t9_10, l_t1_2, l_t9_10, 0, 0, 149893939200, 23938990080);
    assert(near(v_w_20, l_w_20, 0));
    let v_t1a_19 = round14_spec(v_w_20);
    let l_t1a_19 = -14423 * u - 5407 * w;
    lemma_round(v_w_20, l_w_20, 0, 155949465600, l_t1a_19, 8192, 0);
    assert(near(v_t1a_19, l_t1a_19, 8192));
    let v_w_22 = plus(v_t2_3, v_t10_11);
    let l_w_22 = 693862400 * u + 7201849344 * w;
    lemma_add(v_t2_3, v_t10_11, l_t2_3, l_t10_11, 0, 0, 2000045998080, 1789895639040);
    assert(near(v_w_22, l_w_22, 0));
    let v_t2a_21 = round14_spec(v_w_22);
    let l_t2a_21 = 42350 * u + 439566 * w;
    lemma_round(v_w_22, l_w_22, 0, 3789941637120, l_t2a_21, 8192, 0);
    assert(near(v_t2a_21, l_t2a_21, 8192));
    let v_w_24 = plus(v_t3_4, v_t11_12);
    let l_w_24 = -102924288 * u - 4587520 * w;
    lemma_add(v_t3_4, v_t11_12, l_t3_4, l_t11_12, 0, 0, 157026877440, 109825228800);
    assert(near(v_w_24, l_w_24, 0));
    let v_t3a_23 = round14_spec(v_w_24);
    let l_t3a_23 = -6282 * u - 280 * w;
    lemma_round(v_w_24, l_w_24, 0, 51605667840, l_t3a_23, 8192, 0);
    assert(near(v_t3a_23, l_t3a_23, 8192));
    let v_w_26 = plus(v_t4_5, v_t12_13);
    let l_w_26 = 700612608 * u + 7133184000 * w;
    lemma_add(v_t4_5, v_t12_13, l_t4_5, l_t12_13, 0, 0, 1844757135360, 1915465236480);
    assert(near(v_w_26, l_w_26, 0));
    let v_t4a_25 = round14_spec(v_w_26);
    let l_t4a_25 = 42762 * u + 435375 * w;
    lemma_round(v_w_26, l_w_26, 0, 3760222371840, l_t4a_25, 8192, 0);
    assert(near(v_t4a_25, l_t4a_25, 8192));
    let v_w_28 = plus(v_t5_6, v_t13_14);
    let l_w_28 = 34406400 * u - 835584 * w;
    lemma_add(v_t5_6, v_t13_14, l_t5_6, l_t13_14, 0, 0, 140071403520, 156987555840);
    assert(near(v_w_28, l_w_28, 0));
    let v_t5a_27 = round14_spec(v_w_28);
    let l_t5a_27 = 2100 * u - 51 * w;
    lemma_round(v_w_28, l_w_28, 0, 16916152320, l_t5a_27, 8192, 0);
    assert(near(v_t5a_27, l_t5a_27, 8192));
    let v_w_30 = plus(v_t6_7, v_t14_15);
    let l_w_30 = 680443904 * u + 7337295872 * w;
    lemma_add(v_t6_7, v_t14_15, l_t6_7, l_t14_15, 0, 0, 1752485068800, 2096030023680);
    assert(near(v_w_30, l_w_30, 0));
    let v_t6a_29 = round14_spec(v_w_30);
    let l_t6a_29 = 41531 * u + 447833 * w;
    lemma_round(v_w_30, l_w_30, 0, 3848515092480, l_t6a_29, 8192, 0);
    assert(near(v_t6a_29, l_t6a_29, 8192));
    let v_w_32 = plus(v_t7_8, v_t15_16);
    let l_w_32 = 170442752 * u + 30048256 * w;
    lemma_add(v_t7_8, v_t15_16, l_t7_8, l_t15_16, 0, 0, 69835161600, 137224519680);
    assert(near(v_w_32, l_w_32, 0));
    let v_t7a_31 = round14_spec(v_w_32);
    let l_t7a_31 = 10403 * u + 1834 * w;
    lemma_round(v_w_32, l_w_32, 0, 96235683840, l_t7a_31, 8192, 0);
    assert(near(v_t7a_31, l_t7a_31, 8192));
    let v_w_34 = minus(v_t0_1, v_t8_9);
    let l_w_34 = -97894400 * u + 1070596096 * w;
    lemma_sub(v_t0_1, v_t8_9, l_t0_1, l_t8_9, 0, 0, 2200405278720, 1733508464640);
    assert(near(v_w_34, l_w_34, 0));
    let v_t8a_33 = round14_spec(v_w_34);
    let l_t8a_33 = -5975 * u + 65344 * w;
    lemma_round(v_w_34, l_w_34, 0, 560875438080, l_t8a_33, 8192, 0);
    assert(near(v_t8a_33, l_t8a_33, 8192));
    let v_w_36 = minus(v_t1_2, v_t9_10);
    let l_w_36 = -273563648 * u - 26099712 * w;
    lemma_sub(v_t1_2, v_t9_10, l_t1_2, l_t9_10, 0, 0, 149893939200, 23938990080);
    assert(near(v_w_36, l_w_36, 0));
    let v_t9a_35 = round14_spec(v_w_36);
    let l_t9a_35 = -16697 * u - 1593 * w;
    lemma_round(v_w_36, l_w_36, 0, 143838412800, l_t9a_35, 8192, 0);
    assert(near(v_t9a_35, l_t9a_35, 8192));
    let v_w_38 = minus(v_t2_3, v_t10_11);
    let l_w_38 = -42631168 * u + 480444416 * w;
    lemma_sub(v_t2_3, v_t10_11, l_t2_3, l_t10_11, 0, 0, 2000045998080, 1789895639040);
    assert(near(v_w_38, l_w_38, 0));
    let v_t10a_37 = round14_spec(v_w_38);
    let l_t10a_37 = -2602 * u + 29324 * w;
    lemma_round(v_w_38, l_w_38, 0, 251076280320, l_t10a_37, 8192, 0);
    assert(near(v_t10a_37, l_t10a_37, 8192));
    let v_w_40 = minus(v_t3_4, v_t11_12);
    let l_w_40 = -287408128 * u + 268533760 * w;
    lemma_sub(v_t3_4, v_t11_12, l_t3_4, l_t11_12, 0, 0, 157026877440, 109825228800);
    assert(near(v_w_40, l_w_40, 0));
    let v_t11a_39 = round14_spec(v_w_40);
    let l_t11a_39 = -17542 * u + 16390 * w;
    lemma_round(v_w_40, l_w_40, 0, 266852106240, l_t11a_39, 8192, 0);
    assert(near(v_t11a_39, l_t11a_39, 8192));
    let v_w_42 = minus(v_t4_5, v_t12_13);
    let l_w_42 = 14254080 * u - 161562624 * w;
    lemma_sub(v_t4_5, v_t12_13, l_t4_5, l_t12_13, 0, 0, 1844757135360, 1915465236480);
    assert(near(v_w_42, l_w_42, 0));
    let v_t12a_41 = round14_spec(v_w_42);
    let l_t12a_41 = 870 * u - 9861 * w;
    lemma_round(v_w_42, l_w_42, 0, 84392017920, l_t12a_41, 8192, 0);
    assert(near(v_t12a_41, l_t12a_41, 8192));
    let v_w_44 = minus(v_t5_6, v_t13_14);
    let l_w_44 = -290193408 * u + 328679424 * w;
    lemma_sub(v_t5_6, v_t13_14, l_t5_6, l_t13_14, 0, 0, 140071403520, 156987555840);
    assert(near(v_w_44, l_w_44, 0));
    let v_t13a_43 = round14_spec(v_w_44);
    let l_t13a_43 = -17712 * u + 20061 * w;
    lemma_round(v_w_44, l_w_44, 0, 297058959360, l_t13a_43, 8192, 0);
    assert(near(v_t13a_43, l_t13a_43, 8192));
    let v_w_46 = minus(v_t6_7, v_t14_15);
    let l_w_46 = 70598656 * u - 786317312 * w;
    lemma_sub(v_t6_7, v_t14_15, l_t6_7, l_t14_15, 0, 0, 1752485068800, 2096030023680);
    assert(near(v_w_46, l_w_46, 0));
    let v_t14a_45 = round14_spec(v_w_46);
    let l_t14a_45 = 4309 * u - 47993 * w;
    lemma_round(v_w_46, l_w_46, 0, 411319664640, l_t14a_45, 8192, 0);
    assert(near(v_t14a_45, l_t14a_45, 8192));
    let v_w_48 = minus(v_t7_8, v_t15_16);
    let l_w_48 = -281853952 * u + 149520384 * w;
    lemma_sub(v_t7_8, v_t15_16, l_t7_8, l_t15_16, 0, 0, 69835161600, 137224519680);
    assert(near(v_w_48, l_w_48, 0));
    let v_t15a_47 = round14_spec(v_w_48);
    let l_t15a_47 = -17203 * u + 9126 * w;
    lemma_round(v_w_48, l_w_48, 0, 207059681280, l_t15a_47, 8192, 0);
    assert(near(v_t15a_47, l_t15a_47, 8192));
    let v_t8_49 = dot_add_spec(v_t8a_33, 16069, v_t9a_35, 3196);
    let l_t8_49 = -149375887 * u + 1044921508 * w;
    lemma_dot_add(v_t8a_33, 16069, v_t9a_35, 3196, l_t8a_33, l_t9a_35, 8192, 8192, 34233120, 8779200);
    assert(near(v_t8_49, l_t8_49, 157818880));
    let v_t9_50 = dot_sub_spec(v_t8a_33, 3196, v_t9a_35, 16069);
    let l_t9_50 = 249207993 * u + 234437341 * w;
    lemma_dot_sub(v_t8a_33, 3196, v_t9a_35, 16069, l_t8a_33, l_t9a_35, 8192, 8192, 34233120, 8779200);
    assert(near(v_t9_50, l_t9_50, 157818880));
    let v_t10_51 = dot_add_spec(v_t10a_37, 9102, v_t11a_39, 13623);
    let l_t10_51 = -262658070 * u + 490188018 * w;
    lemma_dot_add(v_t10a_37, 9102, v_t11a_39, 13623, l_t10a_37, l_t11a_39, 8192, 8192, 15324480, 16287360);
    assert(near(v_t10_51, l_t10_51, 186163200));
    let v_t11_52 = dot_sub_spec(v_t10a_37, 13623, v_t11a_39, 9102);
    let l_t11_52 = 124220238 * u + 250299072 * w;
    lemma_dot_sub(v_t10a_37, 13623, v_t11a_39, 9102, l_t10a_37, l_t11a_39, 8192, 8192, 15324480, 16287360);
    assert(near(v_t11_52, l_t11_52, 186163200));
    let v_t12_53 = dot_sub_spec(v_t13a_43, 16069, v_t12a_41, 3196);
    let l_t12_53 = -287394648 * u + 353875965 * w;
    lemma_dot_sub(v_t13a_43, 16069, v_t12a_41, 3196, l_t13a_43, l_t12a_41, 8192, 8192, 18131040, 5150880);
    assert(near(v_t12_53, l_t12_53, 157818880));
    let v_t13_54 = dot_add_spec(v_t13a_43, 3196, v_t12a_41, 16069);
    let l_t13_54 = -42627522 * u - 94341453 * w;
    lemma_dot_add(v_t13a_43, 3196, v_t12a_41, 16069, l_t13a_43, l_t12a_41, 8192, 8192, 18131040, 5150880);
    assert(near(v_t13_54, l_t13_54, 157818880));
    let v_t14_55 = dot_sub_spec(v_t15a_47, 9102, v_t14a_45, 13623);
    let l_t14_55 = -215283213 * u + 736873491 * w;
    lemma_dot_sub(v_t15a_47, 9102, v_t14a_45, 13623, l_t15a_47, l_t14a_45, 8192, 8192, 12637920, 25104960);
    assert(near(v_t14_55, l_t14_55, 186163200));
    let v_t15_56 = dot_add_spec(v_t15a_47, 13623, v_t14a_45, 9102);
    let l_t15_56 = -195135951 * u - 312508788 * w;
    lemma_dot_add(v_t15a_47, 13623, v_t14a_45, 9102, l_t15a_47, l_t14a_45, 8192, 8192, 12637920, 25104960);
    assert(near(v_t15_56, l_t15_56, 186163200));
    let v_t0_57 = plus(v_t0a_17, v_t4a_25);
    let l_t0_57 = 83073 * u + 895287 * w;
    lemma_add(v_t0a_17, v_t4a_25, l_t0a_17, l_t4a_25, 8192, 8192, 240107040, 229505760);
    assert(near(v_t0_57, l_t0_57, 16384));
    let v_t1_58 = plus(v_t1a_19, v_t5a_27);
    let l_t1_58 = -12323 * u - 5458 * w;
    lemma_add(v_t1a_19, v_t5a_27, l_t1a_19, l_t5a_27, 8192, 8192, 9518400, 1032480);
    assert(near(v_t1_58, l_t1_58, 16384));
    let v_t2_59 = plus(v_t2a_21, v_t6a_29);
    let l_t2_59 = 83881 * u + 887399 * w;
    lemma_add(v_t2a_21, v_t6a_29, l_t2a_21, l_t6a_29, 8192, 8192, 231319680, 234894720);
    assert(near(v_t2_59, l_t2_59, 16384));
    let v_t3_60 = plus(v_t3a_23, v_t7a_31);
    let l_t3_60 = 4121 * u + 1554 * w;
    lemma_add(v_t3a_23, v_t7a_31, l_t3a_23, l_t7a_31, 8192, 8192, 3149760, 5873760);
    assert(near(v_t3_60, l_t3_60, 16384));
    let v_t4_61 = minus(v_t0a_17, v_t4a_25);
    let l_t4_61 = -2451 * u + 24537 * w;
    lemma_sub(v_t0a_17, v_t4a_25, l_t0a_17, l_t4a_25, 8192, 8192, 240107040, 229505760);
    assert(near(v_t4_61, l_t4_61, 16384));
    let v_t5_62 = minus(v_t1a_19, v_t5a_27);
    let l_t5_62 = -16523 * u - 5356 * w;
    lemma_sub(v_t1a_19, v_t5a_27, l_t1a_19, l_t5a_27, 8192, 8192, 9518400, 1032480);
    assert(near(v_t5_62, l_t5_62, 16384));
    let v_t6_63 = minus(v_t2a_21, v_t6a_29);
    let l_t6_63 = 819 * u - 8267 * w;
    lemma_sub(v_t2a_21, v_t6a_29, l_t2a_21, l_t6a_29, 8192, 8192, 231319680, 234894720);
    assert(near(v_t6_63, l_t6_63, 16384));
    let v_t7_64 = minus(v_t3a_23, v_t7a_31);
    let l_t7_64 = -16685 * u - 2114 * w;
    lemma_sub(v_t3a_23, v_t7a_31, l_t3a_23, l_t7a_31, 8192, 8192, 3149760, 5873760);
    assert(near(v_t7_64, l_t7_64, 16384));
    let v_w_66 = plus(v_t8_49, v_t12_53);
    let l_w_66 = -436770535 * u + 1398797473 * w;
    lemma_add(v_t8_49, v_t12_53, l_t8_49, l_t12_53, 157818880, 157818880, 573262749600, 307809894240);
    assert(near(v_w_66, l_w_66, 315637760));
    let v_t8a_65 = round14_spec(v_w_66);
    let l_t8a_65 = -26658 * u + 85376 * w;
    lemma_round(v_w_66, l_w_66, 315637760, 881072643840, l_t8a_65, 27715, 4211520);
    assert(near(v_t8a_65, l_t8a_65, 27715));
    let v_w_68 = plus(v_t9_50, v_t13_54);
    let l_w_68 = 206580471 * u + 140095888 * w;
    lemma_add(v_t9_50, v_t13_54, l_t9_50, l_t13_54, 157818880, 157818880, 232149760320, 65745108000);
    assert(near(v_w_68, l_w_68, 315637760));
    let v_t9a_67 = round14_spec(v_w_68);
    let l_t9a_67 = 12609 * u + 8551 * w;
    lemma_round(v_w_68, l_w_68, 315637760, 166404652320, l_t9a_67, 27724, 4358880);
    assert(near(v_t9a_67, l_t9a_67, 27724));
    let v_w_70 = plus(v_t10_51, v_t14_55);
    let l_w_70 = -477941283 * u + 1227061509 * w;
    lemma_add(v_t10_51, v_t14_55, l_t10_51, l_t14_55, 186163200, 186163200, 361366122240, 457035217920);
    assert(near(v_w_70, l_w_70, 372326400));
    let v_t10a_69 = round14_spec(v_w_70);
    let l_t10a_69 = -29171 * u + 74894 * w;
    lemma_round(v_w_70, l_w_70, 372326400, 818401340160, l_t10a_69, 31076, 2594880);
    assert(near(v_t10a_69, l_t10a_69, 31076));
    let v_w_72 = plus(v_t11_52, v_t15_56);
    let l_w_72 = -70915713 * u - 62209716 * w;
    lemma_add(v_t11_52, v_t15_56, l_t11_52, l_t15_56, 186163200, 186163200, 179769268800, 243669474720);
    assert(near(v_w_72, l_w_72, 372326400));
    let v_t11a_71 = round14_spec(v_w_72);
    let l_t11a_71 = -4328 * u - 3797 * w;
    lemma_round(v_w_72, l_w_72, 372326400, 63900205920, l_t11a_71, 31096, 2924640);
    assert(near(v_t11a_71, l_t11a_71, 31096));
    let v_w_74 = minus(v_t8_49, v_t12_53);
    let l_w_74 = 138018761 * u + 691045543 * w;
    lemma_sub(v_t8_49, v_t12_53, l_t8_49, l_t12_53, 157818880, 157818880, 573262749600, 307809894240);
    assert(near(v_w_74, l_w_74, 315637760));
    let v_t12a_73 = round14_spec(v_w_74);
    let l_t12a_73 = 8424 * u + 42178 * w;
    lemma_round(v_w_74, l_w_74, 315637760, 397950865920, l_t12a_73, 27494, 598080);
    assert(near(v_t12a_73, l_t12a_73, 27494));
    let v_w_76 = minus(v_t9_50, v_t13_54);
    let l_w_76 = 291835515 * u + 328778794 * w;
    lemma_sub(v_t9_50, v_t13_54, l_t9_50, l_t13_54, 157818880, 157818880, 232149760320, 65745108000);
    assert(near(v_w_76, l_w_76, 315637760));
    let v_t13a_75 = round14_spec(v_w_76);
    let l_t13a_75 = 17812 * u + 20067 * w;
    lemma_round(v_w_76, l_w_76, 315637760, 297894868320, l_t13a_75, 27597, 2291040);
    assert(near(v_t13a_75, l_t13a_75, 27597));
    let v_w_78 = minus(v_t10_51, v_t14_55);
    let l_w_78 = -47374857 * u - 246685473 * w;
    lemma_sub(v_t10_51, v_t14_55, l_t10_51, l_t14_55, 186163200, 186163200, 361366122240, 457035217920);
    assert(near(v_w_78, l_w_78, 372326400));
    let v_t14a_77 = round14_spec(v_w_78);
    let l_t14a_77 = -2892 * u - 15056 * w;
    lemma_round(v_w_78, l_w_78, 372326400, 141148958400, l_t14a_77, 31376, 7507200);
    assert(near(v_t14a_77, l_t14a_77, 31376));
    let v_w_80 = minus(v_t11_52, v_t15_56);
    let l_w_80 = 319356189 * u + 562807860 * w;
    lemma_sub(v_t11_52, v_t15_56, l_t11_52, l_t15_56, 186163200, 186163200, 179769268800, 243669474720);
    assert(near(v_w_80, l_w_80, 372326400));
    let v_t15a_79 = round14_spec(v_w_80);
    let l_t15a_79 = 19492 * u + 34351 * w;
    lemma_round(v_w_80, l_w_80, 372326400, 423438743520, l_t15a_79, 30971, 871200);
    assert(near(v_t15a_79, l_t15a_79, 30971));
    let v_t4a_81 = dot_add_spec(v_t4_61, 15137, v_t5_62, 6270);
    let l_t4a_81 = -140699997 * u + 337834449 * w;
    lemma_dot_add(v_t4_61, 15137, v_t5_62, 6270, l_t4_61, l_t5_62, 16384, 16384, 12954240, 10501920);
    assert(near(v_t4a_81, l_t4a_81, 350732288));
    let v_t5a_82 = dot_sub_spec(v_t4_61, 6270, v_t5_62, 15137);
    let l_t5a_82 = 234740881 * u + 234920762 * w;
    lemma_dot_sub(v_t4_61, 6270, v_t5_62, 15137, l_t4_61, l_t5_62, 16384, 16384, 12954240, 10501920);
    assert(near(v_t5a_82, l_t5a_82, 350732288));
    let v_t6a_83 = dot_sub_spec(v_t7_64, 15137, v_t6_63, 6270);
    let l_t6a_83 = -257695975 * u + 19834472 * w;
    lemma_dot_sub(v_t7_64, 15137, v_t6_63, 6270, l_t7_64, l_t6_63, 16384, 16384, 9023520, 4361280);
    assert(near(v_t6a_83, l_t6a_83, 350732288));
    let v_t7a_84 = dot_add_spec(v_t7_64, 6270, v_t6_63, 15137);
    let l_t7a_84 = -92217747 * u - 138392359 * w;
    lemma_dot_add(v_t7_64, 6270, v_t6_63, 15137, l_t7_64, l_t6_63, 16384, 16384, 9023520, 4361280);
    assert(near(v_t7a_84, l_t7a_84, 350732288));
    let v_t12_85 = dot_add_spec(v_t12a_73, 15137, v_t13a_75, 6270);
    let l_t12_85 = 239195328 * u + 764268476 * w;
    lemma_dot_add(v_t12a_73, 15137, v_t13a_75, 6270, l_t12a_73, l_t13a_75, 27494, 27597, 24288960, 18181920);
    assert(near(v_t12_85, l_t12_85, 589209868));
    let v_t13_86 = dot_sub_spec(v_t12a_73, 6270, v_t13a_75, 15137);
    let l_t13_86 = -216801764 * u - 39298119 * w;
    lemma_dot_sub(v_t12a_73, 6270, v_t13a_75, 15137, l_t12a_73, l_t13a_75, 27494, 27597, 24288960, 18181920);
    assert(near(v_t13_86, l_t13_86, 590123169));
    let v_t14_87 = dot_sub_spec(v_t15a_79, 15137, v_t14a_77, 6270);
    let l_t14_87 = 313183244 * u + 614372207 * w;
    lemma_dot_sub(v_t15a_79, 15137, v_t14a_77, 6270, l_t15a_79, l_t14a_77, 30971, 31376, 25844640, 8615040);
    assert(near(v_t14_87, l_t14_87, 665535547));
    let v_t15_88 = dot_add_spec(v_t15a_79, 6270, v_t14a_77, 15137);
    let l_t15_88 = 78438636 * u - 12521902 * w;
    lemma_dot_add(v_t15a_79, 6270, v_t14a_77, 15137, l_t15a_79, l_t14a_77, 30971, 31376, 25844640, 8615040);
    assert(near(v_t15_88, l_t15_88, 669126682));
    let v_out0_89 = plus(v_t0_57, v_t2_59);
    let l_out0_89 = 166954 * u + 1782686 * w;
    lemma_add(v_t0_57, v_t2_59, l_t0_57, l_t2_59, 16384, 16384, 469612800, 466214400);
    assert(near(v_out0_89, l_out0_89, 32768));
    let v_w_91 = plus(v_t1_58, v_t3_60);
    let l_w_91 = -8202 * u - 3904 * w;
    lemma_add(v_t1_58, v_t3_60, l_t1_58, l_t3_60, 16384, 16384, 8534880, 2724000);
    assert(near(v_w_91, l_w_91, 32768));
    let v_out15_90 = neg_spec(v_w_91);
    let l_out15_90 = 8202 * u + 3904 * w;
    lemma_neg(v_w_91, l_w_91, 32768, 5810880);
    assert(near(v_out15_90, l_out15_90, 32768));
    let v_t2a_92 = minus(v_t0_57, v_t2_59);
    let l_t2a_92 = -808 * u + 7888 * w;
    lemma_sub(v_t0_57, v_t2_59, l_t0_57, l_t2_59, 16384, 16384, 469612800, 466214400);
    assert(near(v_t2a_92, l_t2a_92, 32768));
    let v_t3a_93 = minus(v_t1_58, v_t3_60);
    let l_t3a_93 = -16444 * u - 7012 * w;
    lemma_sub(v_t1_58, v_t3_60, l_t1_58, l_t3_60, 16384, 16384, 8534880, 2724000);
    assert(near(v_t3a_93, l_t3a_93, 32768));
    let v_w_95 = plus(v_t4a_81, v_t6a_83);
    let l_w_95 = -398395972 * u + 357668921 * w;
    lemma_add(v_t4a_81, v_t6a_83, l_t4a_81, l_t6a_83, 350732288, 350732288, 229696534080, 133214614560);
    assert(near(v_w_95, l_w_95, 701464576));
    let v_out3_94 = round14_spec(v_w_95);
    let l_out3_94 = -24316 * u + 21830 * w;
    lemma_round(v_w_95, l_w_95, 701464576, 362911148640, l_out3_94, 51265, 4237920);
    assert(near(v_out3_94, l_out3_94, 51265));
    let v_out3_96 = neg_spec(v_out3_94);
    let l_out3_96 = 24316 * u - 21830 * w;
    lemma_neg(v_out3_94, l_out3_94, 51265, 22150080);
    assert(near(v_out3_96, l_out3_96, 51265));
    let v_w_98 = plus(v_t5a_82, v_t7a_84);
    let l_w_98 = 142523134 * u + 96528403 * w;
    lemma_add(v_t5a_82, v_t7a_84, l_t5a_82, l_t7a_84, 350732288, 350732288, 225437588640, 110692850880);
    assert(near(v_w_98, l_w_98, 701464576));
    let v_out12_97 = round14_spec(v_w_98);
    let l_out12_97 = 8699 * u + 5892 * w;
    lemma_round(v_w_98, l_w_98, 701464576, 114744737760, l_out12_97, 51224, 3555360);
    assert(near(v_out12_97, l_out12_97, 51224));
    let v_w_100 = minus(v_t4a_81, v_t6a_83);
    let l_w_100 = 116995978 * u + 317999977 * w;
    lemma_sub(v_t4a_81, v_t6a_83, l_t4a_81, l_t6a_83, 350732288, 350732288, 229696534080, 133214614560);
    assert(near(v_w_100, l_w_100, 701464576));
    let v_t6_99 = round14_spec(v_w_100);
    let l_t6_99 = 7141 * u + 19409 * w;
    lemma_round(v_w_100, l_w_100, 701464576, 208798058400, l_t6_99, 51156, 2441760);
    assert(near(v_t6_99, l_t6_99, 51156));
    let v_w_102 = minus(v_t5a_82, v_t7a_84);
    let l_w_102 = 326958628 * u + 373313121 * w;
    lemma_sub(v_t5a_82, v_t7a_84, l_t5a_82, l_t7a_84, 350732288, 350732288, 225437588640, 110692850880);
    assert(near(v_w_102, l_w_102, 701464576));
    let v_t7_101 = round14_spec(v_w_102);
    let l_t7_101 = 19956 * u + 22785 * w;
    lemma_round(v_w_102, l_w_102, 701464576, 336130439520, l_t7_101, 51128, 1995360);
    assert(near(v_t7_101, l_t7_101, 51128));
    let v_w_104 = plus(v_t8a_65, v_t10a_69);
    let l_w_104 = -55829 * u + 160270 * w;
    lemma_add(v_t8a_65, v_t10a_69, l_t8a_65, l_t10a_69, 27715, 31076, 53776320, 49951200);
    assert(near(v_w_104, l_w_104, 58791));
    let v_out1_103 = neg_spec(v_w_104);
    let l_out1_103 = 55829 * u - 160270 * w;
    lemma_neg(v_w_104, l_w_104, 58791, 103727520);
    assert(near(v_out1_103, l_out1_103, 58791));
    let v_out14_105 = plus(v_t9a_67, v_t11a_71);
    let l_out14_105 = 8281 * u + 4754 * w;
    lemma_add(v_t9a_67, v_t11a_71, l_t9a_67, l_t11a_71, 27724, 31096, 10156800, 3900000);
    assert(near(v_out14_105, l_out14_105, 58820));
    let v_t10_106 = minus(v_t8a_65, v_t10a_69);
    let l_t10_106 = 2513 * u + 10482 * w;
    lemma_sub(v_t8a_65, v_t10a_69, l_t8a_65, l_t10a_69, 27715, 31076, 53776320, 49951200);
    assert(near(v_t10_106, l_t10_106, 58791));
    let v_t11_107 = minus(v_t9a_67, v_t11a_71);
    let l_t11_107 = 16937 * u + 12348 * w;
    lemma_sub(v_t9a_67, v_t11a_71, l_t9a_67, l_t11a_71, 27724, 31096, 10156800, 3900000);
    assert(near(v_t11_107, l_t11_107, 58820));
    let v_w_109 = plus(v_t12_85, v_t14_87);
    let l_w_109 = 552378572 * u + 1378640683 * w;
    lemma_add(v_t12_85, v_t14_87, l_t12_85, l_t14_87, 589209868, 665535547, 481662625920, 445226616480);
    assert(near(v_w_109, l_w_109, 1254745415));
    let v_out2_108 = round14_spec(v_w_109);
    let l_out2_108 = 33715 * u + 84146 * w;
    lemma_round(v_w_109, l_w_109, 1254745415, 926889242400, l_out2_108, 85226, 7377120);
    assert(near(v_out2_108, l_out2_108, 85226));
    let v_w_111 = plus(v_t13_86, v_t15_88);
    let l_w_111 = -138363128 * u - 51820021 * w;
    lemma_add(v_t13_86, v_t15_88, l_t13_86, l_t15_88, 590123169, 669126682, 122927943840, 43661058240);
    assert(near(v_w_111, l_w_111, 1259249851));
    let v_out13_110 = round14_spec(v_w_111);
    let l_out13_110 = -8445 * u - 3163 * w;
    lemma_round(v_w_111, l_w_111, 1259249851, 91287911520, l_out13_110, 85134, 1353120);
    assert(near(v_out13_110, l_out13_110, 85134));
    let v_out13_112 = neg_spec(v_out13_110);
    let l_out13_112 = 8445 * u + 3163 * w;
    lemma_neg(v_out13_110, l_out13_110, 85134, 5571840);
    assert(near(v_out13_112, l_out13_112, 85134));
    let v_w_114 = minus(v_t12_85, v_t14_87);
    let l_w_114 = -73987916 * u + 149896269 * w;
    lemma_sub(v_t12_85, v_t14_87, l_t12_85, l_t14_87, 589209868, 665535547, 481662625920, 445226616480);
    assert(near(v_w_114, l_w_114, 1254745415));
    let v_t14a_113 = round14_spec(v_w_114);
    let l_t14a_113 = -4516 * u + 9149 * w;
    lemma_round(v_w_114, l_w_114, 1254745415, 107464408800, l_t14a_113, 84869, 1524000);
    assert(near(v_t14a_113, l_t14a_113, 84869));
    let v_w_116 = minus(v_t13_86, v_t15_88);
    let l_w_116 = -295240400 * u - 26776217 * w;
    lemma_sub(v_t13_86, v_t15_88, l_t13_86, l_t15_88, 590123169, 669126682, 122927943840, 43661058240);
    assert(near(v_w_116, l_w_116, 1259249851));
    let v_t15a_115 = round14_spec(v_w_116);
    let l_t15a_115 = -18020 * u - 1634 * w;
    lemma_round(v_w_116, l_w_116, 1259249851, 154567976160, l_t15a_115, 85212, 2630880);
    assert(near(v_t15a_115, l_t15a_115, 85212));
    let v_out7_117 = half_neg_sum_spec(v_t2a_92, v_t3a_93);
    let l_out7_117 = 12199 * u - 619 * w;
    lemma_half_neg_sum(v_t2a_92, v_t3a_93, l_t2a_92, l_t3a_93, 32768, 32768, 4174080, 11258880, l_out7_117, 54848, 5164800);
    assert(near(v_out7_117, l_out7_117, 54848));
    let v_out8_118 = half_diff_spec(v_t2a_92, v_t3a_93);
    let l_out8_118 = 11056 * u + 10536 * w;
    lemma_half_diff(v_t2a_92, v_t3a_93, l_t2a_92, l_t3a_93, 32768, 32768, 4174080, 11258880, l_out8_118, 54734, 3302400);
    assert(near(v_out8_118, l_out8_118, 54734));
    let v_out4_119 = half_sum_spec(v_t7_101, v_t6_99);
    let l_out4_119 = 19160 * u + 29835 * w;
    lemma_half_sum(v_t7_101, v_t6_99, l_t7_101, l_t6_99, 51128, 51156, 20515680, 12744000, l_out4_119, 80580, 1034400);
    assert(near(v_out4_119, l_out4_119, 80580));
    let v_out11_120 = half_diff_spec(v_t7_101, v_t6_99);
    let l_out11_120 = 9061 * u + 2387 * w;
    lemma_half_diff(v_t7_101, v_t6_99, l_t7_101, l_t6_99, 51128, 51156, 20515680, 12744000, l_out11_120, 80772, 4177440);
    assert(near(v_out11_120, l_out11_120, 80772));
    let v_out6_121 = half_sum_spec(v_t11_107, v_t10_106);
    let l_out6_121 = 13753 * u + 16143 * w;
    lemma_half_sum(v_t11_107, v_t10_106, l_t11_107, l_t10_106, 58820, 58791, 14056800, 6237600, l_out6_121, 91421, 1086720);
    assert(near(v_out6_121, l_out6_121, 91421));
    let v_out9_122 = half_diff_spec(v_t11_107, v_t10_106);
    let l_out9_122 = 10199 * u + 1319 * w;
    lemma_half_diff(v_t11_107, v_t10_106, l_t11_107, l_t10_106, 58820, 58791, 14056800, 6237600, l_out9_122, 91610, 4194240);
    assert(near(v_out9_122, l_out9_122, 91610));
    let v_out5_123 = half_neg_sum_spec(v_t14a_113, v_t15a_115);
    let l_out5_123 = 15935 * u - 5314 * w;
    lemma_half_neg_sum(v_t14a_113, v_t15a_115, l_t14a_113, l_t15a_115, 84869, 85212, 6559200, 9433920, l_out5_123, 128567, 1834080);
    assert(near(v_out5_123, l_out5_123, 128567));
    let v_out10_124 = half_diff_spec(v_t14a_113, v_t15a_115);
    let l_out10_124 = 9549 * u + 7625 * w;
    lemma_half_diff(v_t14a_113, v_t15a_115, l_t14a_113, l_t15a_115, 84869, 85212, 6559200, 9433920, l_out10_124, 128863, 6682080);
    assert(near(v_out10_124, l_out10_124, 128863));
    let y = iadst16_spec_ops(x);
    assert(y[0] == v_out0_89);
    lemma_wider(v_out0_89, l_out0_89, 32768, 166953 * u + 1782681 * w, 136063);
    assert(y[1] == v_out1_103);
    lemma_wider(v_out1_103, l_out1_103, 58791, 55830 * u - 160273 * w, 136063);
    assert(y[2] == v_out2_108);
    lemma_wider(v_out2_108, l_out2_108, 85226, 33715 * u + 84156 * w, 136063);
    assert(y[3] == v_out3_96);
    lemma_wider(v_out3_96, l_out3_96, 51265, 24317 * u - 21822 * w, 136063);
    assert(y[4] == v_out4_119);
    lemma_wider(v_out4_119, l_out4_119, 80580, 19160 * u + 29835 * w, 136063);
    assert(y[5] == v_out5_123);
    lemma_wider(v_out5_123, l_out5_123, 128567, 15935 * u - 5325 * w, 136063);
    assert(y[6] == v_out6_121);
    lemma_wider(v_out6_121, l_out6_121, 91421, 13752 * u + 16147 * w, 136063);
    assert(y[7] == v_out7_117);
    lemma_wider(v_out7_117, l_out7_117, 54848, 12198 * u - 630 * w, 136063);
    assert(y[8] == v_out8_118);
    lemma_wider(v_out8_118, l_out8_118, 54734, 11056 * u + 10538 * w, 136063);
    assert(y[9] == v_out9_122);
    lemma_wider(v_out9_122, l_out9_122, 91610, 10199 * u + 1317 * w, 136063);
    assert(y[10] == v_out10_124);
    lemma_wider(v_out10_124, l_out10_124, 128863, 9551 * u + 7638 * w, 136063);
    assert(y[11] == v_out11_120);
    lemma_wider(v_out11_120, l_out11_120, 80772, 9062 * u + 2388 * w, 136063);
    assert(y[12] == v_out12_97);
    lemma_wider(v_out12_97, l_out12_97, 51224, 8701 * u + 5907 * w, 136063);
    assert(y[13] == v_out13_112);
    lemma_wider(v_out13_112, l_out13_112, 85134, 8445 * u + 3165 * w, 136063);
    assert(y[14] == v_out14_105);
    lemma_wider(v_out14_105, l_out14_105, 58820, 8282 * u + 4755 * w, 136063);
    assert(y[15] == v_out15_90);
    lemma_wider(v_out15_90, l_out15_90, 32768, 8202 * u + 3899 * w, 136063);
}

/// The 16-point sine transform of coefficients on a line gives at each place the sum of their sines.
pub proof fn law_iadst16_of_a_line(x: Seq<i32>, u: int, w: int, i: int)
    requires
        on_a_line(x, 16, u, w),
        0 <= i < 16,
    ensures
        near(iadst16_spec(x)[i], sine_line_weights(i).0 * u + sine_line_weights(i).1 * w, 136063),
{
    lemma_sine_line(x, u, w);
}

/// The 32-point cosine transform with its odd coefficients on a line: the values at two places that mirror
/// each other differ by twice the sum of their cosines, whatever the even coefficients.
pub proof fn law_idct32_of_a_line(x: Seq<i32>, u: int, w: int, i: int)
    requires
        x.len() == 32,
        on_a_line(odds(x), 16, u, w),
        0 <= i < 16,
        -0x1000_0000 <= idct16_spec(evens(x))[i] <= 0x1000_0000,
    ensures
        -512332 <= 16384 * (idct32_spec(x)[i] - idct32_spec(x)[31 - i]) - 2 * (cosine_line_weights(i).0
            * u + cosine_line_weights(i).1 * w) <= 512332,
{
    lemma_cosine_line(odds(x), u, w);
    lemma_difference(x, u, w, i);
}

proof fn lemma_difference(x: Seq<i32>, u: int, w: int, i: int)
    requires
        x.len() == 32,
        -480 <= u <= 480,
        -480 <= w <= 480,
        0 <= i < 16,
        -0x1000_0000 <= idct16_spec(evens(x))[i] <= 0x1000_0000,
        idct32_odd_spec(odds(x)).len() == 16,
        near(
            idct32_odd_spec(odds(x))[i],
            cosine_line_weights(i).0 * u + cosine_line_weights(i).1 * w,
            256166,
        ),
    ensures
        -512332 <= 16384 * (idct32_spec(x)[i] - idct32_spec(x)[31 - i]) - 2 * (cosine_line_weights(i).0
            * u + cosine_line_weights(i).1 * w) <= 512332,
{
    reveal(near);
    let o = idct32_odd_spec(odds(x))[i];
    let e = idct16_spec(evens(x))[i];
    let l: int = cosine_line_weights(i).0 * u + cosine_line_weights(i).1 * w;
    lemma_weights_small(i, u, w);
    assert(-0x1000_0000 <= o <= 0x1000_0000);
    assert(idct4_spec(evens(evens(evens(x)))).len() == 4) by {
        reveal(idct4_spec);
    }
    assert(idct8_spec(evens(evens(x))).len() == 8);
    assert(idct16_spec(evens(x)).len() == 16);
    assert(idct32_spec(x)[i] == e + o);
    assert(idct32_spec(x)[31 - i] == e - o);
}

proof fn lemma_weights_small(i: int, u: int, w: int)
    requires
        0 <= i < 16,
        -480 <= u <= 480,
        -480 <= w <= 480,
    ensures
        -0x1_0000_0000 <= cosine_line_weights(i).0 * u + cosine_line_weights(i).1 * w <= 0x1_0000_0000,
{
    let a = cosine_line_weights(i).0;
    let b = cosine_line_weights(i).1;
    assert(-4000000 <= a <= 4000000 && -4000000 <= b <= 4000000);
    assert(-0x8000_0000 <= a * u <= 0x8000_0000) by (nonlinear_arith)
        requires
            -4000000 <= a <= 4000000,
            -480 <= u <= 480,
    ;
    assert(-0x8000_0000 <= b * w <= 0x8000_0000) by (nonlinear_arith)
        requires
            -4000000 <= b <= 4000000,
            -480 <= w <= 480,
    ;
}

} // verus!

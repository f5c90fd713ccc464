//! Probabilities move towards what was counted.
use vstd::arithmetic::div_mod::lemma_fundamental_div_mod_converse;
use vstd::prelude::*;

use crate::vp9::bool_decoder::Rac;
use crate::vp9::coef_laws::{behind, lemma_reads_one, lemma_reads_parts, reads, two_to, Decision};
use crate::vp9::compressed::{diff_index, update_prob_spec, INV_MAP_TABLE};
use crate::vp9::prob::{
    adapt20, adapt_coef_row_spec, adapt_four_spec, adapt_inter_mode_spec, adapt_mv_class_spec,
    adapt_spec, adapt_three_spec, adapt_y_mode_spec, clamp_prob,
};
use crate::vp9::symbol_laws::{class_code, intra_mode_code};
use crate::vp9::types::IntraMode;

verus! {

/// Whether `s` is the share of `zeros` among `all`, in 256ths.
pub open spec fn is_share(s: int, zeros: int, all: int) -> bool {
    -all < 512 * zeros - 2 * (s * all) < all
}

proof fn lemma_share(s: int, zeros: u32, ones: u32)
    requires
        0 < zeros + ones <= u32::MAX,
        is_share(s, zeros as int, zeros + ones),
    ensures
        (zeros * 256 + (zeros + ones) / 2) / (zeros + ones) == s,
{
    let all: int = zeros + ones;
    let x: int = zeros * 256 + all / 2;
    let m: int = s * all;
    lemma_fundamental_div_mod_converse(x, all, s, x - m);
}

/// How far a probability goes towards the share of `all` symbols, in 256ths, where `full` symbols
/// take it as far as `factor`.
spec fn pull(all: int, full: int, factor: int) -> int {
    factor * (if all < full {
        all
    } else {
        full
    }) / full
}

proof fn lemma_pull(all: int, full: int, factor: int)
    requires
        0 < all,
        0 < full,
        0 < factor <= 128,
    ensures
        0 <= pull(all, full, factor) <= factor,
        all >= full ==> pull(all, full, factor) == factor,
{
    let few: int = if all < full {
        all
    } else {
        full
    };
    assert(0 <= factor * few / full <= factor) by (nonlinear_arith)
        requires
            0 < few <= full,
            0 < factor,
    ;
    if all >= full {
        assert(factor * few / full == factor) by (nonlinear_arith)
            requires
                few == full,
                0 < full,
        ;
    }
}

/// What a probability becomes, with the share in it given.
proof fn lemma_adapted(p: u8, zeros: u32, ones: u32, s: int, full: int, factor: int)
    requires
        0 < zeros + ones <= u32::MAX,
        0 < full,
        0 < factor <= 128,
        1 <= s <= 255 && is_share(s, zeros as int, zeros + ones) || ones == 0 && s == 255 || zeros == 0
            && s == 1,
    ensures
        adapt_spec(p, zeros, ones, full, factor) == clamp_prob(
            p + ((s - p) * pull(zeros + ones, full, factor) + 128) / 256,
        ),
{
    reveal(adapt_spec);
    let all: int = zeros + ones;
    let x: int = zeros * 256 + all / 2;
    if 1 <= s <= 255 && is_share(s, zeros as int, all) {
        lemma_share(s, zeros, ones);
    } else if ones == 0 {
        lemma_fundamental_div_mod_converse(x, all, 256, all / 2);
    } else {
        lemma_fundamental_div_mod_converse(x, all, 0, all / 2);
    }
}

/// After enough symbols a probability stands in the middle between what it was and the share of
/// zeros that was counted.
pub proof fn law_probability_meets_the_share(p: u8, zeros: u32, ones: u32, s: int)
    requires
        20 <= zeros + ones <= u32::MAX,
        1 <= p,
        1 <= s <= 255,
        is_share(s, zeros as int, zeros + ones),
    ensures
        adapt20(p, zeros, ones) == (p + s + 1) / 2,
{
    lemma_adapted(p, zeros, ones, s, 20, 128);
    lemma_pull(zeros + ones, 20, 128);
    assert((s - p) * 128 == 128 * s - 128 * p);
}

/// A probability never goes past the share of zeros that was counted, nor away from it.
pub proof fn law_probability_goes_towards_the_share(
    p: u8,
    zeros: u32,
    ones: u32,
    s: int,
    full: int,
    factor: int,
)
    requires
        0 < zeros + ones <= u32::MAX,
        1 <= p,
        1 <= s <= 255,
        is_share(s, zeros as int, zeros + ones),
        0 < full,
        0 < factor <= 128,
    ensures
        p <= s ==> p <= adapt_spec(p, zeros, ones, full, factor) <= s,
        s <= p ==> s <= adapt_spec(p, zeros, ones, full, factor) <= p,
{
    lemma_adapted(p, zeros, ones, s, full, factor);
    lemma_pull(zeros + ones, full, factor);
    let f = pull(zeros + ones, full, factor);
    let d: int = (s - p) * f;
    if p <= s {
        assert(0 <= d <= 128 * (s - p)) by (nonlinear_arith)
            requires
                d == (s - p) * f,
                0 <= s - p,
                0 <= f <= 128,
        ;
    } else {
        assert(128 * (s - p) <= d <= 0) by (nonlinear_arith)
            requires
                d == (s - p) * f,
                s - p <= 0,
                0 <= f <= 128,
        ;
    }
}

/// The more zeros among as many symbols, the higher the probability of a zero.
pub proof fn law_more_zeros_raise_the_probability(p: u8, zeros: u32, ones: u32, s: int, t: int)
    requires
        20 <= zeros + ones <= u32::MAX,
        ones >= 1,
        1 <= p,
        1 <= s <= 255,
        1 <= t <= 255,
        is_share(s, zeros as int, zeros + ones),
        is_share(t, zeros + 1, zeros + ones),
    ensures
        adapt20(p, zeros, ones) <= adapt20(p, (zeros + 1) as u32, (ones - 1) as u32),
{
    law_probability_meets_the_share(p, zeros, ones, s);
    law_probability_meets_the_share(p, (zeros + 1) as u32, (ones - 1) as u32, t);
    let all: int = zeros + ones;
    assert(s <= t) by (nonlinear_arith)
        requires
            0 < all,
            -all < 512 * zeros - 2 * (s * all) < all,
            -all < 512 * (zeros + 1) - 2 * (t * all) < all,
    ;
}

/// Whether `q` is `p` moved towards a decision: down for a one, up for a zero, and not left where it
/// was unless it was near the end.
pub open spec fn drawn(p: u8, q: u8, one: bool) -> bool {
    if one {
        q <= p && (p >= 23 ==> q < p)
    } else {
        q >= p && (p <= 233 ==> q > p)
    }
}

proof fn lemma_drawn(p: u8, n: u32)
    requires
        1 <= p,
        0 < n,
    ensures
        drawn(p, adapt20(p, n, 0), false),
        drawn(p, adapt20(p, 0, n), true),
        adapt20(p, 0, 0) == p,
{
    lemma_adapted(p, n, 0, 255, 20, 128);
    lemma_adapted(p, 0, n, 1, 20, 128);
    assert(adapt20(p, 0, 0) == p) by {
        reveal(adapt_spec);
    }
    lemma_pull(n as int, 20, 128);
    let f = pull(n as int, 20, 128);
    assert(6 <= f);
    let up: int = (255 - p) * f;
    let down: int = (1 - p) * f;
    assert(6 * (255 - p) <= up <= 128 * (255 - p)) by (nonlinear_arith)
        requires
            up == (255 - p) * f,
            0 <= 255 - p,
            6 <= f <= 128,
    ;
    assert(128 * (1 - p) <= down <= 6 * (1 - p)) by (nonlinear_arith)
        requires
            down == (1 - p) * f,
            1 - p <= 0,
            6 <= f <= 128,
    ;
}

/// Whether the symbol `v` alone was counted, `n` times.
pub open spec fn only(c: Seq<u32>, v: int, n: u32) -> bool {
    &&& 0 <= v < c.len()
    &&& forall|i: int| #![trigger c[i]] 0 <= i < c.len() ==> c[i] == (if i == v {
        n
    } else {
        0u32
    })
}

/// Whether the probabilities `q` are `p` drawn towards the decisions in `path`, each named by the
/// place of its probability, and all others are left.
pub open spec fn drawn_along(p: Seq<u8>, q: Seq<u8>, path: Seq<(int, bool)>) -> bool {
    &&& q.len() == p.len()
    &&& forall|k: int|
        #![trigger path[k]]
        0 <= k < path.len() ==> drawn(p[path[k].0], q[path[k].0], path[k].1)
    &&& forall|i: int|
        #![trigger q[i]]
        0 <= i < p.len() && (forall|k: int| 0 <= k < path.len() ==> path[k].0 != i) ==> q[i] == p[i]
}

/// The way to a symbol where one after the other is ruled out.
pub open spec fn unary_path(v: int, last: int) -> Seq<(int, bool)> {
    Seq::new(
        (if v == last {
            v
        } else {
            v + 1
        }) as nat,
        |k: int| (k, k < v),
    )
}

/// All probabilities drawn by one symbol.
proof fn lemma_all_drawn(p: Seq<u8>, n: u32)
    requires
        0 < n,
        forall|i: int| #![trigger p[i]] 0 <= i < p.len() ==> p[i] >= 1,
    ensures
        forall|i: int| #![trigger p[i]]
            0 <= i < p.len() ==> drawn(p[i], adapt20(p[i], n, 0), false) && drawn(
                p[i],
                adapt20(p[i], 0, n),
                true,
            ) && adapt20(p[i], 0, 0) == p[i],
        n.wrapping_add(0) == n,
        0u32.wrapping_add(n) == n,
        0u32.wrapping_add(0) == 0,
{
    assert forall|i: int| #![trigger p[i]] 0 <= i < p.len() implies drawn(
        p[i],
        adapt20(p[i], n, 0),
        false,
    ) && drawn(p[i], adapt20(p[i], 0, n), true) && adapt20(p[i], 0, 0) == p[i] by {
        lemma_drawn(p[i], n);
    }
}

/// A symbol out of three that alone was counted becomes likelier: each decision on the way to it is
/// drawn to it, no other moves.
pub proof fn law_three_follow_what_was_counted(p: Seq<u8>, c: Seq<u32>, v: int, n: u32)
    requires
        p.len() == 2,
        c.len() == 3,
        forall|i: int| #![trigger p[i]] 0 <= i < 2 ==> p[i] >= 1,
        only(c, v, n),
        0 < n,
    ensures
        drawn_along(p, adapt_three_spec(p, c), unary_path(v, 2)),
{
    lemma_all_drawn(p, n);
    let path = unary_path(v, 2);
    let q = adapt_three_spec(p, c);
    assert forall|i: int| #![trigger q[i]]
        0 <= i < 2 && (forall|k: int| 0 <= k < path.len() ==> path[k].0 != i) implies q[i] == p[i] by {
        if i < path.len() {
            assert(path[i].0 == i);
        }
    }
}

/// A symbol out of four that alone was counted becomes likelier.
pub proof fn law_four_follow_what_was_counted(p: Seq<u8>, c: Seq<u32>, v: int, n: u32)
    requires
        p.len() == 3,
        c.len() == 4,
        forall|i: int| #![trigger p[i]] 0 <= i < 3 ==> p[i] >= 1,
        only(c, v, n),
        0 < n,
    ensures
        drawn_along(p, adapt_four_spec(p, c), unary_path(v, 3)),
{
    lemma_all_drawn(p, n);
    let path = unary_path(v, 3);
    let q = adapt_four_spec(p, c);
    assert forall|i: int| #![trigger q[i]]
        0 <= i < 3 && (forall|k: int| 0 <= k < path.len() ==> path[k].0 != i) implies q[i] == p[i] by {
        if i < path.len() {
            assert(path[i].0 == i);
        }
    }
}

/// An inter mode that alone was counted becomes likelier. The counts are those of the nearest
/// vector, the next, none and a coded one; the code has none first.
pub proof fn law_inter_modes_follow_what_was_counted(p: Seq<u8>, c: Seq<u32>, v: int, n: u32)
    requires
        p.len() == 3,
        c.len() == 4,
        forall|i: int| #![trigger p[i]] 0 <= i < 3 ==> p[i] >= 1,
        only(c, if v == 0 {
            2
        } else if v == 3 {
            3
        } else {
            v - 1
        }, n),
        0 <= v < 4,
        0 < n,
    ensures
        drawn_along(p, adapt_inter_mode_spec(p, c), unary_path(v, 3)),
{
    lemma_all_drawn(p, n);
    let path = unary_path(v, 3);
    let q = adapt_inter_mode_spec(p, c);
    assert forall|i: int| #![trigger q[i]]
        0 <= i < 3 && (forall|k: int| 0 <= k < path.len() ==> path[k].0 != i) implies q[i] == p[i] by {
        if i < path.len() {
            assert(path[i].0 == i);
        }
    }
}

/// What coefficients were counted draws the probabilities of a token: that there is more, that it is
/// no zero, that it is more than one.
pub proof fn law_coefficients_follow_what_was_counted(
    p: Seq<u8>,
    c: Seq<u32>,
    e: Seq<u32>,
    factor: int,
    n: u32,
)
    requires
        p.len() == 3,
        c.len() == 3,
        e.len() == 2,
        24 <= n,
        0 < factor <= 128,
        forall|i: int| #![trigger p[i]] 0 <= i < 3 ==> p[i] >= 1,
    ensures
        only(e, 0, n) ==> adapt_coef_row_spec(p, c, e, factor)[0] >= p[0],
        only(e, 1, n) ==> adapt_coef_row_spec(p, c, e, factor)[0] <= p[0],
        only(c, 0, n) ==> adapt_coef_row_spec(p, c, e, factor)[1] >= p[1],
        only(c, 0, n) ==> adapt_coef_row_spec(p, c, e, factor)[2] == p[2],
        only(c, 1, n) ==> adapt_coef_row_spec(p, c, e, factor)[1] <= p[1],
        only(c, 1, n) ==> adapt_coef_row_spec(p, c, e, factor)[2] >= p[2],
        only(c, 2, n) ==> adapt_coef_row_spec(p, c, e, factor)[1] <= p[1],
        only(c, 2, n) ==> adapt_coef_row_spec(p, c, e, factor)[2] <= p[2],
        factor == 112 && only(c, 1, n) && 10 <= p[2] <= 245 ==> adapt_coef_row_spec(
            p,
            c,
            e,
            factor,
        )[2] > p[2],
{
    lemma_drawn_by(p[0], n, factor);
    lemma_drawn_by(p[1], n, factor);
    lemma_drawn_by(p[2], n, factor);
    reveal(adapt_spec);
}

proof fn lemma_drawn_by(p: u8, n: u32, factor: int)
    requires
        1 <= p,
        24 <= n,
        0 < factor <= 128,
    ensures
        adapt_spec(p, n, 0, 24, factor) >= p,
        adapt_spec(p, 0, n, 24, factor) <= p,
        adapt_spec(p, 0, 0, 24, factor) == p,
        factor == 112 && p <= 245 ==> adapt_spec(p, n, 0, 24, factor) > p,
{
    lemma_adapted(p, n, 0, 255, 24, factor);
    lemma_adapted(p, 0, n, 1, 24, factor);
    assert(adapt_spec(p, 0, 0, 24, factor) == p) by {
        reveal(adapt_spec);
    }
    lemma_pull(n as int, 24, factor);
    let up: int = (255 - p) * factor;
    let down: int = (1 - p) * factor;
    assert(0 <= up <= 128 * (255 - p)) by (nonlinear_arith)
        requires
            up == (255 - p) * factor,
            0 <= 255 - p,
            0 <= factor <= 128,
    ;
    assert(128 * (1 - p) <= down <= 0) by (nonlinear_arith)
        requires
            down == (1 - p) * factor,
            1 - p <= 0,
            0 <= factor <= 128,
    ;
    if factor == 112 {
        assert(up == 112 * (255 - p)) by (nonlinear_arith)
            requires
                up == (255 - p) * factor,
                factor == 112,
        ;
    }
}

/// The decisions along a way, with the probabilities at their places.
pub open spec fn ways(p: Seq<u8>, path: Seq<(int, bool)>) -> Seq<Decision> {
    Seq::new(path.len(), |k: int| (p[path[k].0], path[k].1))
}

/// The way to an intra mode.
pub open spec fn intra_path(m: IntraMode) -> Seq<(int, bool)> {
    match m {
        IntraMode::DcPred => seq![(0int, false)],
        IntraMode::TmVp8Pred => seq![(0int, true), (1int, false)],
        IntraMode::VertPred => seq![(0int, true), (1int, true), (2int, false)],
        IntraMode::HorPred => seq![
            (0int, true),
            (1int, true),
            (2int, true),
            (3int, false),
            (4int, false),
        ],
        IntraMode::DiagDownRightPred => seq![
            (0int, true),
            (1int, true),
            (2int, true),
            (3int, false),
            (4int, true),
            (5int, false),
        ],
        IntraMode::VertRightPred => seq![
            (0int, true),
            (1int, true),
            (2int, true),
            (3int, false),
            (4int, true),
            (5int, true),
        ],
        IntraMode::DiagDownLeftPred => seq![
            (0int, true),
            (1int, true),
            (2int, true),
            (3int, true),
            (6int, false),
        ],
        IntraMode::VertLeftPred => seq![
            (0int, true),
            (1int, true),
            (2int, true),
            (3int, true),
            (6int, true),
            (7int, false),
        ],
        IntraMode::HorDownPred => seq![
            (0int, true),
            (1int, true),
            (2int, true),
            (3int, true),
            (6int, true),
            (7int, true),
            (8int, false),
        ],
        _ => seq![
            (0int, true),
            (1int, true),
            (2int, true),
            (3int, true),
            (6int, true),
            (7int, true),
            (8int, true),
        ],
    }
}

/// The place of an intra mode among the counts.
pub open spec fn intra_place(m: IntraMode) -> int {
    match m {
        IntraMode::VertPred => 0,
        IntraMode::HorPred => 1,
        IntraMode::DcPred => 2,
        IntraMode::DiagDownLeftPred => 3,
        IntraMode::DiagDownRightPred => 4,
        IntraMode::VertRightPred => 5,
        IntraMode::HorDownPred => 6,
        IntraMode::VertLeftPred => 7,
        IntraMode::HorUpPred => 8,
        _ => 9,
    }
}

proof fn lemma_intra_ways(p: Seq<u8>, m: IntraMode)
    ensures
        ways(p, intra_path(m)) == intra_mode_code(m, p),
{
    let w = ways(p, intra_path(m));
    let c = intra_mode_code(m, p);
    match m {
        IntraMode::DcPred => assert(w =~= c),
        IntraMode::TmVp8Pred => assert(w =~= c),
        IntraMode::VertPred => assert(w =~= c),
        IntraMode::HorPred => assert(w =~= c),
        IntraMode::DiagDownRightPred => assert(w =~= c),
        IntraMode::VertRightPred => assert(w =~= c),
        IntraMode::DiagDownLeftPred => assert(w =~= c),
        IntraMode::VertLeftPred => assert(w =~= c),
        IntraMode::HorDownPred => assert(w =~= c),
        _ => assert(w =~= c),
    }
}

/// An intra mode that alone was counted becomes likelier: the decisions that its code makes are
/// drawn to it, no other moves.
#[verifier::rlimit(60)]
pub proof fn law_intra_modes_follow_what_was_counted(p: Seq<u8>, c: Seq<u32>, m: IntraMode, n: u32)
    requires
        p.len() == 9,
        c.len() == 10,
        forall|i: int| #![trigger p[i]] 0 <= i < 9 ==> p[i] >= 1,
        m.code_spec() <= 9,
        only(c, intra_place(m), n),
        0 < n,
    ensures
        ways(p, intra_path(m)) == intra_mode_code(m, p),
        drawn_along(p, adapt_y_mode_spec(p, c), intra_path(m)),
{
    lemma_all_drawn(p, n);
    let path = intra_path(m);
    let q = adapt_y_mode_spec(p, c);
    lemma_intra_ways(p, m);
    assert forall|i: int| #![trigger q[i]]
        0 <= i < 9 && (forall|k: int| 0 <= k < path.len() ==> path[k].0 != i) implies q[i] == p[i] by {
        lemma_apart(path, i);
    }
}

/// A place that no decision of a short way has, decision by decision.
proof fn lemma_apart(path: Seq<(int, bool)>, i: int)
    requires
        forall|k: int| 0 <= k < path.len() ==> path[k].0 != i,
    ensures
        0 < path.len() ==> path[0].0 != i,
        1 < path.len() ==> path[1].0 != i,
        2 < path.len() ==> path[2].0 != i,
        3 < path.len() ==> path[3].0 != i,
        4 < path.len() ==> path[4].0 != i,
        5 < path.len() ==> path[5].0 != i,
        6 < path.len() ==> path[6].0 != i,
{
}

/// The way to a class of the components of motion vectors.
pub open spec fn class_path(v: int) -> Seq<(int, bool)> {
    let start = seq![(0int, true), (1int, true)];
    let far = start + seq![(2int, true), (4int, true)];
    if v == 0 {
        seq![(0int, false)]
    } else if v == 1 {
        seq![(0int, true), (1int, false)]
    } else if v <= 3 {
        start + seq![(2int, false), (3int, v == 3)]
    } else if v <= 5 {
        start + seq![(2int, true), (4int, false), (5int, v == 5)]
    } else if v == 6 {
        far + seq![(6int, false)]
    } else if v <= 8 {
        far + seq![(6int, true), (7int, false), (8int, v == 8)]
    } else {
        far + seq![(6int, true), (7int, true), (9int, v == 10)]
    }
}

/// A class that alone was counted becomes likelier: the decisions that its code makes are drawn to
/// it, no other moves.
pub proof fn law_classes_follow_what_was_counted(p: Seq<u8>, c: Seq<u32>, v: int, n: u32)
    requires
        p.len() == 10,
        c.len() == 11,
        forall|i: int| #![trigger p[i]] 0 <= i < 10 ==> p[i] >= 1,
        only(c, v, n),
        0 < n,
    ensures
        ways(p, class_path(v)) == class_code(v, p),
        drawn_along(p, adapt_mv_class_spec(p, c), class_path(v)),
{
    lemma_all_drawn(p, n);
    let path = class_path(v);
    let q = adapt_mv_class_spec(p, c);
    assert(ways(p, path) =~= class_code(v, p));
    assert forall|i: int| #![trigger q[i]]
        0 <= i < 10 && (forall|k: int| 0 <= k < path.len() ==> path[k].0 != i) implies q[i] == p[i] by {
        lemma_apart(path, i);
    }
}

/// A number in binary, the highest digit first, each digit as likely as not.
pub open spec fn even_code(v: int, digits: nat) -> Seq<Decision>
    decreases digits,
{
    if digits == 0 {
        Seq::empty()
    } else {
        even_code(v / 2, (digits - 1) as nat).push((128u8, v % 2 == 1))
    }
}

/// A number in even digits is read back.
pub proof fn law_number_is_read_back(rac: Rac, v: int, digits: nat)
    requires
        0 <= v < two_to(digits),
        digits <= 30,
        reads(rac, even_code(v, digits)),
    ensures
        rac.uint(digits as int) == v,
        rac.after_uint(digits as int) == behind(rac, even_code(v, digits)),
    decreases digits,
{
    if digits > 0 {
        let d = (digits - 1) as nat;
        let head = even_code(v / 2, d);
        let bit = v % 2 == 1;
        assert(even_code(v, digits) =~= head + seq![(128u8, bit)]);
        lemma_reads_parts(rac, head, seq![(128u8, bit)]);
        law_number_is_read_back(rac, v / 2, d);
        lemma_reads_one(behind(rac, head), 128, bit);
        let x: u32 = rac.uint(d as int);
        lemma_two_to_bound(d);
        assert(((x << 1) | 1u32) == 2 * x + 1 && ((x << 1) | 0u32) == 2 * x) by (bit_vector)
            requires
                x < 0x20000000u32,
        ;
    }
}

proof fn lemma_two_to_bound(n: nat)
    requires
        n <= 29,
    ensures
        two_to(n) <= 0x20000000,
    decreases 29 - n,
{
    if n < 29 {
        lemma_two_to_bound(n + 1);
    } else {
        reveal_with_fuel(two_to, 30);
    }
}

/// The code of the number of a difference: short ones for the coarse steps.
pub open spec fn difference_number_code(d: int) -> Seq<Decision> {
    if d < 16 {
        seq![(128u8, false)] + even_code(d, 4)
    } else if d < 32 {
        seq![(128u8, true), (128u8, false)] + even_code(d - 16, 4)
    } else if d < 64 {
        seq![(128u8, true), (128u8, true), (128u8, false)] + even_code(d - 32, 5)
    } else if d < 129 {
        seq![(128u8, true), (128u8, true), (128u8, true)] + even_code(d - 64, 7)
    } else {
        seq![(128u8, true), (128u8, true), (128u8, true)] + even_code(d + 1, 8)
    }
}

proof fn lemma_reads_two(rac: Rac, last: bool)
    ensures
        reads(rac, seq![(128u8, true), (128u8, last)]) <==> rac.bit(128) && rac.after(128).bit(128)
            == last,
        behind(rac, seq![(128u8, true), (128u8, last)]) == rac.after(128).after(128),
{
    assert(seq![(128u8, true), (128u8, last)] =~= seq![(128u8, true)] + seq![(128u8, last)]);
    lemma_reads_parts(rac, seq![(128u8, true)], seq![(128u8, last)]);
    lemma_reads_one(rac, 128, true);
    lemma_reads_one(rac.after(128), 128, last);
}

proof fn lemma_reads_three(rac: Rac, last: bool)
    ensures
        reads(rac, seq![(128u8, true), (128u8, true), (128u8, last)]) <==> rac.bit(128) && rac.after(
            128,
        ).bit(128) && rac.after(128).after(128).bit(128) == last,
        behind(rac, seq![(128u8, true), (128u8, true), (128u8, last)]) == rac.after(128).after(
            128,
        ).after(128),
{
    let head = seq![(128u8, true), (128u8, true)];
    assert(seq![(128u8, true), (128u8, true), (128u8, last)] =~= head + seq![(128u8, last)]);
    lemma_reads_parts(rac, head, seq![(128u8, last)]);
    lemma_reads_two(rac, true);
    lemma_reads_one(rac.after(128).after(128), 128, last);
}

/// The number of a difference between two probabilities is read back.
pub proof fn law_difference_number_is_read_back(rac: Rac, d: int)
    requires
        0 <= d <= 254,
        reads(rac, difference_number_code(d)),
    ensures
        diff_index(rac) == (d, behind(rac, difference_number_code(d))),
{
    assert(two_to(4) == 16 && two_to(5) == 32 && two_to(7) == 128) by {
        reveal_with_fuel(two_to, 8);
    }
    lemma_reads_one(rac, 128, false);
    lemma_reads_two(rac, false);
    lemma_reads_three(rac, d >= 64);
    if d < 16 {
        lemma_reads_parts(rac, seq![(128u8, false)], even_code(d, 4));
        law_number_is_read_back(rac.after(128), d, 4);
    } else if d < 32 {
        lemma_reads_parts(rac, seq![(128u8, true), (128u8, false)], even_code(d - 16, 4));
        law_number_is_read_back(rac.after(128).after(128), d - 16, 4);
    } else {
        let s3 = rac.after(128).after(128).after(128);
        if d < 64 {
            let head = seq![(128u8, true), (128u8, true), (128u8, false)];
            lemma_reads_parts(rac, head, even_code(d - 32, 5));
            law_number_is_read_back(s3, d - 32, 5);
        } else {
            let head = seq![(128u8, true), (128u8, true), (128u8, true)];
            if d < 129 {
                lemma_reads_parts(rac, head, even_code(d - 64, 7));
                law_number_is_read_back(s3, d - 64, 7);
            } else {
                lemma_reads_parts(rac, head, even_code(d + 1, 8));
                let high = even_code((d + 1) / 2, 7);
                let bit = (d + 1) % 2 == 1;
                assert(even_code(d + 1, 8) =~= high + seq![(128u8, bit)]);
                lemma_reads_parts(s3, high, seq![(128u8, bit)]);
                lemma_reads_one(behind(s3, high), 128, bit);
                law_number_is_read_back(s3, (d + 1) / 2, 7);
            }
        }
    }
}

/// How far the coded difference of a probability goes.
pub open spec fn step_of(s: Rac) -> int {
    INV_MAP_TABLE@[diff_index(s).0] as int
}

/// How far a probability is from another one.
pub open spec fn distance(a: int, b: int) -> int {
    if a < b {
        b - a
    } else {
        a - b
    }
}

/// A coded difference always changes the probability, to a valid one, and another step gives another
/// probability: the smaller the step, the nearer. The two smallest steps give the two neighbours.
pub proof fn law_steps_reach_other_probabilities(s: Rac, t: Rac, p: u8)
    requires
        1 <= p,
        1 <= step_of(s) <= 253,
        1 <= step_of(t) <= 253,
    ensures
        update_prob_spec(s, p).0 != p,
        1 <= update_prob_spec(s, p).0,
        step_of(s) != step_of(t) ==> update_prob_spec(s, p).0 != update_prob_spec(t, p).0,
        step_of(s) < step_of(t) ==> distance(update_prob_spec(s, p).0 as int, p as int) <= distance(
            update_prob_spec(t, p).0 as int,
            p as int,
        ),
        step_of(s) == 1 && 1 < p <= 128 ==> update_prob_spec(s, p).0 == p - 1,
        step_of(s) == 2 && 1 < p <= 128 ==> update_prob_spec(s, p).0 == p + 1,
        step_of(s) == 1 && 128 < p < 255 ==> update_prob_spec(s, p).0 == p + 1,
        step_of(s) == 2 && 128 < p < 255 ==> update_prob_spec(s, p).0 == p - 1,
{
}

} // verus!

//! What the prediction of motion vectors means.
use vstd::prelude::*;

use crate::vp9::bool_decoder::Rac;
use crate::vp9::mvs::{
    clamp_mv_spec, fill_mv_spec, find_ref_mv_spec, near_stage, neighbor_spec, other_stage,
    prev_pair_spec, round_mv_spec, take_mv_spec, MvSearchCtx, Query, Search, INVALID_MV,
    NEARMV, NEWMV, ZEROMV,
};
use crate::vp9::prob::CountView;
use crate::vp9::refs::MvRefPair;
use crate::vp9::types::ProbContext;

verus! {

/// A number brought into a range.
pub open spec fn clamped(v: int, lo: int, hi: int) -> int {
    if v < lo {
        lo
    } else if v > hi {
        hi
    } else {
        v
    }
}

/// Whether a predicted vector is a given one, columns and rows each brought into the limits of the
/// block.
pub open spec fn is_vector(r: (i16, i16), mv: [i16; 2], q: Query) -> bool {
    &&& r.0 == clamped(mv@[0] as int, q.ctx.min_mv@[0] as int, q.ctx.max_mv@[0] as int)
    &&& r.1 == clamped(mv@[1] as int, q.ctx.min_mv@[1] as int, q.ctx.max_mv@[1] as int)
}

/// Whether a predicted vector is the opposite of a given one, brought into the limits of the block.
pub open spec fn is_opposite(r: (i16, i16), mv: [i16; 2], q: Query) -> bool {
    &&& r.0 == clamped(-(mv@[0] as int), q.ctx.min_mv@[0] as int, q.ctx.max_mv@[0] as int)
    &&& r.1 == clamped(-(mv@[1] as int), q.ctx.min_mv@[1] as int, q.ctx.max_mv@[1] as int)
}

/// Whether a place has the vector `mv` for a reference: the first vector belongs to the first reference
/// and the second to the second. Where both are the one that is looked for, the first counts.
pub open spec fn has_vector(pair: MvRefPair, r: i8, mv: [i16; 2]) -> bool {
    ||| pair.ref_frame@[0] == r && mv == pair.mv@[0]
    ||| pair.ref_frame@[0] != r && pair.ref_frame@[1] == r && mv == pair.mv@[1]
}

/// Whether a place has no vector for a reference.
pub open spec fn lacks(pair: MvRefPair, r: i8) -> bool {
    pair.ref_frame@[0] != r && pair.ref_frame@[1] != r
}

/// The place that lies `dr` rows and `dc` columns of 8 pixels from a block, where it lies in the tile and
/// in the frame.
pub open spec fn place_at(q: Query, dr: int, dc: int) -> Option<MvRefPair> {
    let r = q.row + 2 * dr;
    let c = q.col + 2 * dc;
    if 0 <= r < q.ctx.rows_4x4 && q.ctx.tile_col_start <= c < q.ctx.cols_4x4 {
        Some(q.grid[r * q.ctx.cols_4x4 + c])
    } else {
        None
    }
}

/// The neighbours are places around the block: the table holds columns, then rows.
proof fn lemma_neighbor(q: Query, i: int)
    requires
        0 <= i < 8,
    ensures
        ({
            let d = crate::vp9::data::MV_REF_BLK_OFF@[q.bs.code_spec() as int]@[i]@;
            neighbor_spec(q, i) == place_at(q, d[1] as int, d[0] as int)
        }),
{
}

proof fn lemma_found_stays(s: Search, q: Query, i: int)
    requires
        s.found is Some,
    ensures
        near_stage(s, q, i) == s,
        other_stage(s, q, i) == s,
    decreases 8 - i,
{
    if i < 8 {
        lemma_found_stays(s, q, i + 1);
    }
}

/// Neighbours without the reference do not count in the first round.
proof fn lemma_lacking(s: Search, q: Query, i: int, k: int)
    requires
        0 <= i <= k <= 8,
        forall|j: int|
            i <= j < k ==> (#[trigger] neighbor_spec(q, j) matches Some(p) ==> lacks(p, q.ref_idx)),
    ensures
        near_stage(s, q, i) == near_stage(s, q, k),
    decreases k - i,
{
    if i < k {
        assert(neighbor_spec(q, i) matches Some(p) ==> lacks(p, q.ref_idx));
        lemma_lacking(s, q, i + 1, k);
    }
}

/// The nearest vector of a whole block is that of the first neighbour, in the order of the search, that
/// was predicted from the same reference: the vector that this neighbour has for that reference, brought
/// into the limits.
pub proof fn law_first_neighbor_predicts(q: Query, i: int, pair: MvRefPair, mv: [i16; 2])
    requires
        q.sb == -1,
        q.idx == 0,
        q.ctx.wf(),
        0 <= i < 8,
        neighbor_spec(q, i) == Some(pair),
        has_vector(pair, q.ref_idx, mv),
        forall|j: int|
            0 <= j < i ==> (#[trigger] neighbor_spec(q, j) matches Some(p) ==> lacks(p, q.ref_idx)),
    ensures
        is_vector(find_ref_mv_spec(q), mv, q),
{
    let s0 = Search { found: None, mem: INVALID_MV, mem_sub8x8: INVALID_MV };
    lemma_lacking(s0, q, 0, i);
    let s1 = crate::vp9::mvs::offer_same_spec(s0, pair, q);
    assert(s1.found is Some);
    lemma_found_stays(s1, q, i + 1);
    lemma_found_stays(s1, q, 0);
}

/// Where every place of the frame was predicted from one reference by one motion, a whole block with a
/// neighbour in the frame is predicted by that motion, and its second vector is of no account where there
/// is no second reference.
pub proof fn law_uniform_motion_goes_on(q: Query, mv: [i16; 2], i: int)
    requires
        q.sb == -1,
        q.idx == 0,
        q.ctx.wf(),
        q.ref_idx >= 0,
        0 <= q.row < q.ctx.rows_4x4,
        0 <= q.col < q.ctx.cols_4x4,
        q.ctx.rows_4x4 * q.ctx.cols_4x4 <= q.grid.len(),
        forall|k: int|
            0 <= k < q.grid.len() ==> (#[trigger] q.grid[k]).ref_frame@[0] == q.ref_idx
                && q.grid[k].ref_frame@[1] == -1 && q.grid[k].mv@[0] == mv,
        0 <= i < 8,
        neighbor_spec(q, i) is Some,
    ensures
        is_vector(find_ref_mv_spec(q), mv, q),
{
    let j = lemma_first_some(q, 0, i);
    let d = crate::vp9::data::MV_REF_BLK_OFF@[q.bs.code_spec() as int]@[j]@;
    lemma_neighbor(q, j);
    let r = q.row + 2 * d[1];
    let c = q.col + 2 * d[0];
    assert(0 <= r * q.ctx.cols_4x4 + c < q.ctx.rows_4x4 * q.ctx.cols_4x4) by (nonlinear_arith)
        requires
            0 <= r <= q.ctx.rows_4x4 - 1,
            0 <= c < q.ctx.cols_4x4,
    ;
    law_first_neighbor_predicts(q, j, neighbor_spec(q, j)->Some_0, mv);
}

proof fn lemma_first_some(q: Query, from: int, i: int) -> (j: int)
    requires
        0 <= from <= i < 8,
        neighbor_spec(q, i) is Some,
    ensures
        from <= j <= i,
        neighbor_spec(q, j) is Some,
        forall|k: int| from <= k < j ==> #[trigger] neighbor_spec(q, k) is None,
    decreases i - from,
{
    if neighbor_spec(q, from) is Some {
        from
    } else {
        lemma_first_some(q, from + 1, i)
    }
}

/// The next vector of a whole block is the first one behind the nearest that differs from it, in the
/// order of the search.
pub proof fn law_next_vector_differs(
    q: Query,
    i: int,
    k: int,
    a: MvRefPair,
    b: MvRefPair,
    mv: [i16; 2],
    next: [i16; 2],
)
    requires
        q.sb == -1,
        q.idx == 1,
        q.ctx.wf(),
        0 <= i < k < 8,
        neighbor_spec(q, i) == Some(a),
        neighbor_spec(q, k) == Some(b),
        has_vector(a, q.ref_idx, mv),
        has_vector(b, q.ref_idx, next),
        mv@ != next@,
        // A vector of these components stands for none.
        !(mv@[0] == i16::MIN && mv@[1] == i16::MIN),
        forall|j: int|
            0 <= j < k && j != i ==> (#[trigger] neighbor_spec(q, j) matches Some(p) ==> lacks(
                p,
                q.ref_idx,
            ) || (j > i && has_vector(p, q.ref_idx, mv))),
    ensures
        is_vector(find_ref_mv_spec(q), next, q),
{
    let s0 = Search { found: None, mem: INVALID_MV, mem_sub8x8: INVALID_MV };
    lemma_lacking(s0, q, 0, i);
    let m = (mv@[0], mv@[1]);
    let n = (next@[0], next@[1]);
    lemma_packed(m, n);
    lemma_packed(m, none());
    assert(mv@[0] != next@[0] || mv@[1] != next@[1]) by {
        if mv@[0] == next@[0] && mv@[1] == next@[1] {
            assert(mv@ =~= next@);
        }
    }
    assert(crate::vp9::mvs::packed_spec(none()) == INVALID_MV) by {
        let h = none().0;
        assert((h as u16 as u32) | ((h as u16 as u32) << 16) == 0x8000_8000u32) by (bit_vector)
            requires
                h == i16::MIN,
        ;
    }
    let s1 = Search { mem: crate::vp9::mvs::packed_spec(m), ..s0 };
    assert(crate::vp9::mvs::offer_same_spec(s0, a, q) == s1);
    lemma_repeated(s1, q, i + 1, k, mv);
    let s2 = crate::vp9::mvs::offer_same_spec(s1, b, q);
    assert(s2.found is Some);
    lemma_found_stays(s2, q, k + 1);
    lemma_found_stays(s2, q, 0);
}

/// The vector whose number stands for none.
spec fn none() -> (i16, i16) {
    (i16::MIN, i16::MIN)
}

/// Vectors that differ have different numbers.
proof fn lemma_packed(a: (i16, i16), b: (i16, i16))
    ensures
        a != b ==> crate::vp9::mvs::packed_spec(a) != crate::vp9::mvs::packed_spec(b),
{
    let (p, q, r, s) = (a.0, a.1, b.0, b.1);
    assert((p as u16 as u32) | ((q as u16 as u32) << 16) == (r as u16 as u32) | ((s as u16 as u32)
        << 16) ==> p == r && q == s) by (bit_vector);
}

proof fn lemma_repeated(s: Search, q: Query, i: int, k: int, mv: [i16; 2])
    requires
        q.sb == -1,
        q.idx == 1,
        0 <= i <= k <= 8,
        s.found is None,
        s.mem != INVALID_MV,
        s.mem == crate::vp9::mvs::packed_spec((mv@[0], mv@[1])),
        forall|j: int|
            i <= j < k ==> (#[trigger] neighbor_spec(q, j) matches Some(p) ==> lacks(p, q.ref_idx)
                || has_vector(p, q.ref_idx, mv)),
    ensures
        near_stage(s, q, i) == near_stage(s, q, k),
    decreases k - i,
{
    if i < k {
        assert(neighbor_spec(q, i) matches Some(p) ==> lacks(p, q.ref_idx) || has_vector(
            p,
            q.ref_idx,
            mv,
        ));
        lemma_repeated(s, q, i + 1, k, mv);
    }
}

/// Where no neighbour was predicted from the same reference, the place of the block in the last frame
/// predicts it, if that was.
pub proof fn law_last_frame_predicts(q: Query, pair: MvRefPair, prev: Seq<MvRefPair>, mv: [i16; 2])
    requires
        q.sb == -1,
        q.idx == 0,
        q.ctx.wf(),
        q.use_last,
        q.prev == Some(prev),
        0 <= q.row * q.prev_cols + q.col < prev.len(),
        pair == prev[q.row * q.prev_cols + q.col],
        has_vector(pair, q.ref_idx, mv),
        forall|j: int|
            0 <= j < 8 ==> (#[trigger] neighbor_spec(q, j) matches Some(p) ==> lacks(p, q.ref_idx)),
    ensures
        is_vector(find_ref_mv_spec(q), mv, q),
{
    let s0 = Search { found: None, mem: INVALID_MV, mem_sub8x8: INVALID_MV };
    lemma_lacking(s0, q, 0, 8);
    assert(near_stage(s0, q, 8) == s0);
    let s1 = crate::vp9::mvs::offer_same_spec(s0, pair, q);
    lemma_found_stays(s1, q, 0);
}

/// Where nothing was predicted from the same reference, the first neighbour that was predicted from
/// another one predicts a whole block: by its vector, or, where the two references lie on different sides
/// in time, by the opposite one.
pub proof fn law_other_reference_predicts(q: Query, i: int, pair: MvRefPair)
    requires
        q.sb == -1,
        q.idx == 0,
        q.ctx.wf(),
        0 <= q.ref_idx <= 2,
        0 <= i < 8,
        neighbor_spec(q, i) == Some(pair),
        0 <= pair.ref_frame@[0] <= 2,
        pair.mv@[0]@[0] > -32768,
        pair.mv@[0]@[1] > -32768,
        prev_pair_spec(q) matches Some(p) ==> lacks(p, q.ref_idx),
        forall|j: int|
            0 <= j < 8 ==> (#[trigger] neighbor_spec(q, j) matches Some(p) ==> lacks(p, q.ref_idx)),
        forall|j: int|
            0 <= j < i ==> (#[trigger] neighbor_spec(q, j) matches Some(p) ==> p.ref_frame@[0] < 0
                && p.ref_frame@[1] < 0),
    ensures
        ({
            let same_side = q.ctx.sign_bias@[pair.ref_frame@[0] as int]
                == q.ctx.sign_bias@[q.ref_idx as int];
            &&& same_side ==> is_vector(find_ref_mv_spec(q), pair.mv@[0], q)
            &&& !same_side ==> is_opposite(find_ref_mv_spec(q), pair.mv@[0], q)
        }),
{
    let s0 = Search { found: None, mem: INVALID_MV, mem_sub8x8: INVALID_MV };
    lemma_lacking(s0, q, 0, 8);
    assert(near_stage(s0, q, 8) == s0);
    lemma_without(s0, q, 0, i);
    assert(neighbor_spec(q, i) matches Some(p) ==> lacks(p, q.ref_idx));
    let s1 = crate::vp9::mvs::offer_other_spec(s0, pair, q);
    assert(s1.found is Some);
    lemma_found_stays(s1, q, i + 1);
}

proof fn lemma_without(s: Search, q: Query, i: int, k: int)
    requires
        0 <= i <= k <= 8,
        forall|j: int|
            i <= j < k ==> (#[trigger] neighbor_spec(q, j) matches Some(p) ==> p.ref_frame@[0] < 0
                && p.ref_frame@[1] < 0),
    ensures
        other_stage(s, q, i) == other_stage(s, q, k),
    decreases k - i,
{
    if i < k {
        assert(neighbor_spec(q, i) matches Some(p) ==> p.ref_frame@[0] < 0 && p.ref_frame@[1] < 0);
        lemma_without(s, q, i + 1, k);
    }
}

/// The nearest of the neighbours lie right above a block and right on its left: one of the first two is
/// above it, within its columns, and the other on its left, within its rows.
pub proof fn law_first_neighbors_touch_the_block(q: Query)
    ensures
        ({
            let w = (crate::vp9::mc::luma_size_spec(q.bs, 0) / 8) as int;
            let h = (crate::vp9::mc::luma_size_spec(q.bs, 1) / 8) as int;
            exists|dc: int, dr: int|
                #![trigger place_at(q, -1, dc), place_at(q, dr, -1)]
                0 <= dc < w && 0 <= dr < h && ((neighbor_spec(q, 0) == place_at(q, -1, dc)
                    && neighbor_spec(q, 1) == place_at(q, dr, -1)) || (neighbor_spec(q, 1)
                    == place_at(q, -1, dc) && neighbor_spec(q, 0) == place_at(q, dr, -1)))
        }),
{
    lemma_neighbor(q, 0);
    lemma_neighbor(q, 1);
    let a = crate::vp9::data::MV_REF_BLK_OFF@[q.bs.code_spec() as int]@[0]@;
    let b = crate::vp9::data::MV_REF_BLK_OFF@[q.bs.code_spec() as int]@[1]@;
    if a[1] == -1 && a[0] >= 0 {
        assert(neighbor_spec(q, 0) == place_at(q, -1, a[0] as int));
        assert(neighbor_spec(q, 1) == place_at(q, b[1] as int, -1));
    } else {
        assert(neighbor_spec(q, 1) == place_at(q, -1, b[0] as int));
        assert(neighbor_spec(q, 0) == place_at(q, a[1] as int, -1));
    }
}

/// Two searches of a whole block that look at places with the same references and the same vectors for
/// them find the same: a vector without a reference is of no account.
pub proof fn law_unused_vectors_do_not_count(a: Query, b: Query)
    requires
        a.sb == -1,
        a.idx == 0,
        a.ref_idx >= 0,
        b == (Query { grid: b.grid, ..a }),
        !a.use_last,
        forall|i: int|
            0 <= i < 8 ==> same_but_unused(#[trigger] neighbor_spec(a, i), neighbor_spec(b, i)),
    ensures
        find_ref_mv_spec(a) == find_ref_mv_spec(b),
{
    let s0 = Search { found: None, mem: INVALID_MV, mem_sub8x8: INVALID_MV };
    lemma_same_near(s0, a, b, 0);
    let s1 = near_stage(s0, a, 0);
    lemma_same_other(s1, a, b, 0);
}

/// Whether two places have the same references, and the same vectors for those that they have.
pub open spec fn same_but_unused(a: Option<MvRefPair>, b: Option<MvRefPair>) -> bool {
    match (a, b) {
        (Some(p), Some(q)) => {
            &&& p.ref_frame@ == q.ref_frame@
            &&& p.ref_frame@[0] >= 0 ==> p.mv@[0] == q.mv@[0]
            &&& p.ref_frame@[1] >= 0 ==> p.mv@[1] == q.mv@[1]
            &&& p.ref_frame@[1] >= 0 ==> p.ref_frame@[0] >= 0
        },
        (None, None) => true,
        _ => false,
    }
}

proof fn lemma_same_near(s: Search, a: Query, b: Query, i: int)
    requires
        0 <= i <= 8,
        a.ref_idx >= 0,
        b == (Query { grid: b.grid, ..a }),
        forall|i: int|
            0 <= i < 8 ==> same_but_unused(#[trigger] neighbor_spec(a, i), neighbor_spec(b, i)),
    ensures
        near_stage(s, a, i) == near_stage(s, b, i),
    decreases 8 - i,
{
    if i < 8 {
        assert(same_but_unused(neighbor_spec(a, i), neighbor_spec(b, i)));
        let t = match neighbor_spec(a, i) {
            Some(pair) => crate::vp9::mvs::offer_same_spec(s, pair, a),
            None => s,
        };
        lemma_same_near(t, a, b, i + 1);
    }
}

proof fn lemma_same_other(s: Search, a: Query, b: Query, i: int)
    requires
        0 <= i <= 8,
        a.ref_idx >= 0,
        b == (Query { grid: b.grid, ..a }),
        forall|i: int|
            0 <= i < 8 ==> same_but_unused(#[trigger] neighbor_spec(a, i), neighbor_spec(b, i)),
    ensures
        other_stage(s, a, i) == other_stage(s, b, i),
    decreases 8 - i,
{
    if i < 8 {
        assert(same_but_unused(neighbor_spec(a, i), neighbor_spec(b, i)));
        let t = match neighbor_spec(a, i) {
            Some(pair) => crate::vp9::mvs::offer_other_spec(s, pair, a),
            None => s,
        };
        lemma_same_other(t, a, b, i + 1);
    }
}

/// A component that loses its odd eighth becomes even, by at most one step towards zero.
pub proof fn law_rounding_goes_towards_zero(v: i16)
    ensures
        ({
            let r = round_mv_spec(v);
            &&& r as int % 2 == 0
            &&& v as int % 2 == 0 ==> r == v
            &&& v >= 0 ==> 0 <= r <= v <= r + 1
            &&& v <= 0 ==> r - 1 <= v <= r <= 0
        }),
{
    assert((v & 1 != 0) == (v % 2 != 0)) by (bit_vector);
    assert((v & 1 != 0) == (v as int % 2 != 0));
}

/// Without the finest precision, and for vectors of eight pixels or more, the vector of a whole block
/// that is not coded has no odd eighths.
pub proof fn law_coarse_vectors_are_even(q: Query, mode: u8, rac: Rac, prob: ProbContext, counts: CountView)
    requires
        q.sb == -1,
        mode != NEWMV,
    ensures
        ({
            let m = take_mv_spec(q, mode, rac, prob, counts, false).mv;
            m.0 as int % 2 == 0 && m.1 as int % 2 == 0
        }),
        ({
            let m = take_mv_spec(q, mode, rac, prob, counts, true).mv;
            m.0 >= 65 || m.1 >= 65 || m.0 <= -65 || m.1 <= -65 ==> m.0 as int % 2 == 0 && m.1 as int % 2
                == 0
        }),
        take_mv_spec(q, mode, rac, prob, counts, true).rac == rac,
{
    let p = find_ref_mv_spec(
        Query {
            idx: if mode == NEARMV {
                1
            } else {
                0
            },
            ..q
        },
    );
    law_rounding_goes_towards_zero(p.0);
    law_rounding_goes_towards_zero(p.1);
}

/// A block without motion has zero vectors and nothing is read for them. Otherwise the first vector is
/// the same whether there is a second one or not, and that one is found as a first one would be, by the
/// second reference.
pub proof fn law_vectors_belong_to_their_references(
    q: Query,
    before: (i16, i16),
    mode: u8,
    refs: Seq<i8>,
    rac: Rac,
    prob: ProbContext,
    counts: CountView,
    fine: bool,
)
    ensures
        ({
            let one = fill_mv_spec(q, before, mode, false, refs, rac, prob, counts, fine);
            let two = fill_mv_spec(q, before, mode, true, refs, rac, prob, counts, fine);
            &&& mode == ZEROMV ==> two.mv0 == (0i16, 0i16) && two.mv1 == (0i16, 0i16) && two.rac == rac
            &&& mode == ZEROMV ==> one == two
            &&& mode != ZEROMV ==> one.mv0 == two.mv0 && one.mv1 == before
            &&& mode != ZEROMV ==> two.mv1 == take_mv_spec(
                Query { ref_idx: refs[1], z: 1, ..q },
                mode,
                one.rac,
                prob,
                one.counts,
                fine,
            ).mv
        }),
{
}

/// A vector brought into its limits lies in them, and one that does is left.
pub proof fn law_limits_hold(mv: (i16, i16), ctx: MvSearchCtx)
    requires
        ctx.min_mv@[0] <= ctx.max_mv@[0],
        ctx.min_mv@[1] <= ctx.max_mv@[1],
    ensures
        ({
            let r = clamp_mv_spec(mv, ctx);
            &&& ctx.min_mv@[0] <= r.0 <= ctx.max_mv@[0]
            &&& ctx.min_mv@[1] <= r.1 <= ctx.max_mv@[1]
            &&& ctx.min_mv@[0] <= mv.0 <= ctx.max_mv@[0] ==> r.0 == mv.0
            &&& ctx.min_mv@[1] <= mv.1 <= ctx.max_mv@[1] ==> r.1 == mv.1
        }),
{
}

} // verus!

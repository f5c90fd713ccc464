//! How neighbours, references and parts of inter blocks hang together.
use vstd::prelude::*;

use crate::vp9::bool_decoder::Rac;
use crate::vp9::coef_laws::{behind, reads, Decision};
use crate::vp9::data::BWH_TAB;
use crate::vp9::header::FrameHeader;
use crate::vp9::inter_modes::{
    comp_pred_ctx_spec, comp_ref_ctx_spec, limits_spec, one_ref_spec, refs_spec,
    single_ref_ctx_0_spec, single_ref_ctx_1_spec, two_refs_spec, InterBlock, Motion, MvSource, Neighbor,
};
use crate::vp9::prob::CountView;
use crate::vp9::types::BlockSize;

verus! {

/// The neighbour above and the one on the left count alike.
pub proof fn law_both_sides_count_alike(
    a: Option<Neighbor>,
    l: Option<Neighbor>,
    fix: u8,
    v0: u8,
    v1: u8,
)
    ensures
        comp_pred_ctx_spec(a, l, fix) == comp_pred_ctx_spec(l, a, fix),
        comp_ref_ctx_spec(a, l, fix, v0, v1) == comp_ref_ctx_spec(l, a, fix, v0, v1),
        single_ref_ctx_0_spec(a, l, fix) == single_ref_ctx_0_spec(l, a, fix),
        single_ref_ctx_1_spec(a, l, fix) == single_ref_ctx_1_spec(l, a, fix),
{
}

/// The more neighbours have two references, the higher the context of having two.
pub proof fn law_two_references_raise_their_context(n: Neighbor, l: Option<Neighbor>, fix: u8)
    requires
        !n.comp,
        !n.intra,
    ensures
        comp_pred_ctx_spec(Some(n), l, fix) < comp_pred_ctx_spec(
            Some(Neighbor { comp: true, ..n }),
            l,
            fix,
        ),
        0 <= comp_pred_ctx_spec(Some(n), l, fix) <= 4,
{
}

/// Of the neighbours that have a single reference each, it is counted how many have the last frame; one
/// alone counts for two, and one without motion for none.
pub proof fn law_last_frame_is_counted(a: Neighbor, l: Neighbor, fix: u8)
    requires
        !a.intra && !a.comp,
        !l.intra && !l.comp,
    ensures
        a.ref_frame == 0 && l.ref_frame == 0 ==> single_ref_ctx_0_spec(Some(a), Some(l), fix) == 4,
        a.ref_frame == 0 && l.ref_frame != 0 ==> single_ref_ctx_0_spec(Some(a), Some(l), fix) == 2,
        a.ref_frame != 0 && l.ref_frame != 0 ==> single_ref_ctx_0_spec(Some(a), Some(l), fix) == 0,
        single_ref_ctx_0_spec(Some(a), None, fix) == single_ref_ctx_0_spec(Some(a), Some(a), fix),
        single_ref_ctx_0_spec(Some(a), Some(Neighbor { intra: true, ..l }), fix)
            == single_ref_ctx_0_spec(Some(a), None, fix),
        single_ref_ctx_0_spec(None, None, fix) == 2,
{
}

/// A neighbour that has the last frame in place of another one never lowers the context of it.
pub proof fn law_last_frame_raises_its_context(n: Neighbor, l: Option<Neighbor>, fix: u8)
    ensures
        single_ref_ctx_0_spec(Some(n), l, fix) <= single_ref_ctx_0_spec(
            Some(Neighbor { ref_frame: 0, ..n }),
            l,
            fix,
        ),
        0 <= single_ref_ctx_0_spec(Some(n), l, fix) <= 4,
{
}

/// Of the neighbours that have a single reference other than the last frame, it is counted how many
/// have the golden one.
pub proof fn law_golden_frame_is_counted(a: Neighbor, l: Neighbor, fix: u8)
    requires
        !a.intra && !a.comp,
        !l.intra && !l.comp,
        a.ref_frame == 1 || a.ref_frame == 2,
        l.ref_frame == 1 || l.ref_frame == 2,
    ensures
        a.ref_frame == 1 && l.ref_frame == 1 ==> single_ref_ctx_1_spec(Some(a), Some(l), fix) == 4,
        a.ref_frame == 1 && l.ref_frame == 2 ==> single_ref_ctx_1_spec(Some(a), Some(l), fix) == 2,
        a.ref_frame == 2 && l.ref_frame == 2 ==> single_ref_ctx_1_spec(Some(a), Some(l), fix) == 0,
        single_ref_ctx_1_spec(Some(a), None, fix) == single_ref_ctx_1_spec(Some(a), Some(a), fix),
        single_ref_ctx_1_spec(Some(a), Some(Neighbor { ref_frame: 0, ..l }), fix)
            == single_ref_ctx_1_spec(Some(a), None, fix),
        single_ref_ctx_1_spec(Some(a), Some(Neighbor { intra: true, ..l }), fix)
            == single_ref_ctx_1_spec(Some(a), None, fix),
        single_ref_ctx_1_spec(None, None, fix) == 2,
{
}

/// A neighbour that has the golden frame in place of the alternative one never lowers the context of
/// it.
pub proof fn law_golden_frame_raises_its_context(n: Neighbor, l: Option<Neighbor>, fix: u8)
    requires
        n.ref_frame == 2,
        fix != 1,
    ensures
        single_ref_ctx_1_spec(Some(n), l, fix) <= single_ref_ctx_1_spec(
            Some(Neighbor { ref_frame: 1, ..n }),
            l,
            fix,
        ),
        0 <= single_ref_ctx_1_spec(Some(n), l, fix) <= 4,
{
}

/// A neighbour that has the second of the variable references never raises the context of it.
pub proof fn law_second_variable_lowers_its_context(
    n: Neighbor,
    l: Option<Neighbor>,
    fix: u8,
    v0: u8,
    v1: u8,
)
    requires
        v0 != v1,
        fix != v1,
    ensures
        comp_ref_ctx_spec(Some(Neighbor { ref_frame: v1, ..n }), l, fix, v0, v1) <= comp_ref_ctx_spec(
            Some(n),
            l,
            fix,
            v0,
            v1,
        ),
        0 <= comp_ref_ctx_spec(Some(n), l, fix, v0, v1) <= 4,
        !n.intra && n.ref_frame != v1 ==> comp_ref_ctx_spec(
            Some(Neighbor { ref_frame: v1, ..n }),
            None,
            fix,
            v0,
            v1,
        ) == 0 && comp_ref_ctx_spec(Some(n), None, fix, v0, v1) >= 3,
{
}

/// Of two references the fixed one stands first or second by the side that it lies on in time, and the
/// other one is the variable one that was written.
pub proof fn law_fixed_reference_stands_on_its_side(
    rac: Rac,
    counts: CountView,
    h: FrameHeader,
    a: Option<Neighbor>,
    l: Option<Neighbor>,
    second: bool,
)
    requires
        rac.bit(
            h.prob.comp_ref@[comp_ref_ctx_spec(
                a,
                l,
                h.fix_comp_ref,
                h.var_comp_ref@[0],
                h.var_comp_ref@[1],
            )],
        ) == second,
    ensures
        ({
            let refs = two_refs_spec(rac, counts, h, a, l).value;
            let late = h.sign_bias@[h.fix_comp_ref as int];
            let other = if second {
                h.var_comp_ref@[1]
            } else {
                h.var_comp_ref@[0]
            };
            &&& refs.len() == 2
            &&& late ==> refs[1] == h.fix_comp_ref as i8 && refs[0] == other as i8
            &&& !late ==> refs[0] == h.fix_comp_ref as i8 && refs[1] == other as i8
        }),
{
}

/// The code of a single reference.
pub open spec fn reference_code(r: int, p: u8, q: u8) -> Seq<Decision> {
    if r == 0 {
        seq![(p, false)]
    } else {
        seq![(p, true), (q, r == 2)]
    }
}

/// A single reference is read back.
pub proof fn law_reference_is_read_back(
    rac: Rac,
    counts: CountView,
    h: FrameHeader,
    a: Option<Neighbor>,
    l: Option<Neighbor>,
    r: int,
)
    requires
        0 <= r < 3,
        reads(
            rac,
            reference_code(
                r,
                h.prob.single_ref@[single_ref_ctx_0_spec(a, l, h.fix_comp_ref)]@[0],
                h.prob.single_ref@[single_ref_ctx_1_spec(a, l, h.fix_comp_ref)]@[1],
            ),
        ),
    ensures
        one_ref_spec(rac, counts, h, a, l).value == seq![r as i8, -1i8],
        one_ref_spec(rac, counts, h, a, l).rac == behind(
            rac,
            reference_code(
                r,
                h.prob.single_ref@[single_ref_ctx_0_spec(a, l, h.fix_comp_ref)]@[0],
                h.prob.single_ref@[single_ref_ctx_1_spec(a, l, h.fix_comp_ref)]@[1],
            ),
        ),
{
    reveal_with_fuel(reads, 4);
    reveal_with_fuel(behind, 4);
}

/// Where the frame has no blocks of two references, or no others, a block has one, or two; where a
/// segment fixes the reference, nothing is read.
pub proof fn law_frame_and_segment_fix_references(
    rac: Rac,
    counts: CountView,
    h: FrameHeader,
    seg: int,
    a: Option<Neighbor>,
    l: Option<Neighbor>,
)
    ensures
        h.segmentation.enabled && h.segmentation.feat@[seg].ref_enabled ==> refs_spec(
            rac,
            counts,
            h,
            seg,
            a,
            l,
        ).rac == rac && !refs_spec(rac, counts, h, seg, a, l).value.0,
        !h.segmentation.enabled && h.comp_pred_mode == 0 ==> !refs_spec(rac, counts, h, seg, a, l).value.0,
        !h.segmentation.enabled && h.comp_pred_mode == 1 ==> refs_spec(rac, counts, h, seg, a, l).value.0,
{
    reveal(refs_spec);
}

/// A block that is moved as far as it may be lies sixteen pixels beyond the frame, in eighths of a
/// pixel.
pub proof fn law_motion_ends_beyond_the_frame(m: MvSource, row: int, col: int, bs: BlockSize)
    requires
        0 <= row <= 1000,
        0 <= col <= 1000,
        0 <= m.cols <= 1000,
        0 <= m.rows <= 1000,
    ensures
        ({
            let lim = limits_spec(m, row, col, bs);
            let w = BWH_TAB@[0]@[bs.code_spec() as int]@[0];
            let h = BWH_TAB@[0]@[bs.code_spec() as int]@[1];
            &&& 8 * (4 * col) + lim.min_mv@[0] == 8 * -16
            &&& 8 * (4 * row) + lim.min_mv@[1] == 8 * -16
            &&& 8 * (4 * (col + w)) + lim.max_mv@[0] == 8 * (4 * m.cols + 16)
            &&& 8 * (4 * (row + h)) + lim.max_mv@[1] == 8 * (4 * m.rows + 16)
        }),
{
}

proof fn lemma_quarter_keeps(b: InterBlock, s: Motion, h: FrameHeader, c: int, k: int)
    requires
        s.mode.len() == 4,
        s.mv.len() == 4,
        0 <= k < 4,
    ensures
        b.quarter(s, h, c, k).mode.len() == 4,
        b.quarter(s, h, c, k).mv.len() == 4,
        forall|j: int| #![auto] 0 <= j < 4 && j != k ==> b.quarter(s, h, c, k).mode[j] == s.mode[j],
        forall|j: int| #![auto] 0 <= j < 4 && j != k ==> b.quarter(s, h, c, k).mv[j] == s.mv[j],
{
}

/// The two quarters of a half of a block move alike: those of a row in halves one above the other,
/// those of a column in halves side by side.
pub proof fn law_halves_move_as_one(b: InterBlock, s: Motion, h: FrameHeader)
    requires
        s.mode.len() == 4,
        s.mv.len() == 4,
    ensures
        b.bs == BlockSize::Bs8x4 ==> {
            let q = b.quarters(s, h);
            &&& q.mv[1] == q.mv[0] && q.mode[1] == q.mode[0]
            &&& q.mv[3] == q.mv[2] && q.mode[3] == q.mode[2]
        },
        b.bs == BlockSize::Bs4x8 ==> {
            let q = b.quarters(s, h);
            &&& q.mv[2] == q.mv[0] && q.mode[2] == q.mode[0]
            &&& q.mv[3] == q.mv[1] && q.mode[3] == q.mode[1]
        },
{
    let c = crate::vp9::inter_modes::mv_mode_ctx(b.above, b.left, b.col, b.row7, 0);
    lemma_quarter_keeps(b, s, h, c, 0);
    let s0 = b.quarter(s, h, c, 0);
    if b.bs == BlockSize::Bs8x4 {
        let s1 = b.same(s0, 1, 0);
        lemma_quarter_keeps(b, s1, h, c, 2);
    } else {
        lemma_quarter_keeps(b, s0, h, c, 1);
    }
}

} // verus!

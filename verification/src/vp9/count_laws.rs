//! What is read is counted, in the context that it was read in.
use vstd::prelude::*;

use crate::vp9::bool_decoder::Rac;
use crate::vp9::context::CtxView;
use crate::vp9::header::FrameHeader;
use crate::vp9::inter_modes::{
    comp_pred_ctx_spec, comp_ref_ctx_spec, comp_spec, filter_ctx, filter_spec, mv_mode_spec,
    one_ref_spec, single_ref_ctx_0_spec, single_ref_ctx_1_spec, two_refs_spec, Neighbor,
};
use crate::vp9::modes::{intra_ctx, intra_spec, skip_spec, tx_read_spec, y_mode_spec};
use crate::vp9::prob::CountView;

verus! {

/// Whether the symbol `v` in the context `c` was counted once more, and nothing else.
pub open spec fn counted_once(before: Seq<Seq<u32>>, after: Seq<Seq<u32>>, c: int, v: int) -> bool {
    &&& after.len() == before.len()
    &&& after[c].len() == before[c].len()
    &&& after[c][v] == before[c][v].wrapping_add(1)
    &&& forall|j: int|
        #![trigger after[c][j]]
        0 <= j < before[c].len() && j != v ==> after[c][j] == before[c][j]
    &&& forall|i: int| #![trigger after[i]] 0 <= i < before.len() && i != c ==> after[i] == before[i]
}

/// Whether there is a count of the symbol `v` in the context `c`.
pub open spec fn has_count(counts: Seq<Seq<u32>>, c: int, v: int) -> bool {
    0 <= c < counts.len() && 0 <= v < counts[c].len()
}

/// A mode of an intra block is counted by its number.
pub proof fn law_intra_mode_is_counted(rac: Rac, counts: CountView, h: FrameHeader, group: int)
    requires
        has_count(counts.y_mode, group, y_mode_spec(rac, counts, h, group).value.code_spec() as int),
    ensures
        ({
            let t = y_mode_spec(rac, counts, h, group);
            &&& counted_once(
                counts.y_mode,
                t.counts.y_mode,
                group,
                t.value.code_spec() as int,
            )
            &&& t.counts == (CountView { y_mode: t.counts.y_mode, ..counts })
        }),
{
}

/// A mode of an inter block is counted by its place among these.
pub proof fn law_inter_mode_is_counted(rac: Rac, counts: CountView, h: FrameHeader, c: int)
    requires
        10 <= mv_mode_spec(rac, counts, h, c).value <= 13,
        has_count(counts.mv_mode, c, mv_mode_spec(rac, counts, h, c).value - 10),
        rac.symbol(crate::vp9::data::INTER_MODE_TREE@, h.prob.mv_mode@[c]@) <= 13,
        rac.symbol(crate::vp9::data::INTER_MODE_TREE@, h.prob.mv_mode@[c]@) >= 10,
    ensures
        ({
            let t = mv_mode_spec(rac, counts, h, c);
            &&& counted_once(counts.mv_mode, t.counts.mv_mode, c, t.value - 10)
            &&& t.counts == (CountView { mv_mode: t.counts.mv_mode, ..counts })
        }),
{
}

/// A flag for skipping is counted: ones in the second place.
pub proof fn law_skip_is_counted(
    rac: Rac,
    counts: CountView,
    h: FrameHeader,
    seg: int,
    above: CtxView,
    left: CtxView,
    col: int,
    row7: int,
    c: int,
)
    requires
        !h.segmentation.enabled,
        0 <= col < above.skip.len(),
        c == (if left.skip[row7] + above.skip[col] < 2 {
            left.skip[row7] + above.skip[col]
        } else {
            2
        }),
        has_count(counts.skip, c, 0),
        has_count(counts.skip, c, 1),
    ensures
        ({
            let t = skip_spec(rac, counts, h, seg, above, left, col, row7);
            &&& counted_once(
                counts.skip,
                t.counts.skip,
                c,
                if t.value {
                    1
                } else {
                    0
                },
            )
            &&& t.counts == (CountView { skip: t.counts.skip, ..counts })
        }),
{
}

/// A flag for motion is counted: blocks that move in the second place.
pub proof fn law_motion_is_counted(
    rac: Rac,
    counts: CountView,
    h: FrameHeader,
    seg: int,
    above: CtxView,
    left: CtxView,
    col: int,
    row7: int,
    have_a: bool,
    have_l: bool,
)
    requires
        !crate::vp9::modes::without_refs(h),
        !h.segmentation.enabled,
        has_count(counts.intra, intra_ctx(above, left, col, row7, have_a, have_l), 0),
        has_count(counts.intra, intra_ctx(above, left, col, row7, have_a, have_l), 1),
    ensures
        ({
            let t = intra_spec(rac, counts, h, seg, above, left, col, row7, have_a, have_l);
            &&& counted_once(
                counts.intra,
                t.counts.intra,
                intra_ctx(above, left, col, row7, have_a, have_l),
                if t.value {
                    0
                } else {
                    1
                },
            )
            &&& t.counts == (CountView { intra: t.counts.intra, ..counts })
        }),
{
}

/// The size of a transform is counted by its number, apart for each largest one.
pub proof fn law_transform_size_is_counted(rac: Rac, counts: CountView, h: FrameHeader, c: int)
    requires
        has_count(counts.tx32p, c, tx_read_spec(rac, counts, h, 3, c).value),
        has_count(counts.tx16p, c, tx_read_spec(rac, counts, h, 2, c).value),
        has_count(counts.tx8p, c, tx_read_spec(rac, counts, h, 1, c).value),
    ensures
        ({
            let t3 = tx_read_spec(rac, counts, h, 3, c);
            let t2 = tx_read_spec(rac, counts, h, 2, c);
            let t1 = tx_read_spec(rac, counts, h, 1, c);
            &&& counted_once(counts.tx32p, t3.counts.tx32p, c, t3.value)
            &&& t3.counts == (CountView { tx32p: t3.counts.tx32p, ..counts })
            &&& counted_once(counts.tx16p, t2.counts.tx16p, c, t2.value)
            &&& t2.counts == (CountView { tx16p: t2.counts.tx16p, ..counts })
            &&& counted_once(counts.tx8p, t1.counts.tx8p, c, t1.value)
            &&& t1.counts == (CountView { tx8p: t1.counts.tx8p, ..counts })
        }),
{
}

/// Whether there are two references is counted where it is read, and so is the variable one of two.
pub proof fn law_two_references_are_counted(
    rac: Rac,
    counts: CountView,
    h: FrameHeader,
    a: Option<Neighbor>,
    l: Option<Neighbor>,
)
    requires
        h.comp_pred_mode == 2,
        has_count(counts.comp, comp_pred_ctx_spec(a, l, h.fix_comp_ref), 0),
        has_count(counts.comp, comp_pred_ctx_spec(a, l, h.fix_comp_ref), 1),
        h.var_comp_ref@[0] != h.var_comp_ref@[1],
        h.var_comp_ref@[0] < 3 && h.var_comp_ref@[1] < 3,
        has_count(
            counts.comp_ref,
            comp_ref_ctx_spec(a, l, h.fix_comp_ref, h.var_comp_ref@[0], h.var_comp_ref@[1]),
            0,
        ),
        has_count(
            counts.comp_ref,
            comp_ref_ctx_spec(a, l, h.fix_comp_ref, h.var_comp_ref@[0], h.var_comp_ref@[1]),
            1,
        ),
    ensures
        ({
            let t = comp_spec(rac, counts, h, a, l);
            let u = two_refs_spec(rac, counts, h, a, l);
            let var = if h.sign_bias@[h.fix_comp_ref as int] {
                u.value[0]
            } else {
                u.value[1]
            };
            &&& counted_once(
                counts.comp,
                t.counts.comp,
                comp_pred_ctx_spec(a, l, h.fix_comp_ref),
                if t.value {
                    1
                } else {
                    0
                },
            )
            &&& counted_once(
                counts.comp_ref,
                u.counts.comp_ref,
                comp_ref_ctx_spec(a, l, h.fix_comp_ref, h.var_comp_ref@[0], h.var_comp_ref@[1]),
                if var == h.var_comp_ref@[1] {
                    1
                } else {
                    0
                },
            )
        }),
{
}

/// A single reference is counted decision by decision, each in its own context.
pub proof fn law_reference_is_counted(
    rac: Rac,
    counts: CountView,
    h: FrameHeader,
    a: Option<Neighbor>,
    l: Option<Neighbor>,
    c: int,
    d: int,
)
    requires
        c == single_ref_ctx_0_spec(a, l, h.fix_comp_ref),
        d == single_ref_ctx_1_spec(a, l, h.fix_comp_ref),
        0 <= c < counts.single_ref.len(),
        0 <= d < counts.single_ref.len(),
        has_count(counts.single_ref[c], 0, 0) && has_count(counts.single_ref[c], 0, 1),
        has_count(counts.single_ref[d], 1, 0) && has_count(counts.single_ref[d], 1, 1),
        has_count(counts.single_ref[c], 1, 0),
    ensures
        ({
            let t = one_ref_spec(rac, counts, h, a, l);
            let r = t.value[0];
            let k = t.counts.single_ref;
            let was = counts.single_ref;
            &&& r == 0 ==> k[c][0][0] == was[c][0][0].wrapping_add(1) && k[c][0][1] == was[c][0][1]
            &&& r != 0 ==> k[c][0][1] == was[c][0][1].wrapping_add(1) && k[c][0][0] == was[c][0][0]
            &&& r == 0 ==> k[d][1] == was[d][1]
            &&& r == 1 ==> k[d][1][0] == was[d][1][0].wrapping_add(1) && k[d][1][1] == was[d][1][1]
            &&& r == 2 ==> k[d][1][1] == was[d][1][1].wrapping_add(1) && k[d][1][0] == was[d][1][0]
        }),
{
}

/// The filter of a block is counted by its number, where each block has its own.
pub proof fn law_filter_is_counted(
    rac: Rac,
    counts: CountView,
    h: FrameHeader,
    above: CtxView,
    left: CtxView,
    col: int,
    row7: int,
    have_a: bool,
    have_l: bool,
)
    requires
        h.filter_mode == 4,
        ({
            let c = filter_ctx(above, left, col, row7, have_a, have_l);
            let f = rac.symbol(crate::vp9::data::FILTER_TREE@, h.prob.filter@[c]@);
            0 <= f < 3 && has_count(counts.filter, c, f)
        }),
    ensures
        ({
            let t = filter_spec(rac, counts, h, above, left, col, row7, have_a, have_l);
            let c = filter_ctx(above, left, col, row7, have_a, have_l);
            &&& counted_once(counts.filter, t.counts.filter, c, t.value.1 as int)
            &&& t.counts == (CountView { filter: t.counts.filter, ..counts })
        }),
{
}

} // verus!

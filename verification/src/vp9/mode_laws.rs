//! What the modes of blocks and their contexts keep to.
use vstd::prelude::*;

use crate::vp9::bool_decoder::Rac;
use crate::vp9::coef_laws::{behind, lemma_reads_parts, reads, Decision};
use crate::vp9::coefs::step_spec;
use crate::vp9::context::CtxView;
use crate::vp9::data::{Tables, BWH_TAB};
use crate::vp9::header::{FrameHeader, TxMode};
use crate::vp9::modes::{
    intra_ctx, intra_modes_spec, intra_spec, kf_modes_spec, least, max_tx_spec, skip_spec, tx_ctx,
    tx_of, tx_read_spec, tx_size_spec, unary_spec, uv_tx_spec,
};
use crate::vp9::prob::CountView;
use crate::vp9::symbol_laws::{intra_mode_code, law_intra_mode_is_read_back};
use crate::vp9::types::{BlockSize, IntraMode, TxSize};

verus! {

/// The largest transform of a block fits into it, and the next larger one would not.
pub proof fn law_largest_transform_fits(bs: BlockSize)
    ensures
        ({
            let side = step_spec(tx_of(max_tx_spec(bs)));
            let w = BWH_TAB@[0]@[bs.code_spec() as int]@[0];
            let h = BWH_TAB@[0]@[bs.code_spec() as int]@[1];
            &&& side <= w && side <= h
            &&& side == 8 || 2 * side > w || 2 * side > h
        }),
{
    assert(BWH_TAB@[0]@.len() == 13);
}

/// The transform of a block is never larger than the largest that fits.
pub proof fn law_transform_fits_the_block(
    rac: Rac,
    counts: CountView,
    h: FrameHeader,
    bs: BlockSize,
    skip: bool,
    is_intra: bool,
    above: CtxView,
    left: CtxView,
    col: int,
    row7: int,
    have_a: bool,
    have_l: bool,
)
    ensures
        ({
            let t = tx_size_spec(
                rac,
                counts,
                h,
                bs,
                skip,
                is_intra,
                above,
                left,
                col,
                row7,
                have_a,
                have_l,
            ).value;
            &&& step_spec(t) <= step_spec(tx_of(max_tx_spec(bs)))
            &&& h.tx_mode == TxMode::Only4x4 ==> t == TxSize::Tx4x4
            &&& h.tx_mode == TxMode::Allow8x8 ==> step_spec(t) <= 2
            &&& h.tx_mode == TxMode::Allow16x16 ==> step_spec(t) <= 4
            &&& h.tx_mode == TxMode::Allow32x32 ==> t == tx_of(max_tx_spec(bs))
        }),
{
    let max = max_tx_spec(bs);
    let c = tx_ctx(above, left, col, row7, have_a, have_l, max);
    lemma_unary_bound(rac, h.prob.tx32p@[c]@, 0, 3);
    lemma_unary_bound(rac, h.prob.tx16p@[c]@, 0, 2);
}

proof fn lemma_unary_bound(rac: Rac, p: Seq<u8>, from: int, n: int)
    requires
        from <= n,
    ensures
        from <= unary_spec(rac, p, from, n).0 <= n,
    decreases n - from,
{
    if from < n {
        lemma_unary_bound(rac.after(p[from]), p, from + 1, n);
    }
}

/// The code of the size of a transform: as many steps up as it takes, then a stop unless it is the
/// largest.
pub open spec fn size_code(v: int, largest: int, p: Seq<u8>) -> Seq<Decision> {
    Seq::new(
        (if v == largest {
            v
        } else {
            v + 1
        }) as nat,
        |k: int| (p[k], k < v),
    )
}

/// The size of a transform is read back.
pub proof fn law_transform_size_is_read_back(
    rac: Rac,
    counts: CountView,
    h: FrameHeader,
    largest: int,
    c: int,
    v: int,
)
    requires
        0 <= v <= largest,
        2 <= largest <= 3,
        reads(
            rac,
            size_code(
                v,
                largest,
                if largest == 3 {
                    h.prob.tx32p@[c]@
                } else {
                    h.prob.tx16p@[c]@
                },
            ),
        ),
    ensures
        tx_read_spec(rac, counts, h, largest, c).value == v,
{
    reveal_with_fuel(reads, 5);
    reveal_with_fuel(unary_spec, 5);
}

/// The transform of chroma fits into the block of chroma that is halved both ways, and is that of luma
/// where that one fits.
pub proof fn law_chroma_transform_fits(bs: BlockSize, tx: TxSize)
    requires
        step_spec(tx) <= step_spec(tx_of(max_tx_spec(bs))),
    ensures
        ({
            let side = step_spec(uv_tx_spec(bs, tx, true, true));
            let w = BWH_TAB@[1]@[bs.code_spec() as int]@[0];
            let h = BWH_TAB@[1]@[bs.code_spec() as int]@[1];
            &&& side <= w && side <= h
            &&& step_spec(tx) <= w && step_spec(tx) <= h ==> uv_tx_spec(bs, tx, true, true) == tx
        }),
        uv_tx_spec(bs, tx, false, false) == tx,
{
    assert(BWH_TAB@[1]@.len() == 13);
}

/// The context of the size of a transform does not fall where a neighbour has a larger one, and a
/// neighbour that is skipped counts as one with the largest.
pub proof fn law_larger_neighbours_raise_the_context(
    above: CtxView,
    left: CtxView,
    larger: CtxView,
    row7: int,
    col: int,
    have_a: bool,
    have_l: bool,
    max: int,
)
    requires
        0 <= row7 < left.tx_size.len(),
        left.tx_size[row7] <= larger.tx_size[row7] <= max,
        left.skip[row7] == 0,
        0 <= max <= 3,
    ensures
        larger.skip[row7] == 0 ==> tx_ctx(above, left, col, row7, have_a, have_l, max) <= tx_ctx(
            above,
            larger,
            col,
            row7,
            have_a,
            have_l,
            max,
        ),
        larger.skip[row7] != 0 ==> tx_ctx(above, left, col, row7, have_a, have_l, max) <= tx_ctx(
            above,
            larger,
            col,
            row7,
            have_a,
            have_l,
            max,
        ),
        0 <= tx_ctx(above, left, col, row7, have_a, have_l, max) <= 1,
{
}

/// A block is read as skipped where its flag says so, in the context of how many of its two
/// neighbours are; where its segment is skipped, nothing is read.
pub proof fn law_skip_is_read_back(
    rac: Rac,
    counts: CountView,
    h: FrameHeader,
    seg: int,
    above: CtxView,
    left: CtxView,
    col: int,
    row7: int,
    skipped: bool,
)
    requires
        0 <= col < above.skip.len(),
        0 <= row7 < left.skip.len(),
        above.skip[col] <= 1,
        left.skip[row7] <= 1,
        !h.segmentation.enabled,
        reads(
            rac,
            seq![
                (
                    h.prob.skip@[if above.skip[col] == 1 && left.skip[row7] == 1 {
                        2int
                    } else if above.skip[col] == 1 || left.skip[row7] == 1 {
                        1
                    } else {
                        0
                    }],
                    skipped,
                ),
            ],
        ),
    ensures
        skip_spec(rac, counts, h, seg, above, left, col, row7).value == skipped,
{
    reveal_with_fuel(reads, 2);
}

/// A block of a frame with references moves where its flag is set; the context counts the neighbours
/// that do not, a missing one as the other.
pub proof fn law_inter_flag_is_read_back(
    rac: Rac,
    counts: CountView,
    h: FrameHeader,
    seg: int,
    above: CtxView,
    left: CtxView,
    col: int,
    row7: int,
    moves: bool,
)
    requires
        !crate::vp9::modes::without_refs(h),
        !h.segmentation.enabled,
        0 <= col < above.intra.len(),
        0 <= row7 < left.intra.len(),
        above.intra[col] <= 1,
        left.intra[row7] <= 1,
        reads(
            rac,
            seq![
                (
                    h.prob.intra@[if above.intra[col] == 1 && left.intra[row7] == 1 {
                        3int
                    } else if above.intra[col] == 1 || left.intra[row7] == 1 {
                        1
                    } else {
                        0
                    }],
                    moves,
                ),
            ],
        ),
    ensures
        intra_spec(rac, counts, h, seg, above, left, col, row7, true, true).value == !moves,
        intra_ctx(above, left, col, row7, false, false) == 0,
        intra_ctx(above, left, col, row7, true, false) == 2 * above.intra[col],
        intra_ctx(above, left, col, row7, false, true) == 2 * left.intra[row7],
{
    reveal_with_fuel(reads, 2);
}

/// The probabilities of the mode of a key frame's block below one mode and on the right of another.
pub open spec fn key_probs(t: Tables, above: u8, left: u8) -> Seq<u8> {
    t.kf_y_mode@[least(above as int, 9)]@[least(left as int, 9)]@
}

/// The modes of the quarters of a key frame's block are read back: each in the context of the modes
/// above it and on its left, first outside of the block and then in it. Chroma follows in the context of
/// the last quarter.
pub proof fn law_key_frame_quarters_are_read_back(
    rac: Rac,
    t: Tables,
    a: (u8, u8),
    l: (u8, u8),
    m: Seq<IntraMode>,
    uv: IntraMode,
)
    requires
        m.len() == 4,
        forall|i: int| 0 <= i < 4 ==> (#[trigger] m[i]).code_spec() <= 9,
        uv.code_spec() <= 9,
        reads(rac, quarters_code(t, a, l, m, uv)),
    ensures
        kf_modes_spec(rac, t, BlockSize::Bs4x4, a.0, a.1, l.0, l.1).modes == m,
        kf_modes_spec(rac, t, BlockSize::Bs4x4, a.0, a.1, l.0, l.1).uv == uv,
        kf_modes_spec(rac, t, BlockSize::Bs4x4, a.0, a.1, l.0, l.1).rac == behind(
            rac,
            quarters_code(t, a, l, m, uv),
        ),
{
    let c0 = intra_mode_code(m[0], key_probs(t, a.0, l.0));
    let c1 = intra_mode_code(m[1], key_probs(t, a.1, m[0].code_spec()));
    let c2 = intra_mode_code(m[2], key_probs(t, m[0].code_spec(), l.1));
    let c3 = intra_mode_code(m[3], key_probs(t, m[1].code_spec(), m[2].code_spec()));
    let c4 = intra_mode_code(uv, t.kf_uv_mode@[m[3].code_spec() as int]@);
    let r1 = behind(rac, c0);
    let r2 = behind(r1, c1);
    let r3 = behind(r2, c2);
    let r4 = behind(r3, c3);
    lemma_reads_parts(rac, c0 + c1 + c2 + c3, c4);
    lemma_reads_parts(rac, c0 + c1 + c2, c3);
    lemma_reads_parts(rac, c0 + c1, c2);
    lemma_reads_parts(rac, c0, c1);
    law_intra_mode_is_read_back(rac, m[0], key_probs(t, a.0, l.0));
    law_intra_mode_is_read_back(r1, m[1], key_probs(t, a.1, m[0].code_spec()));
    law_intra_mode_is_read_back(r2, m[2], key_probs(t, m[0].code_spec(), l.1));
    law_intra_mode_is_read_back(r3, m[3], key_probs(t, m[1].code_spec(), m[2].code_spec()));
    law_intra_mode_is_read_back(r4, uv, t.kf_uv_mode@[m[3].code_spec() as int]@);
    assert(kf_modes_spec(rac, t, BlockSize::Bs4x4, a.0, a.1, l.0, l.1).modes =~= m);
}

/// The code of the modes of the quarters of a key frame's block and of its chroma.
pub open spec fn quarters_code(
    t: Tables,
    a: (u8, u8),
    l: (u8, u8),
    m: Seq<IntraMode>,
    uv: IntraMode,
) -> Seq<Decision> {
    intra_mode_code(m[0], key_probs(t, a.0, l.0)) + intra_mode_code(
        m[1],
        key_probs(t, a.1, m[0].code_spec()),
    ) + intra_mode_code(m[2], key_probs(t, m[0].code_spec(), l.1)) + intra_mode_code(
        m[3],
        key_probs(t, m[1].code_spec(), m[2].code_spec()),
    ) + intra_mode_code(uv, t.kf_uv_mode@[m[3].code_spec() as int]@)
}

/// The quarters of a half of a block have one mode: those of a row in halves one above the other, those
/// of a column in halves side by side, and all of them in a block that is not divided.
pub proof fn law_halves_have_one_mode(
    rac: Rac,
    counts: CountView,
    h: FrameHeader,
    t: Tables,
    bs: BlockSize,
    a: (u8, u8),
    l: (u8, u8),
)
    ensures
        ({
            let k = kf_modes_spec(rac, t, bs, a.0, a.1, l.0, l.1).modes;
            let m = intra_modes_spec(rac, counts, h, bs).value.0;
            &&& bs == BlockSize::Bs8x4 ==> in_rows(k) && in_rows(m)
            &&& bs == BlockSize::Bs4x8 ==> in_columns(k) && in_columns(m)
            &&& !crate::vp9::modes::sub8x8(bs) ==> in_rows(k) && in_columns(k) && in_rows(m)
                && in_columns(m)
        }),
{
}

/// Whether the quarters of each row are the same.
pub open spec fn in_rows(m: Seq<IntraMode>) -> bool {
    m.len() == 4 && m[0] == m[1] && m[2] == m[3]
}

/// Whether the quarters of each column are the same.
pub open spec fn in_columns(m: Seq<IntraMode>) -> bool {
    m.len() == 4 && m[0] == m[2] && m[1] == m[3]
}

} // verus!

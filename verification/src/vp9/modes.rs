//! Reading of the modes of a block.
use vstd::prelude::*;

use crate::vp9::bool_decoder::{BoolDecoder, Rac};
use crate::vp9::coefs::get_or;
use crate::vp9::context::{fill_range, AboveContext, CtxView, LeftContext};
use crate::vp9::data::{Tables, BWH_TAB, INTRAMODE_TREE, SEGMENTATION_TREE, SIZE_GROUP};
use crate::vp9::header::{FrameHeader, FrameType, TxMode};
use crate::vp9::prob::{bump2, CountContext, CountView};
use crate::vp9::types::{BlockSize, IntraMode, TxSize};

verus! {

/// A value that was read, with the decoder and the counts behind it.
pub struct Taken<T> {
    pub value: T,
    pub rac: Rac,
    pub counts: CountView,
}

/// One for a condition that holds.
pub open spec fn one(b: bool) -> int {
    if b {
        1
    } else {
        0
    }
}

pub fn one_if(b: bool) -> (r: usize)
    ensures
        r == one(b),
        r <= 1,
{
    if b {
        1
    } else {
        0
    }
}

/// The smaller one of two numbers.
pub open spec fn least(a: int, b: int) -> int {
    if a < b {
        a
    } else {
        b
    }
}

pub fn least_of(a: usize, b: usize) -> (r: usize)
    ensures
        r == least(a as int, b as int),
{
    if a < b {
        a
    } else {
        b
    }
}

/// Whether a frame has no references.
pub open spec fn without_refs(h: FrameHeader) -> bool {
    h.frame_type == FrameType::KeyFrame || h.intra_only
}

/// Whether a block is smaller than 8x8 pixels.
pub open spec fn sub8x8(bs: BlockSize) -> bool {
    bs == BlockSize::Bs8x4 || bs == BlockSize::Bs4x8 || bs == BlockSize::Bs4x4
}

/// Whether a block is smaller than 8x8 pixels.
pub fn is_sub8x8(bs: BlockSize) -> (r: bool)
    ensures
        r == sub8x8(bs),
        !r ==> bs.code_spec() <= 9,
{
    bs == BlockSize::Bs8x4 || bs == BlockSize::Bs4x8 || bs == BlockSize::Bs4x4
}

/// The trees hold what their readers count on.
proof fn lemma_mode_trees()
    ensures
        crate::vp9::bool_decoder::tree_wf(INTRAMODE_TREE@, 9),
        crate::vp9::bool_decoder::leaves_in(INTRAMODE_TREE@, 0, 9),
        crate::vp9::bool_decoder::tree_wf(SEGMENTATION_TREE@, 7),
        crate::vp9::bool_decoder::leaves_in(SEGMENTATION_TREE@, 0, 7),
{
}

// ---- segment, skip flag, intra flag ----

/// The segment of a block, and the decoder behind it.
pub open spec fn segment_spec(rac: Rac, h: FrameHeader) -> (int, Rac) {
    if h.segmentation.enabled && h.segmentation.update_map {
        (
            rac.symbol(SEGMENTATION_TREE@, h.segmentation.prob@),
            rac.after_symbol(SEGMENTATION_TREE@, h.segmentation.prob@),
        )
    } else {
        (0, rac)
    }
}

/// Reads the segment of a block.
pub fn read_segment(bd: &mut BoolDecoder, h: &FrameHeader) -> (r: u8)
    requires
        old(bd)@.wf(),
    ensures
        final(bd)@.wf(),
        final(bd)@.data == old(bd)@.data,
        (r as int, final(bd)@) == segment_spec(old(bd)@, *h),
        r < 8,
{
    if h.segmentation.enabled && h.segmentation.update_map {
        proof {
            lemma_mode_trees();
            crate::vp9::bool_decoder::law_symbol_is_leaf(
                bd@,
                SEGMENTATION_TREE@,
                h.segmentation.prob@,
                0,
                7,
            );
        }
        bd.get_tree(&SEGMENTATION_TREE, &h.segmentation.prob) as u8
    } else {
        0
    }
}

/// Whether a block has no coefficients: the segment says so, or the flag that is read.
pub open spec fn skip_spec(
    rac: Rac,
    counts: CountView,
    h: FrameHeader,
    seg: int,
    above: CtxView,
    left: CtxView,
    col: int,
    row7: int,
) -> Taken<bool> {
    if h.segmentation.enabled && h.segmentation.feat@[seg].skip_enabled {
        Taken { value: true, rac, counts }
    } else {
        let c = least(left.skip[row7] + crate::vp9::coefs::at_or(above.skip, col, 0), 2);
        let s = rac.bit(h.prob.skip@[c]);
        Taken {
            value: s,
            rac: rac.after(h.prob.skip@[c]),
            counts: CountView {
                skip: crate::vp9::prob::bump2_spec(counts.skip, c, one(s)),
                ..counts
            },
        }
    }
}

/// Reads whether a block has no coefficients.
pub fn read_skip(
    bd: &mut BoolDecoder,
    counts: &mut CountContext,
    h: &FrameHeader,
    seg: u8,
    above: &AboveContext,
    left: &LeftContext,
    col: usize,
    row7: usize,
) -> (r: bool)
    requires
        old(bd)@.wf(),
        seg < 8,
        row7 < 8,
    ensures
        final(bd)@.wf(),
        final(bd)@.data == old(bd)@.data,
        (Taken { value: r, rac: final(bd)@, counts: final(counts)@ }) == skip_spec(
            old(bd)@,
            old(counts)@,
            *h,
            seg as int,
            above@,
            left@,
            col as int,
            row7 as int,
        ),
{
    if h.segmentation.enabled && h.segmentation.feat[seg as usize].skip_enabled {
        true
    } else {
        let c: usize = least_of(
            left.skip[row7] as usize + get_or(above.skip.as_slice(), col, 0) as usize,
            2,
        );
        let ghost before = counts@;
        let s = bd.get_prob(h.prob.skip[c]);
        bump2(&mut counts.skip, c, one_if(s));
        assert(counts@ == (CountView { skip: counts@.skip, ..before }));
        s
    }
}

/// The context of the flag that tells intra blocks from inter blocks.
pub open spec fn intra_ctx(
    above: CtxView,
    left: CtxView,
    col: int,
    row7: int,
    have_a: bool,
    have_l: bool,
) -> int {
    let a = crate::vp9::coefs::at_or(above.intra, col, 1) as int;
    let l = left.intra[row7] as int;
    let c = if have_a && have_l {
        if a + l == 2 {
            3
        } else {
            a + l
        }
    } else if have_a {
        2 * a
    } else if have_l {
        2 * l
    } else {
        0
    };
    least(c, 3)
}

/// Whether a block is predicted from its own frame: always so in a frame without
/// references; else the segment says so, or the flag that is read.
pub open spec fn intra_spec(
    rac: Rac,
    counts: CountView,
    h: FrameHeader,
    seg: int,
    above: CtxView,
    left: CtxView,
    col: int,
    row7: int,
    have_a: bool,
    have_l: bool,
) -> Taken<bool> {
    if without_refs(h) {
        Taken { value: true, rac, counts }
    } else if h.segmentation.enabled && h.segmentation.feat@[seg].ref_enabled {
        Taken { value: h.segmentation.feat@[seg].ref_val == 0, rac, counts }
    } else {
        let c = intra_ctx(above, left, col, row7, have_a, have_l);
        let b = rac.bit(h.prob.intra@[c]);
        Taken {
            value: !b,
            rac: rac.after(h.prob.intra@[c]),
            counts: CountView {
                intra: crate::vp9::prob::bump2_spec(counts.intra, c, one(b)),
                ..counts
            },
        }
    }
}

/// Reads whether a block is predicted from its own frame.
pub fn read_is_intra(
    bd: &mut BoolDecoder,
    counts: &mut CountContext,
    h: &FrameHeader,
    seg: u8,
    above: &AboveContext,
    left: &LeftContext,
    col: usize,
    row7: usize,
    have_a: bool,
    have_l: bool,
) -> (r: bool)
    requires
        old(bd)@.wf(),
        seg < 8,
        row7 < 8,
    ensures
        final(bd)@.wf(),
        final(bd)@.data == old(bd)@.data,
        (Taken { value: r, rac: final(bd)@, counts: final(counts)@ }) == intra_spec(
            old(bd)@,
            old(counts)@,
            *h,
            seg as int,
            above@,
            left@,
            col as int,
            row7 as int,
            have_a,
            have_l,
        ),
{
    if h.frame_type == FrameType::KeyFrame || h.intra_only {
        true
    } else if h.segmentation.enabled && h.segmentation.feat[seg as usize].ref_enabled {
        h.segmentation.feat[seg as usize].ref_val == 0
    } else {
        let a: usize = get_or(above.intra.as_slice(), col, 1) as usize;
        let l: usize = left.intra[row7] as usize;
        let c: usize = if have_a && have_l {
            if a + l == 2 {
                3
            } else {
                a + l
            }
        } else if have_a {
            2 * a
        } else if have_l {
            2 * l
        } else {
            0
        };
        let c: usize = least_of(c, 3);
        let ghost before = counts@;
        let b = bd.get_prob(h.prob.intra[c]);
        bump2(&mut counts.intra, c, one_if(b));
        assert(counts@ == (CountView { intra: counts@.intra, ..before }));
        !b
    }
}

// ---- transform size ----

/// The largest transform of a block size.
pub open spec fn max_tx_spec(bs: BlockSize) -> int {
    let c = bs.code_spec();
    if c <= 3 {
        3
    } else if c <= 6 {
        2
    } else if c <= 9 {
        1
    } else {
        0
    }
}

/// The largest transform of a block size.
pub fn max_tx_for(bs: BlockSize) -> (r: u8)
    ensures
        r == max_tx_spec(bs),
        r <= 3,
{
    let c: u8 = bs.code();
    if c <= 3 {
        3
    } else if c <= 6 {
        2
    } else if c <= 9 {
        1
    } else {
        0
    }
}

/// The context of a transform size. A neighbour without coefficients counts as the
/// largest size.
pub open spec fn tx_ctx(
    above: CtxView,
    left: CtxView,
    col: int,
    row7: int,
    have_a: bool,
    have_l: bool,
    max_tx: int,
) -> int {
    let a = if crate::vp9::coefs::at_or(above.skip, col, 0) != 0 {
        max_tx
    } else {
        crate::vp9::coefs::at_or(above.tx_size, col, 0) as int
    };
    let l = if left.skip[row7] != 0 {
        max_tx
    } else {
        left.tx_size[row7] as int
    };
    if have_a && have_l {
        one(a + l > max_tx)
    } else if have_a {
        one(crate::vp9::coefs::at_or(above.skip, col, 0) != 0 || 2 * a > max_tx)
    } else if have_l {
        one(left.skip[row7] != 0 || 2 * l > max_tx)
    } else {
        1
    }
}

/// The transform size with a code.
pub open spec fn tx_of(v: int) -> TxSize {
    if v <= 0 {
        TxSize::Tx4x4
    } else if v == 1 {
        TxSize::Tx8x8
    } else if v == 2 {
        TxSize::Tx16x16
    } else {
        TxSize::Tx32x32
    }
}

/// The transform size with a code.
pub fn tx_of_code(v: u8) -> (r: TxSize)
    ensures
        r == tx_of(v as int),
{
    if v == 0 {
        TxSize::Tx4x4
    } else if v == 1 {
        TxSize::Tx8x8
    } else if v == 2 {
        TxSize::Tx16x16
    } else {
        TxSize::Tx32x32
    }
}

/// How many of the next flags are set before one is not, at most `n`.
pub open spec fn unary_spec(rac: Rac, probs: Seq<u8>, from: int, n: int) -> (int, Rac)
    decreases n - from,
{
    if from >= n {
        (n, rac)
    } else if !rac.bit(probs[from]) {
        (from, rac.after(probs[from]))
    } else {
        unary_spec(rac.after(probs[from]), probs, from + 1, n)
    }
}

fn read_unary(bd: &mut BoolDecoder, probs: &[u8], n: usize) -> (r: usize)
    requires
        old(bd)@.wf(),
        n <= probs@.len(),
    ensures
        final(bd)@.wf(),
        final(bd)@.data == old(bd)@.data,
        (r as int, final(bd)@) == unary_spec(old(bd)@, probs@, 0, n as int),
        r <= n,
{
    let ghost start = bd@;
    let mut k: usize = 0;
    while k < n
        invariant
            k <= n <= probs@.len(),
            start == old(bd)@,
            bd@.wf(),
            bd@.data == start.data,
            unary_spec(bd@, probs@, k as int, n as int) == unary_spec(start, probs@, 0, n as int),
        decreases n - k,
    {
        if !bd.get_prob(probs[k]) {
            return k;
        }
        k += 1;
    }
    n
}

/// The transform size that is read, by the largest one and the context.
pub open spec fn tx_read_spec(
    rac: Rac,
    counts: CountView,
    h: FrameHeader,
    max_tx: int,
    c: int,
) -> Taken<int> {
    if max_tx == 3 {
        let (t, r) = unary_spec(rac, h.prob.tx32p@[c]@, 0, 3);
        Taken {
            value: t,
            rac: r,
            counts: CountView {
                tx32p: crate::vp9::prob::bump2_spec(counts.tx32p, c, t),
                ..counts
            },
        }
    } else if max_tx == 2 {
        let (t, r) = unary_spec(rac, h.prob.tx16p@[c]@, 0, 2);
        Taken {
            value: t,
            rac: r,
            counts: CountView {
                tx16p: crate::vp9::prob::bump2_spec(counts.tx16p, c, t),
                ..counts
            },
        }
    } else if max_tx == 1 {
        let b = rac.bit(h.prob.tx8p@[c]);
        Taken {
            value: one(b),
            rac: rac.after(h.prob.tx8p@[c]),
            counts: CountView {
                tx8p: crate::vp9::prob::bump2_spec(counts.tx8p, c, one(b)),
                ..counts
            },
        }
    } else {
        Taken { value: 0, rac, counts }
    }
}

/// The largest transform that a mode of a frame allows.
pub open spec fn mode_limit(m: TxMode, max_tx: int) -> int {
    match m {
        TxMode::Only4x4 => 0,
        TxMode::Allow8x8 => 1,
        TxMode::Allow16x16 => 2,
        TxMode::Allow32x32 => 3,
        TxMode::TxModeSelect => max_tx,
    }
}

/// The transform size of a block: read where the frame leaves it to each block that
/// has coefficients or is intra, else the largest one allowed.
pub open spec fn tx_size_spec(
    rac: Rac,
    counts: CountView,
    h: FrameHeader,
    bs: BlockSize,
    skip: bool,
    is_intra: bool,
    above: CtxView,
    left: CtxView,
    col: int,
    row7: int,
    have_a: bool,
    have_l: bool,
) -> Taken<TxSize> {
    let max_tx = max_tx_spec(bs);
    if (is_intra || !skip) && h.tx_mode == TxMode::TxModeSelect {
        let t = tx_read_spec(
            rac,
            counts,
            h,
            max_tx,
            tx_ctx(above, left, col, row7, have_a, have_l, max_tx),
        );
        Taken { value: tx_of(t.value), rac: t.rac, counts: t.counts }
    } else {
        Taken { value: tx_of(least(mode_limit(h.tx_mode, max_tx), max_tx)), rac, counts }
    }
}

fn decode_tx_size(
    bd: &mut BoolDecoder,
    counts: &mut CountContext,
    h: &FrameHeader,
    max_tx: u8,
    above: &AboveContext,
    left: &LeftContext,
    col: usize,
    row7: usize,
    have_a: bool,
    have_l: bool,
) -> (r: u8)
    requires
        old(bd)@.wf(),
        row7 < 8,
        max_tx <= 3,
        crate::vp9::context::ctx_wf(above@),
        crate::vp9::context::ctx_wf(left@),
    ensures
        final(bd)@.wf(),
        final(bd)@.data == old(bd)@.data,
        (Taken { value: r as int, rac: final(bd)@, counts: final(counts)@ }) == tx_read_spec(
            old(bd)@,
            old(counts)@,
            *h,
            max_tx as int,
            tx_ctx(
                above@,
                left@,
                col as int,
                row7 as int,
                have_a,
                have_l,
                max_tx as int,
            ),
        ),
{
    let a_skip = get_or(above.skip.as_slice(), col, 0) != 0;
    let l_skip = left.skip[row7] != 0;
    let a: u8 = if a_skip { max_tx } else { get_or(above.tx_size.as_slice(), col, 0) };
    let l: u8 = if l_skip { max_tx } else { left.tx_size[row7] };
    proof {
        assert(above@.tx_size == above.tx_size@);
        assert(left@.tx_size[row7 as int] <= 3);
    }
    let c: usize = if have_a && have_l {
        one_if(a + l > max_tx)
    } else if have_a {
        one_if(a_skip || 2 * a > max_tx)
    } else if have_l {
        one_if(l_skip || 2 * l > max_tx)
    } else {
        1
    };
    let ghost before = counts@;
    if max_tx == 3 {
        let t: usize = read_unary(bd, &h.prob.tx32p[c], 3);
        bump2(&mut counts.tx32p, c, t);
        assert(counts@ == (CountView { tx32p: counts@.tx32p, ..before }));
        t as u8
    } else if max_tx == 2 {
        let t: usize = read_unary(bd, &h.prob.tx16p[c], 2);
        bump2(&mut counts.tx16p, c, t);
        assert(counts@ == (CountView { tx16p: counts@.tx16p, ..before }));
        t as u8
    } else if max_tx == 1 {
        let t: usize = one_if(bd.get_prob(h.prob.tx8p[c]));
        bump2(&mut counts.tx8p, c, t);
        assert(counts@ == (CountView { tx8p: counts@.tx8p, ..before }));
        t as u8
    } else {
        0
    }
}

/// Reads the transform size of a block.
pub fn read_tx_size(
    bd: &mut BoolDecoder,
    counts: &mut CountContext,
    h: &FrameHeader,
    bs: BlockSize,
    skip: bool,
    is_intra: bool,
    above: &AboveContext,
    left: &LeftContext,
    col: usize,
    row7: usize,
    have_a: bool,
    have_l: bool,
) -> (r: TxSize)
    requires
        old(bd)@.wf(),
        row7 < 8,
        crate::vp9::context::ctx_wf(above@),
        crate::vp9::context::ctx_wf(left@),
    ensures
        final(bd)@.wf(),
        final(bd)@.data == old(bd)@.data,
        (Taken { value: r, rac: final(bd)@, counts: final(counts)@ }) == tx_size_spec(
            old(bd)@,
            old(counts)@,
            *h,
            bs,
            skip,
            is_intra,
            above@,
            left@,
            col as int,
            row7 as int,
            have_a,
            have_l,
        ),
{
    let max_tx: u8 = max_tx_for(bs);
    if (is_intra || !skip) && h.tx_mode == TxMode::TxModeSelect {
        let t: u8 = decode_tx_size(
            bd,
            counts,
            h,
            max_tx,
            above,
            left,
            col,
            row7,
            have_a,
            have_l,
        );
        tx_of_code(t)
    } else {
        let limit: u8 = match h.tx_mode {
            TxMode::Only4x4 => 0,
            TxMode::Allow8x8 => 1,
            TxMode::Allow16x16 => 2,
            TxMode::Allow32x32 => 3,
            TxMode::TxModeSelect => max_tx,
        };
        tx_of_code(if limit < max_tx { limit } else { max_tx })
    }
}

/// The transform size of chroma: one less than luma's where a subsampled side of the
/// block is only half as long as the transform.
pub open spec fn uv_tx_spec(bs: BlockSize, tx: TxSize, ss_h: bool, ss_v: bool) -> TxSize {
    let side = crate::vp9::coefs::step_spec(tx);
    let w = BWH_TAB@[1]@[bs.code_spec() as int]@[0] as int;
    let h = BWH_TAB@[1]@[bs.code_spec() as int]@[1] as int;
    if (ss_h && 2 * w == side) || (ss_v && 2 * h == side) {
        tx_of(tx.code_spec() - 1)
    } else {
        tx
    }
}

/// The transform size of chroma.
pub fn uv_tx_size(bs: BlockSize, tx: TxSize, ss_h: bool, ss_v: bool) -> (r: TxSize)
    ensures
        r == uv_tx_spec(bs, tx, ss_h, ss_v),
{
    let side: usize = crate::vp9::coefs::tx_step(tx);
    let w: usize = BWH_TAB[1][bs.code() as usize][0] as usize;
    let h: usize = BWH_TAB[1][bs.code() as usize][1] as usize;
    if (ss_h && w * 2 == side) || (ss_v && h * 2 == side) {
        let c: u8 = tx.code();
        tx_of_code(if c > 0 { c - 1 } else { 0 })
    } else {
        tx
    }
}

// ---- intra modes ----

/// The intra mode with a code.
pub open spec fn mode_of(v: int) -> IntraMode {
    match IntraMode::of_code(v as u8) {
        Ok(m) => m,
        Err(_) => IntraMode::DcPred,
    }
}

/// The intra mode that is read, and the decoder behind it.
pub open spec fn mode_spec(rac: Rac, probs: Seq<u8>) -> (IntraMode, Rac) {
    (mode_of(rac.symbol(INTRAMODE_TREE@, probs)), rac.after_symbol(INTRAMODE_TREE@, probs))
}

fn read_intra_mode(bd: &mut BoolDecoder, probs: &[u8; 9]) -> (r: IntraMode)
    requires
        old(bd)@.wf(),
    ensures
        final(bd)@.wf(),
        final(bd)@.data == old(bd)@.data,
        (r, final(bd)@) == mode_spec(old(bd)@, probs@),
        r.code_spec() <= 9,
{
    proof {
        lemma_mode_trees();
        crate::vp9::bool_decoder::law_symbol_is_leaf(bd@, INTRAMODE_TREE@, probs@, 0, 9);
    }
    let v: u8 = bd.get_tree(&INTRAMODE_TREE, probs) as u8;
    match IntraMode::try_from(v) {
        Ok(m) => m,
        Err(_) => IntraMode::DcPred,
    }
}

/// The luma mode that is read in a frame without references, by the modes above and
/// on the left.
pub open spec fn kf_mode_spec(rac: Rac, t: Tables, a: u8, l: u8) -> (IntraMode, Rac) {
    mode_spec(rac, t.kf_y_mode@[least(a as int, 9)]@[least(l as int, 9)]@)
}

fn read_kf_y_mode(bd: &mut BoolDecoder, t: &Tables, above: u8, left: u8) -> (r: IntraMode)
    requires
        old(bd)@.wf(),
    ensures
        final(bd)@.wf(),
        final(bd)@.data == old(bd)@.data,
        (r, final(bd)@) == kf_mode_spec(old(bd)@, *t, above, left),
        r.code_spec() <= 9,
{
    let a: usize = least_of(above as usize, 9);
    let l: usize = least_of(left as usize, 9);
    read_intra_mode(bd, &t.kf_y_mode[a][l])
}

/// The modes of a block in a frame without references.
pub struct KfModes {
    pub modes: Seq<IntraMode>,
    pub uv: IntraMode,
    pub rac: Rac,
}

/// The modes of the four quarters, and that of chroma. Each quarter that has a mode of
/// its own reads it by the modes above and on its left.
pub open spec fn kf_modes_spec(
    rac: Rac,
    t: Tables,
    bs: BlockSize,
    a0: u8,
    a1: u8,
    l0: u8,
    l1: u8,
) -> KfModes {
    let (m0, r0) = kf_mode_spec(rac, t, a0, l0);
    let (modes, r) = if sub8x8(bs) {
        let (m1, r1) = if bs != BlockSize::Bs8x4 {
            kf_mode_spec(r0, t, a1, m0.code_spec())
        } else {
            (m0, r0)
        };
        let (m2, r2) = if bs != BlockSize::Bs4x8 {
            kf_mode_spec(r1, t, m0.code_spec(), l1)
        } else {
            (m0, r1)
        };
        let (m3, r3) = if bs == BlockSize::Bs4x4 {
            kf_mode_spec(r2, t, m1.code_spec(), m2.code_spec())
        } else if bs == BlockSize::Bs4x8 {
            (m1, r2)
        } else {
            (m2, r2)
        };
        (seq![m0, m1, m2, m3], r3)
    } else {
        (seq![m0, m0, m0, m0], r0)
    };
    let p = t.kf_uv_mode@[least(modes[3].code_spec() as int, 9)]@;
    KfModes { modes, uv: mode_spec(r, p).0, rac: mode_spec(r, p).1 }
}

/// The modes above with those of a block: its lower two quarters, or its one mode
/// over two entries for each column of 4 pixels.
pub open spec fn kf_above(above: CtxView, bs: BlockSize, col: int, m: Seq<IntraMode>) -> CtxView {
    let y = above.y_mode;
    let w = BWH_TAB@[0]@[bs.code_spec() as int]@[0] as int;
    CtxView {
        y_mode: if sub8x8(bs) {
            crate::vp9::context::splat(
                crate::vp9::context::splat(y, 2 * col, 2 * col + 1, m[2].code_spec()),
                2 * col + 1,
                2 * col + 2,
                m[3].code_spec(),
            )
        } else {
            crate::vp9::context::splat(y, 2 * col, 2 * col + 2 * w, m[0].code_spec())
        },
        ..above
    }
}

/// The modes on the left with those of a block: its right two quarters, or its one
/// mode over two entries for each row of 8 pixels.
pub open spec fn kf_left(left: CtxView, bs: BlockSize, row7: int, m: Seq<IntraMode>) -> CtxView {
    let y = left.y_mode;
    let h = BWH_TAB@[1]@[bs.code_spec() as int]@[1] as int;
    CtxView {
        y_mode: if sub8x8(bs) {
            crate::vp9::context::splat(
                crate::vp9::context::splat(y, 2 * row7, 2 * row7 + 1, m[1].code_spec()),
                2 * row7 + 1,
                2 * row7 + 2,
                m[3].code_spec(),
            )
        } else {
            crate::vp9::context::splat(y, 2 * row7, 2 * row7 + 2 * h, m[0].code_spec())
        },
        ..left
    }
}

/// Sets the entries from `from` up to `to`, as far as they exist.
pub fn fill_within<T: Copy>(s: &mut [T], from: usize, to: usize, v: T)
    ensures
        final(s)@ == crate::vp9::context::splat(old(s)@, from as int, to as int, v),
{
    let len: usize = s.len();
    let end: usize = if to < len { to } else { len };
    let ghost s0 = s@;
    fill_range(s, from, end, v);
    assert(s@ =~= crate::vp9::context::splat(s0, from as int, to as int, v));
}

fn update_mode_ctx(
    above: &mut AboveContext,
    left: &mut LeftContext,
    bs: BlockSize,
    col: usize,
    row7: usize,
    m: &[IntraMode; 4],
)
    requires
        2 * col + 64 <= usize::MAX,
        row7 < 8,
    ensures
        final(above)@ == kf_above(old(above)@, bs, col as int, m@),
        final(left)@ == kf_left(old(left)@, bs, row7 as int, m@),
{
    let w: usize = BWH_TAB[0][bs.code() as usize][0] as usize;
    let h: usize = BWH_TAB[1][bs.code() as usize][1] as usize;
    let base_a: usize = col * 2;
    let base_l: usize = row7 * 2;
    let ghost a0 = above@;
    let ghost l0 = left@;
    if is_sub8x8(bs) {
        fill_within(above.y_mode.as_mut_slice(), base_a, base_a + 1, m[2].code());
        fill_within(above.y_mode.as_mut_slice(), base_a + 1, base_a + 2, m[3].code());
        fill_within(&mut left.y_mode, base_l, base_l + 1, m[1].code());
        fill_within(&mut left.y_mode, base_l + 1, base_l + 2, m[3].code());
    } else {
        fill_within(above.y_mode.as_mut_slice(), base_a, base_a + 2 * w, m[0].code());
        fill_within(&mut left.y_mode, base_l, base_l + 2 * h, m[0].code());
    }
    assert(above@ =~= (CtxView { y_mode: above@.y_mode, ..a0 }));
    assert(left@ =~= (CtxView { y_mode: left@.y_mode, ..l0 }));
}

/// Reads the modes of a block in a frame without references.
#[verifier::rlimit(100)]
#[verifier::spinoff_prover]
pub fn decode_intra_mode(
    bd: &mut BoolDecoder,
    t: &Tables,
    above: &mut AboveContext,
    left: &mut LeftContext,
    bs: BlockSize,
    col: usize,
    row7: usize,
) -> (r: ([IntraMode; 4], IntraMode))
    requires
        old(bd)@.wf(),
        2 * col + 64 <= usize::MAX,
        row7 < 8,
    ensures
        final(bd)@.wf(),
        final(bd)@.data == old(bd)@.data,
        ({
            let k = kf_modes_spec(
                old(bd)@,
                *t,
                bs,
                crate::vp9::coefs::at_or(old(above)@.y_mode, 2 * col, 2),
                crate::vp9::coefs::at_or(old(above)@.y_mode, 2 * col + 1, 2),
                old(left)@.y_mode[2 * row7],
                old(left)@.y_mode[2 * row7 + 1],
            );
            &&& r.0@ == k.modes
            &&& r.1 == k.uv
            &&& final(bd)@ == k.rac
        }),
        final(above)@ == kf_above(old(above)@, bs, col as int, r.0@),
        final(left)@ == kf_left(old(left)@, bs, row7 as int, r.0@),
        forall|i: int| 0 <= i < 4 ==> (#[trigger] r.0@[i]).code_spec() <= 9,
        r.1.code_spec() <= 9,
{
    let a0: u8 = get_or(above.y_mode.as_slice(), col * 2, 2);
    let a1: u8 = get_or(above.y_mode.as_slice(), col * 2 + 1, 2);
    let l0: u8 = left.y_mode[row7 * 2];
    let l1: u8 = left.y_mode[row7 * 2 + 1];
    let m0: IntraMode = read_kf_y_mode(bd, t, a0, l0);
    let modes: [IntraMode; 4] = if is_sub8x8(bs) {
        let m1: IntraMode = if bs != BlockSize::Bs8x4 {
            read_kf_y_mode(bd, t, a1, m0.code())
        } else {
            m0
        };
        let m2: IntraMode = if bs != BlockSize::Bs4x8 {
            read_kf_y_mode(bd, t, m0.code(), l1)
        } else {
            m0
        };
        let m3: IntraMode = if bs == BlockSize::Bs4x4 {
            read_kf_y_mode(bd, t, m1.code(), m2.code())
        } else if bs == BlockSize::Bs4x8 {
            m1
        } else {
            m2
        };
        [m0, m1, m2, m3]
    } else {
        [m0, m0, m0, m0]
    };
    update_mode_ctx(above, left, bs, col, row7, &modes);
    let last: usize = least_of(modes[3].code() as usize, 9);
    let uv: IntraMode = read_intra_mode(bd, &t.kf_uv_mode[last]);
    proof {
        let k = kf_modes_spec(old(bd)@, *t, bs, a0, a1, l0, l1);
        assert(modes@ =~= k.modes);
    }
    (modes, uv)
}

/// A luma mode that is read and counted by a size group.
pub open spec fn y_mode_spec(
    rac: Rac,
    counts: CountView,
    h: FrameHeader,
    group: int,
) -> Taken<IntraMode> {
    let (m, r) = mode_spec(rac, h.prob.y_mode@[group]@);
    Taken {
        value: m,
        rac: r,
        counts: CountView {
            y_mode: crate::vp9::prob::bump2_spec(counts.y_mode, group, m.code_spec() as int),
            ..counts
        },
    }
}

fn read_y_mode(
    bd: &mut BoolDecoder,
    counts: &mut CountContext,
    h: &FrameHeader,
    group: usize,
) -> (r: IntraMode)
    requires
        old(bd)@.wf(),
        group < 4,
    ensures
        final(bd)@.wf(),
        final(bd)@.data == old(bd)@.data,
        (Taken { value: r, rac: final(bd)@, counts: final(counts)@ }) == y_mode_spec(
            old(bd)@,
            old(counts)@,
            *h,
            group as int,
        ),
        r.code_spec() <= 9,
{
    let ghost before = counts@;
    let m: IntraMode = read_intra_mode(bd, &h.prob.y_mode[group]);
    bump2(&mut counts.y_mode, group, m.code() as usize);
    assert(counts@ == (CountView { y_mode: counts@.y_mode, ..before }));
    m
}

/// The modes of an intra block in a frame with references: those of the quarters that
/// have one of their own, then that of chroma.
pub open spec fn intra_modes_spec(
    rac: Rac,
    counts: CountView,
    h: FrameHeader,
    bs: BlockSize,
) -> Taken<(Seq<IntraMode>, IntraMode)> {
    let t = if sub8x8(bs) {
        let t0 = y_mode_spec(rac, counts, h, 0);
        let t1 = if bs != BlockSize::Bs8x4 {
            y_mode_spec(t0.rac, t0.counts, h, 0)
        } else {
            t0
        };
        if bs != BlockSize::Bs4x8 {
            let t2 = y_mode_spec(t1.rac, t1.counts, h, 0);
            let t3 = if bs != BlockSize::Bs8x4 {
                y_mode_spec(t2.rac, t2.counts, h, 0)
            } else {
                t2
            };
            Taken {
                value: seq![t0.value, t1.value, t2.value, t3.value],
                rac: t3.rac,
                counts: t3.counts,
            }
        } else {
            Taken {
                value: seq![t0.value, t1.value, t0.value, t1.value],
                rac: t1.rac,
                counts: t1.counts,
            }
        }
    } else {
        let t0 = y_mode_spec(rac, counts, h, SIZE_GROUP@[bs.code_spec() as int] as int);
        Taken {
            value: seq![t0.value, t0.value, t0.value, t0.value],
            rac: t0.rac,
            counts: t0.counts,
        }
    };
    let last = least(t.value[3].code_spec() as int, 9);
    let (uv, r) = mode_spec(t.rac, h.prob.uv_mode@[last]@);
    Taken {
        value: (t.value, uv),
        rac: r,
        counts: CountView {
            uv_mode: crate::vp9::prob::bump2_spec(t.counts.uv_mode, last, uv.code_spec() as int),
            ..t.counts
        },
    }
}

/// Reads the modes of an intra block in a frame with references.
#[verifier::rlimit(100)]
#[verifier::spinoff_prover]
pub fn decode_non_kf_intra_mode(
    bd: &mut BoolDecoder,
    counts: &mut CountContext,
    h: &FrameHeader,
    bs: BlockSize,
) -> (r: ([IntraMode; 4], IntraMode))
    requires
        old(bd)@.wf(),
    ensures
        final(bd)@.wf(),
        final(bd)@.data == old(bd)@.data,
        (Taken { value: (r.0@, r.1), rac: final(bd)@, counts: final(counts)@ })
            == intra_modes_spec(old(bd)@, old(counts)@, *h, bs),
        forall|i: int| 0 <= i < 4 ==> (#[trigger] r.0@[i]).code_spec() <= 9,
        r.1.code_spec() <= 9,
{
    let ghost rac0 = bd@;
    let ghost counts0 = counts@;
    let modes: [IntraMode; 4] = if is_sub8x8(bs) {
        let m0: IntraMode = read_y_mode(bd, counts, h, 0);
        let m1: IntraMode = if bs != BlockSize::Bs8x4 {
            read_y_mode(bd, counts, h, 0)
        } else {
            m0
        };
        if bs != BlockSize::Bs4x8 {
            let m2: IntraMode = read_y_mode(bd, counts, h, 0);
            let m3: IntraMode = if bs != BlockSize::Bs8x4 {
                read_y_mode(bd, counts, h, 0)
            } else {
                m2
            };
            let m: [IntraMode; 4] = [m0, m1, m2, m3];
            assert(m@ =~= seq![m0, m1, m2, m3]);
            m
        } else {
            let m: [IntraMode; 4] = [m0, m1, m0, m1];
            assert(m@ =~= seq![m0, m1, m0, m1]);
            m
        }
    } else {
        let group: usize = SIZE_GROUP[bs.code() as usize] as usize;
        let m0: IntraMode = read_y_mode(bd, counts, h, group);
        let m: [IntraMode; 4] = [m0, m0, m0, m0];
        assert(m@ =~= seq![m0, m0, m0, m0]);
        m
    };
    let last: usize = least_of(modes[3].code() as usize, 9);
    let ghost before = counts@;
    let uv: IntraMode = read_intra_mode(bd, &h.prob.uv_mode[last]);
    bump2(&mut counts.uv_mode, last, uv.code() as usize);
    assert(counts@ == (CountView { uv_mode: counts@.uv_mode, ..before }));
    (modes, uv)
}

} // verus!

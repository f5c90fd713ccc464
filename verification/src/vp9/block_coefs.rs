//! The coefficients of blocks.
use vstd::prelude::*;

use crate::vp9::block_modes::{BlockModes, ModesView, TileEnv};
use crate::vp9::bool_decoder::{BoolDecoder, Rac};
use crate::vp9::coef_counts::{coef_counts, set_coef_counts};
use crate::vp9::coefs::{decode_plane, PlaneCoding, PlaneRead};
use crate::vp9::context::{AboveContext, CtxView, LeftContext};
use crate::vp9::data::{Tables, BWH_TAB};
use crate::vp9::header::FrameHeader;
use crate::vp9::modes::{fill_within, is_sub8x8};
use crate::vp9::prob::{CountContext, CountView};
use crate::vp9::quant::{get_ac_quant, get_dc_quant};
use crate::vp9::types::{BlockSize, IntraMode, TxSize};

verus! {

/// The quantizer index of a segment: absolute, or relative to that of the frame.
pub open spec fn q_index_spec(h: FrameHeader, seg: int) -> u8 {
    let f = h.segmentation.feat@[seg];
    if h.segmentation.enabled && f.q_enabled {
        let q = if h.segmentation.absolute_vals {
            f.q_val as int
        } else {
            h.base_q_idx + f.q_val
        };
        if q < 0 {
            0
        } else if q > 255 {
            255
        } else {
            q as u8
        }
    } else {
        h.base_q_idx
    }
}

fn q_index(h: &FrameHeader, seg: u8) -> (r: u8)
    requires
        seg < 8,
        crate::vp9::header::header_wf(*h),
    ensures
        r == q_index_spec(*h, seg as int),
{
    let f = h.segmentation.feat[seg as usize];
    assert(f.q_val <= 255 && f.q_val >= -255) by {
        assert(h.segmentation.feat@[seg as int] == f);
    }
    if h.segmentation.enabled && f.q_enabled {
        let q: i16 = if h.segmentation.absolute_vals {
            f.q_val
        } else {
            h.base_q_idx as i16 + f.q_val
        };
        if q < 0 {
            0
        } else if q > 255 {
            255
        } else {
            q as u8
        }
    } else {
        h.base_q_idx
    }
}

/// Up to `n` entries from `base` on.
pub open spec fn window(c: Seq<u8>, base: int, n: int) -> Seq<u8> {
    if base + n <= c.len() {
        c.subrange(base, base + n)
    } else {
        c.subrange(base, c.len() as int)
    }
}

/// `c` with the entries of `w` from `base` on.
pub open spec fn paste(c: Seq<u8>, base: int, w: Seq<u8>) -> Seq<u8> {
    Seq::new(c.len(), |i: int| if base <= i < base + w.len() { w[i - base] } else { c[i] })
}

fn copy_window(c: &[u8], base: usize, n: usize) -> (r: Vec<u8>)
    requires
        base <= c@.len(),
        n <= 16,
        base + 16 <= usize::MAX,
    ensures
        r@ == window(c@, base as int, n as int),
        r@.len() <= n,
{
    let len: usize = c.len();
    let end: usize = if base + n <= len { base + n } else { len };
    let mut r: Vec<u8> = Vec::new();
    let mut i: usize = base;
    while i < end
        invariant
            base <= i <= end <= c@.len(),
            r@ =~= c@.subrange(base as int, i as int),
        decreases end - i,
    {
        r.push(c[i]);
        i += 1;
    }
    r
}

fn paste_window(c: &mut [u8], base: usize, w: &[u8])
    requires
        base + w@.len() <= old(c)@.len(),
    ensures
        final(c)@ == paste(old(c)@, base as int, w@),
{
    let ghost c0 = c@;
    let len: usize = c.len();
    let mut i: usize = 0;
    while i < w.len()
        invariant
            i <= w@.len(),
            len == c@.len() == c0.len(),
            base + w@.len() <= len,
            forall|k: int|
                0 <= k < len ==> #[trigger] c@[k] == (if base <= k < base + i {
                    w@[k - base]
                } else {
                    c0[k]
                }),
        decreases w@.len() - i,
    {
        c[base + i] = w[i];
        i += 1;
    }
    assert(c@ =~= paste(c0, base as int, w@));
}

/// Coefficients of a plane, with the decoder, the counts and the contexts behind them.
pub struct PlaneCoded {
    pub coefs: Seq<i32>,
    pub rac: Rac,
    pub counts: CountView,
    pub above: Seq<u8>,
    pub left: Seq<u8>,
}

/// A plane is read: the contexts are those from `base_a` and `base_l` on.
#[verifier::opaque]
pub open spec fn plane_spec(
    e: PlaneCoding,
    rac: Rac,
    counts: CountView,
    above: Seq<u8>,
    left: Seq<u8>,
    kind: int,
    inter: int,
    base_a: int,
    base_l: int,
) -> PlaneCoded {
    let tx = e.tx.code_spec() as int;
    let t = e.all(
        PlaneRead {
            rac,
            cnt: counts.coef[tx][kind][inter],
            eob: counts.eob[tx][kind][inter],
            a: window(above, base_a, e.end_x),
            l: window(left, base_l, e.end_y),
            coefs: Seq::empty(),
        },
    );
    PlaneCoded {
        coefs: t.coefs,
        rac: t.rac,
        counts: crate::vp9::coef_counts::with_coef_counts(counts, tx, kind, inter, t.cnt, t.eob),
        above: paste(above, base_a, t.a),
        left: paste(left, base_l, t.l),
    }
}

/// Reads the coefficients of a plane.
fn read_plane(
    bd: &mut BoolDecoder,
    counts: &mut CountContext,
    tx: TxSize,
    lossless: bool,
    p: &[[[u8; 3]; 6]; 6],
    tables: &Tables,
    dc: i16,
    ac: i16,
    end_x: usize,
    end_y: usize,
    dct_only: bool,
    quarters: bool,
    modes: &[IntraMode; 4],
    above: &mut [u8],
    left: &mut [u8],
    kind: usize,
    inter: usize,
    base_a: usize,
    base_l: usize,
) -> (coefs: Vec<i32>)
    requires
        old(bd)@.wf(),
        tables.wf(),
        lossless ==> tx == TxSize::Tx4x4,
        end_x <= 16,
        end_y <= 16,
        kind < 2,
        inter < 2,
        base_a <= old(above)@.len(),
        base_l <= old(left)@.len(),
        base_a + 16 <= usize::MAX,
        base_l + 16 <= usize::MAX,
        crate::vp9::coefs::flags(old(above)@),
        crate::vp9::coefs::flags(old(left)@),
    ensures
        final(bd)@.wf(),
        final(bd)@.data == old(bd)@.data,
        (PlaneCoded {
            coefs: coefs@,
            rac: final(bd)@,
            counts: final(counts)@,
            above: final(above)@,
            left: final(left)@,
        }) == plane_spec(
            PlaneCoding {
                tx,
                lossless,
                probs: *p,
                tables: *tables,
                dc,
                ac,
                end_x: end_x as int,
                end_y: end_y as int,
                dct_only,
                quarters,
                modes: modes@,
            },
            old(bd)@,
            old(counts)@,
            old(above)@,
            old(left)@,
            kind as int,
            inter as int,
            base_a as int,
            base_l as int,
        ),
        crate::vp9::coefs::flags(final(above)@),
        crate::vp9::coefs::flags(final(left)@),
        final(above)@.len() == old(above)@.len(),
        final(left)@.len() == old(left)@.len(),
{
    proof {
        reveal(plane_spec);
    }
    let t: usize = tx.code() as usize;
    let (mut cnt, mut eob) = coef_counts(counts, t, kind, inter);
    let mut a: Vec<u8> = copy_window(above, base_a, end_x);
    let mut l: Vec<u8> = copy_window(left, base_l, end_y);
    let coefs: Vec<i32> = decode_plane(
        bd,
        tx,
        lossless,
        p,
        tables,
        dc,
        ac,
        end_x,
        end_y,
        dct_only,
        quarters,
        modes,
        &mut a,
        &mut l,
        &mut cnt,
        &mut eob,
    );
    set_coef_counts(counts, t, kind, inter, cnt, eob);
    paste_window(above, base_a, a.as_slice());
    paste_window(left, base_l, l.as_slice());
    coefs
}

/// Coefficients of a block, with the decoder, the counts and the contexts behind them.
pub struct BlockCoded {
    pub y: Seq<i32>,
    pub u: Seq<i32>,
    pub v: Seq<i32>,
    pub rac: Rac,
    pub counts: CountView,
    pub above: Seq<Seq<u8>>,
    pub left: Seq<Seq<u8>>,
}

/// `v`, or half of it, rounded down.
pub open spec fn halved(v: int, half: bool) -> int {
    if half {
        v / 2
    } else {
        v
    }
}

fn halve(v: usize, half: bool) -> (r: usize)
    ensures
        r == halved(v as int, half),
        r <= v,
{
    if half {
        v / 2
    } else {
        v
    }
}

/// How far a block that starts at `at` reaches into the frame.
pub open spec fn inside(size: int, at: int, frame: int) -> int {
    if at >= frame {
        0
    } else if size < frame - at {
        size
    } else {
        frame - at
    }
}

/// The coding of luma in a block.
#[verifier::opaque]
pub open spec fn luma_coding(
    f: TileEnv,
    m: ModesView,
    row: int,
    col: int,
    bs: BlockSize,
) -> PlaneCoding {
    let q = q_index_spec(f.h, m.segment_id as int);
    PlaneCoding {
        tx: m.tx_size,
        lossless: f.h.lossless,
        probs: f.h.coef@[m.tx_size.code_spec() as int]@[0]@[crate::vp9::modes::one(!m.is_intra)],
        tables: f.tables,
        dc: crate::vp9::quant::dc_quant_spec(q, f.h.y_dc_delta_q, f.h.bit_depth),
        ac: crate::vp9::quant::ac_quant_spec(q, 0, f.h.bit_depth),
        end_x: inside(2 * BWH_TAB@[1]@[bs.code_spec() as int]@[0], col, f.cols),
        end_y: inside(2 * BWH_TAB@[1]@[bs.code_spec() as int]@[1], row, f.rows),
        dct_only: !m.is_intra,
        quarters: crate::vp9::modes::sub8x8(bs),
        modes: m.y_mode,
    }
}

/// The coding of chroma in a block.
#[verifier::opaque]
pub open spec fn chroma_coding(
    f: TileEnv,
    m: ModesView,
    row: int,
    col: int,
    bs: BlockSize,
) -> PlaneCoding {
    let q = q_index_spec(f.h, m.segment_id as int);
    let y = luma_coding(f, m, row, col, bs);
    PlaneCoding {
        tx: m.uv_tx_size,
        probs: f.h.coef@[m.uv_tx_size.code_spec() as int]@[1]@[crate::vp9::modes::one(
            !m.is_intra,
        )],
        dc: crate::vp9::quant::dc_quant_spec(q, f.h.uv_dc_delta_q, f.h.bit_depth),
        ac: crate::vp9::quant::ac_quant_spec(q, f.h.uv_ac_delta_q, f.h.bit_depth),
        end_x: halved(y.end_x, f.h.subsampling_x),
        end_y: halved(y.end_y, f.h.subsampling_y),
        dct_only: true,
        quarters: false,
        ..y
    }
}

/// The coefficients of a block, plane by plane.
#[verifier::opaque]
pub open spec fn coeffs_spec(
    f: TileEnv,
    m: ModesView,
    rac: Rac,
    counts: CountView,
    above: Seq<Seq<u8>>,
    left: Seq<Seq<u8>>,
    row: int,
    col: int,
    bs: BlockSize,
) -> BlockCoded {
    let inter = crate::vp9::modes::one(!m.is_intra);
    let y = plane_spec(
        luma_coding(f, m, row, col, bs),
        rac,
        counts,
        above[0],
        left[0],
        0,
        inter,
        col,
        row % 16,
    );
    let e = chroma_coding(f, m, row, col, bs);
    let base_a = halved(col, f.h.subsampling_x);
    let base_l = halved(row % 16, f.h.subsampling_y);
    let u = plane_spec(e, y.rac, y.counts, above[1], left[1], 1, inter, base_a, base_l);
    let v = plane_spec(e, u.rac, u.counts, above[2], left[2], 1, inter, base_a, base_l);
    BlockCoded {
        y: y.coefs,
        u: u.coefs,
        v: v.coefs,
        rac: v.rac,
        counts: v.counts,
        above: seq![y.above, u.above, v.above],
        left: seq![y.left, u.left, v.left],
    }
}

fn reach(size: usize, at: usize, frame: usize) -> (r: usize)
    ensures
        r == inside(size as int, at as int, frame as int),
        r <= size,
{
    if at >= frame {
        0
    } else if size < frame - at {
        size
    } else {
        frame - at
    }
}

/// Reads the luma coefficients of a block.
fn read_luma(
    bd: &mut BoolDecoder,
    counts: &mut CountContext,
    h: &FrameHeader,
    tables: &Tables,
    rows: usize,
    cols: usize,
    above: &mut [u8],
    left: &mut [u8],
    row: usize,
    col: usize,
    bs: BlockSize,
    m: &BlockModes,
    Ghost(f): Ghost<TileEnv>,
) -> (coefs: Vec<i32>)
    requires
        old(bd)@.wf(),
        crate::vp9::header::header_wf(*h),
        tables.wf(),
        h.lossless ==> m.tx_size == TxSize::Tx4x4,
        m.segment_id < 8,
        col < cols <= 16384,
        cols <= old(above)@.len(),
        old(left)@.len() == 16,
        crate::vp9::coefs::flags(old(above)@),
        crate::vp9::coefs::flags(old(left)@),
        f.h == *h,
        f.tables == *tables,
        f.rows == rows,
        f.cols == cols,
    ensures
        final(bd)@.wf(),
        final(bd)@.data == old(bd)@.data,
        (PlaneCoded {
            coefs: coefs@,
            rac: final(bd)@,
            counts: final(counts)@,
            above: final(above)@,
            left: final(left)@,
        }) == plane_spec(
            luma_coding(f, m@, row as int, col as int, bs),
            old(bd)@,
            old(counts)@,
            old(above)@,
            old(left)@,
            0,
            crate::vp9::modes::one(!m.is_intra),
            col as int,
            (row % 16) as int,
        ),
        crate::vp9::coefs::flags(final(above)@),
        crate::vp9::coefs::flags(final(left)@),
        final(above)@.len() == old(above)@.len(),
{
    let q: u8 = q_index(h, m.segment_id);
    let inter: usize = if m.is_intra { 0 } else { 1 };
    let w: usize = BWH_TAB[1][bs.code() as usize][0] as usize * 2;
    let hh: usize = BWH_TAB[1][bs.code() as usize][1] as usize * 2;
    let end_x: usize = reach(w, col, cols);
    let end_y: usize = reach(hh, row, rows);
    let ty: usize = m.tx_size.code() as usize;
    proof {
        reveal(luma_coding);
    }
    let coefs: Vec<i32> = read_plane(
        bd,
        counts,
        m.tx_size,
        h.lossless,
        &h.coef[ty][0][inter],
        tables,
        get_dc_quant(q, h.y_dc_delta_q, h.bit_depth),
        get_ac_quant(q, 0, h.bit_depth),
        end_x,
        end_y,
        !m.is_intra,
        is_sub8x8(bs),
        &m.y_mode,
        above,
        left,
        0,
        inter,
        col,
        row % 16,
    );
    coefs
}

/// Reads the coefficients of a chroma plane of a block.
fn read_chroma(
    bd: &mut BoolDecoder,
    counts: &mut CountContext,
    h: &FrameHeader,
    tables: &Tables,
    rows: usize,
    cols: usize,
    above: &mut [u8],
    left: &mut [u8],
    row: usize,
    col: usize,
    bs: BlockSize,
    m: &BlockModes,
    Ghost(f): Ghost<TileEnv>,
) -> (coefs: Vec<i32>)
    requires
        old(bd)@.wf(),
        crate::vp9::header::header_wf(*h),
        tables.wf(),
        h.lossless ==> m.uv_tx_size == TxSize::Tx4x4,
        m.segment_id < 8,
        col < cols <= 16384,
        cols <= old(above)@.len(),
        old(left)@.len() == 16,
        crate::vp9::coefs::flags(old(above)@),
        crate::vp9::coefs::flags(old(left)@),
        f.h == *h,
        f.tables == *tables,
        f.rows == rows,
        f.cols == cols,
    ensures
        final(bd)@.wf(),
        final(bd)@.data == old(bd)@.data,
        (PlaneCoded {
            coefs: coefs@,
            rac: final(bd)@,
            counts: final(counts)@,
            above: final(above)@,
            left: final(left)@,
        }) == plane_spec(
            chroma_coding(f, m@, row as int, col as int, bs),
            old(bd)@,
            old(counts)@,
            old(above)@,
            old(left)@,
            1,
            crate::vp9::modes::one(!m.is_intra),
            halved(col as int, h.subsampling_x),
            halved((row % 16) as int, h.subsampling_y),
        ),
        crate::vp9::coefs::flags(final(above)@),
        crate::vp9::coefs::flags(final(left)@),
        final(above)@.len() == old(above)@.len(),
{
    let q: u8 = q_index(h, m.segment_id);
    let inter: usize = if m.is_intra { 0 } else { 1 };
    let w: usize = BWH_TAB[1][bs.code() as usize][0] as usize * 2;
    let hh: usize = BWH_TAB[1][bs.code() as usize][1] as usize * 2;
    let end_x: usize = halve(reach(w, col, cols), h.subsampling_x);
    let end_y: usize = halve(reach(hh, row, rows), h.subsampling_y);
    let tu: usize = m.uv_tx_size.code() as usize;
    let ua: usize = halve(col, h.subsampling_x);
    let ul: usize = halve(row % 16, h.subsampling_y);
    proof {
        reveal(luma_coding);
        reveal(chroma_coding);
    }
    let coefs: Vec<i32> = read_plane(
        bd,
        counts,
        m.uv_tx_size,
        h.lossless,
        &h.coef[tu][1][inter],
        tables,
        get_dc_quant(q, h.uv_dc_delta_q, h.bit_depth),
        get_ac_quant(q, h.uv_ac_delta_q, h.bit_depth),
        end_x,
        end_y,
        true,
        false,
        &m.y_mode,
        above,
        left,
        1,
        inter,
        ua,
        ul,
    );
    coefs
}

/// Reads the coefficients of a block.
#[verifier::rlimit(100)]
pub fn decode_coeffs(
    bd: &mut BoolDecoder,
    counts: &mut CountContext,
    h: &FrameHeader,
    tables: &Tables,
    rows: usize,
    cols: usize,
    above: &mut AboveContext,
    left: &mut LeftContext,
    row: usize,
    col: usize,
    bs: BlockSize,
    m: &BlockModes,
    Ghost(f): Ghost<TileEnv>,
) -> (r: (Vec<i32>, Vec<i32>, Vec<i32>))
    requires
        old(bd)@.wf(),
        crate::vp9::header::header_wf(*h),
        tables.wf(),
        h.lossless ==> m.tx_size == TxSize::Tx4x4 && m.uv_tx_size == TxSize::Tx4x4,
        m.segment_id < 8,
        col < cols <= 16384,
        crate::vp9::context::ctx_wf(old(above)@),
        crate::vp9::context::ctx_wf(old(left)@),
        forall|p: int| 0 <= p < 3 ==> cols <= #[trigger] old(above).coef@[p]@.len(),
        f.h == *h,
        f.tables == *tables,
        f.rows == rows,
        f.cols == cols,
    ensures
        final(bd)@.wf(),
        final(bd)@.data == old(bd)@.data,
        (BlockCoded {
            y: r.0@,
            u: r.1@,
            v: r.2@,
            rac: final(bd)@,
            counts: final(counts)@,
            above: final(above)@.coef,
            left: final(left)@.coef,
        }) == coeffs_spec(
            f,
            m@,
            old(bd)@,
            old(counts)@,
            old(above)@.coef,
            old(left)@.coef,
            row as int,
            col as int,
            bs,
        ),
        final(above)@ == (CtxView { coef: final(above)@.coef, ..old(above)@ }),
        final(left)@ == (CtxView { coef: final(left)@.coef, ..old(left)@ }),
        crate::vp9::context::ctx_wf(final(above)@),
        crate::vp9::context::ctx_wf(final(left)@),
        forall|p: int|
            0 <= p < 3 ==> (#[trigger] final(above).coef@[p])@.len() == old(
                above,
            ).coef@[p]@.len(),
{
    let ghost a0 = above@;
    let ghost l0 = left@;
    proof {
        assert(a0.coef[0] == above.coef@[0]@ && a0.coef[1] == above.coef@[1]@ && a0.coef[2]
            == above.coef@[2]@);
        assert(l0.coef[0] == left.coef@[0]@ && l0.coef[1] == left.coef@[1]@ && l0.coef[2]
            == left.coef@[2]@);
        assert(crate::vp9::coefs::flags(a0.coef[0]) && crate::vp9::coefs::flags(a0.coef[1])
            && crate::vp9::coefs::flags(a0.coef[2]));
        assert(crate::vp9::coefs::flags(l0.coef[0]) && crate::vp9::coefs::flags(l0.coef[1])
            && crate::vp9::coefs::flags(l0.coef[2]));
    }
    let y: Vec<i32> = read_luma(
        bd,
        counts,
        h,
        tables,
        rows,
        cols,
        above.coef[0].as_mut_slice(),
        &mut left.coef[0],
        row,
        col,
        bs,
        m,
        Ghost(f),
    );
    let u: Vec<i32> = read_chroma(
        bd,
        counts,
        h,
        tables,
        rows,
        cols,
        above.coef[1].as_mut_slice(),
        &mut left.coef[1],
        row,
        col,
        bs,
        m,
        Ghost(f),
    );
    let v: Vec<i32> = read_chroma(
        bd,
        counts,
        h,
        tables,
        rows,
        cols,
        above.coef[2].as_mut_slice(),
        &mut left.coef[2],
        row,
        col,
        bs,
        m,
        Ghost(f),
    );
    proof {
        reveal(coeffs_spec);
        let e = coeffs_spec(
            f,
            m@,
            old(bd)@,
            old(counts)@,
            a0.coef,
            l0.coef,
            row as int,
            col as int,
            bs,
        );
        assert(above@.coef =~= e.above);
        assert(left@.coef =~= e.left);
        assert(above@ =~= (CtxView { coef: above@.coef, ..a0 }));
        assert(left@ =~= (CtxView { coef: left@.coef, ..l0 }));
        assert forall|p: int, i: int| 0 <= p < 3 && 0 <= i < above@.coef[p].len() implies
            #[trigger] above@.coef[p][i] <= 1 by {
            assert(p == 0 || p == 1 || p == 2);
            assert(crate::vp9::coefs::flags(above@.coef[p]));
        }
        assert forall|p: int, i: int| 0 <= p < 3 && 0 <= i < left@.coef[p].len() implies
            #[trigger] left@.coef[p][i] <= 1 by {
            assert(p == 0 || p == 1 || p == 2);
            assert(crate::vp9::coefs::flags(left@.coef[p]));
        }
    }
    (y, u, v)
}

/// The coefficient flags with those of a block cleared, which starts at `at` and has
/// `n` units of 8 pixels.
pub open spec fn cleared(c: Seq<Seq<u8>>, at: int, n: int, half: bool) -> Seq<Seq<u8>> {
    let uv = halved(at, half);
    let len = if half {
        n
    } else {
        2 * n
    };
    seq![
        crate::vp9::context::splat(c[0], at, at + 2 * n, 0u8),
        crate::vp9::context::splat(c[1], uv, uv + len, 0u8),
        crate::vp9::context::splat(c[2], uv, uv + len, 0u8),
    ]
}

/// Clears the coefficient flags of a block.
pub fn zero_nnz_ctx(
    above: &mut AboveContext,
    left: &mut LeftContext,
    col: usize,
    row: usize,
    w4: usize,
    h4: usize,
    ss_h: bool,
    ss_v: bool,
)
    requires
        col <= 16384,
        w4 <= 8,
        h4 <= 8,
        crate::vp9::context::ctx_wf(old(above)@),
        crate::vp9::context::ctx_wf(old(left)@),
    ensures
        final(above)@ == (CtxView {
            coef: cleared(old(above)@.coef, col as int, w4 as int, ss_h),
            ..old(above)@
        }),
        final(left)@ == (CtxView {
            coef: cleared(old(left)@.coef, (row % 16) as int, h4 as int, ss_v),
            ..old(left)@
        }),
        crate::vp9::context::ctx_wf(final(above)@),
        crate::vp9::context::ctx_wf(final(left)@),
        forall|p: int|
            0 <= p < 3 ==> (#[trigger] final(above).coef@[p])@.len() == old(
                above,
            ).coef@[p]@.len(),
{
    let ghost a0 = above@;
    let ghost l0 = left@;
    let base_l: usize = row % 16;
    let ua: usize = halve(col, ss_h);
    let ul: usize = halve(base_l, ss_v);
    let uw: usize = if ss_h { w4 } else { w4 * 2 };
    let uh: usize = if ss_v { h4 } else { h4 * 2 };
    fill_within(above.coef[0].as_mut_slice(), col, col + w4 * 2, 0);
    fill_within(above.coef[1].as_mut_slice(), ua, ua + uw, 0);
    fill_within(above.coef[2].as_mut_slice(), ua, ua + uw, 0);
    fill_within(&mut left.coef[0], base_l, base_l + h4 * 2, 0);
    fill_within(&mut left.coef[1], ul, ul + uh, 0);
    fill_within(&mut left.coef[2], ul, ul + uh, 0);
    proof {
        assert(above@.coef =~= cleared(a0.coef, col as int, w4 as int, ss_h));
        assert(left@.coef =~= cleared(l0.coef, base_l as int, h4 as int, ss_v));
        assert(above@ =~= (CtxView { coef: above@.coef, ..a0 }));
        assert(left@ =~= (CtxView { coef: left@.coef, ..l0 }));
    }
}

} // verus!

//! Inter prediction of whole blocks.
use std::sync::Arc;
use vstd::prelude::*;

use crate::vp9::block::BlockInfo;
use crate::vp9::block_modes::BlockView;
use crate::vp9::data::BWH_TAB;
use crate::vp9::mc::{avg_block, chroma_mv, luma_mc, luma_size, mc_chroma, n_parts, part_of, Part};
use crate::vp9::recon::{FbView, FrameBuffer};
use crate::vp9::refs::RefFrame;
use crate::vp9::types::BlockSize;

verus! {

fn halve_up(v: usize, half: bool) -> (r: usize)
    requires
        v < usize::MAX,
    ensures
        r == crate::vp9::mc::halved_up(v as int, half),
        r <= v,
{
    if half {
        (v + 1) / 2
    } else {
        v
    }
}

fn halve(v: usize, half: bool) -> (r: usize)
    ensures
        r == crate::vp9::block_coefs::halved(v as int, half),
        r <= v,
{
    if half {
        v / 2
    } else {
        v
    }
}

/// Predicts a block from its first reference.
#[verifier::rlimit(100)]
fn predict_first(
    fb: &mut FrameBuffer,
    block: &BlockInfo,
    r: &RefFrame,
    ss_h: bool,
    ss_v: bool,
    subpel: &[[[i16; 8]; 16]; 4],
    emu_buf: &mut [u8],
)
    requires
        old(fb).wf(),
        block.row <= 16384,
        block.col <= 16384,
        block.filter < 4,
        crate::vp9::mc::ref_fits(*r, ss_h, ss_v),
        crate::vp9::mc::block_fits_frame(
            old(fb)@,
            block.row as int,
            block.col as int,
            block.bs,
            ss_h,
            ss_v,
        ),
        old(emu_buf)@.len() >= 11360,
    ensures
        final(fb)@ == crate::vp9::mc::first_spec(old(fb)@, block@, *r, ss_h, ss_v, *subpel),
        crate::vp9::recon::same_shape(final(fb)@, old(fb)@),
        final(emu_buf)@.len() == old(emu_buf)@.len(),
{
    let ghost at = crate::vp9::mc::block_place(
        fb@,
        block.row as int,
        block.col as int,
        block.bs,
        ss_h,
        ss_v,
    );
    proof {
        reveal(crate::vp9::mc::first_spec);
    }
    let k: usize = block.bs.code() as usize;
    let row_px: usize = block.row * 4;
    let col_px: usize = block.col * 4;
    let y_len: usize = fb.y.len();
    let u_len: usize = fb.u.len();
    proof {
        lemma_first_part(block.bs);
        lemma_off(row_px as int, fb.y_stride as int, col_px as int);
        lemma_base(fb.y@.len() as int, at.y_off, fb.y_stride as int, block.bs);
        assert(at.y_off == row_px * fb.y_stride + col_px);
    }
    let y_off: usize = row_px * fb.y_stride + col_px;
    luma_mc(
        fb.y.as_mut_slice(),
        y_off,
        fb.y_stride,
        r.fb.y.as_slice(),
        r.fb.y_stride,
        r.width as usize,
        r.height as usize,
        row_px,
        col_px,
        block.bs,
        &block.mv,
        0,
        block.filter,
        subpel,
        emu_buf,
    );
    let uv_row: usize = halve(row_px, ss_v);
    let uv_col: usize = halve(col_px, ss_h);
    let uv_w: usize = BWH_TAB[1][k][0] as usize * 4;
    let uv_h: usize = BWH_TAB[1][k][1] as usize * 4;
    proof {
        lemma_off(uv_row as int, fb.uv_stride as int, uv_col as int);
        assert(at.uv_off == uv_row * fb.uv_stride + uv_col);
    }
    let uv_off: usize = uv_row * fb.uv_stride + uv_col;
    let mv: [i16; 2] = chroma_mv(block.bs, &block.mv, 0, ss_h, ss_v);
    let (_, u) = fb.u.as_mut_slice().split_at_mut(uv_off);
    let (_, v) = fb.v.as_mut_slice().split_at_mut(uv_off);
    mc_chroma(
        u,
        v,
        fb.uv_stride,
        r.fb.u.as_slice(),
        r.fb.v.as_slice(),
        r.fb.uv_stride,
        halve_up(r.width as usize, ss_h),
        halve_up(r.height as usize, ss_v),
        uv_row,
        uv_col,
        &mv,
        uv_w,
        uv_h,
        block.filter,
        ss_h,
        ss_v,
        subpel,
        emu_buf,
    );
    proof {
        reveal(crate::vp9::mc::mc_spec);
    }
}

/// The first part of a block lies at its start.
proof fn lemma_first_part(bs: BlockSize)
    ensures
        crate::vp9::mc::n_parts_spec(bs) >= 1,
        crate::vp9::mc::part_spec(bs, 0).dy == 0,
        crate::vp9::mc::part_spec(bs, 0).dx == 0,
{
}

/// A block lies in its plane.
proof fn lemma_base(len: int, base: int, stride: int, bs: BlockSize)
    requires
        crate::vp9::mc::parts_fit(len, base, stride, bs),
    ensures
        0 <= base <= len,
{
    lemma_first_part(bs);
    let q = crate::vp9::mc::part_spec(bs, 0);
    assert(q.dy * stride == 0) by (nonlinear_arith)
        requires
            q.dy == 0,
    ;
}

proof fn lemma_off(row: int, stride: int, col: int)
    requires
        0 <= row,
        0 <= stride,
        0 <= col,
    ensures
        0 <= row * stride,
{
    assert(0 <= row * stride) by (nonlinear_arith)
        requires
            0 <= row,
            0 <= stride,
    ;
}

/// Predicts a block from its second reference, and averages.
#[verifier::rlimit(100)]
fn predict_second(
    fb: &mut FrameBuffer,
    block: &BlockInfo,
    r: &RefFrame,
    ss_h: bool,
    ss_v: bool,
    subpel: &[[[i16; 8]; 16]; 4],
    emu_buf: &mut [u8],
)
    requires
        old(fb).wf(),
        block.row <= 16384,
        block.col <= 16384,
        block.filter < 4,
        crate::vp9::mc::ref_fits(*r, ss_h, ss_v),
        crate::vp9::mc::block_fits_frame(
            old(fb)@,
            block.row as int,
            block.col as int,
            block.bs,
            ss_h,
            ss_v,
        ),
        crate::vp9::mc::second_fits(
            old(fb)@,
            block.row as int,
            block.col as int,
            block.bs,
            ss_h,
            ss_v,
        ),
        old(emu_buf)@.len() >= 11360,
    ensures
        final(fb)@ == crate::vp9::mc::second_spec(old(fb)@, block@, *r, ss_h, ss_v, *subpel),
        crate::vp9::recon::same_shape(final(fb)@, old(fb)@),
{
    let ghost at = crate::vp9::mc::block_place(
        fb@,
        block.row as int,
        block.col as int,
        block.bs,
        ss_h,
        ss_v,
    );
    proof {
        reveal(crate::vp9::mc::second_spec);
    }
    let k: usize = block.bs.code() as usize;
    let row_px: usize = block.row * 4;
    let col_px: usize = block.col * 4;
    let bw: usize = luma_size(block.bs, 0);
    let bh: usize = luma_size(block.bs, 1);
    let y_len: usize = fb.y.len();
    let u_len: usize = fb.u.len();
    proof {
        lemma_off(row_px as int, fb.y_stride as int, col_px as int);
        assert(at.y_off == row_px * fb.y_stride + col_px);
        assert(0 <= fb.y_stride * bh <= 65536 * 64) by (nonlinear_arith)
            requires
                0 <= fb.y_stride <= 65536,
                0 <= bh <= 64,
        ;
    }
    let mut tmp_y: Vec<u8> = vec![0u8; fb.y_stride * bh];
    proof {
        assert(tmp_y@ =~= crate::vp9::context::fill(0u8, fb.y_stride * bh));
        assert((bh - 1) * fb.y_stride + bw <= fb.y_stride * bh) by (nonlinear_arith)
            requires
                bw <= fb.y_stride,
                1 <= bh,
        ;
    }
    luma_mc(
        tmp_y.as_mut_slice(),
        0,
        fb.y_stride,
        r.fb.y.as_slice(),
        r.fb.y_stride,
        r.width as usize,
        r.height as usize,
        row_px,
        col_px,
        block.bs,
        &block.mv,
        1,
        block.filter,
        subpel,
        emu_buf,
    );
    let y_off: usize = row_px * fb.y_stride + col_px;
    let y_stride: usize = fb.y_stride;
    let (_, y) = fb.y.as_mut_slice().split_at_mut(y_off);
    avg_block(y, y_stride, tmp_y.as_slice(), bw, bh);
    let uv_row: usize = halve(row_px, ss_v);
    let uv_col: usize = halve(col_px, ss_h);
    let uv_w: usize = BWH_TAB[1][k][0] as usize * 4;
    let uv_h: usize = BWH_TAB[1][k][1] as usize * 4;
    proof {
        lemma_off(uv_row as int, fb.uv_stride as int, uv_col as int);
        assert(at.uv_off == uv_row * fb.uv_stride + uv_col);
        assert(0 <= fb.uv_stride * uv_h <= 65536 * 32) by (nonlinear_arith)
            requires
                0 <= fb.uv_stride <= 65536,
                0 <= uv_h <= 32,
        ;
        assert((uv_h - 1) * fb.uv_stride + uv_w <= fb.uv_stride * uv_h) by (nonlinear_arith)
            requires
                uv_w <= fb.uv_stride,
                1 <= uv_h,
        ;
    }
    let uv_off: usize = uv_row * fb.uv_stride + uv_col;
    let mut tmp_u: Vec<u8> = vec![0u8; fb.uv_stride * uv_h];
    let mut tmp_v: Vec<u8> = vec![0u8; fb.uv_stride * uv_h];
    proof {
        assert(tmp_u@ =~= crate::vp9::context::fill(0u8, fb.uv_stride * uv_h));
        assert(tmp_v@ =~= crate::vp9::context::fill(0u8, fb.uv_stride * uv_h));
    }
    let mv: [i16; 2] = chroma_mv(block.bs, &block.mv, 1, ss_h, ss_v);
    mc_chroma(
        tmp_u.as_mut_slice(),
        tmp_v.as_mut_slice(),
        fb.uv_stride,
        r.fb.u.as_slice(),
        r.fb.v.as_slice(),
        r.fb.uv_stride,
        halve_up(r.width as usize, ss_h),
        halve_up(r.height as usize, ss_v),
        uv_row,
        uv_col,
        &mv,
        uv_w,
        uv_h,
        block.filter,
        ss_h,
        ss_v,
        subpel,
        emu_buf,
    );
    proof {
        reveal(crate::vp9::mc::mc_spec);
    }
    let uv_stride: usize = fb.uv_stride;
    let (_, u) = fb.u.as_mut_slice().split_at_mut(uv_off);
    avg_block(u, uv_stride, tmp_u.as_slice(), uv_w, uv_h);
    let (_, v) = fb.v.as_mut_slice().split_at_mut(uv_off);
    avg_block(v, uv_stride, tmp_v.as_slice(), uv_w, uv_h);
}

/// The slot of a reference of a block.
pub open spec fn slot_of(
    slots: Seq<Option<Arc<RefFrame>>>,
    ref_idx: Seq<u8>,
    r: i8,
) -> Option<Arc<RefFrame>> {
    slots[ref_idx[r as int] as int]
}

/// Whether a block can be predicted: it and its references lie in their planes. A block
/// whose reference is missing is passed over.
pub open spec fn predictable(
    fb: FbView,
    b: BlockView,
    slots: Seq<Option<Arc<RefFrame>>>,
    ref_idx: Seq<u8>,
    ss_h: bool,
    ss_v: bool,
) -> bool {
    match slot_of(slots, ref_idx, b.ref_frame[0]) {
        None => true,
        Some(r0) => {
            &&& crate::vp9::mc::ref_fits(*r0, ss_h, ss_v)
            &&& crate::vp9::mc::block_fits_frame(
                fb,
                b.row,
                b.col,
                b.bs,
                ss_h,
                ss_v,
            )
            &&& b.comp ==> match slot_of(slots, ref_idx, b.ref_frame[1]) {
                None => true,
                Some(r1) => {
                    &&& crate::vp9::mc::ref_fits(*r1, ss_h, ss_v)
                    &&& crate::vp9::mc::second_fits(
                        fb,
                        b.row,
                        b.col,
                        b.bs,
                        ss_h,
                        ss_v,
                    )
                },
            }
        },
    }
}

/// A frame with a block predicted from its references, as far as they are there.
pub open spec fn inter_pred_spec(
    fb: FbView,
    b: BlockView,
    slots: Seq<Option<Arc<RefFrame>>>,
    ref_idx: Seq<u8>,
    ss_h: bool,
    ss_v: bool,
    subpel: [[[i16; 8]; 16]; 4],
) -> FbView {
    match slot_of(slots, ref_idx, b.ref_frame[0]) {
        None => fb,
        Some(r0) => {
            let first = crate::vp9::mc::first_spec(fb, b, *r0, ss_h, ss_v, subpel);
            match slot_of(slots, ref_idx, b.ref_frame[1]) {
                Some(r1) => if b.comp {
                    crate::vp9::mc::second_spec(first, b, *r1, ss_h, ss_v, subpel)
                } else {
                    first
                },
                None => first,
            }
        },
    }
}

/// Predicts a block from its references. Where the first one is missing, nothing is done;
/// where only the second one is, the block is predicted from the first.
pub fn inter_pred(
    fb: &mut FrameBuffer,
    block: &BlockInfo,
    ref_slots: &[Option<Arc<RefFrame>>; 8],
    ref_idx: &[u8; 3],
    ss_h: bool,
    ss_v: bool,
    subpel: &[[[i16; 8]; 16]; 4],
)
    requires
        old(fb).wf(),
        block.row <= 16384,
        block.col <= 16384,
        block.filter < 4,
        0 <= block.ref_frame@[0] <= 2,
        block.comp ==> 0 <= block.ref_frame@[1] <= 2,
        forall|i: int| 0 <= i < 3 ==> #[trigger] ref_idx@[i] < 8,
        predictable(old(fb)@, block@, ref_slots@, ref_idx@, ss_h, ss_v),
    ensures
        final(fb)@ == inter_pred_spec(
            old(fb)@,
            block@,
            ref_slots@,
            ref_idx@,
            ss_h,
            ss_v,
            *subpel,
        ),
        crate::vp9::recon::same_shape(final(fb)@, old(fb)@),
{
    let s0: usize = ref_idx[block.ref_frame[0] as usize] as usize;
    assert(ref_idx@[block.ref_frame@[0] as int] < 8);
    let mut emu_buf: Vec<u8> = vec![0u8; 12800];
    match &ref_slots[s0] {
        None => {},
        Some(r0) => {
            predict_first(fb, block, r0, ss_h, ss_v, subpel, emu_buf.as_mut_slice());
            if block.comp {
                let s1: usize = ref_idx[block.ref_frame[1] as usize] as usize;
                assert(ref_idx@[block.ref_frame@[1] as int] < 8);
                match &ref_slots[s1] {
                    None => {},
                    Some(r1) => {
                        predict_second(
                            fb,
                            block,
                            r1,
                            ss_h,
                            ss_v,
                            subpel,
                            emu_buf.as_mut_slice(),
                        );
                    },
                }
            }
        },
    }
}

fn rect_inside(len: usize, row: u64, col: u64, stride: usize, w: usize, h: usize) -> (r: bool)
    requires
        row <= 70000,
        col <= 70000,
        stride <= 65536,
        w <= 64,
        h <= 64,
    ensures
        r == crate::vp9::mc::rect_at(
            len as int,
            row * stride + col,
            stride as int,
            w as int,
            h as int,
        ),
{
    proof {
        assert(0 <= row * stride <= 70000 * 65536 && 0 <= 64 * stride <= 64 * 65536)
            by (nonlinear_arith)
            requires
                0 <= row <= 70000,
                0 <= stride <= 65536,
        ;
        if h > 0 {
            assert(0 <= (h - 1) * stride <= 64 * stride) by (nonlinear_arith)
                requires
                    0 <= h - 1 <= 64,
                    0 <= stride,
            ;
        }
    }
    let off: u64 = row * stride as u64 + col;
    off <= len as u64 && 0 < w && w <= stride && 0 < h && off + (h as u64 - 1) * stride as u64
        + w as u64 <= len as u64
}

/// Whether the parts of a block at (`row`, `col`) lie in a plane.
fn parts_inside(len: usize, row: u64, col: u64, stride: usize, bs: BlockSize) -> (r: bool)
    requires
        row <= 69000,
        col <= 69000,
        stride <= 65536,
    ensures
        r == crate::vp9::mc::parts_fit(
            len as int,
            row * stride + col,
            stride as int,
            bs,
        ),
{
    let n: usize = n_parts(bs);
    let mut i: usize = 0;
    while i < n
        invariant
            i <= n,
            n == crate::vp9::mc::n_parts_spec(bs),
            row <= 69000,
            col <= 69000,
            stride <= 65536,
            forall|k: int|
                0 <= k < i ==> {
                    let q = #[trigger] crate::vp9::mc::part_spec(bs, k);
                    crate::vp9::mc::rect_at(
                        len as int,
                        row * stride + col + q.dy * stride + q.dx,
                        stride as int,
                        q.w as int,
                        q.h as int,
                    )
                },
        decreases n - i,
    {
        let q: Part = part_of(bs, i);
        assert(q == crate::vp9::mc::part_spec(bs, i as int));
        assert((row + q.dy) * stride == row * stride + q.dy * stride) by (nonlinear_arith);
        if !rect_inside(len, row + q.dy as u64, col + q.dx as u64, stride, q.w, q.h) {
            return false;
        }
        i += 1;
    }
    true
}

fn ref_inside(r: &RefFrame, ss_h: bool, ss_v: bool) -> (ok: bool)
    ensures
        ok == crate::vp9::mc::ref_fits(*r, ss_h, ss_v),
{
    if r.width > 65536 || r.height > 65536 {
        return false;
    }
    let w: usize = r.width as usize;
    let h: usize = r.height as usize;
    let uw: usize = halve_up(w, ss_h);
    let uh: usize = halve_up(h, ss_v);
    plane_holds(r.fb.y.len(), r.fb.y_stride, w, h) && plane_holds(
        r.fb.u.len(),
        r.fb.uv_stride,
        uw,
        uh,
    ) && plane_holds(r.fb.v.len(), r.fb.uv_stride, uw, uh)
}

fn plane_holds(len: usize, stride: usize, w: usize, h: usize) -> (r: bool)
    requires
        w <= 65536,
        h <= 65536,
    ensures
        r == crate::vp9::plane::rect_fits(len as int, stride as int, w as int, h as int),
{
    if w == 0 || h == 0 || w > stride {
        return false;
    }
    proof {
        assert(0 <= (h - 1) * stride <= 65536 * 0x1_0000_0000_0000_0000int) by (nonlinear_arith)
            requires
                0 <= h - 1 <= 65536,
                0 <= stride <= 0x1_0000_0000_0000_0000int,
        ;
    }
    (h as u128 - 1) * stride as u128 + w as u128 <= len as u128
}

/// Whether a block can be predicted.
pub fn can_predict(
    fb: &FrameBuffer,
    block: &BlockInfo,
    ref_slots: &[Option<Arc<RefFrame>>; 8],
    ref_idx: &[u8; 3],
    ss_h: bool,
    ss_v: bool,
) -> (r: bool)
    requires
        fb.wf(),
        block.row <= 16384,
        block.col <= 16384,
        0 <= block.ref_frame@[0] <= 2,
        block.comp ==> 0 <= block.ref_frame@[1] <= 2,
        forall|i: int| 0 <= i < 3 ==> #[trigger] ref_idx@[i] < 8,
    ensures
        r == predictable(fb@, block@, ref_slots@, ref_idx@, ss_h, ss_v),
{
    let s0: usize = ref_idx[block.ref_frame[0] as usize] as usize;
    assert(ref_idx@[block.ref_frame@[0] as int] < 8);
    let k: usize = block.bs.code() as usize;
    let row_px: usize = block.row * 4;
    let col_px: usize = block.col * 4;
    let bw: usize = luma_size(block.bs, 0);
    let bh: usize = luma_size(block.bs, 1);
    let uv_row: usize = halve(row_px, ss_v);
    let uv_col: usize = halve(col_px, ss_h);
    let uv_w: usize = BWH_TAB[1][k][0] as usize * 4;
    let uv_h: usize = BWH_TAB[1][k][1] as usize * 4;
    match &ref_slots[s0] {
        None => true,
        Some(r0) => {
            let first = ref_inside(r0, ss_h, ss_v) && parts_inside(
                fb.y.len(),
                row_px as u64,
                col_px as u64,
                fb.y_stride,
                block.bs,
            ) && rect_inside(
                fb.u.len(),
                uv_row as u64,
                uv_col as u64,
                fb.uv_stride,
                uv_w,
                uv_h,
            ) && rect_inside(
                fb.v.len(),
                uv_row as u64,
                uv_col as u64,
                fb.uv_stride,
                uv_w,
                uv_h,
            );
            if !first {
                return false;
            }
            if !block.comp {
                return true;
            }
            let s1: usize = ref_idx[block.ref_frame[1] as usize] as usize;
            assert(ref_idx@[block.ref_frame@[1] as int] < 8);
            match &ref_slots[s1] {
                None => true,
                Some(r1) => {
                    proof {
                        assert(0 <= fb.y_stride * bh <= 65536 * 64) by (nonlinear_arith)
                            requires
                                0 <= fb.y_stride <= 65536,
                                0 <= bh <= 64,
                        ;
                        assert(0 * fb.y_stride == 0) by (nonlinear_arith);
                    }
                    ref_inside(r1, ss_h, ss_v) && parts_inside(
                        fb.y_stride * bh,
                        0,
                        0,
                        fb.y_stride,
                        block.bs,
                    ) && rect_inside(
                        fb.y.len(),
                        row_px as u64,
                        col_px as u64,
                        fb.y_stride,
                        bw,
                        bh,
                    )
                },
            }
        },
    }
}

/// Whether the pixel at (`r`, `c`) of a block lies in its part number `i`.
spec fn in_part(bs: BlockSize, i: int, r: int, c: int) -> bool {
    let q = crate::vp9::mc::part_spec(bs, i);
    q.dy <= r < q.dy + q.h && q.dx <= c < q.dx + q.w
}

/// Every pixel of a block lies in a part of it.
proof fn lemma_parts_cover(bs: BlockSize, r: int, c: int) -> (i: int)
    requires
        0 <= r < crate::vp9::mc::luma_size_spec(bs, 1),
        0 <= c < crate::vp9::mc::luma_size_spec(bs, 0),
    ensures
        0 <= i < crate::vp9::mc::n_parts_spec(bs),
        in_part(bs, i, r, c),
{
    match bs {
        BlockSize::Bs8x4 => r / 4,
        BlockSize::Bs4x8 => c / 4,
        BlockSize::Bs4x4 => 2 * (r / 4) + c / 4,
        _ => 0,
    }
}

/// A position counted from one `a` rows and `b` columns before it lies in a rectangle there if and only
/// if its row and column do.
proof fn lemma_cell(stride: int, a: int, b: int, w: int, h: int)
    requires
        0 < w <= stride,
        0 < h,
        -stride < b < stride,
        b < 0 ==> w <= stride + b,
    ensures
        (a * stride + b >= 0 && crate::vp9::plane::in_rect(a * stride + b, stride, w, h)) <==> (0 <= a
            < h && 0 <= b < w),
        0 <= a && 0 <= b ==> (a * stride + b) / stride == a && (a * stride + b) % stride == b,
{
    let k = a * stride + b;
    if b >= 0 {
        vstd::arithmetic::div_mod::lemma_fundamental_div_mod_converse(k, stride, a, b);
    } else {
        assert(k == (a - 1) * stride + (stride + b)) by (nonlinear_arith)
            requires
                k == a * stride + b,
        ;
        vstd::arithmetic::div_mod::lemma_fundamental_div_mod_converse(
            k,
            stride,
            a - 1,
            stride + b,
        );
    }
    if a < 0 {
        assert(k < 0) by (nonlinear_arith)
            requires
                k == a * stride + b,
                a <= -1,
                b < stride,
                0 < stride,
        ;
    }
}

/// The pixels of a block that is predicted part by part do not depend on the plane that it is written
/// to, nor on where it lies there.
proof fn lemma_luma_same(
    x: Seq<u8>,
    bx: int,
    rx: int,
    y: Seq<u8>,
    by: int,
    ry: int,
    stride: int,
    p: crate::vp9::mc::RefPlane,
    filters: [[i16; 8]; 16],
    row_px: int,
    col_px: int,
    bs: BlockSize,
    mv: Seq<[[i16; 2]; 2]>,
    i: int,
    r: int,
    c: int,
)
    requires
        0 <= i <= crate::vp9::mc::n_parts_spec(bs),
        crate::vp9::mc::parts_fit(x.len() as int, bx, stride, bs),
        crate::vp9::mc::parts_fit(y.len() as int, by, stride, bs),
        crate::vp9::mc::luma_size_spec(bs, 0) <= stride,
        0 <= r < crate::vp9::mc::luma_size_spec(bs, 1),
        0 <= c < crate::vp9::mc::luma_size_spec(bs, 0),
        0 <= bx + (r * stride + c) < x.len(),
        0 <= by + (r * stride + c) < y.len(),
        forall|k: int| 0 <= k < 4 ==> (#[trigger] mv[k])@[rx] == mv[k]@[ry],
        x[bx + (r * stride + c)] == y[by + (r * stride + c)] || exists|j: int|
            i <= j < crate::vp9::mc::n_parts_spec(bs) && #[trigger] in_part(bs, j, r, c),
    ensures
        ({
            let u = crate::vp9::mc::luma_spec(
                x,
                bx,
                stride,
                p,
                filters,
                row_px,
                col_px,
                bs,
                mv,
                rx,
                i,
            );
            let v = crate::vp9::mc::luma_spec(
                y,
                by,
                stride,
                p,
                filters,
                row_px,
                col_px,
                bs,
                mv,
                ry,
                i,
            );
            &&& u.len() == x.len()
            &&& v.len() == y.len()
            &&& u[bx + (r * stride + c)] == v[by + (r * stride + c)]
        }),
    decreases crate::vp9::mc::n_parts_spec(bs) - i,
{
    let n = crate::vp9::mc::n_parts_spec(bs);
    if i < n {
        let q = crate::vp9::mc::part_spec(bs, i);
        let d = q.dy * stride + q.dx;
        let m = mv[q.k as int]@[rx];
        assert(m == mv[q.k as int]@[ry]);
        let px = crate::vp9::recon::with_tail(
            x,
            bx + d,
            crate::vp9::mc::mc_luma_spec(
                crate::vp9::recon::tail(x, bx + d),
                stride,
                p,
                filters,
                row_px + q.dy,
                col_px + q.dx,
                m,
                q.w as int,
                q.h as int,
            ),
        );
        let py = crate::vp9::recon::with_tail(
            y,
            by + d,
            crate::vp9::mc::mc_luma_spec(
                crate::vp9::recon::tail(y, by + d),
                stride,
                p,
                filters,
                row_px + q.dy,
                col_px + q.dx,
                m,
                q.w as int,
                q.h as int,
            ),
        );
        assert(bx + q.dy * stride + q.dx == bx + d && by + q.dy * stride + q.dx == by + d);
        let a = r - q.dy;
        let b = c - q.dx;
        assert(a * stride + b == r * stride + c - d) by (nonlinear_arith)
            requires
                a == r - q.dy,
                b == c - q.dx,
                d == q.dy * stride + q.dx,
        ;
        lemma_cell(stride, a, b, q.w as int, q.h as int);
        reveal(crate::vp9::mc::mc_spec);
        assert(px.len() == x.len() && py.len() == y.len());
        let k = r * stride + c - d;
        if k >= 0 {
            assert(px[bx + (r * stride + c)] == crate::vp9::mc::mc_luma_spec(
                crate::vp9::recon::tail(x, bx + d),
                stride,
                p,
                filters,
                row_px + q.dy,
                col_px + q.dx,
                m,
                q.w as int,
                q.h as int,
            )[k]);
            assert(py[by + (r * stride + c)] == crate::vp9::mc::mc_luma_spec(
                crate::vp9::recon::tail(y, by + d),
                stride,
                p,
                filters,
                row_px + q.dy,
                col_px + q.dx,
                m,
                q.w as int,
                q.h as int,
            )[k]);
        }
        if in_part(bs, i, r, c) {
            assert(px[bx + (r * stride + c)] == py[by + (r * stride + c)]);
        } else {
            assert(px[bx + (r * stride + c)] == x[bx + (r * stride + c)]);
            assert(py[by + (r * stride + c)] == y[by + (r * stride + c)]);
        }
        lemma_luma_same(
            px,
            bx,
            rx,
            py,
            by,
            ry,
            stride,
            p,
            filters,
            row_px,
            col_px,
            bs,
            mv,
            i + 1,
            r,
            c,
        );
    }
}

/// Pixels that are averaged with the same pixels stay as they are.
proof fn lemma_average_same(x: Seq<u8>, stride: int, y: Seq<u8>, w: int, h: int)
    requires
        0 < stride,
        forall|p: int|
            0 <= p < x.len() && crate::vp9::plane::in_rect(p, stride, w, h) ==> #[trigger] x[p]
                == y[p],
    ensures
        crate::vp9::mc::averaged(x, stride, y, stride, w, h) == x,
{
    let a = crate::vp9::mc::averaged(x, stride, y, stride, w, h);
    assert forall|p: int| 0 <= p < x.len() implies #[trigger] a[p] == x[p] by {
        if crate::vp9::plane::in_rect(p, stride, w, h) {
            vstd::arithmetic::div_mod::lemma_fundamental_div_mod(p, stride);
            vstd::arithmetic::mul::lemma_mul_is_commutative(stride, p / stride);
            assert(x[p] == y[p]);
        }
    }
    assert(a =~= x);
}

/// Averaging a prediction with itself changes nothing: a block that is predicted twice from one
/// reference, by the same motion, is as one that is predicted once.
pub proof fn law_average_with_itself(
    fb: FbView,
    b: BlockView,
    slots: Seq<Option<Arc<RefFrame>>>,
    ref_idx: Seq<u8>,
    ss_h: bool,
    ss_v: bool,
    subpel: [[[i16; 8]; 16]; 4],
)
    requires
        b.comp,
        predictable(fb, b, slots, ref_idx, ss_h, ss_v),
        slot_of(slots, ref_idx, b.ref_frame[0]) is Some,
        slot_of(slots, ref_idx, b.ref_frame[0]) == slot_of(slots, ref_idx, b.ref_frame[1]),
        forall|k: int| 0 <= k < 4 ==> (#[trigger] b.mv[k])@[0] == b.mv[k]@[1],
    ensures
        inter_pred_spec(fb, b, slots, ref_idx, ss_h, ss_v, subpel) == inter_pred_spec(
            fb,
            (BlockView { comp: false, ..b }),
            slots,
            ref_idx,
            ss_h,
            ss_v,
            subpel,
        ),
{
    let r = *slot_of(slots, ref_idx, b.ref_frame[0])->Some_0;
    let first = crate::vp9::mc::first_spec(fb, b, r, ss_h, ss_v, subpel);
    let second = crate::vp9::mc::second_spec(first, b, r, ss_h, ss_v, subpel);
    lemma_second_same(fb, b, r, ss_h, ss_v, subpel);
    assert(second == first);
    assert(first == crate::vp9::mc::first_spec(
        fb,
        (BlockView { comp: false, ..b }),
        r,
        ss_h,
        ss_v,
        subpel,
    )) by {
        reveal(crate::vp9::mc::first_spec);
    }
}

proof fn lemma_second_same(
    fb: FbView,
    b: BlockView,
    r: RefFrame,
    ss_h: bool,
    ss_v: bool,
    subpel: [[[i16; 8]; 16]; 4],
)
    requires
        crate::vp9::mc::block_fits_frame(fb, b.row, b.col, b.bs, ss_h, ss_v),
        crate::vp9::mc::second_fits(fb, b.row, b.col, b.bs, ss_h, ss_v),
        forall|k: int| 0 <= k < 4 ==> (#[trigger] b.mv[k])@[0] == b.mv[k]@[1],
    ensures
        ({
            let first = crate::vp9::mc::first_spec(fb, b, r, ss_h, ss_v, subpel);
            crate::vp9::mc::second_spec(first, b, r, ss_h, ss_v, subpel) == first
        }),
{
    let first = crate::vp9::mc::first_spec(fb, b, r, ss_h, ss_v, subpel);
    let second = crate::vp9::mc::second_spec(first, b, r, ss_h, ss_v, subpel);
    reveal(crate::vp9::mc::first_spec);
    reveal(crate::vp9::mc::second_spec);
    let at = crate::vp9::mc::block_place(fb, b.row, b.col, b.bs, ss_h, ss_v);
    let taps = crate::vp9::mc::filter_taps(subpel, b.filter);
    let zero = crate::vp9::context::fill(0u8, fb.y_stride * at.bh);
    let copy = crate::vp9::mc::luma_spec(
        zero,
        0,
        fb.y_stride,
        crate::vp9::mc::luma_ref(r),
        taps,
        at.row_px,
        at.col_px,
        b.bs,
        b.mv,
        1,
        0,
    );
    let stride = fb.y_stride;
    assert(stride * at.bh >= 0) by (nonlinear_arith)
        requires
            stride >= 0,
            at.bh >= 0,
    ;
    lemma_luma_len(
        fb.y,
        at.y_off,
        stride,
        crate::vp9::mc::luma_ref(r),
        taps,
        at.row_px,
        at.col_px,
        b.bs,
        b.mv,
        0,
        0,
    );
    let x = crate::vp9::recon::tail(first.y, at.y_off);
    assert forall|k: int|
        0 <= k < x.len() && crate::vp9::plane::in_rect(k, stride, at.bw, at.bh) implies #[trigger] x[k]
        == copy[k] by {
        let row = k / stride;
        let col = k % stride;
        vstd::arithmetic::div_mod::lemma_fundamental_div_mod(k, stride);
        vstd::arithmetic::div_mod::lemma_mod_bound(k, stride);
        vstd::arithmetic::mul::lemma_mul_is_commutative(stride, row);
        assert(row * stride + col == k);
        assert(k < stride * at.bh) by (nonlinear_arith)
            requires
                k == row * stride + col,
                row <= at.bh - 1,
                col < stride,
                0 < stride,
        ;
        let j = lemma_parts_cover(b.bs, row, col);
        assert(in_part(b.bs, j, row, col));
        lemma_luma_same(
            fb.y,
            at.y_off,
            0,
            zero,
            0,
            1,
            stride,
            crate::vp9::mc::luma_ref(r),
            taps,
            at.row_px,
            at.col_px,
            b.bs,
            b.mv,
            0,
            row,
            col,
        );
    }
    lemma_average_same(x, stride, copy, at.bw, at.bh);
    assert(second.y =~= first.y);
    lemma_chroma_same(fb.u, at, fb.uv_stride, r, r.fb.u@, taps, b, ss_h, ss_v);
    lemma_chroma_same(fb.v, at, fb.uv_stride, r, r.fb.v@, taps, b, ss_h, ss_v);
    assert(second.u =~= first.u);
    assert(second.v =~= first.v);
}

/// Predicting the luma of a block keeps the length of the plane.
proof fn lemma_luma_len(
    x: Seq<u8>,
    base: int,
    stride: int,
    p: crate::vp9::mc::RefPlane,
    filters: [[i16; 8]; 16],
    row_px: int,
    col_px: int,
    bs: BlockSize,
    mv: Seq<[[i16; 2]; 2]>,
    ri: int,
    i: int,
)
    requires
        0 <= i,
        crate::vp9::mc::parts_fit(x.len() as int, base, stride, bs),
    ensures
        crate::vp9::mc::luma_spec(x, base, stride, p, filters, row_px, col_px, bs, mv, ri, i).len()
            == x.len(),
    decreases crate::vp9::mc::n_parts_spec(bs) - i,
{
    if i < crate::vp9::mc::n_parts_spec(bs) {
        let q = crate::vp9::mc::part_spec(bs, i);
        let off = base + q.dy * stride + q.dx;
        reveal(crate::vp9::mc::mc_spec);
        let next = crate::vp9::recon::with_tail(
            x,
            off,
            crate::vp9::mc::mc_luma_spec(
                crate::vp9::recon::tail(x, off),
                stride,
                p,
                filters,
                row_px + q.dy,
                col_px + q.dx,
                mv[q.k as int]@[ri],
                q.w as int,
                q.h as int,
            ),
        );
        assert(next.len() == x.len());
        lemma_luma_len(next, base, stride, p, filters, row_px, col_px, bs, mv, ri, i + 1);
    }
}

/// The chroma of a block averaged with the same prediction stays as it is.
proof fn lemma_chroma_same(
    plane: Seq<u8>,
    at: crate::vp9::mc::BlockPlace,
    stride: int,
    r: RefFrame,
    buf: Seq<u8>,
    taps: [[i16; 8]; 16],
    b: BlockView,
    ss_h: bool,
    ss_v: bool,
)
    requires
        crate::vp9::mc::rect_at(plane.len() as int, at.uv_off, stride, at.uv_bw, at.uv_bh),
        forall|k: int| 0 <= k < 4 ==> (#[trigger] b.mv[k])@[0] == b.mv[k]@[1],
    ensures
        ({
            let p = crate::vp9::mc::chroma_ref(r, buf, ss_h, ss_v);
            let x = crate::vp9::mc::mc_chroma_spec(
                crate::vp9::recon::tail(plane, at.uv_off),
                stride,
                p,
                taps,
                at.uv_row,
                at.uv_col,
                crate::vp9::mc::chroma_mv_spec(b.bs, b.mv, 0, ss_h, ss_v),
                at.uv_bw,
                at.uv_bh,
                ss_h,
                ss_v,
            );
            let y = crate::vp9::mc::mc_chroma_spec(
                crate::vp9::context::fill(0u8, stride * at.uv_bh),
                stride,
                p,
                taps,
                at.uv_row,
                at.uv_col,
                crate::vp9::mc::chroma_mv_spec(b.bs, b.mv, 1, ss_h, ss_v),
                at.uv_bw,
                at.uv_bh,
                ss_h,
                ss_v,
            );
            let first = crate::vp9::recon::with_tail(plane, at.uv_off, x);
            &&& crate::vp9::recon::tail(first, at.uv_off) == x
            &&& crate::vp9::mc::averaged(x, stride, y, stride, at.uv_bw, at.uv_bh) == x
        }),
{
    let p = crate::vp9::mc::chroma_ref(r, buf, ss_h, ss_v);
    let m0 = crate::vp9::mc::chroma_mv_spec(b.bs, b.mv, 0, ss_h, ss_v);
    let m1 = crate::vp9::mc::chroma_mv_spec(b.bs, b.mv, 1, ss_h, ss_v);
    assert(b.mv[0]@[0] == b.mv[0]@[1] && b.mv[1]@[0] == b.mv[1]@[1] && b.mv[2]@[0] == b.mv[2]@[1]
        && b.mv[3]@[0] == b.mv[3]@[1]);
    assert(m0 == m1);
    let x = crate::vp9::mc::mc_chroma_spec(
        crate::vp9::recon::tail(plane, at.uv_off),
        stride,
        p,
        taps,
        at.uv_row,
        at.uv_col,
        m0,
        at.uv_bw,
        at.uv_bh,
        ss_h,
        ss_v,
    );
    let y = crate::vp9::mc::mc_chroma_spec(
        crate::vp9::context::fill(0u8, stride * at.uv_bh),
        stride,
        p,
        taps,
        at.uv_row,
        at.uv_col,
        m1,
        at.uv_bw,
        at.uv_bh,
        ss_h,
        ss_v,
    );
    reveal(crate::vp9::mc::mc_spec);
    assert(crate::vp9::recon::tail(crate::vp9::recon::with_tail(plane, at.uv_off, x), at.uv_off)
        =~= x);
    assert forall|k: int|
        0 <= k < x.len() && crate::vp9::plane::in_rect(k, stride, at.uv_bw, at.uv_bh) implies #[trigger] x[k]
        == y[k] by {
        let row = k / stride;
        vstd::arithmetic::div_mod::lemma_fundamental_div_mod(k, stride);
        vstd::arithmetic::div_mod::lemma_mod_bound(k, stride);
        assert(k < stride * at.uv_bh) by (nonlinear_arith)
            requires
                k == stride * row + k % stride,
                row <= at.uv_bh - 1,
                k % stride < stride,
                0 < stride,
        ;
    }
    lemma_average_same(x, stride, y, at.uv_bw, at.uv_bh);
}

} // verus!

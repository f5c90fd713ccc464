//! What motion compensation does to a picture.
use vstd::prelude::*;

use crate::vp9::block_modes::BlockView;
use crate::vp9::context::fill;
use crate::vp9::data::BWH_TAB;
use crate::vp9::mc::{
    averaged, block_place, chroma_mv_spec, chroma_ref, filter_taps, first_spec,
    law_whole_motion_copies, luma_ref, luma_spec, mc_chroma_spec, mc_luma_spec, n_parts_spec, part_spec,
    second_spec, tap8, RefPlane,
};
use crate::vp9::recon::{tail, with_tail, FbView};
use crate::vp9::refs::RefFrame;
use crate::vp9::types::BlockSize;

verus! {

/// Whether a filter blends a pixel with the next one, `w` 128ths of which it takes.
pub open spec fn blends(f: Seq<i16>, w: int) -> bool {
    &&& f.len() == 8
    &&& f[0] == 0 && f[1] == 0 && f[2] == 0
    &&& f[3] == 128 - w
    &&& f[4] == w
    &&& f[5] == 0 && f[6] == 0 && f[7] == 0
}

/// Two pixels blended, `w` 128ths of the second one.
pub open spec fn blend(a: int, b: int, w: int) -> int {
    (a * (128 - w) + b * w + 64) / 128
}

proof fn lemma_blend(f: Seq<i16>, w: int, a: Seq<int>)
    requires
        blends(f, w),
        0 <= w <= 128,
        a.len() == 8,
        0 <= a[3] <= 255,
        0 <= a[4] <= 255,
    ensures
        tap8(f, a[0], a[1], a[2], a[3], a[4], a[5], a[6], a[7]) == blend(a[3], a[4], w),
        0 <= blend(a[3], a[4], w) <= 255,
{
    reveal(tap8);
    let s: int = a[3] * (128 - w) + a[4] * w;
    let b: int = a[3];
    let c: int = a[4];
    assert(0 <= s <= 255 * 128) by (nonlinear_arith)
        requires
            s == b * (128 - w) + c * w,
            0 <= b <= 255,
            0 <= c <= 255,
            0 <= w <= 128,
    ;
    assert(f[3] * b == b * (128 - w)) by (nonlinear_arith)
        requires
            f[3] == 128 - w,
    ;
    assert(f[4] * c == c * w) by (nonlinear_arith)
        requires
            f[4] == w,
    ;
    assert(f[0] * a[0] == 0 && f[1] * a[1] == 0 && f[2] * a[2] == 0 && f[5] * a[5] == 0 && f[6] * a[6]
        == 0 && f[7] * a[7] == 0) by (nonlinear_arith)
        requires
            f[0] == 0,
            f[1] == 0,
            f[2] == 0,
            f[5] == 0,
            f[6] == 0,
            f[7] == 0,
    ;
}

/// A fraction across blends a pixel with its right neighbour, a fraction downwards with the one below
/// it, and both with the three of them.
pub proof fn law_fractions_blend_neighbours(
    p: RefPlane,
    filters: [[i16; 8]; 16],
    fx: int,
    fy: int,
    wx: int,
    wy: int,
    y: int,
    x: int,
)
    requires
        0 < fx < 16,
        0 < fy < 16,
        blends(filters@[fx]@, wx),
        blends(filters@[fy]@, wy),
        0 <= wx <= 128,
        0 <= wy <= 128,
    ensures
        p.pixel(filters, fx, 0, y, x) == blend(p.at(y, x), p.at(y, x + 1), wx),
        p.pixel(filters, 0, fy, y, x) == blend(p.at(y, x), p.at(y + 1, x), wy),
        p.pixel(filters, fx, fy, y, x) == blend(
            blend(p.at(y, x), p.at(y, x + 1), wx),
            blend(p.at(y + 1, x), p.at(y + 1, x + 1), wx),
            wy,
        ),
{
    let hf = filters@[fx]@;
    let vf = filters@[fy]@;
    lemma_row_blend(p, hf, wx, y, x);
    lemma_row_blend(p, hf, wx, y + 1, x);
    lemma_blend(vf, wy, Seq::new(8, |k: int| p.at(y - 3 + k, x)));
    lemma_blend(vf, wy, Seq::new(8, |k: int| p.row_taps(hf, y - 3 + k, x - 3) as int));
}

proof fn lemma_row_blend(p: RefPlane, f: Seq<i16>, w: int, y: int, x: int)
    requires
        blends(f, w),
        0 <= w <= 128,
    ensures
        p.row_taps(f, y, x - 3) == blend(p.at(y, x), p.at(y, x + 1), w),
        0 <= blend(p.at(y, x), p.at(y, x + 1), w) <= 255,
{
    lemma_blend(f, w, Seq::new(8, |k: int| p.at(y, x - 3 + k)));
}

/// The weights of a filter together.
pub open spec fn weight_of(f: Seq<i16>) -> int {
    f[0] + f[1] + f[2] + f[3] + f[4] + f[5] + f[6] + f[7]
}

proof fn lemma_even_taps(f: Seq<i16>, v: int)
    requires
        weight_of(f) == 128,
        0 <= v <= 255,
    ensures
        tap8(f, v, v, v, v, v, v, v, v) == v,
{
    reveal(tap8);
    assert(f[0] * v + f[1] * v + f[2] * v + f[3] * v + f[4] * v + f[5] * v + f[6] * v + f[7] * v == 128
        * v) by (nonlinear_arith)
        requires
            f[0] + f[1] + f[2] + f[3] + f[4] + f[5] + f[6] + f[7] == 128,
    ;
}

/// Where every row of a plane is even, a fraction across changes nothing; where every column is, a
/// fraction downwards.
pub proof fn law_fractions_keep_even_lines(
    p: RefPlane,
    filters: [[i16; 8]; 16],
    fx: int,
    fy: int,
    y: int,
    x: int,
)
    requires
        0 < fx < 16,
        0 < fy < 16,
        weight_of(filters@[fx]@) == 128,
        weight_of(filters@[fy]@) == 128,
    ensures
        (forall|r: int, c: int| #[trigger] p.at(r, c) == p.at(r, 0)) ==> {
            &&& p.pixel(filters, fx, 0, y, x) == p.at(y, x)
            &&& p.pixel(filters, fx, fy, y, x) == p.pixel(filters, 0, fy, y, x)
        },
        (forall|r: int, c: int| #[trigger] p.at(r, c) == p.at(0, c)) ==> {
            &&& p.pixel(filters, 0, fy, y, x) == p.at(y, x)
            &&& p.pixel(filters, fx, fy, y, x) == p.pixel(filters, fx, 0, y, x)
        },
{
    let hf = filters@[fx]@;
    let vf = filters@[fy]@;
    if forall|r: int, c: int| #[trigger] p.at(r, c) == p.at(r, 0) {
        lemma_even_taps(hf, p.at(y, 0));
        assert(p.pixel(filters, fx, 0, y, x) == p.at(y, x));
        lemma_even_row(p, hf, y - 3, x - 3);
        lemma_even_row(p, hf, y - 2, x - 3);
        lemma_even_row(p, hf, y - 1, x - 3);
        lemma_even_row(p, hf, y, x - 3);
        lemma_even_row(p, hf, y + 1, x - 3);
        lemma_even_row(p, hf, y + 2, x - 3);
        lemma_even_row(p, hf, y + 3, x - 3);
        lemma_even_row(p, hf, y + 4, x - 3);
        assert(p.pixel(filters, fx, fy, y, x) == p.pixel(filters, 0, fy, y, x));
    }
    if forall|r: int, c: int| #[trigger] p.at(r, c) == p.at(0, c) {
        lemma_even_taps(vf, p.at(0, x));
        assert(p.pixel(filters, 0, fy, y, x) == p.at(y, x));
        let v = p.row_taps(hf, y, x - 3);
        assert(p.row_taps(hf, y - 3, x - 3) == v);
        assert(p.row_taps(hf, y - 2, x - 3) == v);
        assert(p.row_taps(hf, y - 1, x - 3) == v);
        assert(p.row_taps(hf, y + 1, x - 3) == v);
        assert(p.row_taps(hf, y + 2, x - 3) == v);
        assert(p.row_taps(hf, y + 3, x - 3) == v);
        assert(p.row_taps(hf, y + 4, x - 3) == v);
        lemma_even_taps(vf, v as int);
        assert(p.pixel(filters, fx, fy, y, x) == v);
    }
}

proof fn lemma_even_row(p: RefPlane, f: Seq<i16>, y: int, x: int)
    requires
        weight_of(f) == 128,
        forall|r: int, c: int| #[trigger] p.at(r, c) == p.at(r, 0),
    ensures
        p.row_taps(f, y, x) == p.at(y, x + 3),
{
    lemma_even_taps(f, p.at(y, 0));
}

/// In a plane turned over its diagonal, a fraction downwards does what the same one across does in
/// the plane itself.
pub proof fn law_rows_and_columns_are_treated_alike(
    p: RefPlane,
    q: RefPlane,
    filters: [[i16; 8]; 16],
    f: int,
    y: int,
    x: int,
)
    requires
        forall|r: int, c: int| #[trigger] p.at(r, c) == q.at(c, r),
        0 <= f < 16,
    ensures
        p.pixel(filters, f, 0, y, x) == q.pixel(filters, 0, f, x, y),
{
}

/// Eight eighths of a pixel are a pixel: a vector that is longer by so much does what the shorter one
/// does to the block next to it.
pub proof fn law_eight_eighths_are_a_pixel(
    dst: Seq<u8>,
    stride: int,
    p: RefPlane,
    filters: [[i16; 8]; 16],
    row: int,
    col: int,
    mv: [i16; 2],
    longer: [i16; 2],
    down: int,
    across: int,
    bw: int,
    bh: int,
)
    requires
        longer@[0] == mv@[0] + 8 * across,
        longer@[1] == mv@[1] + 8 * down,
    ensures
        mc_luma_spec(dst, stride, p, filters, row, col, longer, bw, bh) == mc_luma_spec(
            dst,
            stride,
            p,
            filters,
            row + down,
            col + across,
            mv,
            bw,
            bh,
        ),
{
    assert((mv@[0] + 8 * across) / 8 == mv@[0] as int / 8 + across);
    assert((mv@[1] + 8 * down) / 8 == mv@[1] as int / 8 + down);
    assert((mv@[0] + 8 * across) % 8 == mv@[0] as int % 8);
    assert((mv@[1] + 8 * down) % 8 == mv@[1] as int % 8);
}

/// Chroma at full size moves as luma does; where it is halved, it moves half as far.
pub proof fn law_halved_chroma_moves_half_as_far(
    dst: Seq<u8>,
    stride: int,
    p: RefPlane,
    filters: [[i16; 8]; 16],
    row: int,
    col: int,
    mv: [i16; 2],
    luma: [i16; 2],
    bw: int,
    bh: int,
    ss_h: bool,
    ss_v: bool,
)
    requires
        mv@[0] == (if ss_h {
            2 * luma@[0]
        } else {
            luma@[0] as int
        }),
        mv@[1] == (if ss_v {
            2 * luma@[1]
        } else {
            luma@[1] as int
        }),
    ensures
        mc_chroma_spec(dst, stride, p, filters, row, col, mv, bw, bh, ss_h, ss_v) == mc_luma_spec(
            dst,
            stride,
            p,
            filters,
            row,
            col,
            luma,
            bw,
            bh,
        ),
{
    let a: int = luma@[0] as int;
    let b: int = luma@[1] as int;
    assert((2 * a) % 16 == 2 * (a % 8) && (2 * a) / 16 == a / 8);
    assert((2 * b) % 16 == 2 * (b % 8) && (2 * b) / 16 == b / 8);
}

/// Two predictions averaged lie in the middle between them; other pixels stay.
pub proof fn law_average_lies_in_the_middle(
    dst: Seq<u8>,
    stride: int,
    src: Seq<u8>,
    src_stride: int,
    w: int,
    h: int,
    r: int,
    c: int,
)
    requires
        0 < w <= stride,
        0 <= c < w,
        0 <= r < h,
        r * stride + c < dst.len(),
    ensures
        ({
            let a = dst[r * stride + c];
            let b = src[r * src_stride + c];
            let m = averaged(dst, stride, src, src_stride, w, h)[r * stride + c];
            a + b <= 2 * m <= a + b + 1
        }),
{
    assert(0 <= r * stride) by (nonlinear_arith)
        requires
            0 <= r,
            0 < stride,
    ;
    vstd::arithmetic::div_mod::lemma_fundamental_div_mod_converse(r * stride + c, stride, r, c);
}

/// The vectors of the parts of a block together, in one direction.
pub open spec fn parts_total(bs: BlockSize, mv: Seq<[[i16; 2]; 2]>, ri: int, dir: int, n: int) -> int
    decreases n,
{
    if n <= 0 {
        0
    } else {
        parts_total(bs, mv, ri, dir, n - 1) + mv[part_spec(bs, n - 1).k as int]@[ri]@[dir]
    }
}

/// The vector of chroma that is halved both ways is the mean of the vectors of the parts of a block,
/// halves away from zero.
pub proof fn law_chroma_moves_by_the_mean(
    bs: BlockSize,
    mv: Seq<[[i16; 2]; 2]>,
    ri: int,
    dir: int,
)
    requires
        mv.len() == 4,
        0 <= ri < 2,
        0 <= dir < 2,
    ensures
        ({
            let n = n_parts_spec(bs);
            let total = parts_total(bs, mv, ri, dir, n);
            let m = chroma_mv_spec(bs, mv, ri, true, true)@[dir];
            &&& -n <= 2 * (n * m - total) <= n
            &&& total >= 0 ==> -n < 2 * (n * m - total)
            &&& total <= 0 ==> 2 * (n * m - total) < n
        }),
{
    reveal_with_fuel(parts_total, 5);
    let n = n_parts_spec(bs);
    assert(n == 1 || n == 2 || n == 4);
    let m = chroma_mv_spec(bs, mv, ri, true, true)@[dir];
    assert(n * m == (if n == 1 {
        m as int
    } else if n == 2 {
        2 * m
    } else {
        4 * m
    })) by (nonlinear_arith)
        requires
            n == 1 || n == 2 || n == 4,
    ;
}

/// Chroma that is halved both ways and moved by whole pixels of its own is copied.
proof fn lemma_whole_chroma_copies(
    dst: Seq<u8>,
    stride: int,
    p: RefPlane,
    filters: [[i16; 8]; 16],
    row: int,
    col: int,
    mv: [i16; 2],
    bw: int,
    bh: int,
    r: int,
    c: int,
)
    requires
        0 < stride,
        0 <= c < bw <= stride,
        0 <= r < bh,
        r * stride + c < dst.len(),
        mv@[0] as int % 16 == 0,
        mv@[1] as int % 16 == 0,
    ensures
        mc_chroma_spec(dst, stride, p, filters, row, col, mv, bw, bh, true, true)[r * stride + c]
            == p.at(row + mv@[1] as int / 16 + r, col + mv@[0] as int / 16 + c),
{
    let x: int = mv@[0] as int / 2;
    let y: int = mv@[1] as int / 2;
    let luma: [i16; 2] = [x as i16, y as i16];
    law_halved_chroma_moves_half_as_far(
        dst,
        stride,
        p,
        filters,
        row,
        col,
        mv,
        luma,
        bw,
        bh,
        true,
        true,
    );
    law_whole_motion_copies(dst, stride, p, filters, row, col, luma, bw, bh, r, c);
}

/// Where a pixel lies in the part of a plane that starts at another one.
proof fn lemma_place(row: int, col: int, r: int, c: int, stride: int)
    requires
        0 <= r,
        0 < stride,
    ensures
        (row + r) * stride + (col + c) == (row * stride + col) + (r * stride + c),
        0 <= r * stride,
{
    assert((row + r) * stride == row * stride + r * stride) by (nonlinear_arith);
    assert(0 <= r * stride) by (nonlinear_arith)
        requires
            0 <= r,
            0 < stride,
    ;
}

/// A block and a pixel of its luma and its chroma that lie in the planes.
pub open spec fn pixel_of(fb: FbView, b: BlockView, r: int, c: int) -> bool {
    let at = block_place(fb, b.row, b.col, b.bs, true, true);
    &&& 0 <= b.row
    &&& 0 <= b.col
    &&& b.mv.len() == 4
    &&& n_parts_spec(b.bs) == 1
    &&& 0 <= r < at.uv_bh
    &&& 0 <= c < at.uv_bw
    &&& at.bw <= fb.y_stride
    &&& at.uv_bw <= fb.uv_stride
    &&& (4 * b.row + r) * fb.y_stride + 4 * b.col + c < fb.y.len()
    &&& (2 * b.row + r) * fb.uv_stride + 2 * b.col + c < fb.u.len()
    &&& (2 * b.row + r) * fb.uv_stride + 2 * b.col + c < fb.v.len()
}

proof fn lemma_pixel_of(fb: FbView, b: BlockView, r: int, c: int)
    requires
        pixel_of(fb, b, r, c),
    ensures
        ({
            let at = block_place(fb, b.row, b.col, b.bs, true, true);
            let y = r * fb.y_stride + c;
            let uv = r * fb.uv_stride + c;
            &&& at.uv_bw <= at.bw && at.uv_bh <= at.bh
            &&& 0 <= at.y_off && 0 <= y && at.y_off + y < fb.y.len()
            &&& 0 <= at.uv_off && 0 <= uv && at.uv_off + uv < fb.u.len() && at.uv_off + uv
                < fb.v.len()
            &&& (4 * b.row + r) * fb.y_stride + (4 * b.col + c) == at.y_off + y
            &&& (2 * b.row + r) * fb.uv_stride + (2 * b.col + c) == at.uv_off + uv
            &&& at.uv_row == 2 * b.row && at.uv_col == 2 * b.col
            &&& part_spec(b.bs, 0).dy == 0 && part_spec(b.bs, 0).dx == 0 && part_spec(b.bs, 0).k == 0
            &&& part_spec(b.bs, 0).w == at.bw && part_spec(b.bs, 0).h == at.bh
        }),
{
    assert(BWH_TAB@[0]@.len() == 13 && BWH_TAB@[1]@.len() == 13);
    lemma_place(4 * b.row, 4 * b.col, r, c, fb.y_stride);
    lemma_place(2 * b.row, 2 * b.col, r, c, fb.uv_stride);
    assert(0 <= 4 * b.row * fb.y_stride && 0 <= 2 * b.row * fb.uv_stride) by (nonlinear_arith)
        requires
            0 <= b.row,
            0 < fb.y_stride,
            0 < fb.uv_stride,
    ;
}

/// A block that moves by whole pixels of luma and of halved chroma is copied from its reference, each
/// plane from its own: the vector is added to where the block lies.
pub proof fn law_moved_block_is_copied(
    fb: FbView,
    b: BlockView,
    rf: RefFrame,
    subpel: [[[i16; 8]; 16]; 4],
    r: int,
    c: int,
)
    requires
        pixel_of(fb, b, r, c),
        b.mv[0]@[0]@[0] as int % 16 == 0,
        b.mv[0]@[0]@[1] as int % 16 == 0,
    ensures
        ({
            let f = first_spec(fb, b, rf, true, true, subpel);
            let across = b.mv[0]@[0]@[0] as int;
            let down = b.mv[0]@[0]@[1] as int;
            &&& f.y[(4 * b.row + r) * fb.y_stride + (4 * b.col + c)] == luma_ref(rf).at(
                4 * b.row + down / 8 + r,
                4 * b.col + across / 8 + c,
            )
            &&& f.u[(2 * b.row + r) * fb.uv_stride + (2 * b.col + c)] == chroma_ref(
                rf,
                rf.fb.u@,
                true,
                true,
            ).at(2 * b.row + down / 16 + r, 2 * b.col + across / 16 + c)
            &&& f.v[(2 * b.row + r) * fb.uv_stride + (2 * b.col + c)] == chroma_ref(
                rf,
                rf.fb.v@,
                true,
                true,
            ).at(2 * b.row + down / 16 + r, 2 * b.col + across / 16 + c)
        }),
{
    reveal(first_spec);
    reveal_with_fuel(luma_spec, 2);
    lemma_pixel_of(fb, b, r, c);
    let at = block_place(fb, b.row, b.col, b.bs, true, true);
    let taps = filter_taps(subpel, b.filter);
    let mv = b.mv[0]@[0];
    let y = tail(fb.y, at.y_off);
    let u = tail(fb.u, at.uv_off);
    let v = tail(fb.v, at.uv_off);
    law_whole_motion_copies(
        y,
        fb.y_stride,
        luma_ref(rf),
        taps,
        at.row_px,
        at.col_px,
        mv,
        at.bw,
        at.bh,
        r,
        c,
    );
    lemma_whole_chroma_copies(
        u,
        fb.uv_stride,
        chroma_ref(rf, rf.fb.u@, true, true),
        taps,
        at.uv_row,
        at.uv_col,
        mv,
        at.uv_bw,
        at.uv_bh,
        r,
        c,
    );
    lemma_whole_chroma_copies(
        v,
        fb.uv_stride,
        chroma_ref(rf, rf.fb.v@, true, true),
        taps,
        at.uv_row,
        at.uv_col,
        mv,
        at.uv_bw,
        at.uv_bh,
        r,
        c,
    );
    let f = first_spec(fb, b, rf, true, true, subpel);
    assert(0 * fb.y_stride == 0) by (nonlinear_arith);
    let one = mc_luma_spec(
        y,
        fb.y_stride,
        luma_ref(rf),
        taps,
        at.row_px,
        at.col_px,
        mv,
        at.bw,
        at.bh,
    );
    assert(f.y == with_tail(fb.y, at.y_off, one));
    reveal(crate::vp9::mc::mc_spec);
    assert(f.y[at.y_off + (r * fb.y_stride + c)] == one[r * fb.y_stride + c]);
}

/// Whether `m` is the mean of two pixels, rounded up.
pub open spec fn is_mean_of(m: int, a: int, b: int) -> bool {
    a + b <= 2 * m <= a + b + 1
}

/// The second reference of a block that moves by whole pixels is averaged with what the first one
/// gave, by the second of its vectors.
pub proof fn law_second_reference_is_averaged(
    fb: FbView,
    b: BlockView,
    rf: RefFrame,
    subpel: [[[i16; 8]; 16]; 4],
    r: int,
    c: int,
)
    requires
        pixel_of(fb, b, r, c),
        b.mv[0]@[1]@[0] as int % 16 == 0,
        b.mv[0]@[1]@[1] as int % 16 == 0,
    ensures
        ({
            let f = second_spec(fb, b, rf, true, true, subpel);
            let across = b.mv[0]@[1]@[0] as int;
            let down = b.mv[0]@[1]@[1] as int;
            let y = (4 * b.row + r) * fb.y_stride + (4 * b.col + c);
            let uv = (2 * b.row + r) * fb.uv_stride + (2 * b.col + c);
            &&& is_mean_of(
                f.y[y] as int,
                fb.y[y] as int,
                luma_ref(rf).at(4 * b.row + down / 8 + r, 4 * b.col + across / 8 + c),
            )
            &&& is_mean_of(
                f.u[uv] as int,
                fb.u[uv] as int,
                chroma_ref(rf, rf.fb.u@, true, true).at(
                    2 * b.row + down / 16 + r,
                    2 * b.col + across / 16 + c,
                ),
            )
            &&& is_mean_of(
                f.v[uv] as int,
                fb.v[uv] as int,
                chroma_ref(rf, rf.fb.v@, true, true).at(
                    2 * b.row + down / 16 + r,
                    2 * b.col + across / 16 + c,
                ),
            )
        }),
{
    reveal(second_spec);
    reveal_with_fuel(luma_spec, 2);
    lemma_pixel_of(fb, b, r, c);
    let at = block_place(fb, b.row, b.col, b.bs, true, true);
    let taps = filter_taps(subpel, b.filter);
    let mv = b.mv[0]@[1];
    let ys = fb.y_stride;
    let uvs = fb.uv_stride;
    let zero_y = fill(0u8, ys * at.bh);
    let zero_uv = fill(0u8, uvs * at.uv_bh);
    lemma_in_rows(r, c, at.bh, ys);
    lemma_in_rows(r, c, at.uv_bh, uvs);
    assert(tail(zero_y, 0) =~= zero_y);
    let one_y = mc_luma_spec(
        zero_y,
        ys,
        luma_ref(rf),
        taps,
        at.row_px,
        at.col_px,
        mv,
        at.bw,
        at.bh,
    );
    assert(with_tail(zero_y, 0, one_y) =~= one_y);
    law_whole_motion_copies(
        zero_y,
        ys,
        luma_ref(rf),
        taps,
        at.row_px,
        at.col_px,
        mv,
        at.bw,
        at.bh,
        r,
        c,
    );
    let ru = chroma_ref(rf, rf.fb.u@, true, true);
    let rv = chroma_ref(rf, rf.fb.v@, true, true);
    let (row, col, w, h) = (at.uv_row, at.uv_col, at.uv_bw, at.uv_bh);
    lemma_whole_chroma_copies(zero_uv, uvs, ru, taps, row, col, mv, w, h, r, c);
    lemma_whole_chroma_copies(zero_uv, uvs, rv, taps, row, col, mv, w, h, r, c);
    let one_u = mc_chroma_spec(zero_uv, uvs, ru, taps, row, col, mv, w, h, true, true);
    let one_v = mc_chroma_spec(zero_uv, uvs, rv, taps, row, col, mv, w, h, true, true);
    law_average_lies_in_the_middle(tail(fb.y, at.y_off), ys, one_y, ys, at.bw, at.bh, r, c);
    law_average_lies_in_the_middle(tail(fb.u, at.uv_off), uvs, one_u, uvs, w, h, r, c);
    law_average_lies_in_the_middle(tail(fb.v, at.uv_off), uvs, one_v, uvs, w, h, r, c);
}

proof fn lemma_in_rows(r: int, c: int, h: int, stride: int)
    requires
        0 <= r < h,
        0 <= c < stride,
    ensures
        r * stride + c < stride * h,
{
    assert(r * stride + stride <= stride * h) by (nonlinear_arith)
        requires
            r + 1 <= h,
            0 < stride,
    ;
}

} // verus!

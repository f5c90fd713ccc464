//! Motion compensation.
use vstd::prelude::*;

use crate::vp9::block_modes::BlockView;
use crate::vp9::data::BWH_TAB;
use crate::vp9::plane::paint;
use crate::vp9::recon::FbView;
use crate::vp9::refs::RefFrame;
use crate::vp9::types::BlockSize;

verus! {

// ---- interpolation ----

/// `v` brought into the range of a byte.
pub open spec fn clip255(v: int) -> u8 {
    if v < 0 {
        0
    } else if v > 255 {
        255
    } else {
        v as u8
    }
}

/// Eight pixels weighted by the taps of a filter, in 128ths, rounded.
#[verifier::opaque]
pub open spec fn tap8(
    f: Seq<i16>,
    a0: int,
    a1: int,
    a2: int,
    a3: int,
    a4: int,
    a5: int,
    a6: int,
    a7: int,
) -> u8 {
    clip255(
        (f[0] * a0 + f[1] * a1 + f[2] * a2 + f[3] * a3 + f[4] * a4 + f[5] * a5 + f[6] * a6 + f[7]
            * a7 + 64) / 128,
    )
}

fn product(t: i16, a: u8) -> (r: i32)
    ensures
        r == t * a,
        -8355840 <= r <= 8355840,
{
    proof {
        assert(-8355840 <= t * a <= 8355840) by (nonlinear_arith)
            requires
                -32768 <= t <= 32767,
                0 <= a <= 255,
        ;
    }
    t as i32 * a as i32
}

fn weigh(f: &[i16; 8], a0: u8, a1: u8, a2: u8, a3: u8, a4: u8, a5: u8, a6: u8, a7: u8) -> (r: u8)
    ensures
        r == tap8(
            f@,
            a0 as int,
            a1 as int,
            a2 as int,
            a3 as int,
            a4 as int,
            a5 as int,
            a6 as int,
            a7 as int,
        ),
{
    proof {
        reveal(tap8);
    }
    let s: i32 = product(f[0], a0) + product(f[1], a1) + product(f[2], a2) + product(f[3], a3)
        + product(f[4], a4) + product(f[5], a5) + product(f[6], a6) + product(f[7], a7) + 64;
    if s <= 0 {
        0
    } else {
        let q: i32 = s / 128;
        if q > 255 {
            255
        } else {
            q as u8
        }
    }
}

/// The pixel in row `r` and column `c` of a window that starts at `off`.
pub open spec fn win_at(src: Seq<u8>, off: int, stride: int, r: int, c: int) -> int {
    src[off + r * stride + c] as int
}

/// A window of `w` by `h` pixels lies in the plane.
pub open spec fn win_fits(len: int, off: int, stride: int, w: int, h: int) -> bool {
    0 <= off && 0 < w && 0 < h && 0 < stride && off + (h - 1) * stride + w <= len
}

proof fn lemma_win(len: int, off: int, stride: int, w: int, h: int, r: int, c: int)
    requires
        win_fits(len, off, stride, w, h),
        0 <= r < h,
        0 <= c < w,
    ensures
        0 <= r * stride,
        off + r * stride + c < len,
{
    assert(0 <= r * stride <= (h - 1) * stride) by (nonlinear_arith)
        requires
            0 <= r <= h - 1,
            0 < stride,
    ;
}

/// Eight pixels of a row, weighted.
pub open spec fn row_taps(src: Seq<u8>, off: int, stride: int, f: Seq<i16>, r: int, c: int) -> u8 {
    tap8(
        f,
        win_at(src, off, stride, r, c),
        win_at(src, off, stride, r, c + 1),
        win_at(src, off, stride, r, c + 2),
        win_at(src, off, stride, r, c + 3),
        win_at(src, off, stride, r, c + 4),
        win_at(src, off, stride, r, c + 5),
        win_at(src, off, stride, r, c + 6),
        win_at(src, off, stride, r, c + 7),
    )
}

/// Eight pixels of a column, weighted.
pub open spec fn col_taps(src: Seq<u8>, off: int, stride: int, f: Seq<i16>, r: int, c: int) -> u8 {
    tap8(
        f,
        win_at(src, off, stride, r, c),
        win_at(src, off, stride, r + 1, c),
        win_at(src, off, stride, r + 2, c),
        win_at(src, off, stride, r + 3, c),
        win_at(src, off, stride, r + 4, c),
        win_at(src, off, stride, r + 5, c),
        win_at(src, off, stride, r + 6, c),
        win_at(src, off, stride, r + 7, c),
    )
}

fn filter_row(
    src: &[u8],
    off: usize,
    stride: usize,
    f: &[i16; 8],
    r: usize,
    c: usize,
    Ghost(w): Ghost<int>,
    Ghost(h): Ghost<int>,
) -> (v: u8)
    requires
        win_fits(src@.len() as int, off as int, stride as int, w, h),
        r < h,
        c + 7 < w,
    ensures
        v == row_taps(src@, off as int, stride as int, f@, r as int, c as int),
{
    proof {
        lemma_win(src@.len() as int, off as int, stride as int, w, h, r as int, c + 7);
        assert(src.len() == src@.len());
    }
    let i: usize = off + r * stride + c;
    weigh(
        f,
        src[i],
        src[i + 1],
        src[i + 2],
        src[i + 3],
        src[i + 4],
        src[i + 5],
        src[i + 6],
        src[i + 7],
    )
}

fn fetch(
    src: &[u8],
    off: usize,
    stride: usize,
    r: usize,
    c: usize,
    Ghost(w): Ghost<int>,
    Ghost(h): Ghost<int>,
) -> (v: u8)
    requires
        win_fits(src@.len() as int, off as int, stride as int, w, h),
        r < h,
        c < w,
    ensures
        v == win_at(src@, off as int, stride as int, r as int, c as int),
{
    proof {
        lemma_win(src@.len() as int, off as int, stride as int, w, h, r as int, c as int);
        assert(src.len() == src@.len());
    }
    src[off + r * stride + c]
}

fn filter_col(
    src: &[u8],
    off: usize,
    stride: usize,
    f: &[i16; 8],
    r: usize,
    c: usize,
    Ghost(w): Ghost<int>,
    Ghost(h): Ghost<int>,
) -> (v: u8)
    requires
        win_fits(src@.len() as int, off as int, stride as int, w, h),
        r + 7 < h,
        h <= 100,
        c < w,
    ensures
        v == col_taps(src@, off as int, stride as int, f@, r as int, c as int),
{
    weigh(
        f,
        fetch(src, off, stride, r, c, Ghost(w), Ghost(h)),
        fetch(src, off, stride, r + 1, c, Ghost(w), Ghost(h)),
        fetch(src, off, stride, r + 2, c, Ghost(w), Ghost(h)),
        fetch(src, off, stride, r + 3, c, Ghost(w), Ghost(h)),
        fetch(src, off, stride, r + 4, c, Ghost(w), Ghost(h)),
        fetch(src, off, stride, r + 5, c, Ghost(w), Ghost(h)),
        fetch(src, off, stride, r + 6, c, Ghost(w), Ghost(h)),
        fetch(src, off, stride, r + 7, c, Ghost(w), Ghost(h)),
    )
}

// ---- reference planes ----

/// A plane that blocks are predicted from.
pub struct RefPlane {
    pub buf: Seq<u8>,
    pub stride: int,
    pub w: int,
    pub h: int,
}

/// `v` brought into `0..n`.
pub open spec fn into_range(v: int, n: int) -> int {
    if v < 0 {
        0
    } else if v >= n {
        n - 1
    } else {
        v
    }
}

impl RefPlane {
    /// The pixel in row `y` and column `x`: outside of the plane the nearest one in it.
    pub open spec fn at(self, y: int, x: int) -> int {
        self.buf[into_range(y, self.h) * self.stride + into_range(x, self.w)] as int
    }

    /// Whether the pixels lie in the buffer.
    pub open spec fn wf(self) -> bool {
        crate::vp9::plane::rect_fits(self.buf.len() as int, self.stride, self.w, self.h)
    }

    /// Eight pixels of a row from (`y`, `x`) on, weighted.
    pub open spec fn row_taps(self, f: Seq<i16>, y: int, x: int) -> u8 {
        tap8(
            f,
            self.at(y, x),
            self.at(y, x + 1),
            self.at(y, x + 2),
            self.at(y, x + 3),
            self.at(y, x + 4),
            self.at(y, x + 5),
            self.at(y, x + 6),
            self.at(y, x + 7),
        )
    }

    /// Eight pixels of a column from (`y`, `x`) on, weighted.
    pub open spec fn col_taps(self, f: Seq<i16>, y: int, x: int) -> u8 {
        tap8(
            f,
            self.at(y, x),
            self.at(y + 1, x),
            self.at(y + 2, x),
            self.at(y + 3, x),
            self.at(y + 4, x),
            self.at(y + 5, x),
            self.at(y + 6, x),
            self.at(y + 7, x),
        )
    }

    /// Eight rows from (`y`, `x`) on, each weighted along the row and then by column.
    pub open spec fn both_taps(self, hf: Seq<i16>, vf: Seq<i16>, y: int, x: int) -> u8 {
        tap8(
            vf,
            self.row_taps(hf, y, x) as int,
            self.row_taps(hf, y + 1, x) as int,
            self.row_taps(hf, y + 2, x) as int,
            self.row_taps(hf, y + 3, x) as int,
            self.row_taps(hf, y + 4, x) as int,
            self.row_taps(hf, y + 5, x) as int,
            self.row_taps(hf, y + 6, x) as int,
            self.row_taps(hf, y + 7, x) as int,
        )
    }

    /// The pixel at (`y`, `x`) and a fraction, in 16ths: whole pixels are taken as they
    /// are, the others are weighted means of the eight around them.
    pub open spec fn pixel(
        self,
        filters: [[i16; 8]; 16],
        fx: int,
        fy: int,
        y: int,
        x: int,
    ) -> u8 {
        let hf = filters@[fx]@;
        let vf = filters@[fy]@;
        if fx == 0 && fy == 0 {
            self.at(y, x) as u8
        } else if fy == 0 {
            self.row_taps(hf, y, x - 3)
        } else if fx == 0 {
            self.col_taps(vf, y - 3, x)
        } else {
            self.both_taps(hf, vf, y - 3, x - 3)
        }
    }
}

/// The rectangle at the start of `dst` with the pixels of `p` from (`y`, `x`) on.
#[verifier::opaque]
pub open spec fn mc_spec(
    dst: Seq<u8>,
    dst_stride: int,
    p: RefPlane,
    filters: [[i16; 8]; 16],
    fx: int,
    fy: int,
    y: int,
    x: int,
    w: int,
    h: int,
) -> Seq<u8> {
    crate::vp9::plane::painted(
        dst,
        dst_stride,
        w,
        h,
        |r: int, c: int| p.pixel(filters, fx, fy, y + r, x + c),
    )
}

/// Whether a window holds the pixels of `p` from (`y`, `x`) on.
pub open spec fn win_holds(
    src: Seq<u8>,
    off: int,
    stride: int,
    p: RefPlane,
    y: int,
    x: int,
    w: int,
    h: int,
) -> bool {
    &&& win_fits(src.len() as int, off, stride, w, h)
    &&& forall|r: int, c: int|
        0 <= r < h && 0 <= c < w ==> #[trigger] win_at(src, off, stride, r, c) == p.at(
            y + r,
            x + c,
        )
}

/// Two ways to say what is painted.
proof fn lemma_same_paint(
    dst: Seq<u8>,
    stride: int,
    w: int,
    h: int,
    f: spec_fn(int, int) -> u8,
    g: spec_fn(int, int) -> u8,
)
    requires
        0 < stride,
        forall|r: int, c: int| 0 <= r < h && 0 <= c < w ==> #[trigger] f(r, c) == g(r, c),
    ensures
        crate::vp9::plane::painted(dst, stride, w, h, f) == crate::vp9::plane::painted(
            dst,
            stride,
            w,
            h,
            g,
        ),
{
    assert forall|p: int| 0 <= p implies #[trigger] (p % stride) >= 0 by {
        vstd::arithmetic::div_mod::lemma_mod_bound(p, stride);
    }
    let a = crate::vp9::plane::painted(dst, stride, w, h, f);
    let b = crate::vp9::plane::painted(dst, stride, w, h, g);
    assert forall|p: int| 0 <= p < dst.len() implies #[trigger] a[p] == b[p] by {
        if crate::vp9::plane::in_rect(p, stride, w, h) {
            assert(f(p / stride, p % stride) == g(p / stride, p % stride));
        }
    }
    assert(a =~= b);
}

fn copy_block(
    dst: &mut [u8],
    dst_stride: usize,
    src: &[u8],
    off: usize,
    stride: usize,
    w: usize,
    h: usize,
    Ghost(p): Ghost<RefPlane>,
    Ghost(y0): Ghost<int>,
    Ghost(x0): Ghost<int>,
)
    requires
        crate::vp9::plane::rect_fits(
            old(dst)@.len() as int,
            dst_stride as int,
            w as int,
            h as int,
        ),
        win_holds(src@, off as int, stride as int, p, y0, x0, w as int, h as int),
    ensures
        final(dst)@ == crate::vp9::plane::painted(
            old(dst)@,
            dst_stride as int,
            w as int,
            h as int,
            |r: int, c: int| p.at(y0 + r, x0 + c) as u8,
        ),
{
    let ghost g = |r: int, c: int| win_at(src@, off as int, stride as int, r, c) as u8;
    let ghost e = |r: int, c: int| p.at(y0 + r, x0 + c) as u8;
    proof {
        lemma_same_paint(dst@, dst_stride as int, w as int, h as int, g, e);
    }
    let f = |y: usize, x: usize| -> (r: u8)
        requires
            y < h,
            x < w,
            win_fits(src@.len() as int, off as int, stride as int, w as int, h as int),
        ensures
            r == win_at(src@, off as int, stride as int, y as int, x as int),
        { fetch(src, off, stride, y, x, Ghost(w as int), Ghost(h as int)) };
    paint(dst, dst_stride, w, h, f, Ghost(g));
}

fn filter_h_8tap(
    dst: &mut [u8],
    dst_stride: usize,
    src: &[u8],
    off: usize,
    stride: usize,
    w: usize,
    h: usize,
    filter: &[i16; 8],
    Ghost(p): Ghost<RefPlane>,
    Ghost(y0): Ghost<int>,
    Ghost(x0): Ghost<int>,
)
    requires
        crate::vp9::plane::rect_fits(
            old(dst)@.len() as int,
            dst_stride as int,
            w as int,
            h as int,
        ),
        w <= 64,
        win_holds(src@, off as int, stride as int, p, y0, x0, w + 7, h as int),
    ensures
        final(dst)@ == crate::vp9::plane::painted(
            old(dst)@,
            dst_stride as int,
            w as int,
            h as int,
            |r: int, c: int| p.row_taps(filter@, y0 + r, x0 + c),
        ),
{
    let ghost g = |r: int, c: int| row_taps(src@, off as int, stride as int, filter@, r, c);
    let ghost e = |r: int, c: int| p.row_taps(filter@, y0 + r, x0 + c);
    proof {
        lemma_same_paint(dst@, dst_stride as int, w as int, h as int, g, e);
    }
    let f = |y: usize, x: usize| -> (r: u8)
        requires
            y < h,
            x < w,
            w <= 64,
            win_fits(src@.len() as int, off as int, stride as int, w + 7, h as int),
        ensures
            r == row_taps(src@, off as int, stride as int, filter@, y as int, x as int),
        { filter_row(src, off, stride, filter, y, x, Ghost(w + 7), Ghost(h as int)) };
    paint(dst, dst_stride, w, h, f, Ghost(g));
}

fn filter_v_8tap(
    dst: &mut [u8],
    dst_stride: usize,
    src: &[u8],
    off: usize,
    stride: usize,
    w: usize,
    h: usize,
    filter: &[i16; 8],
    Ghost(p): Ghost<RefPlane>,
    Ghost(y0): Ghost<int>,
    Ghost(x0): Ghost<int>,
)
    requires
        crate::vp9::plane::rect_fits(
            old(dst)@.len() as int,
            dst_stride as int,
            w as int,
            h as int,
        ),
        h <= 64,
        win_holds(src@, off as int, stride as int, p, y0, x0, w as int, h + 7),
    ensures
        final(dst)@ == crate::vp9::plane::painted(
            old(dst)@,
            dst_stride as int,
            w as int,
            h as int,
            |r: int, c: int| p.col_taps(filter@, y0 + r, x0 + c),
        ),
{
    let ghost g = |r: int, c: int| col_taps(src@, off as int, stride as int, filter@, r, c);
    let ghost e = |r: int, c: int| p.col_taps(filter@, y0 + r, x0 + c);
    proof {
        lemma_same_paint(dst@, dst_stride as int, w as int, h as int, g, e);
    }
    let f = |y: usize, x: usize| -> (r: u8)
        requires
            y < h,
            x < w,
            h <= 64,
            win_fits(src@.len() as int, off as int, stride as int, w as int, h + 7),
        ensures
            r == col_taps(src@, off as int, stride as int, filter@, y as int, x as int),
        { filter_col(src, off, stride, filter, y, x, Ghost(w as int), Ghost(h + 7)) };
    paint(dst, dst_stride, w, h, f, Ghost(g));
}

fn filter_hv_8tap(
    dst: &mut [u8],
    dst_stride: usize,
    src: &[u8],
    off: usize,
    stride: usize,
    w: usize,
    h: usize,
    h_filter: &[i16; 8],
    v_filter: &[i16; 8],
    Ghost(p): Ghost<RefPlane>,
    Ghost(y0): Ghost<int>,
    Ghost(x0): Ghost<int>,
)
    requires
        crate::vp9::plane::rect_fits(
            old(dst)@.len() as int,
            dst_stride as int,
            w as int,
            h as int,
        ),
        w <= 64,
        h <= 64,
        win_holds(src@, off as int, stride as int, p, y0, x0, w + 7, h + 7),
    ensures
        final(dst)@ == crate::vp9::plane::painted(
            old(dst)@,
            dst_stride as int,
            w as int,
            h as int,
            |r: int, c: int| p.both_taps(h_filter@, v_filter@, y0 + r, x0 + c),
        ),
{
    let mut tmp: [u8; 4544] = [0u8; 4544];
    let ghost t0 = tmp@;
    filter_h_8tap(
        &mut tmp,
        64,
        src,
        off,
        stride,
        w,
        h + 7,
        h_filter,
        Ghost(p),
        Ghost(y0),
        Ghost(x0),
    );
    let ghost rows = |r: int, c: int| p.row_taps(h_filter@, y0 + r, x0 + c);
    proof {
        assert(tmp@ == crate::vp9::plane::painted(t0, 64, w as int, h + 7, rows));
        assert forall|r: int, c: int| 0 <= r < h + 7 && 0 <= c < w implies #[trigger] win_at(
            tmp@,
            0,
            64,
            r,
            c,
        ) == p.row_taps(h_filter@, y0 + r, x0 + c) by {
            crate::vp9::plane::lemma_in_rect(4544, 64, w as int, h + 7, r, c);
            assert(tmp@[r * 64 + c] == rows(r, c));
        }
    }
    let ghost g = |r: int, c: int| col_taps(tmp@, 0, 64, v_filter@, r, c);
    let ghost e = |r: int, c: int| p.both_taps(h_filter@, v_filter@, y0 + r, x0 + c);
    proof {
        lemma_same_paint(dst@, dst_stride as int, w as int, h as int, g, e);
    }
    let t: &[u8] = &tmp;
    let f = |y: usize, x: usize| -> (r: u8)
        requires
            y < h,
            x < w,
            h <= 64,
            win_fits(t@.len() as int, 0, 64, w as int, h + 7),
        ensures
            r == col_taps(t@, 0, 64, v_filter@, y as int, x as int),
        { filter_col(t, 0, 64, v_filter, y, x, Ghost(w as int), Ghost(h + 7)) };
    paint(dst, dst_stride, w, h, f, Ghost(g));
}

/// The margin that a filter needs before and behind a block.
pub open spec fn margin(frac: int) -> int {
    if frac == 0 {
        0
    } else {
        7
    }
}

/// The pixels that a filter looks at before a block.
pub open spec fn lead(frac: int) -> int {
    if frac == 0 {
        0
    } else {
        3
    }
}

/// Predicts a block from a window that holds its pixels and the margins.
#[verifier::rlimit(100)]
fn mc_apply(
    dst: &mut [u8],
    dst_stride: usize,
    src: &[u8],
    off: usize,
    src_stride: usize,
    w: usize,
    h: usize,
    fx: usize,
    fy: usize,
    filters: &[[i16; 8]; 16],
    Ghost(p): Ghost<RefPlane>,
    Ghost(y): Ghost<int>,
    Ghost(x): Ghost<int>,
)
    requires
        crate::vp9::plane::rect_fits(
            old(dst)@.len() as int,
            dst_stride as int,
            w as int,
            h as int,
        ),
        w <= 64,
        h <= 64,
        fx < 16,
        fy < 16,
        win_holds(
            src@,
            off as int,
            src_stride as int,
            p,
            y - lead(fy as int),
            x - lead(fx as int),
            w + margin(fx as int),
            h + margin(fy as int),
        ),
    ensures
        final(dst)@ == mc_spec(
            old(dst)@,
            dst_stride as int,
            p,
            *filters,
            fx as int,
            fy as int,
            y,
            x,
            w as int,
            h as int,
        ),
{
    let ghost d0 = dst@;
    let ghost e = |r: int, c: int| p.pixel(*filters, fx as int, fy as int, y + r, x + c);
    let ghost f1 = |r: int, c: int| p.at(y + r, x + c) as u8;
    let ghost f2 = |r: int, c: int| p.row_taps(filters@[fx as int]@, y + r, (x - 3) + c);
    let ghost f3 = |r: int, c: int| p.col_taps(filters@[fy as int]@, (y - 3) + r, x + c);
    let ghost f4 = |r: int, c: int|
        p.both_taps(filters@[fx as int]@, filters@[fy as int]@, (y - 3) + r, (x - 3) + c);
    let hf: &[i16; 8] = &filters[fx];
    let vf: &[i16; 8] = &filters[fy];
    if fx == 0 && fy == 0 {
        copy_block(dst, dst_stride, src, off, src_stride, w, h, Ghost(p), Ghost(y), Ghost(x));
        proof {
            lemma_same_paint(d0, dst_stride as int, w as int, h as int, f1, e);
        }
    } else if fy == 0 {
        filter_h_8tap(
            dst,
            dst_stride,
            src,
            off,
            src_stride,
            w,
            h,
            hf,
            Ghost(p),
            Ghost(y),
            Ghost(x - 3),
        );
        proof {
            assert forall|r: int, c: int| 0 <= r < h && 0 <= c < w implies #[trigger] f2(r, c)
                == e(r, c) by {
                assert((x - 3) + c == x + c - 3);
            }
            lemma_same_paint(d0, dst_stride as int, w as int, h as int, f2, e);
        }
    } else if fx == 0 {
        filter_v_8tap(
            dst,
            dst_stride,
            src,
            off,
            src_stride,
            w,
            h,
            vf,
            Ghost(p),
            Ghost(y - 3),
            Ghost(x),
        );
        proof {
            assert forall|r: int, c: int| 0 <= r < h && 0 <= c < w implies #[trigger] f3(r, c)
                == e(r, c) by {
                assert((y - 3) + r == y + r - 3);
            }
            lemma_same_paint(d0, dst_stride as int, w as int, h as int, f3, e);
        }
    } else {
        filter_hv_8tap(
            dst,
            dst_stride,
            src,
            off,
            src_stride,
            w,
            h,
            hf,
            vf,
            Ghost(p),
            Ghost(y - 3),
            Ghost(x - 3),
        );
        proof {
            assert forall|r: int, c: int| 0 <= r < h && 0 <= c < w implies #[trigger] f4(r, c)
                == e(r, c) by {
                assert((y - 3) + r == y + r - 3 && (x - 3) + c == x + c - 3);
            }
            lemma_same_paint(d0, dst_stride as int, w as int, h as int, f4, e);
        }
    }
    proof {
        reveal(mc_spec);
    }
}

/// Copies the pixels of a plane from (`y`, `x`) on into a window at the start of `dst`,
/// the nearest pixels of the plane outside of it.
fn emu_edge(
    dst: &mut [u8],
    src: &[u8],
    src_stride: usize,
    w: usize,
    h: usize,
    y: i32,
    x: i32,
    frame_w: usize,
    frame_h: usize,
    Ghost(p): Ghost<RefPlane>,
)
    requires
        0 < w <= 71,
        0 < h <= 71,
        old(dst)@.len() >= 11360,
        -200000 <= y <= 200000,
        -200000 <= x <= 200000,
        frame_w <= 65536,
        frame_h <= 65536,
        p == (RefPlane {
            buf: src@,
            stride: src_stride as int,
            w: frame_w as int,
            h: frame_h as int,
        }),
        p.wf(),
    ensures
        final(dst)@.len() == old(dst)@.len(),
        win_holds(final(dst)@, 0, 160, p, y as int, x as int, w as int, h as int),
{
    let ghost d0 = dst@;
    let ghost g = |r: int, c: int| p.at(y + r, x + c) as u8;
    let f = |r: usize, c: usize| -> (v: u8)
        requires
            r < h,
            c < w,
            w <= 71,
            h <= 71,
            -200000 <= y <= 200000,
            -200000 <= x <= 200000,
            frame_w <= 65536,
            frame_h <= 65536,
            crate::vp9::plane::rect_fits(
                src@.len() as int,
                src_stride as int,
                frame_w as int,
                frame_h as int,
            ),
        ensures
            v == src@[into_range(y + r, frame_h as int) * src_stride + into_range(
                x + c,
                frame_w as int,
            )],
        { clamped_pixel(src, src_stride, y + r as i32, x + c as i32, frame_w, frame_h) };
    proof {
        assert((h - 1) * 160 + w <= 11360) by (nonlinear_arith)
            requires
                h <= 71,
                w <= 71,
        ;
    }
    paint(dst, 160, w, h, f, Ghost(g));
    proof {
        assert forall|r: int, c: int| 0 <= r < h && 0 <= c < w implies #[trigger] win_at(
            dst@,
            0,
            160,
            r,
            c,
        ) == p.at(y + r, x + c) by {
            crate::vp9::plane::lemma_in_rect(d0.len() as int, 160, w as int, h as int, r, c);
            assert(dst@[r * 160 + c] == g(r, c));
        }
    }
}

fn clamped_pixel(src: &[u8], stride: usize, y: i32, x: i32, w: usize, h: usize) -> (v: u8)
    requires
        crate::vp9::plane::rect_fits(src@.len() as int, stride as int, w as int, h as int),
        w <= 65536,
        h <= 65536,
    ensures
        v == src@[into_range(y as int, h as int) * stride + into_range(x as int, w as int)],
{
    let sy: usize = if y < 0 {
        0
    } else if y as usize >= h {
        h - 1
    } else {
        y as usize
    };
    let sx: usize = if x < 0 {
        0
    } else if x as usize >= w {
        w - 1
    } else {
        x as usize
    };
    proof {
        crate::vp9::plane::lemma_in_rect(
            src@.len() as int,
            stride as int,
            w as int,
            h as int,
            sy as int,
            sx as int,
        );
        assert(src.len() == src@.len());
    }
    src[sy * stride + sx]
}

/// Predicts a block: from the plane itself where it holds all the pixels that are looked
/// at, else from a copy with the edges extended.
#[verifier::rlimit(100)]
fn mc_block(
    dst: &mut [u8],
    dst_stride: usize,
    ref_plane: &[u8],
    ref_stride: usize,
    ref_w: usize,
    ref_h: usize,
    y: i32,
    x: i32,
    fx: usize,
    fy: usize,
    bw: usize,
    bh: usize,
    filters: &[[i16; 8]; 16],
    emu_buf: &mut [u8],
)
    requires
        crate::vp9::plane::rect_fits(
            old(dst)@.len() as int,
            dst_stride as int,
            bw as int,
            bh as int,
        ),
        bw <= 64,
        bh <= 64,
        fx < 16,
        fy < 16,
        -150000 <= y <= 150000,
        -150000 <= x <= 150000,
        ref_w <= 65536,
        ref_h <= 65536,
        crate::vp9::plane::rect_fits(
            ref_plane@.len() as int,
            ref_stride as int,
            ref_w as int,
            ref_h as int,
        ),
        old(emu_buf)@.len() >= 11360,
    ensures
        final(dst)@ == mc_spec(
            old(dst)@,
            dst_stride as int,
            RefPlane {
                buf: ref_plane@,
                stride: ref_stride as int,
                w: ref_w as int,
                h: ref_h as int,
            },
            *filters,
            fx as int,
            fy as int,
            y as int,
            x as int,
            bw as int,
            bh as int,
        ),
        final(emu_buf)@.len() == old(emu_buf)@.len(),
{
    let ghost p = RefPlane {
        buf: ref_plane@,
        stride: ref_stride as int,
        w: ref_w as int,
        h: ref_h as int,
    };
    let lx: i32 = if fx != 0 { 3 } else { 0 };
    let ly: i32 = if fy != 0 { 3 } else { 0 };
    let behind_x: i32 = if fx != 0 { 4 } else { 0 };
    let behind_y: i32 = if fy != 0 { 5 } else { 0 };
    let ww: usize = if fx != 0 { bw + 7 } else { bw };
    let hh: usize = if fy != 0 { bh + 7 } else { bh };
    if x < lx || y < ly || x + behind_x + bw as i32 > ref_w as i32 || y + behind_y + bh as i32
        > ref_h as i32 {
        emu_edge(
            emu_buf,
            ref_plane,
            ref_stride,
            ww,
            hh,
            y - ly,
            x - lx,
            ref_w,
            ref_h,
            Ghost(p),
        );
        mc_apply(
            dst,
            dst_stride,
            emu_buf,
            0,
            160,
            bw,
            bh,
            fx,
            fy,
            filters,
            Ghost(p),
            Ghost(y as int),
            Ghost(x as int),
        );
    } else {
        let oy: usize = (y - ly) as usize;
        let ox: usize = (x - lx) as usize;
        proof {
            crate::vp9::plane::lemma_in_rect(
                ref_plane@.len() as int,
                ref_stride as int,
                ref_w as int,
                ref_h as int,
                oy as int,
                ox as int,
            );
            crate::vp9::plane::lemma_in_rect(
                ref_plane@.len() as int,
                ref_stride as int,
                ref_w as int,
                ref_h as int,
                oy + hh - 1,
                ox + ww - 1,
            );
            assert(ref_plane.len() == ref_plane@.len());
            assert((oy + hh - 1) * ref_stride == oy * ref_stride + (hh - 1) * ref_stride)
                by (nonlinear_arith);
        }
        let off: usize = oy * ref_stride + ox;
        proof {
            assert forall|r: int, c: int| 0 <= r < hh && 0 <= c < ww implies #[trigger] win_at(
                ref_plane@,
                off as int,
                ref_stride as int,
                r,
                c,
            ) == p.at(y - ly + r, x - lx + c) by {
                assert((oy + r) * ref_stride == oy * ref_stride + r * ref_stride)
                    by (nonlinear_arith);
            }
        }
        mc_apply(
            dst,
            dst_stride,
            ref_plane,
            off,
            ref_stride,
            bw,
            bh,
            fx,
            fy,
            filters,
            Ghost(p),
            Ghost(y as int),
            Ghost(x as int),
        );
    }
}

/// A luma block predicted by a motion vector in eighths of a pixel.
pub open spec fn mc_luma_spec(
    dst: Seq<u8>,
    dst_stride: int,
    p: RefPlane,
    filters: [[i16; 8]; 16],
    row_px: int,
    col_px: int,
    mv: [i16; 2],
    bw: int,
    bh: int,
) -> Seq<u8> {
    mc_spec(
        dst,
        dst_stride,
        p,
        filters,
        2 * (mv@[0] as int % 8),
        2 * (mv@[1] as int % 8),
        row_px + mv@[1] as int / 8,
        col_px + mv@[0] as int / 8,
        bw,
        bh,
    )
}

/// The taps of a filter.
pub open spec fn filter_taps(subpel: [[[i16; 8]; 16]; 4], f: u8) -> [[i16; 8]; 16] {
    subpel@[f as int]
}

/// Predicts the luma block at the start of `dst`. `mv` holds columns and rows in eighths of
/// a pixel; (`row_px`, `col_px`) is where the block lies in the frame.
pub fn mc_luma(
    dst: &mut [u8],
    dst_stride: usize,
    ref_plane: &[u8],
    ref_stride: usize,
    ref_w: usize,
    ref_h: usize,
    row_px: usize,
    col_px: usize,
    mv: &[i16; 2],
    bw: usize,
    bh: usize,
    filter_idx: u8,
    subpel: &[[[i16; 8]; 16]; 4],
    emu_buf: &mut [u8],
)
    requires
        crate::vp9::plane::rect_fits(
            old(dst)@.len() as int,
            dst_stride as int,
            bw as int,
            bh as int,
        ),
        bw <= 64,
        bh <= 64,
        filter_idx < 4,
        row_px <= 70000,
        col_px <= 70000,
        ref_w <= 65536,
        ref_h <= 65536,
        crate::vp9::plane::rect_fits(
            ref_plane@.len() as int,
            ref_stride as int,
            ref_w as int,
            ref_h as int,
        ),
        old(emu_buf)@.len() >= 11360,
    ensures
        final(dst)@ == mc_luma_spec(
            old(dst)@,
            dst_stride as int,
            RefPlane {
                buf: ref_plane@,
                stride: ref_stride as int,
                w: ref_w as int,
                h: ref_h as int,
            },
            filter_taps(*subpel, filter_idx),
            row_px as int,
            col_px as int,
            *mv,
            bw as int,
            bh as int,
        ),
        final(emu_buf)@.len() == old(emu_buf)@.len(),
{
    let mx: i32 = mv[0] as i32 + 32768;
    let my: i32 = mv[1] as i32 + 32768;
    let x: i32 = col_px as i32 + mx / 8 - 4096;
    let y: i32 = row_px as i32 + my / 8 - 4096;
    let fx: usize = (mx % 8) as usize * 2;
    let fy: usize = (my % 8) as usize * 2;
    mc_block(
        dst,
        dst_stride,
        ref_plane,
        ref_stride,
        ref_w,
        ref_h,
        y,
        x,
        fx,
        fy,
        bw,
        bh,
        &subpel[filter_idx as usize],
        emu_buf,
    );
}

/// A component of a motion vector in 16ths of a chroma pixel.
pub open spec fn chroma_units(m: i16, half: bool) -> int {
    if half {
        m as int
    } else {
        2 * m
    }
}

/// A chroma block predicted by a motion vector in eighths of a luma pixel.
pub open spec fn mc_chroma_spec(
    dst: Seq<u8>,
    dst_stride: int,
    p: RefPlane,
    filters: [[i16; 8]; 16],
    row_px: int,
    col_px: int,
    mv: [i16; 2],
    bw: int,
    bh: int,
    ss_h: bool,
    ss_v: bool,
) -> Seq<u8> {
    let mx = chroma_units(mv@[0], ss_h);
    let my = chroma_units(mv@[1], ss_v);
    mc_spec(
        dst,
        dst_stride,
        p,
        filters,
        mx % 16,
        my % 16,
        row_px + my / 16,
        col_px + mx / 16,
        bw,
        bh,
    )
}

/// Predicts the blocks at the start of the two chroma planes.
pub fn mc_chroma(
    dst_u: &mut [u8],
    dst_v: &mut [u8],
    dst_stride: usize,
    ref_u: &[u8],
    ref_v: &[u8],
    ref_stride: usize,
    ref_w: usize,
    ref_h: usize,
    row_px: usize,
    col_px: usize,
    mv: &[i16; 2],
    bw: usize,
    bh: usize,
    filter_idx: u8,
    ss_h: bool,
    ss_v: bool,
    subpel: &[[[i16; 8]; 16]; 4],
    emu_buf: &mut [u8],
)
    requires
        crate::vp9::plane::rect_fits(
            old(dst_u)@.len() as int,
            dst_stride as int,
            bw as int,
            bh as int,
        ),
        crate::vp9::plane::rect_fits(
            old(dst_v)@.len() as int,
            dst_stride as int,
            bw as int,
            bh as int,
        ),
        bw <= 64,
        bh <= 64,
        filter_idx < 4,
        row_px <= 70000,
        col_px <= 70000,
        ref_w <= 65536,
        ref_h <= 65536,
        crate::vp9::plane::rect_fits(
            ref_u@.len() as int,
            ref_stride as int,
            ref_w as int,
            ref_h as int,
        ),
        crate::vp9::plane::rect_fits(
            ref_v@.len() as int,
            ref_stride as int,
            ref_w as int,
            ref_h as int,
        ),
        old(emu_buf)@.len() >= 11360,
    ensures
        final(dst_u)@ == mc_chroma_spec(
            old(dst_u)@,
            dst_stride as int,
            RefPlane {
                buf: ref_u@,
                stride: ref_stride as int,
                w: ref_w as int,
                h: ref_h as int,
            },
            filter_taps(*subpel, filter_idx),
            row_px as int,
            col_px as int,
            *mv,
            bw as int,
            bh as int,
            ss_h,
            ss_v,
        ),
        final(dst_v)@ == mc_chroma_spec(
            old(dst_v)@,
            dst_stride as int,
            RefPlane {
                buf: ref_v@,
                stride: ref_stride as int,
                w: ref_w as int,
                h: ref_h as int,
            },
            filter_taps(*subpel, filter_idx),
            row_px as int,
            col_px as int,
            *mv,
            bw as int,
            bh as int,
            ss_h,
            ss_v,
        ),
        final(emu_buf)@.len() == old(emu_buf)@.len(),
{
    let mx: i32 = if ss_h { mv[0] as i32 } else { 2 * (mv[0] as i32) } + 65536;
    let my: i32 = if ss_v { mv[1] as i32 } else { 2 * (mv[1] as i32) } + 65536;
    let x: i32 = col_px as i32 + mx / 16 - 4096;
    let y: i32 = row_px as i32 + my / 16 - 4096;
    let fx: usize = (mx % 16) as usize;
    let fy: usize = (my % 16) as usize;
    mc_block(
        dst_u,
        dst_stride,
        ref_u,
        ref_stride,
        ref_w,
        ref_h,
        y,
        x,
        fx,
        fy,
        bw,
        bh,
        &subpel[filter_idx as usize],
        emu_buf,
    );
    mc_block(
        dst_v,
        dst_stride,
        ref_v,
        ref_stride,
        ref_w,
        ref_h,
        y,
        x,
        fx,
        fy,
        bw,
        bh,
        &subpel[filter_idx as usize],
        emu_buf,
    );
}

/// `a` divided by `b`, halves away from zero.
pub open spec fn rounded_div_spec(a: int, b: int) -> int {
    if a >= 0 {
        (a + b / 2) / b
    } else {
        -((-a + b / 2) / b)
    }
}

fn rounded_div(a: i32, b: i32) -> (r: i16)
    requires
        b == 2 || b == 4,
        -131072 <= a <= 131068,
        b == 2 ==> -65536 <= a <= 65534,
    ensures
        r == rounded_div_spec(a as int, b as int),
{
    if a >= 0 {
        ((a + b / 2) / b) as i16
    } else {
        (-((-a + b / 2) / b)) as i16
    }
}

/// The motion vector of chroma in a block of less than 8x8 pixels: the mean of those of
/// its parts, as far as they lie on the same chroma pixels.
pub open spec fn chroma_mv_spec(
    bs: BlockSize,
    mv: Seq<[[i16; 2]; 2]>,
    ri: int,
    ss_h: bool,
    ss_v: bool,
) -> [i16; 2] {
    let a = mv[0]@[ri]@;
    let b = mv[1]@[ri]@;
    let c = mv[2]@[ri]@;
    let d = mv[3]@[ri]@;
    if bs == BlockSize::Bs8x4 && ss_v {
        [
            rounded_div_spec(a[0] + c[0], 2) as i16,
            rounded_div_spec(a[1] + c[1], 2) as i16,
        ]
    } else if bs == BlockSize::Bs4x8 && ss_h {
        [
            rounded_div_spec(a[0] + b[0], 2) as i16,
            rounded_div_spec(a[1] + b[1], 2) as i16,
        ]
    } else if bs == BlockSize::Bs4x4 && ss_h && ss_v {
        [
            rounded_div_spec(a[0] + b[0] + c[0] + d[0], 4) as i16,
            rounded_div_spec(a[1] + b[1] + c[1] + d[1], 4) as i16,
        ]
    } else {
        mv[0]@[ri]
    }
}

pub fn chroma_mv(bs: BlockSize, mv: &[[[i16; 2]; 2]; 4], ri: usize, ss_h: bool, ss_v: bool) -> (r: [i16;
    2])
    requires
        ri < 2,
    ensures
        r == chroma_mv_spec(bs, mv@, ri as int, ss_h, ss_v),
{
    let a: [i16; 2] = mv[0][ri];
    let b: [i16; 2] = mv[1][ri];
    let c: [i16; 2] = mv[2][ri];
    let d: [i16; 2] = mv[3][ri];
    let r: [i16; 2] = if bs == BlockSize::Bs8x4 && ss_v {
        [
            rounded_div(a[0] as i32 + c[0] as i32, 2),
            rounded_div(a[1] as i32 + c[1] as i32, 2),
        ]
    } else if bs == BlockSize::Bs4x8 && ss_h {
        [
            rounded_div(a[0] as i32 + b[0] as i32, 2),
            rounded_div(a[1] as i32 + b[1] as i32, 2),
        ]
    } else if bs == BlockSize::Bs4x4 && ss_h && ss_v {
        [
            rounded_div(a[0] as i32 + b[0] as i32 + c[0] as i32 + d[0] as i32, 4),
            rounded_div(a[1] as i32 + b[1] as i32 + c[1] as i32 + d[1] as i32, 4),
        ]
    } else {
        a
    };
    assert(r =~= chroma_mv_spec(bs, mv@, ri as int, ss_h, ss_v));
    r
}

// ---- blocks ----

/// A part of a luma block with a motion vector of its own: where it lies in the block and
/// its size, in pixels, and the number of its motion vector.
pub struct Part {
    pub dy: usize,
    pub dx: usize,
    pub w: usize,
    pub h: usize,
    pub k: usize,
}

/// The number of parts of a block.
pub open spec fn n_parts_spec(bs: BlockSize) -> int {
    match bs {
        BlockSize::Bs8x4 | BlockSize::Bs4x8 => 2,
        BlockSize::Bs4x4 => 4,
        _ => 1,
    }
}

/// The part number `i` of a block.
pub open spec fn part_spec(bs: BlockSize, i: int) -> Part {
    match bs {
        BlockSize::Bs8x4 => Part {
            dy: (4 * i) as usize,
            dx: 0,
            w: 8,
            h: 4,
            k: (2 * i) as usize,
        },
        BlockSize::Bs4x8 => Part { dy: 0, dx: (4 * i) as usize, w: 4, h: 8, k: i as usize },
        BlockSize::Bs4x4 => Part {
            dy: (4 * (i / 2)) as usize,
            dx: (4 * (i % 2)) as usize,
            w: 4,
            h: 4,
            k: i as usize,
        },
        _ => Part {
            dy: 0,
            dx: 0,
            w: (4 * BWH_TAB@[0]@[bs.code_spec() as int]@[0]) as usize,
            h: (4 * BWH_TAB@[0]@[bs.code_spec() as int]@[1]) as usize,
            k: 0,
        },
    }
}

pub fn n_parts(bs: BlockSize) -> (r: usize)
    ensures
        r == n_parts_spec(bs),
        1 <= r <= 4,
{
    match bs {
        BlockSize::Bs8x4 | BlockSize::Bs4x8 => 2,
        BlockSize::Bs4x4 => 4,
        _ => 1,
    }
}

pub fn part_of(bs: BlockSize, i: usize) -> (r: Part)
    requires
        i < n_parts_spec(bs),
    ensures
        r == part_spec(bs, i as int),
        r.dy <= 4,
        r.dx <= 4,
        1 <= r.w <= 64,
        1 <= r.h <= 64,
        r.k < 4,
{
    match bs {
        BlockSize::Bs8x4 => Part { dy: 4 * i, dx: 0, w: 8, h: 4, k: 2 * i },
        BlockSize::Bs4x8 => Part { dy: 0, dx: 4 * i, w: 4, h: 8, k: i },
        BlockSize::Bs4x4 => Part { dy: 4 * (i / 2), dx: 4 * (i % 2), w: 4, h: 4, k: i },
        _ => Part {
            dy: 0,
            dx: 0,
            w: 4 * BWH_TAB[0][bs.code() as usize][0] as usize,
            h: 4 * BWH_TAB[0][bs.code() as usize][1] as usize,
            k: 0,
        },
    }
}

/// Whether a rectangle at `off` lies in a plane.
pub open spec fn rect_at(len: int, off: int, stride: int, w: int, h: int) -> bool {
    0 <= off <= len && crate::vp9::plane::rect_fits(len - off, stride, w, h)
}

/// Whether the parts of a block that starts at `base` lie in a plane.
pub open spec fn parts_fit(len: int, base: int, stride: int, bs: BlockSize) -> bool {
    forall|i: int|
        0 <= i < n_parts_spec(bs) ==> {
            let q = #[trigger] part_spec(bs, i);
            rect_at(len, base + q.dy * stride + q.dx, stride, q.w as int, q.h as int)
        }
}

/// The luma of a block, part by part from the number `i` on, in a plane where the block
/// starts at `base`.
pub open spec fn luma_spec(
    buf: Seq<u8>,
    base: int,
    stride: int,
    p: RefPlane,
    filters: [[i16; 8]; 16],
    row_px: int,
    col_px: int,
    bs: BlockSize,
    mv: Seq<[[i16; 2]; 2]>,
    ri: int,
    i: int,
) -> Seq<u8>
    decreases n_parts_spec(bs) - i,
{
    if i >= n_parts_spec(bs) {
        buf
    } else {
        let q = part_spec(bs, i);
        let off = base + q.dy * stride + q.dx;
        let next = crate::vp9::recon::with_tail(
            buf,
            off,
            mc_luma_spec(
                crate::vp9::recon::tail(buf, off),
                stride,
                p,
                filters,
                row_px + q.dy,
                col_px + q.dx,
                mv[q.k as int]@[ri],
                q.w as int,
                q.h as int,
            ),
        );
        luma_spec(next, base, stride, p, filters, row_px, col_px, bs, mv, ri, i + 1)
    }
}

/// Predicts the luma of a block in a plane where it starts at `base`.
pub fn luma_mc(
    buf: &mut [u8],
    base: usize,
    stride: usize,
    ref_plane: &[u8],
    ref_stride: usize,
    ref_w: usize,
    ref_h: usize,
    row_px: usize,
    col_px: usize,
    bs: BlockSize,
    mv: &[[[i16; 2]; 2]; 4],
    ri: usize,
    filter: u8,
    subpel: &[[[i16; 8]; 16]; 4],
    emu_buf: &mut [u8],
)
    requires
        parts_fit(old(buf)@.len() as int, base as int, stride as int, bs),
        ri < 2,
        filter < 4,
        row_px <= 69000,
        col_px <= 69000,
        ref_w <= 65536,
        ref_h <= 65536,
        crate::vp9::plane::rect_fits(
            ref_plane@.len() as int,
            ref_stride as int,
            ref_w as int,
            ref_h as int,
        ),
        old(emu_buf)@.len() >= 11360,
    ensures
        final(buf)@ == luma_spec(
            old(buf)@,
            base as int,
            stride as int,
            RefPlane {
                buf: ref_plane@,
                stride: ref_stride as int,
                w: ref_w as int,
                h: ref_h as int,
            },
            filter_taps(*subpel, filter),
            row_px as int,
            col_px as int,
            bs,
            mv@,
            ri as int,
            0,
        ),
        final(buf)@.len() == old(buf)@.len(),
        final(emu_buf)@.len() == old(emu_buf)@.len(),
{
    let ghost p = RefPlane {
        buf: ref_plane@,
        stride: ref_stride as int,
        w: ref_w as int,
        h: ref_h as int,
    };
    let ghost taps = filter_taps(*subpel, filter);
    let ghost b0 = buf@;
    let len: usize = buf.len();
    let n: usize = n_parts(bs);
    let emu_len: usize = emu_buf.len();
    let mut i: usize = 0;
    while i < n
        invariant
            i <= n,
            n == n_parts_spec(bs),
            len == buf@.len() == b0.len(),
            emu_len == emu_buf@.len(),
            emu_len >= 11360,
            parts_fit(len as int, base as int, stride as int, bs),
            ri < 2,
            filter < 4,
            row_px <= 69000,
            col_px <= 69000,
            ref_w <= 65536,
            ref_h <= 65536,
            p == (RefPlane {
                buf: ref_plane@,
                stride: ref_stride as int,
                w: ref_w as int,
                h: ref_h as int,
            }),
            p.wf(),
            taps == filter_taps(*subpel, filter),
            luma_spec(
                buf@,
                base as int,
                stride as int,
                p,
                taps,
                row_px as int,
                col_px as int,
                bs,
                mv@,
                ri as int,
                i as int,
            ) == luma_spec(
                b0,
                base as int,
                stride as int,
                p,
                taps,
                row_px as int,
                col_px as int,
                bs,
                mv@,
                ri as int,
                0,
            ),
        decreases n - i,
    {
        let q: Part = part_of(bs, i);
        proof {
            assert(part_spec(bs, i as int) == q);
            assert(0 <= q.dy * stride) by (nonlinear_arith)
                requires
                    0 <= q.dy,
                    0 <= stride,
            ;
        }
        let off: usize = base + q.dy * stride + q.dx;
        let (_, rest) = buf.split_at_mut(off);
        mc_luma(
            rest,
            stride,
            ref_plane,
            ref_stride,
            ref_w,
            ref_h,
            row_px + q.dy,
            col_px + q.dx,
            &mv[q.k][ri],
            q.w,
            q.h,
            filter,
            subpel,
            emu_buf,
        );
        proof {
            reveal(mc_spec);
        }
        i += 1;
    }
}

/// Two rectangles of pixels averaged, rounded up.
pub open spec fn averaged(
    dst: Seq<u8>,
    dst_stride: int,
    src: Seq<u8>,
    src_stride: int,
    w: int,
    h: int,
) -> Seq<u8> {
    crate::vp9::plane::painted(
        dst,
        dst_stride,
        w,
        h,
        |r: int, c: int|
            ((dst[r * dst_stride + c] + src[r * src_stride + c] + 1) / 2) as u8,
    )
}

pub fn avg_block(dst: &mut [u8], stride: usize, src: &[u8], w: usize, h: usize)
    requires
        crate::vp9::plane::rect_fits(old(dst)@.len() as int, stride as int, w as int, h as int),
        crate::vp9::plane::rect_fits(src@.len() as int, stride as int, w as int, h as int),
    ensures
        final(dst)@ == averaged(
            old(dst)@,
            stride as int,
            src@,
            stride as int,
            w as int,
            h as int,
        ),
{
    let ghost d0 = dst@;
    let ghost g = |r: int, c: int| ((d0[r * stride + c] + src@[r * stride + c] + 1) / 2) as u8;
    proof {
        crate::vp9::plane::lemma_paint_ends(d0, stride as int, w as int, h as int, g);
    }
    let len: usize = dst.len();
    let src_len: usize = src.len();
    let mut y: usize = 0;
    while y < h
        invariant
            y <= h,
            len == d0.len(),
            src_len == src@.len(),
            crate::vp9::plane::rect_fits(d0.len() as int, stride as int, w as int, h as int),
            crate::vp9::plane::rect_fits(src@.len() as int, stride as int, w as int, h as int),
            g == (|r: int, c: int| ((d0[r * stride + c] + src@[r * stride + c] + 1) / 2) as u8),
            dst@ == crate::vp9::plane::painted_until(
                d0,
                stride as int,
                w as int,
                y as int,
                0,
                g,
            ),
        decreases h - y,
    {
        let mut x: usize = 0;
        while x < w
            invariant
                x <= w,
                y < h,
                len == d0.len(),
                src_len == src@.len(),
                crate::vp9::plane::rect_fits(d0.len() as int, stride as int, w as int, h as int),
                crate::vp9::plane::rect_fits(src@.len() as int, stride as int, w as int, h as int),
                g == (|r: int, c: int|
                    ((d0[r * stride + c] + src@[r * stride + c] + 1) / 2) as u8),
                dst@ == crate::vp9::plane::painted_until(
                    d0,
                    stride as int,
                    w as int,
                    y as int,
                    x as int,
                    g,
                ),
            decreases w - x,
        {
            proof {
                crate::vp9::plane::lemma_in_rect(
                    d0.len() as int,
                    stride as int,
                    w as int,
                    h as int,
                    y as int,
                    x as int,
                );
                crate::vp9::plane::lemma_in_rect(
                    src@.len() as int,
                    stride as int,
                    w as int,
                    h as int,
                    y as int,
                    x as int,
                );
                crate::vp9::plane::lemma_paint_step(
                    d0,
                    dst@,
                    stride as int,
                    w as int,
                    h as int,
                    y as int,
                    x as int,
                    g,
                );
            }
            let i: usize = y * stride + x;
            let v: u8 = ((dst[i] as u16 + src[i] as u16 + 1) / 2) as u8;
            assert(v == g(y as int, x as int));
            dst[i] = v;
            x += 1;
        }
        proof {
            crate::vp9::plane::lemma_paint_row(d0, stride as int, w as int, y as int, g);
        }
        y += 1;
    }
}

/// Where a block lies in the planes of a frame.
pub struct BlockPlace {
    pub y_off: int,
    pub row_px: int,
    pub col_px: int,
    pub bw: int,
    pub bh: int,
    pub uv_off: int,
    pub uv_row: int,
    pub uv_col: int,
    pub uv_bw: int,
    pub uv_bh: int,
}

/// The width (`dir` 0) or the height (`dir` 1) of the luma of a block, in pixels. The parts of a small
/// block make up 8x8.
pub open spec fn luma_size_spec(bs: BlockSize, dir: int) -> int {
    match bs {
        BlockSize::Bs8x4 | BlockSize::Bs4x8 | BlockSize::Bs4x4 => 8,
        _ => 4 * BWH_TAB@[0]@[bs.code_spec() as int]@[dir],
    }
}

/// The width (`dir` 0) or the height (`dir` 1) of the luma of a block, in pixels.
pub fn luma_size(bs: BlockSize, dir: usize) -> (r: usize)
    requires
        dir < 2,
    ensures
        r == luma_size_spec(bs, dir as int),
        8 <= r <= 64,
{
    match bs {
        BlockSize::Bs8x4 | BlockSize::Bs4x8 | BlockSize::Bs4x4 => 8,
        _ => BWH_TAB[0][bs.code() as usize][dir] as usize * 4,
    }
}

/// Where a block lies in the planes of a frame.
pub open spec fn block_place(
    fb: FbView,
    row: int,
    col: int,
    bs: BlockSize,
    ss_h: bool,
    ss_v: bool,
) -> BlockPlace {
    let k = bs.code_spec() as int;
    let uv_row = crate::vp9::block_coefs::halved(4 * row, ss_v);
    let uv_col = crate::vp9::block_coefs::halved(4 * col, ss_h);
    BlockPlace {
        y_off: 4 * row * fb.y_stride + 4 * col,
        row_px: 4 * row,
        col_px: 4 * col,
        bw: luma_size_spec(bs, 0),
        bh: luma_size_spec(bs, 1),
        uv_off: uv_row * fb.uv_stride + uv_col,
        uv_row,
        uv_col,
        uv_bw: 4 * BWH_TAB@[1]@[k]@[0],
        uv_bh: 4 * BWH_TAB@[1]@[k]@[1],
    }
}

/// The luma plane of a reference.
pub open spec fn luma_ref(r: RefFrame) -> RefPlane {
    RefPlane {
        buf: r.fb.y@,
        stride: r.fb.y_stride as int,
        w: r.width as int,
        h: r.height as int,
    }
}

/// `v`, or half of it, rounded up.
pub open spec fn halved_up(v: int, half: bool) -> int {
    if half {
        (v + 1) / 2
    } else {
        v
    }
}

/// A chroma plane of a reference.
pub open spec fn chroma_ref(r: RefFrame, buf: Seq<u8>, ss_h: bool, ss_v: bool) -> RefPlane {
    RefPlane {
        buf,
        stride: r.fb.uv_stride as int,
        w: halved_up(r.width as int, ss_h),
        h: halved_up(r.height as int, ss_v),
    }
}

/// The planes of a frame with a block predicted from its first reference.
#[verifier::opaque]
pub open spec fn first_spec(
    fb: FbView,
    b: BlockView,
    r: RefFrame,
    ss_h: bool,
    ss_v: bool,
    subpel: [[[i16; 8]; 16]; 4],
) -> FbView {
    let at = block_place(fb, b.row, b.col, b.bs, ss_h, ss_v);
    let taps = filter_taps(subpel, b.filter);
    let mv = chroma_mv_spec(b.bs, b.mv, 0, ss_h, ss_v);
    FbView {
        y: luma_spec(
            fb.y,
            at.y_off,
            fb.y_stride,
            luma_ref(r),
            taps,
            at.row_px,
            at.col_px,
            b.bs,
            b.mv,
            0,
            0,
        ),
        u: crate::vp9::recon::with_tail(
            fb.u,
            at.uv_off,
            mc_chroma_spec(
                crate::vp9::recon::tail(fb.u, at.uv_off),
                fb.uv_stride,
                chroma_ref(r, r.fb.u@, ss_h, ss_v),
                taps,
                at.uv_row,
                at.uv_col,
                mv,
                at.uv_bw,
                at.uv_bh,
                ss_h,
                ss_v,
            ),
        ),
        v: crate::vp9::recon::with_tail(
            fb.v,
            at.uv_off,
            mc_chroma_spec(
                crate::vp9::recon::tail(fb.v, at.uv_off),
                fb.uv_stride,
                chroma_ref(r, r.fb.v@, ss_h, ss_v),
                taps,
                at.uv_row,
                at.uv_col,
                mv,
                at.uv_bw,
                at.uv_bh,
                ss_h,
                ss_v,
            ),
        ),
        ..fb
    }
}

/// The planes of a frame with a block averaged with the prediction from its second
/// reference.
#[verifier::opaque]
pub open spec fn second_spec(
    fb: FbView,
    b: BlockView,
    r: RefFrame,
    ss_h: bool,
    ss_v: bool,
    subpel: [[[i16; 8]; 16]; 4],
) -> FbView {
    let at = block_place(fb, b.row, b.col, b.bs, ss_h, ss_v);
    let taps = filter_taps(subpel, b.filter);
    let mv = chroma_mv_spec(b.bs, b.mv, 1, ss_h, ss_v);
    let zero_y = crate::vp9::context::fill(0u8, fb.y_stride * at.bh);
    let zero_uv = crate::vp9::context::fill(0u8, fb.uv_stride * at.uv_bh);
    FbView {
        y: crate::vp9::recon::with_tail(
            fb.y,
            at.y_off,
            averaged(
                crate::vp9::recon::tail(fb.y, at.y_off),
                fb.y_stride,
                luma_spec(
                    zero_y,
                    0,
                    fb.y_stride,
                    luma_ref(r),
                    taps,
                    at.row_px,
                    at.col_px,
                    b.bs,
                    b.mv,
                    1,
                    0,
                ),
                fb.y_stride,
                at.bw,
                at.bh,
            ),
        ),
        u: crate::vp9::recon::with_tail(
            fb.u,
            at.uv_off,
            averaged(
                crate::vp9::recon::tail(fb.u, at.uv_off),
                fb.uv_stride,
                mc_chroma_spec(
                    zero_uv,
                    fb.uv_stride,
                    chroma_ref(r, r.fb.u@, ss_h, ss_v),
                    taps,
                    at.uv_row,
                    at.uv_col,
                    mv,
                    at.uv_bw,
                    at.uv_bh,
                    ss_h,
                    ss_v,
                ),
                fb.uv_stride,
                at.uv_bw,
                at.uv_bh,
            ),
        ),
        v: crate::vp9::recon::with_tail(
            fb.v,
            at.uv_off,
            averaged(
                crate::vp9::recon::tail(fb.v, at.uv_off),
                fb.uv_stride,
                mc_chroma_spec(
                    zero_uv,
                    fb.uv_stride,
                    chroma_ref(r, r.fb.v@, ss_h, ss_v),
                    taps,
                    at.uv_row,
                    at.uv_col,
                    mv,
                    at.uv_bw,
                    at.uv_bh,
                    ss_h,
                    ss_v,
                ),
                fb.uv_stride,
                at.uv_bw,
                at.uv_bh,
            ),
        ),
        ..fb
    }
}

/// Whether the planes of a reference hold its pixels.
pub open spec fn ref_fits(r: RefFrame, ss_h: bool, ss_v: bool) -> bool {
    &&& r.width <= 65536
    &&& r.height <= 65536
    &&& luma_ref(r).wf()
    &&& chroma_ref(r, r.fb.u@, ss_h, ss_v).wf()
    &&& chroma_ref(r, r.fb.v@, ss_h, ss_v).wf()
}

/// Whether a block lies in the planes of a frame.
pub open spec fn block_fits_frame(
    fb: FbView,
    row: int,
    col: int,
    bs: BlockSize,
    ss_h: bool,
    ss_v: bool,
) -> bool {
    let at = block_place(fb, row, col, bs, ss_h, ss_v);
    &&& parts_fit(fb.y.len() as int, at.y_off, fb.y_stride, bs)
    &&& rect_at(fb.u.len() as int, at.uv_off, fb.uv_stride, at.uv_bw, at.uv_bh)
    &&& rect_at(fb.v.len() as int, at.uv_off, fb.uv_stride, at.uv_bw, at.uv_bh)
}

/// Whether the second prediction of a block can be held and averaged.
pub open spec fn second_fits(
    fb: FbView,
    row: int,
    col: int,
    bs: BlockSize,
    ss_h: bool,
    ss_v: bool,
) -> bool {
    let at = block_place(fb, row, col, bs, ss_h, ss_v);
    &&& parts_fit(fb.y_stride * at.bh, 0, fb.y_stride, bs)
    &&& rect_at(fb.y.len() as int, at.y_off, fb.y_stride, at.bw, at.bh)
}

/// Motion by whole pixels copies the pixels of the reference, those outside of it being the nearest
/// ones in it.
pub proof fn law_whole_motion_copies(
    dst: Seq<u8>,
    dst_stride: int,
    p: RefPlane,
    filters: [[i16; 8]; 16],
    row_px: int,
    col_px: int,
    mv: [i16; 2],
    bw: int,
    bh: int,
    r: int,
    c: int,
)
    requires
        0 < dst_stride,
        0 <= c < bw <= dst_stride,
        0 <= r < bh,
        r * dst_stride + c < dst.len(),
        mv@[0] as int % 8 == 0,
        mv@[1] as int % 8 == 0,
    ensures
        mc_luma_spec(dst, dst_stride, p, filters, row_px, col_px, mv, bw, bh)[r * dst_stride + c]
            == p.at(row_px + mv@[1] as int / 8 + r, col_px + mv@[0] as int / 8 + c),
{
    reveal(mc_spec);
    assert(0 <= r * dst_stride) by (nonlinear_arith)
        requires
            0 <= r,
            0 < dst_stride,
    ;
    vstd::arithmetic::div_mod::lemma_fundamental_div_mod_converse(
        r * dst_stride + c,
        dst_stride,
        r,
        c,
    );
}

} // verus!

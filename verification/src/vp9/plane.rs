//! Rectangles of pixels in a plane.
use vstd::prelude::*;

verus! {

/// Whether a rectangle of `w` by `h` pixels at the start of a plane of `len` bytes lies
/// in it, its rows `stride` bytes apart.
pub open spec fn rect_fits(len: int, stride: int, w: int, h: int) -> bool {
    0 < w <= stride && 0 < h && (h - 1) * stride + w <= len
}

/// Whether position `p` of a plane lies in the rectangle at its start.
pub open spec fn in_rect(p: int, stride: int, w: int, h: int) -> bool {
    0 <= p / stride < h && p % stride < w
}

/// The plane `dst` with the pixels `pixel(row, col)` in the rectangle at its start.
pub open spec fn painted(
    dst: Seq<u8>,
    stride: int,
    w: int,
    h: int,
    pixel: spec_fn(int, int) -> u8,
) -> Seq<u8> {
    Seq::new(
        dst.len(),
        |p: int|
            if in_rect(p, stride, w, h) {
                pixel(p / stride, p % stride)
            } else {
                dst[p]
            },
    )
}

/// The part of [`painted`] that is done before the pixel at (`y`, `x`).
pub open spec fn painted_until(
    dst: Seq<u8>,
    stride: int,
    w: int,
    y: int,
    x: int,
    pixel: spec_fn(int, int) -> u8,
) -> Seq<u8> {
    Seq::new(
        dst.len(),
        |p: int|
            if p % stride < w && (p / stride < y || (p / stride == y && p % stride < x)) {
                pixel(p / stride, p % stride)
            } else {
                dst[p]
            },
    )
}

/// The pixel at (`y`, `x`) lies in the plane.
pub proof fn lemma_in_rect(len: int, stride: int, w: int, h: int, y: int, x: int)
    requires
        rect_fits(len, stride, w, h),
        0 <= y < h,
        0 <= x < w,
    ensures
        0 <= y * stride,
        y * stride + x < len,
        (y * stride + x) / stride == y,
        (y * stride + x) % stride == x,
{
    assert(0 <= y * stride && y * stride <= (h - 1) * stride) by (nonlinear_arith)
        requires
            0 <= y <= h - 1,
            0 < stride,
    ;
    crate::vp9::idct::lemma_position(y, x, stride);
}

/// A pixel more is painted.
pub proof fn lemma_paint_step(
    dst: Seq<u8>,
    before: Seq<u8>,
    stride: int,
    w: int,
    h: int,
    y: int,
    x: int,
    pixel: spec_fn(int, int) -> u8,
)
    requires
        rect_fits(dst.len() as int, stride, w, h),
        0 <= y < h,
        0 <= x < w,
        before == painted_until(dst, stride, w, y, x, pixel),
    ensures
        0 <= y * stride,
        y * stride + x < dst.len(),
        before.update(y * stride + x, pixel(y, x)) == painted_until(
            dst,
            stride,
            w,
            y,
            x + 1,
            pixel,
        ),
{
    lemma_in_rect(dst.len() as int, stride, w, h, y, x);
    let after = before.update(y * stride + x, pixel(y, x));
    let e = painted_until(dst, stride, w, y, x + 1, pixel);
    assert forall|p: int| 0 <= p < dst.len() implies #[trigger] after[p] == e[p] by {
        if p != y * stride + x {
            if p / stride == y && p % stride == x {
                vstd::arithmetic::div_mod::lemma_fundamental_div_mod(p, stride);
                vstd::arithmetic::mul::lemma_mul_is_commutative(stride, y);
            }
        }
    }
    assert(after =~= e);
}

/// A row is done.
pub proof fn lemma_paint_row(
    dst: Seq<u8>,
    stride: int,
    w: int,
    y: int,
    pixel: spec_fn(int, int) -> u8,
)
    requires
        0 < w <= stride,
    ensures
        painted_until(dst, stride, w, y, w, pixel) == painted_until(
            dst,
            stride,
            w,
            y + 1,
            0,
            pixel,
        ),
{
    assert forall|p: int| 0 <= p implies #[trigger] (p % stride) >= 0 by {
        vstd::arithmetic::div_mod::lemma_mod_bound(p, stride);
    }
    assert(painted_until(dst, stride, w, y, w, pixel) =~= painted_until(
        dst,
        stride,
        w,
        y + 1,
        0,
        pixel,
    ));
}

/// Painting begins with nothing done, and ends with the rectangle.
pub proof fn lemma_paint_ends(
    dst: Seq<u8>,
    stride: int,
    w: int,
    h: int,
    pixel: spec_fn(int, int) -> u8,
)
    requires
        0 < w <= stride,
        0 < h,
    ensures
        painted_until(dst, stride, w, 0, 0, pixel) == dst,
        painted_until(dst, stride, w, h, 0, pixel) == painted(dst, stride, w, h, pixel),
{
    assert forall|p: int| 0 <= p implies #[trigger] (p % stride) >= 0 && p / stride >= 0 by {
        vstd::arithmetic::div_mod::lemma_mod_bound(p, stride);
        vstd::arithmetic::div_mod::lemma_div_pos_is_pos(p, stride);
    }
    assert(painted_until(dst, stride, w, 0, 0, pixel) =~= dst);
    assert(painted_until(dst, stride, w, h, 0, pixel) =~= painted(dst, stride, w, h, pixel));
}

/// Paints the rectangle at the start of a plane.
pub fn paint<F: Fn(usize, usize) -> u8>(
    dst: &mut [u8],
    stride: usize,
    w: usize,
    h: usize,
    f: F,
    Ghost(pixel): Ghost<spec_fn(int, int) -> u8>,
)
    requires
        rect_fits(old(dst)@.len() as int, stride as int, w as int, h as int),
        forall|y: usize, x: usize| y < h && x < w ==> #[trigger] f.requires((y, x)),
        forall|y: usize, x: usize, r: u8|
            y < h && x < w && #[trigger] f.ensures((y, x), r) ==> r == pixel(y as int, x as int),
    ensures
        final(dst)@ == painted(old(dst)@, stride as int, w as int, h as int, pixel),
{
    let ghost d0 = dst@;
    let len: usize = dst.len();
    proof {
        lemma_paint_ends(d0, stride as int, w as int, h as int, pixel);
    }
    let mut y: usize = 0;
    while y < h
        invariant
            y <= h,
            len == d0.len(),
            rect_fits(d0.len() as int, stride as int, w as int, h as int),
            forall|y: usize, x: usize| y < h && x < w ==> #[trigger] f.requires((y, x)),
            forall|y: usize, x: usize, r: u8|
                y < h && x < w && #[trigger] f.ensures((y, x), r) ==> r == pixel(
                    y as int,
                    x as int,
                ),
            dst@ == painted_until(d0, stride as int, w as int, y as int, 0, pixel),
        decreases h - y,
    {
        let mut x: usize = 0;
        while x < w
            invariant
                x <= w,
                y < h,
                len == d0.len(),
                rect_fits(d0.len() as int, stride as int, w as int, h as int),
                forall|y: usize, x: usize| y < h && x < w ==> #[trigger] f.requires((y, x)),
                forall|y: usize, x: usize, r: u8|
                    y < h && x < w && #[trigger] f.ensures((y, x), r) ==> r == pixel(
                        y as int,
                        x as int,
                    ),
                dst@ == painted_until(d0, stride as int, w as int, y as int, x as int, pixel),
            decreases w - x,
        {
            proof {
                lemma_paint_step(
                    d0,
                    dst@,
                    stride as int,
                    w as int,
                    h as int,
                    y as int,
                    x as int,
                    pixel,
                );
            }
            let v: u8 = f(y, x);
            dst[y * stride + x] = v;
            x += 1;
        }
        proof {
            lemma_paint_row(d0, stride as int, w as int, y as int, pixel);
        }
        y += 1;
    }
}

} // verus!

//! Intra prediction.
//!
//! A block is predicted from the pixels above it and on its left. Those on the left are
//! held from the bottom to the top, but for the mode that goes upwards from the left.
use vstd::prelude::*;

use crate::vp9::plane::paint;
use crate::vp9::types::IntraMode;

verus! {

/// The rounded mean of two pixels.
pub open spec fn f2(p: int, q: int) -> int {
    (p + q + 1) / 2
}

/// The rounded mean of three pixels, with the middle one twice.
pub open spec fn f3(p: int, q: int, r: int) -> int {
    (p + 2 * q + r + 2) / 4
}

fn mean2(p: u8, q: u8) -> (r: u8)
    ensures
        r == f2(p as int, q as int),
{
    ((p as u32 + q as u32 + 1) / 2) as u8
}

fn mean3(p: u8, q: u8, r: u8) -> (s: u8)
    ensures
        s == f3(p as int, q as int, r as int),
{
    ((p as u32 + 2 * (q as u32) + r as u32 + 2) / 4) as u8
}

/// What a block is predicted from.
pub struct Edges {
    pub above: Seq<u8>,
    pub left: Seq<u8>,
    pub top_left: u8,
    pub size: int,
}

/// The sum of the first `n` pixels.
pub open spec fn sum_to(s: Seq<u8>, n: int) -> int
    decreases n,
{
    if n <= 0 {
        0
    } else {
        sum_to(s, n - 1) + s[n - 1]
    }
}

impl Edges {
    /// The edge as one line: 0 is the corner, the pixels above come behind it and those
    /// on the left before it.
    pub open spec fn at(self, k: int) -> int {
        if k < 0 {
            self.left[self.size + k] as int
        } else if k == 0 {
            self.top_left as int
        } else {
            self.above[k - 1] as int
        }
    }

    /// The last pixel above that the modes to the left look at: only the smallest blocks
    /// look at those above their right neighbour.
    pub open spec fn last_above(self) -> int {
        if self.size == 4 {
            7
        } else {
            self.size - 1
        }
    }

    /// A pixel above, the last one repeated.
    pub open spec fn right(self, k: int) -> int {
        if k < self.last_above() {
            self.above[k] as int
        } else {
            self.above[self.last_above()] as int
        }
    }

    /// A pixel on the left, the last one repeated.
    pub open spec fn down(self, k: int) -> int {
        if k < self.size - 1 {
            self.left[k] as int
        } else {
            self.left[self.size - 1] as int
        }
    }

    /// 45 degrees down to the left.
    pub open spec fn diag_down_left(self, x: int, y: int) -> int {
        if self.size == 4 && x + y == 6 {
            self.right(7)
        } else {
            f3(self.right(x + y), self.right(x + y + 1), self.right(x + y + 2))
        }
    }

    /// 45 degrees down to the right.
    pub open spec fn diag_down_right(self, x: int, y: int) -> int {
        f3(self.at(x - y - 1), self.at(x - y), self.at(x - y + 1))
    }

    /// Steeply down to the right: a pixel for each two rows.
    pub open spec fn vert_right(self, x: int, y: int) -> int {
        let d = x - y / 2;
        if y % 2 == 0 {
            if d >= 0 {
                f2(self.at(d), self.at(d + 1))
            } else {
                f3(self.at(2 * d + 2), self.at(2 * d + 1), self.at(2 * d))
            }
        } else if d >= 0 {
            f3(self.at(d - 1), self.at(d), self.at(d + 1))
        } else {
            f3(self.at(2 * d + 1), self.at(2 * d), self.at(2 * d - 1))
        }
    }

    /// Gently down to the right: a pixel for each two columns.
    pub open spec fn hor_down(self, x: int, y: int) -> int {
        let g = x - 2 * y;
        if g >= 1 {
            f3(self.at(g - 2), self.at(g - 1), self.at(g))
        } else if g % 2 == 0 {
            f2(self.at(g / 2), self.at(g / 2 - 1))
        } else {
            f3(self.at((g - 1) / 2 + 1), self.at((g - 1) / 2), self.at((g - 1) / 2 - 1))
        }
    }

    /// Steeply down to the left: a pixel for each two rows.
    pub open spec fn vert_left(self, x: int, y: int) -> int {
        let k = x + y / 2;
        if y % 2 == 0 {
            f2(self.right(k), self.right(k + 1))
        } else {
            f3(self.right(k), self.right(k + 1), self.right(k + 2))
        }
    }

    /// Gently up to the right: a pixel for each two columns.
    pub open spec fn hor_up(self, x: int, y: int) -> int {
        let i = 2 * y + x;
        if i % 2 == 0 {
            f2(self.down(i / 2), self.down(i / 2 + 1))
        } else {
            f3(self.down(i / 2), self.down(i / 2 + 1), self.down(i / 2 + 2))
        }
    }

    /// The rounded mean of all the pixels above and on the left.
    pub open spec fn dc(self) -> int {
        (sum_to(self.above, self.size) + sum_to(self.left, self.size) + self.size) / (2
            * self.size)
    }

    /// The rounded mean of the pixels on the left.
    pub open spec fn dc_left(self) -> int {
        (sum_to(self.left, self.size) + self.size / 2) / self.size
    }

    /// The rounded mean of the pixels above.
    pub open spec fn dc_top(self) -> int {
        (sum_to(self.above, self.size) + self.size / 2) / self.size
    }
}

/// The middle of the pixel values at a bit depth.
pub open spec fn middle(bit_depth: u8) -> int {
    if bit_depth <= 8 {
        128
    } else if bit_depth == 9 {
        256
    } else if bit_depth == 10 {
        512
    } else if bit_depth == 11 {
        1024
    } else {
        2048
    }
}

/// `v` brought into the range of pixels at a bit depth, as a byte.
pub open spec fn clip_to_depth(v: int, bit_depth: u8) -> u8 {
    let m = 2 * middle(bit_depth) - 1;
    (if v < 0 {
        0
    } else if v > m {
        m % 256
    } else {
        v % 256
    }) as u8
}

/// The predicted pixel in row `y` and column `x`.
pub open spec fn pixel_spec(e: Edges, mode: IntraMode, bit_depth: u8, x: int, y: int) -> u8 {
    match mode {
        IntraMode::VertPred => e.above[x],
        IntraMode::HorPred => e.left[e.size - 1 - y],
        IntraMode::DcPred => e.dc() as u8,
        IntraMode::DiagDownLeftPred => e.diag_down_left(x, y) as u8,
        IntraMode::DiagDownRightPred => e.diag_down_right(x, y) as u8,
        IntraMode::VertRightPred => e.vert_right(x, y) as u8,
        IntraMode::HorDownPred => e.hor_down(x, y) as u8,
        IntraMode::VertLeftPred => e.vert_left(x, y) as u8,
        IntraMode::HorUpPred => e.hor_up(x, y) as u8,
        IntraMode::TmVp8Pred => clip_to_depth(
            e.above[x] + e.left[e.size - 1 - y] - e.top_left,
            bit_depth,
        ),
        IntraMode::LeftDcPred => e.dc_left() as u8,
        IntraMode::TopDcPred => e.dc_top() as u8,
        IntraMode::Dc128Pred => (middle(bit_depth) % 256) as u8,
        IntraMode::Dc127Pred => ((middle(bit_depth) - 1) % 256) as u8,
        IntraMode::Dc129Pred => ((middle(bit_depth) + 1) % 256) as u8,
    }
}

/// Whether a mode looks at pixels above.
pub open spec fn uses_above(mode: IntraMode) -> bool {
    match mode {
        IntraMode::HorPred | IntraMode::HorUpPred | IntraMode::LeftDcPred | IntraMode::Dc128Pred
        | IntraMode::Dc127Pred | IntraMode::Dc129Pred => false,
        _ => true,
    }
}

/// Whether a mode looks at pixels on the left.
pub open spec fn uses_left(mode: IntraMode) -> bool {
    match mode {
        IntraMode::VertPred | IntraMode::DiagDownLeftPred | IntraMode::VertLeftPred
        | IntraMode::TopDcPred | IntraMode::Dc128Pred | IntraMode::Dc127Pred
        | IntraMode::Dc129Pred => false,
        _ => true,
    }
}

/// How many pixels above the smallest blocks a mode looks at, those above the right neighbour among
/// them.
pub open spec fn most_above(mode: IntraMode) -> int {
    match mode {
        IntraMode::DiagDownLeftPred => 8,
        IntraMode::VertLeftPred => 7,
        _ => 4,
    }
}

/// Whether the edges that a mode looks at are there.
pub open spec fn edges_wf(above: int, left: int, mode: IntraMode, size: int) -> bool {
    &&& size == 4 || size == 8 || size == 16 || size == 32
    &&& uses_above(mode) ==> size <= above
    &&& uses_left(mode) ==> size <= left
    &&& size == 4 && uses_above(mode) ==> most_above(mode) <= above
}

fn sum(s: &[u8], n: usize) -> (r: u32)
    requires
        n <= s@.len(),
        n <= 32,
    ensures
        r == sum_to(s@, n as int),
        r <= 255 * n,
{
    let mut t: u32 = 0;
    let mut i: usize = 0;
    while i < n
        invariant
            i <= n <= s@.len(),
            n <= 32,
            t == sum_to(s@, i as int),
            t <= 255 * i,
        decreases n - i,
    {
        t = t + s[i] as u32;
        i += 1;
    }
    t
}

/// The value of a mode that predicts a single one, else zero.
fn flat_value(above: &[u8], left: &[u8], mode: IntraMode, size: usize, bit_depth: u8) -> (r: u8)
    requires
        edges_wf(above@.len() as int, left@.len() as int, mode, size as int),
        8 <= bit_depth <= 12,
    ensures
        ({
            let e = Edges { above: above@, left: left@, top_left: 0, size: size as int };
            match mode {
                IntraMode::DcPred => r == e.dc(),
                IntraMode::LeftDcPred => r == e.dc_left(),
                IntraMode::TopDcPred => r == e.dc_top(),
                IntraMode::Dc128Pred | IntraMode::Dc127Pred | IntraMode::Dc129Pred => r
                    == pixel_spec(e, mode, bit_depth, 0, 0),
                _ => true,
            }
        }),
{
    match mode {
        IntraMode::DcPred => {
            let s: u32 = sum(above, size) + sum(left, size) + size as u32;
            let d: u32 = 2 * size as u32;
            proof {
                assert(s / d <= 255) by (nonlinear_arith)
                    requires
                        s <= 255 * d + size,
                        d == 2 * size,
                        size > 0,
                ;
            }
            (s / d) as u8
        },
        IntraMode::LeftDcPred => {
            let s: u32 = sum(left, size) + (size / 2) as u32;
            proof {
                assert(s / (size as u32) <= 255) by (nonlinear_arith)
                    requires
                        s <= 255 * size + size / 2,
                        size > 0,
                        size <= 32,
                ;
            }
            (s / size as u32) as u8
        },
        IntraMode::TopDcPred => {
            let s: u32 = sum(above, size) + (size / 2) as u32;
            proof {
                assert(s / (size as u32) <= 255) by (nonlinear_arith)
                    requires
                        s <= 255 * size + size / 2,
                        size > 0,
                        size <= 32,
                ;
            }
            (s / size as u32) as u8
        },
        IntraMode::Dc128Pred => if bit_depth == 8 {
            128
        } else {
            0
        },
        IntraMode::Dc127Pred => if bit_depth == 8 {
            127
        } else {
            255
        },
        IntraMode::Dc129Pred => if bit_depth == 8 {
            129
        } else {
            1
        },
        _ => 0,
    }
}

fn line(above: &[u8], left: &[u8], top_left: u8, size: usize, k: i32) -> (r: u8)
    requires
        4 <= size <= 32,
        size <= left@.len(),
        size <= above@.len(),
        -size <= k <= size,
    ensures
        r == (Edges { above: above@, left: left@, top_left, size: size as int }).at(k as int),
{
    if k < 0 {
        left[(size as i32 + k) as usize]
    } else if k == 0 {
        top_left
    } else {
        above[(k - 1) as usize]
    }
}

fn above_right(above: &[u8], size: usize, k: usize) -> (r: u8)
    requires
        size == 4 || size == 8 || size == 16 || size == 32,
        size <= above@.len(),
        size == 4 ==> k < above@.len() && (k >= 7 ==> 8 <= above@.len()),
    ensures
        forall|left: Seq<u8>, top_left: u8|
            r == #[trigger] (Edges { above: above@, left, top_left, size: size as int }).right(
                k as int,
            ),
{
    let last: usize = if size == 4 { 7 } else { size - 1 };
    if k < last {
        above[k]
    } else {
        above[last]
    }
}

fn left_down(left: &[u8], size: usize, k: usize) -> (r: u8)
    requires
        4 <= size <= left@.len(),
    ensures
        forall|above: Seq<u8>, top_left: u8|
            r == #[trigger] (Edges { above, left: left@, top_left, size: size as int }).down(
                k as int,
            ),
{
    if k < size - 1 {
        left[k]
    } else {
        left[size - 1]
    }
}

fn tm_pixel(a: u8, l: u8, tl: u8, bit_depth: u8) -> (r: u8)
    requires
        8 <= bit_depth <= 12,
    ensures
        r == clip_to_depth(a + l - tl, bit_depth),
{
    let v: i32 = a as i32 + l as i32 - tl as i32;
    if v < 0 {
        0
    } else if bit_depth == 8 {
        if v > 255 {
            255
        } else {
            v as u8
        }
    } else if v > 255 {
        (v - 256) as u8
    } else {
        v as u8
    }
}

/// The predicted pixel in row `y` and column `x`. `flat` is the value of a mode that
/// predicts a single one.
fn pixel(
    above: &[u8],
    left: &[u8],
    top_left: u8,
    mode: IntraMode,
    size: usize,
    bit_depth: u8,
    flat: u8,
    x: usize,
    y: usize,
) -> (r: u8)
    requires
        edges_wf(above@.len() as int, left@.len() as int, mode, size as int),
        8 <= bit_depth <= 12,
        x < size,
        y < size,
        ({
            let e = Edges { above: above@, left: left@, top_left: 0, size: size as int };
            match mode {
                IntraMode::DcPred => flat == e.dc(),
                IntraMode::LeftDcPred => flat == e.dc_left(),
                IntraMode::TopDcPred => flat == e.dc_top(),
                IntraMode::Dc128Pred | IntraMode::Dc127Pred | IntraMode::Dc129Pred => flat
                    == pixel_spec(e, mode, bit_depth, 0, 0),
                _ => true,
            }
        }),
    ensures
        r == pixel_spec(
            Edges { above: above@, left: left@, top_left, size: size as int },
            mode,
            bit_depth,
            x as int,
            y as int,
        ),
{
    let ghost e = Edges { above: above@, left: left@, top_left, size: size as int };
    let xi: i32 = x as i32;
    let yi: i32 = y as i32;
    match mode {
        IntraMode::VertPred => above[x],
        IntraMode::HorPred => left[size - 1 - y],
        IntraMode::DiagDownLeftPred => {
            let k: usize = x + y;
            if size == 4 && k == 6 {
                above_right(above, size, 7)
            } else {
                mean3(
                    above_right(above, size, k),
                    above_right(above, size, k + 1),
                    above_right(above, size, k + 2),
                )
            }
        },
        IntraMode::DiagDownRightPred => {
            let d: i32 = xi - yi;
            mean3(
                line(above, left, top_left, size, d - 1),
                line(above, left, top_left, size, d),
                line(above, left, top_left, size, d + 1),
            )
        },
        IntraMode::VertRightPred => {
            let d: i32 = xi - yi / 2;
            if y % 2 == 0 {
                if d >= 0 {
                    mean2(
                        line(above, left, top_left, size, d),
                        line(above, left, top_left, size, d + 1),
                    )
                } else {
                    mean3(
                        line(above, left, top_left, size, 2 * d + 2),
                        line(above, left, top_left, size, 2 * d + 1),
                        line(above, left, top_left, size, 2 * d),
                    )
                }
            } else if d >= 0 {
                mean3(
                    line(above, left, top_left, size, d - 1),
                    line(above, left, top_left, size, d),
                    line(above, left, top_left, size, d + 1),
                )
            } else {
                mean3(
                    line(above, left, top_left, size, 2 * d + 1),
                    line(above, left, top_left, size, 2 * d),
                    line(above, left, top_left, size, 2 * d - 1),
                )
            }
        },
        IntraMode::HorDownPred => {
            let g: i32 = xi - 2 * yi;
            if g >= 1 {
                mean3(
                    line(above, left, top_left, size, g - 2),
                    line(above, left, top_left, size, g - 1),
                    line(above, left, top_left, size, g),
                )
            } else {
                let m: i32 = (-g) / 2;
                if (-g) % 2 == 0 {
                    assert(g / 2 == -m && g % 2 == 0);
                    mean2(
                        line(above, left, top_left, size, -m),
                        line(above, left, top_left, size, -m - 1),
                    )
                } else {
                    assert((g - 1) / 2 == -m - 1 && g % 2 == 1);
                    mean3(
                        line(above, left, top_left, size, -m),
                        line(above, left, top_left, size, -m - 1),
                        line(above, left, top_left, size, -m - 2),
                    )
                }
            }
        },
        IntraMode::VertLeftPred => {
            let k: usize = x + y / 2;
            if y % 2 == 0 {
                mean2(above_right(above, size, k), above_right(above, size, k + 1))
            } else {
                mean3(
                    above_right(above, size, k),
                    above_right(above, size, k + 1),
                    above_right(above, size, k + 2),
                )
            }
        },
        IntraMode::HorUpPred => {
            let i: usize = 2 * y + x;
            let k: usize = i / 2;
            if i % 2 == 0 {
                mean2(left_down(left, size, k), left_down(left, size, k + 1))
            } else {
                mean3(
                    left_down(left, size, k),
                    left_down(left, size, k + 1),
                    left_down(left, size, k + 2),
                )
            }
        },
        IntraMode::TmVp8Pred => tm_pixel(above[x], left[size - 1 - y], top_left, bit_depth),
        _ => {
            assert(e.dc() == (Edges { top_left: 0, ..e }).dc());
            flat
        },
    }
}

/// The plane `dst` with the block at its start predicted.
pub open spec fn intra_pred_spec(
    dst: Seq<u8>,
    stride: int,
    e: Edges,
    mode: IntraMode,
    bit_depth: u8,
) -> Seq<u8> {
    crate::vp9::plane::painted(
        dst,
        stride,
        e.size,
        e.size,
        |row: int, col: int| pixel_spec(e, mode, bit_depth, col, row),
    )
}

/// Predicts the block at the start of `dst`. `left` is held from the bottom to the top,
/// but for [`IntraMode::HorUpPred`].
pub fn intra_pred(
    dst: &mut [u8],
    stride: usize,
    above: &[u8],
    left: &[u8],
    top_left: u8,
    mode: IntraMode,
    size: usize,
    bit_depth: u8,
)
    requires
        crate::vp9::plane::rect_fits(
            old(dst)@.len() as int,
            stride as int,
            size as int,
            size as int,
        ),
        edges_wf(above@.len() as int, left@.len() as int, mode, size as int),
        8 <= bit_depth <= 12,
    ensures
        final(dst)@ == intra_pred_spec(
            old(dst)@,
            stride as int,
            Edges { above: above@, left: left@, top_left, size: size as int },
            mode,
            bit_depth,
        ),
{
    let ghost e = Edges { above: above@, left: left@, top_left, size: size as int };
    let ghost g = |row: int, col: int| pixel_spec(e, mode, bit_depth, col, row);
    let flat: u8 = flat_value(above, left, mode, size, bit_depth);
    let f = |y: usize, x: usize| -> (r: u8)
        requires
            y < size,
            x < size,
        ensures
            r == pixel_spec(
                (Edges { above: above@, left: left@, top_left, size: size as int }),
                mode,
                bit_depth,
                x as int,
                y as int,
            ),
        {
            pixel(above, left, top_left, mode, size, bit_depth, flat, x, y)
        };
    paint(dst, stride, size, size, f, Ghost(g));
}

/// A prediction does not depend on what was there before.
pub proof fn law_prediction_forgets(
    a: Seq<u8>,
    b: Seq<u8>,
    stride: int,
    e: Edges,
    mode: IntraMode,
    bit_depth: u8,
    p: int,
)
    requires
        a.len() == b.len(),
        0 <= p < a.len(),
        crate::vp9::plane::in_rect(p, stride, e.size, e.size),
    ensures
        intra_pred_spec(a, stride, e, mode, bit_depth)[p] == intra_pred_spec(
            b,
            stride,
            e,
            mode,
            bit_depth,
        )[p],
{
}

/// The whole edge has one value, corner included.
pub open spec fn flat_edges(e: Edges, v: u8) -> bool {
    &&& e.size == 4 || e.size == 8 || e.size == 16 || e.size == 32
    &&& e.size <= e.above.len()
    &&& 8 <= e.above.len()
    &&& e.size <= e.left.len()
    &&& e.top_left == v
    &&& forall|i: int| 0 <= i < e.above.len() ==> #[trigger] e.above[i] == v
    &&& forall|i: int| 0 <= i < e.left.len() ==> #[trigger] e.left[i] == v
}

/// Where the whole edge has one value, each mode that looks at the edge predicts it.
pub proof fn law_flat_edge_is_kept(e: Edges, v: u8, mode: IntraMode, x: int, y: int)
    requires
        flat_edges(e, v),
        uses_above(mode) || uses_left(mode),
        0 <= x < e.size,
        0 <= y < e.size,
    ensures
        pixel_spec(e, mode, 8, x, y) == v,
{
    let n = e.size;
    match mode {
        IntraMode::DcPred | IntraMode::LeftDcPred | IntraMode::TopDcPred => {
            lemma_flat_sum(e.above, v, e.size);
            lemma_flat_sum(e.left, v, e.size);
            lemma_flat_mean(v as int, n);
        },
        IntraMode::VertPred | IntraMode::HorPred | IntraMode::TmVp8Pred => {},
        IntraMode::DiagDownLeftPred | IntraMode::VertLeftPred => {
            assert forall|k: int| 0 <= k implies #[trigger] e.right(k) == v by {}
        },
        IntraMode::HorUpPred => {
            assert forall|k: int| 0 <= k implies #[trigger] e.down(k) == v by {}
        },
        _ => {
            assert forall|k: int| -n <= k <= n implies #[trigger] e.at(k) == v by {}
        },
    }
}

proof fn lemma_flat_mean(v: int, n: int)
    requires
        0 <= v,
        n > 0,
    ensures
        (v * n + v * n + n) / (2 * n) == v,
        (v * n + n / 2) / n == v,
{
    assert((v * n + v * n + n) / (2 * n) == v) by (nonlinear_arith)
        requires
            n > 0,
    ;
    assert((v * n + n / 2) / n == v) by (nonlinear_arith)
        requires
            n > 0,
    ;
}

proof fn lemma_flat_sum(s: Seq<u8>, v: u8, n: int)
    requires
        0 <= n <= s.len(),
        forall|i: int| 0 <= i < s.len() ==> #[trigger] s[i] == v,
    ensures
        sum_to(s, n) == v * n,
    decreases n,
{
    if n > 0 {
        lemma_flat_sum(s, v, n - 1);
        assert(v * n == v * (n - 1) + v) by (nonlinear_arith);
    } else {
        assert(v * n == 0) by (nonlinear_arith)
            requires
                n == 0,
        ;
    }
}

} // verus!

//! The pixels around a block that intra prediction looks at.
use vstd::prelude::*;

use crate::vp9::intra_pred::Edges;
use crate::vp9::types::IntraMode;

verus! {

/// The mode that takes the place of another one where a neighbour is missing.
pub open spec fn resolved_mode(mode: IntraMode, have_left: bool, have_top: bool) -> IntraMode {
    match mode {
        IntraMode::VertPred | IntraMode::DiagDownLeftPred | IntraMode::VertLeftPred => {
            if have_top {
                mode
            } else {
                IntraMode::Dc127Pred
            }
        },
        IntraMode::HorPred | IntraMode::HorUpPred => {
            if have_left {
                mode
            } else {
                IntraMode::Dc129Pred
            }
        },
        IntraMode::DcPred => {
            if have_left && have_top {
                IntraMode::DcPred
            } else if have_left {
                IntraMode::LeftDcPred
            } else if have_top {
                IntraMode::TopDcPred
            } else {
                IntraMode::Dc128Pred
            }
        },
        IntraMode::TmVp8Pred => {
            if have_left && have_top {
                IntraMode::TmVp8Pred
            } else if have_left {
                IntraMode::HorPred
            } else if have_top {
                IntraMode::VertPred
            } else {
                IntraMode::Dc129Pred
            }
        },
        _ => mode,
    }
}

/// The mode that takes the place of another one where a neighbour is missing.
pub fn resolve_mode(mode: IntraMode, have_left: bool, have_top: bool) -> (r: IntraMode)
    ensures
        r == resolved_mode(mode, have_left, have_top),
{
    match mode {
        IntraMode::VertPred | IntraMode::DiagDownLeftPred | IntraMode::VertLeftPred => {
            if have_top {
                mode
            } else {
                IntraMode::Dc127Pred
            }
        },
        IntraMode::HorPred | IntraMode::HorUpPred => {
            if have_left {
                mode
            } else {
                IntraMode::Dc129Pred
            }
        },
        IntraMode::DcPred => {
            if have_left && have_top {
                IntraMode::DcPred
            } else if have_left {
                IntraMode::LeftDcPred
            } else if have_top {
                IntraMode::TopDcPred
            } else {
                IntraMode::Dc128Pred
            }
        },
        IntraMode::TmVp8Pred => {
            if have_left && have_top {
                IntraMode::TmVp8Pred
            } else if have_left {
                IntraMode::HorPred
            } else if have_top {
                IntraMode::VertPred
            } else {
                IntraMode::Dc129Pred
            }
        },
        _ => mode,
    }
}

/// Where a block lies in a plane.
#[derive(Clone, Copy)]
pub struct Place {
    pub stride: usize,
    /// Position in pixels.
    pub px: usize,
    pub py: usize,
    /// Size of the plane in pixels, in whole blocks of 8x8 luma pixels.
    pub frame_w: usize,
    pub frame_h: usize,
    /// First column of the tile in pixels.
    pub tile_px: usize,
    /// Side in pixels.
    pub n: usize,
    /// Whether the block to the right belongs to the same prediction block.
    pub have_right: bool,
}

impl Place {
    /// Whether there are pixels above.
    pub open spec fn have_top(self) -> bool {
        self.py > 0
    }

    /// Whether there are pixels on the left in the tile.
    pub open spec fn have_left(self) -> bool {
        self.px > self.tile_px
    }

    /// Whether the block lies in a plane.
    pub open spec fn fits(self, len: int) -> bool {
        self.py * self.stride + self.px + (self.n - 1) * self.stride + self.n <= len
    }

    /// The pixels up to the right edge of the frame.
    pub open spec fn cols_left(self) -> int {
        if self.frame_w > self.px {
            self.frame_w - self.px
        } else {
            0
        }
    }

    /// The pixels down to the lower edge of the frame.
    pub open spec fn rows_left(self) -> int {
        if self.frame_h > self.py {
            self.frame_h - self.py
        } else {
            0
        }
    }

    /// The pixel number `i` above: 127 where there is none, the last one of the frame
    /// repeated.
    pub open spec fn top(self, plane: Seq<u8>, i: int) -> u8 {
        let at = (self.py - 1) * self.stride + self.px;
        if !self.have_top() || self.cols_left() == 0 {
            127
        } else if i < self.cols_left() {
            plane[at + i]
        } else {
            plane[at + self.cols_left() - 1]
        }
    }

    /// The pixel number `i` above the right neighbour, for the smallest blocks. Where it
    /// is not there, the last one above is repeated.
    pub open spec fn top_right(self, plane: Seq<u8>, i: int) -> u8 {
        if self.n == 4 && self.have_top() && self.have_right && 8 <= self.cols_left() {
            plane[(self.py - 1) * self.stride + self.px + i]
        } else {
            self.top(plane, self.n - 1)
        }
    }

    /// The pixel on the left in row `i`: 129 where there is none, the last one of the
    /// frame repeated.
    pub open spec fn side(self, plane: Seq<u8>, i: int) -> u8 {
        let last = if i < self.rows_left() {
            i
        } else {
            self.rows_left() - 1
        };
        if !self.have_left() || self.rows_left() == 0 {
            129
        } else {
            plane[(self.py + last) * self.stride + self.px - 1]
        }
    }

    /// The pixel in the corner.
    pub open spec fn corner(self, plane: Seq<u8>) -> u8 {
        if self.have_top() && self.have_left() {
            plane[(self.py - 1) * self.stride + self.px - 1]
        } else if self.have_top() {
            129
        } else {
            127
        }
    }

    /// What the block is predicted from.
    pub open spec fn edges(self, plane: Seq<u8>, mode: IntraMode) -> Edges {
        Edges {
            above: Seq::new(
                (self.n + 4) as nat,
                |i: int|
                    if i < self.n {
                        self.top(plane, i)
                    } else {
                        self.top_right(plane, i)
                    },
            ),
            left: Seq::new(
                self.n as nat,
                |i: int|
                    self.side(
                        plane,
                        if mode == IntraMode::HorUpPred {
                            i
                        } else {
                            self.n - 1 - i
                        },
                    ),
            ),
            top_left: self.corner(plane),
            size: self.n as int,
        }
    }

    /// Whether the place can be computed with.
    pub open spec fn wf(self) -> bool {
        &&& 64 <= self.stride
        &&& self.n == 4 || self.n == 8 || self.n == 16 || self.n == 32
    }
}

/// The rows of a place lie in the plane.
proof fn lemma_rows(p: Place, len: int, i: int)
    requires
        p.wf(),
        p.fits(len),
        0 <= i < p.n,
    ensures
        0 <= (p.py + i) * p.stride,
        (p.py + i) * p.stride + p.px + p.n <= len,
        p.py > 0 ==> 0 <= (p.py - 1) * p.stride && (p.py - 1) * p.stride + p.px + 64 <= len,
        p.py * p.stride + p.px <= len,
        0 <= p.py * p.stride,
{
    assert((p.py + i) * p.stride == p.py * p.stride + i * p.stride) by (nonlinear_arith);
    assert(i * p.stride <= (p.n - 1) * p.stride) by (nonlinear_arith)
        requires
            0 <= i <= p.n - 1,
            0 <= p.stride,
    ;
    assert(0 <= i * p.stride && 0 <= p.py * p.stride && 0 <= (p.n - 1) * p.stride)
        by (nonlinear_arith)
        requires
            0 <= i,
            0 <= p.py,
            0 <= p.n - 1,
            0 <= p.stride,
    ;
    if p.py > 0 {
        assert((p.py - 1) * p.stride == p.py * p.stride - p.stride) by (nonlinear_arith);
        assert(0 <= (p.py - 1) * p.stride) by (nonlinear_arith)
            requires
                0 <= p.py - 1,
                0 <= p.stride,
        ;
    }
}

fn top_pixel(p: Place, plane: &[u8], i: usize) -> (r: u8)
    requires
        p.wf(),
        p.fits(plane@.len() as int),
        i < p.n + 4,
    ensures
        r == p.top(plane@, i as int),
{
    proof {
        lemma_rows(p, plane@.len() as int, 0);
        assert(plane.len() == plane@.len());
    }
    if p.py == 0 || p.frame_w <= p.px {
        127
    } else {
        let have: usize = p.frame_w - p.px;
        let k: usize = if i < have { i } else { have - 1 };
        plane[(p.py - 1) * p.stride + p.px + k]
    }
}

fn side_pixel(p: Place, plane: &[u8], i: usize) -> (r: u8)
    requires
        p.wf(),
        p.fits(plane@.len() as int),
        i < p.n,
    ensures
        r == p.side(plane@, i as int),
{
    if p.px <= p.tile_px || p.frame_h <= p.py {
        129
    } else {
        let have: usize = p.frame_h - p.py;
        let k: usize = if i < have { i } else { have - 1 };
        proof {
            lemma_rows(p, plane@.len() as int, k as int);
            assert(plane.len() == plane@.len());
            assert(p.py <= (p.py + k) * p.stride) by (nonlinear_arith)
                requires
                    64 <= p.stride,
                    0 <= p.py,
                    0 <= k,
            ;
            assert(p.py + k <= (p.py + k) * p.stride) by (nonlinear_arith)
                requires
                    64 <= p.stride,
                    0 <= p.py,
                    0 <= k,
            ;
        }
        plane[(p.py + k) * p.stride + p.px - 1]
    }
}

/// The mode that is used, and the pixels above, on the left and in the corner.
pub fn prepare_intra_edges(p: Place, plane: &[u8], mode: IntraMode) -> (r: (
    IntraMode,
    Vec<u8>,
    Vec<u8>,
    u8,
))
    requires
        p.wf(),
        p.fits(plane@.len() as int),
    ensures
        r.0 == resolved_mode(mode, p.have_left(), p.have_top()),
        (Edges { above: r.1@, left: r.2@, top_left: r.3, size: p.n as int }) == p.edges(
            plane@,
            r.0,
        ),
{
    let have_top = p.py > 0;
    let have_left = p.px > p.tile_px;
    let mode: IntraMode = resolve_mode(mode, have_left, have_top);
    let ghost e = p.edges(plane@, mode);
    let mut above: Vec<u8> = Vec::new();
    let mut i: usize = 0;
    while i < p.n
        invariant
            i <= p.n,
            p.wf(),
            p.fits(plane@.len() as int),
            e == p.edges(plane@, mode),
            above@.len() == i,
            forall|k: int| 0 <= k < i ==> #[trigger] above@[k] == e.above[k],
        decreases p.n - i,
    {
        above.push(top_pixel(p, plane, i));
        i += 1;
    }
    let right = p.n == 4 && have_top && p.have_right && p.frame_w >= p.px && p.frame_w - p.px >= 8;
    proof {
        lemma_rows(p, plane@.len() as int, 0);
        assert(plane.len() == plane@.len());
    }
    let last: u8 = top_pixel(p, plane, p.n - 1);
    while i < p.n + 4
        invariant
            p.n <= i <= p.n + 4,
            p.wf(),
            p.fits(plane@.len() as int),
            p.py > 0 ==> 0 <= (p.py - 1) * p.stride && (p.py - 1) * p.stride + p.px + 64
                <= plane@.len(),
            plane.len() == plane@.len(),
            right == (p.n == 4 && p.have_top() && p.have_right && 8 <= p.cols_left()),
            last == p.top(plane@, p.n - 1),
            e == p.edges(plane@, mode),
            above@.len() == i,
            forall|k: int| 0 <= k < i ==> #[trigger] above@[k] == e.above[k],
        decreases p.n + 4 - i,
    {
        if right {
            above.push(plane[(p.py - 1) * p.stride + p.px + i]);
        } else {
            above.push(last);
        }
        i += 1;
    }
    let mut left: Vec<u8> = Vec::new();
    let mut j: usize = 0;
    while j < p.n
        invariant
            j <= p.n,
            p.wf(),
            p.fits(plane@.len() as int),
            e == p.edges(plane@, mode),
            left@.len() == j,
            forall|k: int| 0 <= k < j ==> #[trigger] left@[k] == e.left[k],
        decreases p.n - j,
    {
        let row: usize = if mode == IntraMode::HorUpPred { j } else { p.n - 1 - j };
        left.push(side_pixel(p, plane, row));
        j += 1;
    }
    let corner: u8 = if have_top && have_left {
        plane[(p.py - 1) * p.stride + p.px - 1]
    } else if have_top {
        129
    } else {
        127
    };
    assert(above@ =~= e.above);
    assert(left@ =~= e.left);
    (mode, above, left, corner)
}

} // verus!

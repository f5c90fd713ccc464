//! Blocks go on from what is around them in their plane.
use vstd::prelude::*;

use crate::vp9::edges::resolved_mode;
use crate::vp9::idct::{col_adst_spec, row_adst_spec};
use crate::vp9::intra_laws::{
    law_gentle_upwards, law_gradient_continues_the_edge, law_modes_without_edge_give_the_middle,
    law_straight_modes_repeat_the_edge, Predicted,
};
use crate::vp9::recon::{tail, JobView};
use crate::vp9::types::IntraMode;

verus! {

/// The pixel in a row and a column of a plane.
pub open spec fn pixel_at(plane: Seq<u8>, stride: int, row: int, col: int) -> int {
    plane[row * stride + col] as int
}

impl JobView {
    /// Whether the transform block at (`x`, `y`) lies in the plane and in the frame.
    pub open spec fn inside(self, len: int, x: int, y: int) -> bool {
        let p = self.place(x, y);
        &&& self.wf()
        &&& 0 <= x <= 16
        &&& 0 <= y <= 16
        &&& p.fits(len)
        &&& p.px + p.n <= p.frame_w
        &&& p.py + p.n <= p.frame_h
    }

    /// The pixel of the prediction of the transform block at (`x`, `y`), counted from its corner.
    pub open spec fn predicted_pixel(self, buf: Seq<u8>, x: int, y: int, row: int, col: int) -> int {
        let p = self.place(x, y);
        pixel_at(self.predicted(buf, x, y), self.stride as int, p.py + row, p.px + col)
    }

    /// The prediction of the block on its own.
    spec fn alone(self, buf: Seq<u8>, x: int, y: int) -> Predicted {
        let p = self.place(x, y);
        let m = resolved_mode(self.mode(x, y), p.have_left(), p.have_top());
        Predicted {
            dst: tail(buf, p.py * p.stride + p.px),
            stride: self.stride as int,
            edges: p.edges(buf, m),
            bit_depth: self.bit_depth,
        }
    }

    proof fn lemma_alone(self, buf: Seq<u8>, x: int, y: int, row: int, col: int)
        requires
            self.inside(buf.len() as int, x, y),
            0 <= row < self.n,
            0 <= col < self.n,
        ensures
            ({
                let p = self.place(x, y);
                let m = resolved_mode(self.mode(x, y), p.have_left(), p.have_top());
                &&& self.alone(buf, x, y).wf(m)
                &&& self.predicted_pixel(buf, x, y, row, col) == self.alone(buf, x, y).at(m, row, col)
                &&& p.n == 4 || p.n == 8 || p.n == 16 || p.n == 32
                &&& p.px == (self.col + x) * 4
                &&& p.py == (self.row + y) * 4
            }),
    {
        reveal(JobView::predicted);
        let p = self.place(x, y);
        let off = p.py * p.stride + p.px;
        let m = resolved_mode(self.mode(x, y), p.have_left(), p.have_top());
        let b = self.alone(buf, x, y);
        assert(p.n == 4 || p.n == 8 || p.n == 16 || p.n == 32);
        assert(0 <= p.py * p.stride) by (nonlinear_arith);
        assert(off + (p.n - 1) * p.stride + p.n <= buf.len());
        assert((p.n - 1) * p.stride >= 0) by (nonlinear_arith)
            requires
                p.n >= 4,
        ;
        assert(b.wf(m));
        assert((p.py + row) * p.stride + (p.px + col) == off + (row * p.stride + col))
            by (nonlinear_arith)
            requires
                off == p.py * p.stride + p.px,
        ;
        assert(0 <= row * p.stride <= (p.n - 1) * p.stride) by (nonlinear_arith)
            requires
                0 <= row <= p.n - 1,
                0 <= p.stride,
        ;
        assert(crate::vp9::intra_pred::intra_pred_spec(
            tail(buf, off),
            self.stride as int,
            p.edges(buf, m),
            m,
            self.bit_depth,
        ).len() == tail(buf, off).len());
    }
}

/// Where there are pixels above and on the left, the upright mode repeats the row above the block, the
/// level one the column on its left, and the one that goes up repeats the lowest of these in its last
/// row.
pub proof fn law_block_continues_the_plane(
    j: JobView,
    buf: Seq<u8>,
    x: int,
    y: int,
    row: int,
    col: int,
)
    requires
        j.inside(buf.len() as int, x, y),
        j.place(x, y).have_top(),
        j.place(x, y).have_left(),
        0 <= row < j.n,
        0 <= col < j.n,
    ensures
        ({
            let p = j.place(x, y);
            let s = j.stride as int;
            let v = j.predicted_pixel(buf, x, y, row, col);
            &&& j.mode(x, y) == IntraMode::VertPred ==> v == pixel_at(buf, s, p.py - 1, p.px + col)
            &&& j.mode(x, y) == IntraMode::HorPred ==> v == pixel_at(buf, s, p.py + row, p.px - 1)
            &&& j.mode(x, y) == IntraMode::HorUpPred && row == j.n - 1 ==> v == pixel_at(
                buf,
                s,
                p.py + row,
                p.px - 1,
            )
        }),
{
    let p = j.place(x, y);
    let b = j.alone(buf, x, y);
    j.lemma_alone(buf, x, y, row, col);
    law_straight_modes_repeat_the_edge(b, row, col);
    if j.mode(x, y) == IntraMode::HorUpPred {
        law_gentle_upwards(b, row, col);
    }
    assert((p.py - 1) * p.stride + p.px + col == (p.py - 1) * p.stride + (p.px + col));
}

/// Where there are pixels above and on the left, the mode that continues both adds to the pixel on the
/// left what the row above has gained since the corner.
pub proof fn law_block_continues_the_gradient(
    j: JobView,
    buf: Seq<u8>,
    x: int,
    y: int,
    row: int,
    col: int,
)
    requires
        j.inside(buf.len() as int, x, y),
        j.place(x, y).have_top(),
        j.place(x, y).have_left(),
        j.mode(x, y) == IntraMode::TmVp8Pred,
        j.bit_depth == 8,
        0 <= row < j.n,
        0 <= col < j.n,
    ensures
        ({
            let p = j.place(x, y);
            let s = j.stride as int;
            let v = pixel_at(buf, s, p.py + row, p.px - 1) + pixel_at(buf, s, p.py - 1, p.px + col)
                - pixel_at(buf, s, p.py - 1, p.px - 1);
            0 <= v <= 255 ==> j.predicted_pixel(buf, x, y, row, col) == v
        }),
{
    let p = j.place(x, y);
    let b = j.alone(buf, x, y);
    j.lemma_alone(buf, x, y, row, col);
    law_gradient_continues_the_edge(b, row, col);
    assert((p.py - 1) * p.stride + p.px + col == (p.py - 1) * p.stride + (p.px + col));
}

/// At the border of the frame or of a tile: without pixels above, the upright mode is a little darker
/// than the middle; without pixels on the left, the level one is a little lighter; the mean of nothing is
/// the middle, and the mode that continues both does with the side that is there what the straight one
/// does.
pub proof fn law_block_at_a_border(j: JobView, buf: Seq<u8>, x: int, y: int, row: int, col: int)
    requires
        j.inside(buf.len() as int, x, y),
        j.bit_depth == 8,
        0 <= row < j.n,
        0 <= col < j.n,
    ensures
        ({
            let p = j.place(x, y);
            let s = j.stride as int;
            let v = j.predicted_pixel(buf, x, y, row, col);
            let m = j.mode(x, y);
            &&& m == IntraMode::VertPred && !p.have_top() ==> v == 127
            &&& m == IntraMode::HorPred && !p.have_left() ==> v == 129
            &&& m == IntraMode::DcPred && !p.have_top() && !p.have_left() ==> v == 128
            &&& m == IntraMode::TmVp8Pred && !p.have_top() && !p.have_left() ==> v == 129
            &&& m == IntraMode::TmVp8Pred && p.have_top() && !p.have_left() ==> v == pixel_at(
                buf,
                s,
                p.py - 1,
                p.px + col,
            )
            &&& m == IntraMode::TmVp8Pred && !p.have_top() && p.have_left() ==> v == pixel_at(
                buf,
                s,
                p.py + row,
                p.px - 1,
            )
        }),
{
    let p = j.place(x, y);
    let b = j.alone(buf, x, y);
    j.lemma_alone(buf, x, y, row, col);
    law_straight_modes_repeat_the_edge(b, row, col);
    if b.wf(IntraMode::Dc128Pred) {
        law_modes_without_edge_give_the_middle(b, row, col);
    }
    assert((p.py - 1) * p.stride + p.px + col == (p.py - 1) * p.stride + (p.px + col));
}

/// The sine transform goes away from the side that a mode continues: downwards from the row above,
/// across from the column on the left.
pub proof fn law_sine_transform_goes_away_from_the_edge(j: JobView, x: int, y: int)
    requires
        j.intra,
        !j.chroma,
        j.mode(x, y).code_spec() <= 9,
    ensures
        ({
            let m = j.mode(x, y);
            &&& row_adst_spec(j.tx_type(x, y)) <==> m == IntraMode::VertPred || m
                == IntraMode::DiagDownRightPred || m == IntraMode::VertRightPred || m
                == IntraMode::VertLeftPred || m == IntraMode::TmVp8Pred
            &&& col_adst_spec(j.tx_type(x, y)) <==> m == IntraMode::HorPred || m
                == IntraMode::DiagDownRightPred || m == IntraMode::HorDownPred || m
                == IntraMode::HorUpPred || m == IntraMode::TmVp8Pred
        }),
{
}

/// A block in quarters has a mode for each, row by row.
pub proof fn law_quarters_have_their_modes(j: JobView, x: int, y: int)
    requires
        0 <= x < 2,
        0 <= y < 2,
    ensures
        j.quarters && y == 0 ==> j.mode(x, y) == j.modes[x],
        j.quarters && y == 1 ==> j.mode(x, y) == j.modes[2 + x],
        !j.quarters ==> j.mode(x, y) == j.mode(0, 0),
{
}

} // verus!

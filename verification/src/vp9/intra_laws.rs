//! What the modes of intra prediction mean.
use vstd::prelude::*;

use crate::vp9::intra_pred::{edges_wf, intra_pred_spec, sum_to, Edges};
use crate::vp9::plane::rect_fits;
use crate::vp9::types::IntraMode;

verus! {

/// A block that is predicted.
pub struct Predicted {
    /// The plane from the block on, before the prediction.
    pub dst: Seq<u8>,
    pub stride: int,
    pub edges: Edges,
    pub bit_depth: u8,
}

impl Predicted {
    /// Whether a mode can predict the block.
    pub open spec fn wf(self, mode: IntraMode) -> bool {
        &&& rect_fits(self.dst.len() as int, self.stride, self.edges.size, self.edges.size)
        &&& edges_wf(
            self.edges.above.len() as int,
            self.edges.left.len() as int,
            mode,
            self.edges.size,
        )
    }

    /// The pixel in a row and a column behind the prediction.
    pub open spec fn at(self, mode: IntraMode, row: int, col: int) -> int {
        intra_pred_spec(self.dst, self.stride, self.edges, mode, self.bit_depth)[row * self.stride
            + col] as int
    }

    /// The pixel above a column.
    pub open spec fn above(self, col: int) -> int {
        self.edges.above[col] as int
    }

    /// The pixel on the left of a row, for the modes that hold these from the bottom to the top.
    pub open spec fn left(self, row: int) -> int {
        self.edges.left[self.edges.size - 1 - row] as int
    }

    /// The pixel on the left of a row, for the mode that holds these from the top to the bottom.
    pub open spec fn left_down(self, row: int) -> int {
        self.edges.left[row] as int
    }

    /// The pixel above and on the left.
    pub open spec fn corner(self) -> int {
        self.edges.top_left as int
    }

    /// The pixel of the prediction is that of the mode.
    proof fn lemma_at(self, mode: IntraMode, row: int, col: int)
        requires
            self.wf(mode),
            0 <= row < self.edges.size,
            0 <= col < self.edges.size,
        ensures
            self.at(mode, row, col) == crate::vp9::intra_pred::pixel_spec(
                self.edges,
                mode,
                self.bit_depth,
                col,
                row,
            ) as int,
    {
        crate::vp9::plane::lemma_in_rect(
            self.dst.len() as int,
            self.stride,
            self.edges.size,
            self.edges.size,
            row,
            col,
        );
    }
}

/// The sum of pixels.
pub open spec fn total(s: Seq<u8>) -> int
    decreases s.len(),
{
    if s.len() == 0 {
        0
    } else {
        s.first() + total(s.drop_first())
    }
}

proof fn lemma_total(s: Seq<u8>, n: int)
    requires
        0 <= n <= s.len(),
    ensures
        total(s.take(n)) == sum_to(s, n),
        0 <= sum_to(s, n) <= 255 * n,
    decreases n,
{
    if n > 0 {
        lemma_total(s, n - 1);
        lemma_total_push(s.take(n - 1), s[n - 1]);
        assert(s.take(n - 1).push(s[n - 1]) =~= s.take(n));
    } else {
        assert(s.take(0).len() == 0);
    }
}

proof fn lemma_total_push(s: Seq<u8>, v: u8)
    ensures
        total(s.push(v)) == total(s) + v,
    decreases s.len(),
{
    if s.len() > 0 {
        lemma_total_push(s.drop_first(), v);
        assert(s.push(v).drop_first() =~= s.drop_first().push(v));
    } else {
        assert(s.push(v).drop_first() =~= s);
    }
}

/// The vertical mode repeats the pixels above downwards, and the horizontal one those on the left to the
/// right.
pub proof fn law_straight_modes_repeat_the_edge(b: Predicted, row: int, col: int)
    requires
        0 <= row < b.edges.size,
        0 <= col < b.edges.size,
    ensures
        b.wf(IntraMode::VertPred) ==> b.at(IntraMode::VertPred, row, col) == b.above(col),
        b.wf(IntraMode::HorPred) ==> b.at(IntraMode::HorPred, row, col) == b.left(row),
{
    if b.wf(IntraMode::VertPred) {
        b.lemma_at(IntraMode::VertPred, row, col);
    }
    if b.wf(IntraMode::HorPred) {
        b.lemma_at(IntraMode::HorPred, row, col);
    }
}

/// The gradient mode continues the edge as a plane: a pixel is as much above the one on the left as the
/// one above is above the corner, within the range of pixels of 8 bits.
pub proof fn law_gradient_continues_the_edge(b: Predicted, row: int, col: int)
    requires
        b.wf(IntraMode::TmVp8Pred),
        b.bit_depth == 8,
        0 <= row < b.edges.size,
        0 <= col < b.edges.size,
    ensures
        ({
            let v = b.left(row) + b.above(col) - b.corner();
            let p = b.at(IntraMode::TmVp8Pred, row, col);
            &&& 0 <= v <= 255 ==> p == v
            &&& v < 0 ==> p == 0
            &&& v > 255 ==> p == 255
        }),
{
    b.lemma_at(IntraMode::TmVp8Pred, row, col);
}

/// The mean modes give every pixel the rounded mean of the edge, or of the part of it that they look at.
pub proof fn law_mean_modes_give_the_mean(b: Predicted, row: int, col: int)
    requires
        0 <= row < b.edges.size,
        0 <= col < b.edges.size,
    ensures
        ({
            let n = b.edges.size;
            let a = total(b.edges.above.take(n));
            let l = total(b.edges.left.take(n));
            &&& b.wf(IntraMode::DcPred) ==> is_mean(b.at(IntraMode::DcPred, row, col), a + l, 2 * n)
            &&& b.wf(IntraMode::TopDcPred) ==> is_mean(b.at(IntraMode::TopDcPred, row, col), a, n)
            &&& b.wf(IntraMode::LeftDcPred) ==> is_mean(b.at(IntraMode::LeftDcPred, row, col), l, n)
        }),
{
    let n = b.edges.size;
    if b.wf(IntraMode::DcPred) {
        b.lemma_at(IntraMode::DcPred, row, col);
        lemma_total(b.edges.above, n);
        lemma_total(b.edges.left, n);
        lemma_mean(sum_to(b.edges.above, n) + sum_to(b.edges.left, n), 2 * n);
    }
    if b.wf(IntraMode::TopDcPred) {
        b.lemma_at(IntraMode::TopDcPred, row, col);
        lemma_total(b.edges.above, n);
        lemma_mean(sum_to(b.edges.above, n), n);
    }
    if b.wf(IntraMode::LeftDcPred) {
        b.lemma_at(IntraMode::LeftDcPred, row, col);
        lemma_total(b.edges.left, n);
        lemma_mean(sum_to(b.edges.left, n), n);
    }
}

/// Whether `v` is the mean of `n` values of a given sum, rounded, halves up.
pub open spec fn is_mean(v: int, sum: int, n: int) -> bool {
    2 * n * v - n <= 2 * sum < 2 * n * v + n
}

proof fn lemma_mean(sum: int, n: int)
    requires
        n == 4 || n == 8 || n == 16 || n == 32 || n == 64,
        0 <= sum <= 255 * n,
    ensures
        is_mean((sum + n / 2) / n, sum, n),
        0 <= (sum + n / 2) / n <= 255,
{
    let v = (sum + n / 2) / n;
    assert(n * v <= sum + n / 2 < n * v + n) by {
        vstd::arithmetic::div_mod::lemma_fundamental_div_mod(sum + n / 2, n);
        vstd::arithmetic::div_mod::lemma_mod_bound(sum + n / 2, n);
    }
    assert(2 * n * v == 2 * (n * v)) by (nonlinear_arith);
}

/// The modes without an edge give every pixel the middle of the range of 8 bits, or one beside it.
pub proof fn law_modes_without_edge_give_the_middle(b: Predicted, row: int, col: int)
    requires
        b.wf(IntraMode::Dc128Pred),
        b.bit_depth == 8,
        0 <= row < b.edges.size,
        0 <= col < b.edges.size,
    ensures
        b.at(IntraMode::Dc128Pred, row, col) == 128,
        b.at(IntraMode::Dc127Pred, row, col) == 127,
        b.at(IntraMode::Dc129Pred, row, col) == 129,
{
    b.lemma_at(IntraMode::Dc128Pred, row, col);
    b.lemma_at(IntraMode::Dc127Pred, row, col);
    b.lemma_at(IntraMode::Dc129Pred, row, col);
}

/// The diagonal mode to the lower right: each pixel is that above and on its left; the top row goes on
/// from the pixels above, the first column from those on the left, and the first pixel from both sides
/// of the corner.
pub proof fn law_diagonal_to_the_right(b: Predicted, row: int, col: int)
    requires
        b.wf(IntraMode::DiagDownRightPred),
        0 <= row < b.edges.size,
        0 <= col < b.edges.size,
    ensures
        ({
            let m = IntraMode::DiagDownRightPred;
            let p = b.at(m, row, col);
            &&& row >= 1 && col >= 1 ==> p == b.at(m, row - 1, col - 1)
            &&& row == 0 && col >= 2 ==> p == (b.above(col - 2) + 2 * b.above(col - 1) + b.above(col)
                + 2) / 4
            &&& row == 0 && col == 1 ==> p == (b.corner() + 2 * b.above(0) + b.above(1) + 2) / 4
            &&& row == 0 && col == 0 ==> p == (b.left(0) + 2 * b.corner() + b.above(0) + 2) / 4
            &&& row == 1 && col == 0 ==> p == (b.corner() + 2 * b.left(0) + b.left(1) + 2) / 4
            &&& row >= 2 && col == 0 ==> p == (b.left(row - 2) + 2 * b.left(row - 1) + b.left(row)
                + 2) / 4
        }),
{
    let m = IntraMode::DiagDownRightPred;
    b.lemma_at(m, row, col);
    if row >= 1 && col >= 1 {
        b.lemma_at(m, row - 1, col - 1);
    }
}

/// The diagonal mode to the lower left: each pixel is that above and on its right; the top row takes the
/// mean of three pixels above, and the last pixels above are repeated. The smallest blocks look at the
/// pixels above their right neighbour too.
pub proof fn law_diagonal_to_the_left(b: Predicted, row: int, col: int)
    requires
        b.wf(IntraMode::DiagDownLeftPred),
        0 <= row < b.edges.size,
        0 <= col < b.edges.size,
    ensures
        ({
            let m = IntraMode::DiagDownLeftPred;
            let n = b.edges.size;
            let p = b.at(m, row, col);
            &&& row >= 1 && col + 1 < n ==> p == b.at(m, row - 1, col + 1)
            &&& row == 0 && (n == 4 || col + 2 < n) ==> p == (b.above(col) + 2 * b.above(col + 1)
                + b.above(col + 2) + 2) / 4
            &&& n == 4 && col == 3 && 1 <= row <= 2 ==> p == (b.above(row + 3) + 2 * b.above(row + 4)
                + b.above(row + 5) + 2) / 4
            &&& n == 4 && col == 3 && row == 3 ==> p == b.above(7)
            &&& n > 4 && row == 0 && col == n - 2 ==> p == (b.above(n - 2) + 3 * b.above(n - 1) + 2)
                / 4
            &&& n > 4 && col == n - 1 ==> p == b.above(n - 1)
        }),
{
    let m = IntraMode::DiagDownLeftPred;
    b.lemma_at(m, row, col);
    if row >= 1 && col + 1 < b.edges.size {
        b.lemma_at(m, row - 1, col + 1);
    }
}

/// The steep mode to the lower right: a pixel is that two rows above and one column to the left. The two
/// top rows take means of two and of three pixels above, and the first column goes on from the left.
pub proof fn law_steep_to_the_right(b: Predicted, row: int, col: int)
    requires
        b.wf(IntraMode::VertRightPred),
        0 <= row < b.edges.size,
        0 <= col < b.edges.size,
    ensures
        ({
            let m = IntraMode::VertRightPred;
            let p = b.at(m, row, col);
            &&& row >= 2 && col >= 1 ==> p == b.at(m, row - 2, col - 1)
            &&& row == 0 && col >= 1 ==> p == (b.above(col - 1) + b.above(col) + 1) / 2
            &&& row == 0 && col == 0 ==> p == (b.corner() + b.above(0) + 1) / 2
            &&& row == 1 && col >= 2 ==> p == (b.above(col - 2) + 2 * b.above(col - 1) + b.above(col)
                + 2) / 4
            &&& row == 1 && col == 1 ==> p == (b.corner() + 2 * b.above(0) + b.above(1) + 2) / 4
            &&& row == 1 && col == 0 ==> p == (b.left(0) + 2 * b.corner() + b.above(0) + 2) / 4
            &&& row == 2 && col == 0 ==> p == (b.corner() + 2 * b.left(0) + b.left(1) + 2) / 4
            &&& row >= 3 && col == 0 ==> p == (b.left(row - 3) + 2 * b.left(row - 2) + b.left(
                row - 1,
            ) + 2) / 4
        }),
{
    let m = IntraMode::VertRightPred;
    b.lemma_at(m, row, col);
    if row >= 2 && col >= 1 {
        b.lemma_at(m, row - 2, col - 1);
        assert(col - 1 - (row - 2) / 2 == col - row / 2);
        assert((row - 2) % 2 == row % 2);
    }
}

/// The gentle mode to the lower right: a pixel is that one row above and two columns to the left. The
/// two first columns take means of two and of three pixels on the left, and the top row goes on from
/// above.
pub proof fn law_gentle_to_the_right(b: Predicted, row: int, col: int)
    requires
        b.wf(IntraMode::HorDownPred),
        0 <= row < b.edges.size,
        0 <= col < b.edges.size,
    ensures
        ({
            let m = IntraMode::HorDownPred;
            let p = b.at(m, row, col);
            &&& row >= 1 && col >= 2 ==> p == b.at(m, row - 1, col - 2)
            &&& col == 0 && row >= 1 ==> p == (b.left(row - 1) + b.left(row) + 1) / 2
            &&& col == 0 && row == 0 ==> p == (b.corner() + b.left(0) + 1) / 2
            &&& col == 1 && row >= 2 ==> p == (b.left(row - 2) + 2 * b.left(row - 1) + b.left(row)
                + 2) / 4
            &&& col == 1 && row == 1 ==> p == (b.corner() + 2 * b.left(0) + b.left(1) + 2) / 4
            &&& col == 1 && row == 0 ==> p == (b.above(0) + 2 * b.corner() + b.left(0) + 2) / 4
            &&& col == 2 && row == 0 ==> p == (b.corner() + 2 * b.above(0) + b.above(1) + 2) / 4
            &&& col >= 3 && row == 0 ==> p == (b.above(col - 3) + 2 * b.above(col - 2) + b.above(
                col - 1,
            ) + 2) / 4
        }),
{
    let m = IntraMode::HorDownPred;
    b.lemma_at(m, row, col);
    if row >= 1 && col >= 2 {
        b.lemma_at(m, row - 1, col - 2);
    }
}

/// The steep mode to the lower left: a pixel is that two rows above and one column to the right. The two
/// top rows take means of two and of three pixels above, the last pixels above being repeated. The
/// smallest blocks look at the pixels above their right neighbour too.
pub proof fn law_steep_to_the_left(b: Predicted, row: int, col: int)
    requires
        b.wf(IntraMode::VertLeftPred),
        0 <= row < b.edges.size,
        0 <= col < b.edges.size,
    ensures
        ({
            let m = IntraMode::VertLeftPred;
            let n = b.edges.size;
            let p = b.at(m, row, col);
            &&& row >= 2 && col + 1 < n ==> p == b.at(m, row - 2, col + 1)
            &&& row == 0 && (n == 4 || col + 1 < n) ==> p == (b.above(col) + b.above(col + 1) + 1) / 2
            &&& row == 1 && (n == 4 || col + 2 < n) ==> p == (b.above(col) + 2 * b.above(col + 1)
                + b.above(col + 2) + 2) / 4
            &&& n == 4 && col == 3 && row == 2 ==> p == (b.above(4) + b.above(5) + 1) / 2
            &&& n == 4 && col == 3 && row == 3 ==> p == (b.above(4) + 2 * b.above(5) + b.above(6) + 2)
                / 4
            &&& n > 4 && row == 1 && col == n - 2 ==> p == (b.above(n - 2) + 3 * b.above(n - 1) + 2)
                / 4
            &&& n > 4 && col == n - 1 ==> p == b.above(n - 1)
        }),
{
    let m = IntraMode::VertLeftPred;
    b.lemma_at(m, row, col);
    if row >= 2 && col + 1 < b.edges.size {
        b.lemma_at(m, row - 2, col + 1);
        assert(col + 1 + (row - 2) / 2 == col + row / 2);
        assert((row - 2) % 2 == row % 2);
    }
}

/// The mode that goes gently up to the right: a pixel is that one row below and two columns to the left.
/// The two first columns take means of two and of three pixels on the left, the last of these being
/// repeated.
pub proof fn law_gentle_upwards(b: Predicted, row: int, col: int)
    requires
        b.wf(IntraMode::HorUpPred),
        0 <= row < b.edges.size,
        0 <= col < b.edges.size,
    ensures
        ({
            let m = IntraMode::HorUpPred;
            let n = b.edges.size;
            let p = b.at(m, row, col);
            &&& row + 1 < n && col >= 2 ==> p == b.at(m, row + 1, col - 2)
            &&& col == 0 && row + 1 < n ==> p == (b.left_down(row) + b.left_down(row + 1) + 1) / 2
            &&& col == 1 && row + 2 < n ==> p == (b.left_down(row) + 2 * b.left_down(row + 1)
                + b.left_down(row + 2) + 2) / 4
            &&& col == 1 && row == n - 2 ==> p == (b.left_down(n - 2) + 3 * b.left_down(n - 1) + 2)
                / 4
            &&& row == n - 1 ==> p == b.left_down(n - 1)
        }),
{
    let m = IntraMode::HorUpPred;
    b.lemma_at(m, row, col);
    if row + 1 < b.edges.size && col >= 2 {
        b.lemma_at(m, row + 1, col - 2);
        assert(2 * (row + 1) + (col - 2) == 2 * row + col);
    }
}

/// Of two predictions that look at the same edge, the pixels are the same: neither what was there before
/// nor a part of the edge that the mode does not look at counts.
pub proof fn law_modes_look_at_their_side(a: Predicted, b: Predicted, mode: IntraMode, row: int, col: int)
    requires
        a.wf(mode),
        b.wf(mode),
        a.edges.size == b.edges.size,
        a.bit_depth == b.bit_depth,
        0 <= row < a.edges.size,
        0 <= col < a.edges.size,
    ensures
        // Those that go to the lower left, and the vertical one, do not look at the left.
        a.edges.above == b.edges.above && (mode == IntraMode::VertPred || mode
            == IntraMode::DiagDownLeftPred || mode == IntraMode::VertLeftPred || mode
            == IntraMode::TopDcPred) ==> a.at(mode, row, col) == b.at(mode, row, col),
        // The one that goes upwards, and the horizontal one, do not look above.
        a.edges.left == b.edges.left && (mode == IntraMode::HorPred || mode == IntraMode::HorUpPred
            || mode == IntraMode::LeftDcPred) ==> a.at(mode, row, col) == b.at(mode, row, col),
        // Above the diagonal, the diagonal one looks above only, and below it on the left only.
        mode == IntraMode::DiagDownRightPred && a.edges.above == b.edges.above && col >= row + 2
            ==> a.at(mode, row, col) == b.at(mode, row, col),
        mode == IntraMode::DiagDownRightPred && a.edges.left == b.edges.left && row >= col + 2
            ==> a.at(mode, row, col) == b.at(mode, row, col),
{
    a.lemma_at(mode, row, col);
    b.lemma_at(mode, row, col);
    let n = a.edges.size;
}

} // verus!

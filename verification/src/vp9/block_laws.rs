//! How blocks divide a frame, and what they leave behind for their neighbours.
use vstd::prelude::*;

use crate::vp9::block::{
    block_spec, bs_of, half_side, partition_spec, parts_spec, quarters_spec, sb_spec,
};
use crate::vp9::block_modes::{ModesView, TileEnv, TileState};
use crate::vp9::block_trace::{grid_filled, grid_pair, left_behind, LeftBehind};
use crate::vp9::bool_decoder::Rac;
use crate::vp9::coef_laws::reads;
use crate::vp9::data::BWH_TAB;
use crate::vp9::header::FrameHeader;
use crate::vp9::modes::{sub8x8, without_refs};
use crate::vp9::refs::MvRefPair;
use crate::vp9::types::{BlockLevel, BlockPartition, BlockSize};

verus! {

/// A block of a square that is divided has half of the height, of the width or of both.
pub proof fn law_partition_halves_the_square(bl: BlockLevel, bp: BlockPartition)
    ensures
        ({
            let n = half_side(bl);
            let bs = bs_of(bl, bp);
            let w = BWH_TAB@[0]@[bs.code_spec() as int]@[0];
            let h = BWH_TAB@[0]@[bs.code_spec() as int]@[1];
            &&& bp == BlockPartition::Whole ==> w == 2 * n && h == 2 * n
            &&& bp == BlockPartition::H ==> w == 2 * n && h == n
            &&& bp == BlockPartition::V ==> w == n && h == 2 * n
            &&& bp == BlockPartition::Split ==> w == n && h == n
        }),
{
    assert(BWH_TAB@[0]@.len() == 13);
}

/// A square of more than 8x8 pixels that reaches out of the frame is divided there: below the bottom into
/// rows, on the right of it into columns, and in its corner both ways.
pub proof fn law_squares_are_divided_at_the_border(
    f: TileEnv,
    rac: Rac,
    p: Seq<u8>,
    bl: BlockLevel,
    right: bool,
    down: bool,
    both: bool,
)
    requires
        bl != BlockLevel::Bl8x8,
        right != down ==> reads(
            rac,
            seq![
                (
                    if right {
                        p[1]
                    } else {
                        p[2]
                    },
                    both,
                ),
            ],
        ),
    ensures
        ({
            let v = partition_spec(f, rac, p, bl, right, down);
            &&& right && !down && !both ==> v.0 == BlockPartition::H
            &&& !right && down && !both ==> v.0 == BlockPartition::V
            &&& right != down && both ==> v.0 == BlockPartition::Split
            &&& !right && !down ==> v.0 == BlockPartition::Split && v.1 == rac
        }),
{
    reveal_with_fuel(reads, 2);
}

/// Whether blocks were read behind those that were there, the first of them at a place.
pub open spec fn goes_on_at(t: TileState, u: TileState, row: int, col: int) -> bool {
    let n = t.blocks.len() as int;
    &&& n < u.blocks.len()
    &&& forall|i: int| 0 <= i < n ==> #[trigger] u.blocks[i] == t.blocks[i]
    &&& u.blocks[n].row == row
    &&& u.blocks[n].col == col
}

/// A block that is read comes behind those before it, at its place and with its size.
pub proof fn law_block_is_added(f: TileEnv, t: TileState, row: int, col: int, bs: BlockSize)
    ensures
        goes_on_at(t, block_spec(f, t, row, col, bs), row, col),
        block_spec(f, t, row, col, bs).blocks.len() == t.blocks.len() + 1,
        block_spec(f, t, row, col, bs).blocks[t.blocks.len() as int].bs == bs,
{
    reveal(block_spec);
}

/// The second half of a square that is divided in two lies below the first or on the right of it, as far
/// as it lies in the frame.
pub proof fn law_second_half_follows(
    f: TileEnv,
    t: TileState,
    row: int,
    col: int,
    bl: BlockLevel,
    bp: BlockPartition,
)
    ensures
        ({
            let u = parts_spec(f, t, row, col, bl, bp);
            let n = t.blocks.len() as int;
            let half = half_side(bl);
            let large = bl != BlockLevel::Bl8x8;
            &&& goes_on_at(t, u, row, col)
            &&& u.blocks[n].bs == bs_of(bl, bp)
            &&& large && bp == BlockPartition::H && row + half < f.rows ==> u.blocks.len() == n + 2
                && u.blocks[n + 1].row == row + half && u.blocks[n + 1].col == col
            &&& large && bp == BlockPartition::V && col + half < f.cols ==> u.blocks.len() == n + 2
                && u.blocks[n + 1].row == row && u.blocks[n + 1].col == col + half
            &&& bp == BlockPartition::Whole || !large ==> u.blocks.len() == n + 1
        }),
{
    reveal(parts_spec);
    let bs = bs_of(bl, bp);
    let n = half_side(bl);
    let u = block_spec(f, t, row, col, bs);
    law_block_is_added(f, t, row, col, bs);
    law_block_is_added(f, u, row + n, col, bs);
    law_block_is_added(f, u, row, col + n, bs);
}

/// The first block of a square lies in its upper left corner.
pub proof fn law_first_block_lies_in_the_corner(
    f: TileEnv,
    t: TileState,
    row: int,
    col: int,
    bl: BlockLevel,
)
    ensures
        goes_on_at(t, sb_spec(f, t, row, col, bl), row, col),
    decreases 3 - bl.code_spec(), 0int,
{
    reveal(sb_spec);
    reveal(quarters_spec);
    let n = half_side(bl);
    let a = crate::vp9::block::finer(t.above, col, bl);
    let l = crate::vp9::block::finer(t.left, crate::vp9::block_modes::row7_spec(row), bl);
    let (bp, rac) = partition_spec(
        f,
        t.rac,
        crate::vp9::block::partition_probs(f, bl, a, l),
        bl,
        col + n < f.cols,
        row + n < f.rows,
    );
    let t0 = TileState { rac, ..t };
    if bl == BlockLevel::Bl8x8 || bp != BlockPartition::Split {
        law_second_half_follows(f, t0, row, col, bl, bp);
    } else {
        law_quarters_go_row_by_row(f, t0, row, col, n, crate::vp9::block::next_level(bl));
    }
    assert(sb_spec(f, t, row, col, bl).blocks == (if bl == BlockLevel::Bl8x8 || bp
        != BlockPartition::Split {
        parts_spec(f, t0, row, col, bl, bp).blocks
    } else {
        quarters_spec(f, t0, row, col, n, crate::vp9::block::next_level(bl)).blocks
    }));
    assert(t0.blocks == t.blocks);
}

/// The quarters of a square are read row by row, those outside of the frame left out.
pub proof fn law_quarters_go_row_by_row(
    f: TileEnv,
    t: TileState,
    row: int,
    col: int,
    n: int,
    bl: BlockLevel,
)
    ensures
        ({
            let right = col + n < f.cols;
            let down = row + n < f.rows;
            let all = quarters_spec(f, t, row, col, n, bl);
            let u0 = sb_spec(f, t, row, col, bl);
            let u1 = sb_spec(f, u0, row, col + n, bl);
            &&& goes_on_at(t, all, row, col)
            &&& right ==> goes_on_at(u0, all, row, col + n)
            &&& !right && down ==> goes_on_at(u0, all, row + n, col)
            &&& right && down ==> goes_on_at(u1, all, row + n, col)
            &&& right && down ==> goes_on_at(sb_spec(f, u1, row + n, col, bl), all, row + n, col + n)
        }),
    decreases 3 - bl.code_spec(), 1int,
{
    reveal(sb_spec);
    reveal(quarters_spec);
    let right = col + n < f.cols;
    let down = row + n < f.rows;
    let u0 = sb_spec(f, t, row, col, bl);
    let u1 = if right {
        sb_spec(f, u0, row, col + n, bl)
    } else {
        u0
    };
    let u2 = if down {
        sb_spec(f, u1, row + n, col, bl)
    } else {
        u1
    };
    law_first_block_lies_in_the_corner(f, t, row, col, bl);
    law_first_block_lies_in_the_corner(f, u0, row, col + n, bl);
    law_first_block_lies_in_the_corner(f, u1, row + n, col, bl);
    law_first_block_lies_in_the_corner(f, u2, row + n, col + n, bl);
    assert(quarters_spec(f, t, row, col, n, bl) == (if right && down {
        sb_spec(f, u2, row + n, col + n, bl)
    } else {
        u2
    }));
}

/// What a block leaves behind is seen along its lower and its right side, and not beyond: whether it is
/// skipped, its transform, whether it moves and whether by two references.
pub proof fn law_block_leaves_its_trace(
    h: FrameHeader,
    cols: int,
    b: LeftBehind,
    row: int,
    col: int,
    bs: BlockSize,
    m: ModesView,
    skip: bool,
    i: int,
)
    requires
        !without_refs(h),
        0 <= i < b.above.skip.len(),
        b.above.tx_size.len() == b.above.skip.len(),
        b.above.intra.len() == b.above.skip.len(),
        b.above.comp.len() == b.above.skip.len(),
    ensures
        ({
            let a = left_behind(h, cols, b, row, col, bs, m, skip).above;
            let under = col <= i < col + BWH_TAB@[0]@[bs.code_spec() as int]@[0];
            &&& under ==> (a.skip[i] == 1 <==> skip)
            &&& under ==> a.tx_size[i] == m.tx_size.code_spec()
            &&& under ==> (a.intra[i] == 1 <==> m.is_intra)
            &&& under ==> (a.comp[i] == 1 <==> m.comp)
            &&& !under ==> a.skip[i] == b.above.skip[i] && a.tx_size[i] == b.above.tx_size[i]
            &&& !under ==> a.intra[i] == b.above.intra[i] && a.comp[i] == b.above.comp[i]
        }),
{
    reveal(left_behind);
}

/// The same on the right side of a block.
pub proof fn law_block_leaves_its_trace_on_the_right(
    h: FrameHeader,
    cols: int,
    b: LeftBehind,
    row: int,
    col: int,
    bs: BlockSize,
    m: ModesView,
    skip: bool,
    i: int,
)
    requires
        !without_refs(h),
        0 <= i < b.left.skip.len(),
        b.left.tx_size.len() == b.left.skip.len(),
        b.left.intra.len() == b.left.skip.len(),
        b.left.comp.len() == b.left.skip.len(),
    ensures
        ({
            let l = left_behind(h, cols, b, row, col, bs, m, skip).left;
            let from = crate::vp9::block_modes::row7_spec(row);
            let beside = from <= i < from + BWH_TAB@[1]@[bs.code_spec() as int]@[1];
            &&& beside ==> (l.skip[i] == 1 <==> skip)
            &&& beside ==> l.tx_size[i] == m.tx_size.code_spec()
            &&& beside ==> (l.intra[i] == 1 <==> m.is_intra)
            &&& beside ==> (l.comp[i] == 1 <==> m.comp)
            &&& !beside ==> l.skip[i] == b.left.skip[i] && l.tx_size[i] == b.left.tx_size[i]
            &&& !beside ==> l.intra[i] == b.left.intra[i] && l.comp[i] == b.left.comp[i]
        }),
{
    reveal(left_behind);
}

/// The quarters of a small block leave their vectors on the side where they lie: the lower two for the
/// block below, the right two for the one on the right.
pub proof fn law_quarters_leave_their_vectors(
    h: FrameHeader,
    cols: int,
    b: LeftBehind,
    row: int,
    col: int,
    bs: BlockSize,
    m: ModesView,
    skip: bool,
)
    requires
        !without_refs(h),
        !m.is_intra,
        sub8x8(bs),
        0 <= col,
        0 <= crate::vp9::block_modes::row7_spec(row),
        2 * col + 1 < b.above.mv.len(),
        2 * crate::vp9::block_modes::row7_spec(row) + 1 < b.left.mv.len(),
    ensures
        ({
            let t = left_behind(h, cols, b, row, col, bs, m, skip);
            let r = 2 * crate::vp9::block_modes::row7_spec(row);
            &&& t.above.mv[2 * col] == m.mv[2]
            &&& t.above.mv[2 * col + 1] == m.mv[3]
            &&& t.left.mv[r] == m.mv[1]
            &&& t.left.mv[r + 1] == m.mv[3]
        }),
{
    reveal(left_behind);
}

/// Every cell under a block holds what it has for later frames.
proof fn lemma_grid_filled(
    g: Seq<MvRefPair>,
    cols: int,
    row: int,
    col: int,
    w: int,
    h: int,
    y: int,
    v: MvRefPair,
    i: int,
)
    requires
        0 <= i < g.len(),
        0 <= row,
        0 <= col < cols,
        0 <= y <= h,
    ensures
        grid_filled(g, cols, row, col, w, h, y, v).len() == g.len(),
        (exists|k: int| y <= k < h && #[trigger] ((row + k) * cols) + col <= i < (row + k) * cols + col
            + w) ==> grid_filled(g, cols, row, col, w, h, y, v)[i] == v,
        g[i] == v ==> grid_filled(g, cols, row, col, w, h, y, v)[i] == v,
    decreases h - y,
{
    if y < h {
        let at = (row + y) * cols + col;
        let next = crate::vp9::context::splat(g, at, at + w, v);
        lemma_grid_filled(next, cols, row, col, w, h, y + 1, v, i);
        if exists|k: int|
            y <= k < h && #[trigger] ((row + k) * cols) + col <= i < (row + k) * cols + col + w {
            let k = choose|k: int|
                y <= k < h && #[trigger] ((row + k) * cols) + col <= i < (row + k) * cols + col + w;
            if k == y {
                assert(next[i] == v);
            } else {
                assert(y + 1 <= k < h);
            }
        }
    }
}

/// The vectors of the last quarter of a block and its references stand in every cell under it for the
/// blocks and the frames after it; a block that does not move leaves no reference.
pub proof fn law_block_leaves_its_motion(
    h: FrameHeader,
    cols: int,
    b: LeftBehind,
    row: int,
    col: int,
    bs: BlockSize,
    m: ModesView,
    skip: bool,
    y: int,
    x: int,
)
    requires
        !without_refs(h),
        0 <= row,
        0 <= col,
        0 <= y < BWH_TAB@[0]@[bs.code_spec() as int]@[1],
        0 <= x < BWH_TAB@[0]@[bs.code_spec() as int]@[0],
        col < cols,
        (row + y) * cols + (col + x) < b.grid.len(),
    ensures
        ({
            let c = left_behind(h, cols, b, row, col, bs, m, skip).grid[(row + y) * cols + (col + x)];
            &&& m.is_intra ==> c.ref_frame@[0] == -1 && c.ref_frame@[1] == -1
            &&& !m.is_intra ==> c.ref_frame@[0] == m.ref_frame[0] && c.mv@[0] == m.mv[3]@[0]
            &&& !m.is_intra && m.comp ==> c.ref_frame@[1] == m.ref_frame[1] && c.mv@[1] == m.mv[3]@[1]
            &&& !m.is_intra && !m.comp ==> c.ref_frame@[1] == -1
        }),
{
    reveal(left_behind);
    let w = BWH_TAB@[0]@[bs.code_spec() as int]@[0] as int;
    let h4 = BWH_TAB@[0]@[bs.code_spec() as int]@[1] as int;
    let i = (row + y) * cols + (col + x);
    assert(0 <= (row + y) * cols) by (nonlinear_arith)
        requires
            0 <= row + y,
            0 <= cols,
    ;
    assert(((row + y) * cols) + col <= i < (row + y) * cols + col + w);
    lemma_grid_filled(
        b.grid,
        cols,
        row,
        col,
        w,
        h4,
        0,
        grid_pair(m.is_intra, m.comp, m.ref_frame, m.mv[3]),
        i,
    );
}

} // verus!

//! The blocks of a superblock tile it.
use vstd::prelude::*;

use crate::vp9::block::{
    block_spec, bs_of, half_side, next_level, parts_spec, partition_probs, partition_spec,
    quarters_spec, sb_spec,
};
use crate::vp9::block_modes::{BlockView, TileEnv, TileState};
use crate::vp9::mc::luma_size_spec;
use crate::vp9::types::{BlockLevel, BlockPartition, BlockSize};

verus! {

/// A rectangle, in units of 4 pixels.
pub struct Rect {
    pub row: int,
    pub col: int,
    pub h: int,
    pub w: int,
}

impl Rect {
    /// Whether the unit at (`r`, `c`) lies in the rectangle.
    pub open spec fn has(self, r: int, c: int) -> bool {
        self.row <= r < self.row + self.h && self.col <= c < self.col + self.w
    }

    /// Whether another rectangle lies in this one.
    pub open spec fn holds(self, o: Rect) -> bool {
        &&& self.row <= o.row
        &&& o.row + o.h <= self.row + self.h
        &&& self.col <= o.col
        &&& o.col + o.w <= self.col + self.w
    }

    /// Whether another rectangle has no unit in common with this one.
    pub open spec fn apart_from(self, o: Rect) -> bool {
        ||| self.row + self.h <= o.row
        ||| o.row + o.h <= self.row
        ||| self.col + self.w <= o.col
        ||| o.col + o.w <= self.col
    }
}

/// The luma units that a block stands for. The parts of a small block make up 8x8 pixels.
pub open spec fn area(b: BlockView) -> Rect {
    Rect {
        row: b.row,
        col: b.col,
        h: luma_size_spec(b.bs, 1) / 4,
        w: luma_size_spec(b.bs, 0) / 4,
    }
}

/// Whether a block from the number `from` on stands for the unit at (`r`, `c`).
pub open spec fn is_covered(blocks: Seq<BlockView>, from: int, r: int, c: int) -> bool {
    exists|i: int| from <= i < blocks.len() && #[trigger] area(blocks[i]).has(r, c)
}

/// Whether the blocks that `b` has behind those of `a` tile a rectangle in a frame of `rows` by `cols`
/// units: each starts in the frame and lies in the rectangle, no two have a unit in common, and every
/// unit of the rectangle that lies in the frame has its block.
pub open spec fn tiled(
    a: Seq<BlockView>,
    b: Seq<BlockView>,
    rows: int,
    cols: int,
    rect: Rect,
) -> bool {
    let from = a.len() as int;
    &&& a.len() <= b.len()
    &&& b.take(from) == a
    &&& forall|i: int|
        from <= i < b.len() ==> rect.holds(area(#[trigger] b[i])) && b[i].row < rows && b[i].col
            < cols
    &&& forall|i: int, j: int|
        from <= i < j < b.len() ==> area(#[trigger] b[i]).apart_from(area(#[trigger] b[j]))
    &&& forall|r: int, c: int|
        r < rows && c < cols && #[trigger] rect.has(r, c) ==> is_covered(b, from, r, c)
}

/// Two tiled rectangles that are apart make up a larger one, as far as that lies in the frame.
proof fn lemma_join(
    a: Seq<BlockView>,
    b: Seq<BlockView>,
    c: Seq<BlockView>,
    rows: int,
    cols: int,
    p: Rect,
    q: Rect,
    rect: Rect,
)
    requires
        tiled(a, b, rows, cols, p),
        tiled(b, c, rows, cols, q),
        rect.holds(p),
        rect.holds(q),
        p.apart_from(q),
        forall|r: int, k: int|
            r < rows && k < cols && #[trigger] rect.has(r, k) ==> p.has(r, k) || q.has(r, k),
    ensures
        tiled(a, c, rows, cols, rect),
{
    let (na, nb) = (a.len() as int, b.len() as int);
    assert(c.take(na) =~= c.take(nb).take(na));
    assert forall|i: int| 0 <= i < nb implies #[trigger] c[i] == b[i] by {
        assert(c.take(nb)[i] == b[i]);
    }
    assert forall|r: int, k: int| r < rows && k < cols && #[trigger] rect.has(r, k) implies is_covered(
        c,
        na,
        r,
        k,
    ) by {
        if p.has(r, k) {
            assert(is_covered(b, na, r, k));
            let i = choose|i: int| na <= i < nb && #[trigger] area(b[i]).has(r, k);
            assert(area(c[i]).has(r, k));
        } else {
            assert(q.has(r, k));
            assert(is_covered(c, nb, r, k));
            let i = choose|i: int| nb <= i < c.len() && #[trigger] area(c[i]).has(r, k);
            assert(area(c[i]).has(r, k));
        }
    }
    assert forall|i: int, j: int| na <= i < j < c.len() implies area(#[trigger] c[i]).apart_from(
        area(#[trigger] c[j]),
    ) by {
        if j < nb {
            assert(area(b[i]).apart_from(area(b[j])));
        } else if i < nb {
            assert(p.holds(area(b[i])));
            assert(q.holds(area(c[j])));
        }
    }
    assert forall|i: int| na <= i < c.len() implies rect.holds(area(#[trigger] c[i])) && c[i].row < rows
        && c[i].col < cols by {
        if i < nb {
            assert(p.holds(area(b[i])));
        } else {
            assert(q.holds(area(c[i])));
        }
    }
}

/// A tiled rectangle tiles every larger one that has no more units in the frame.
proof fn lemma_widen(
    a: Seq<BlockView>,
    b: Seq<BlockView>,
    rows: int,
    cols: int,
    p: Rect,
    rect: Rect,
)
    requires
        tiled(a, b, rows, cols, p),
        rect.holds(p),
        forall|r: int, k: int| r < rows && k < cols && #[trigger] rect.has(r, k) ==> p.has(r, k),
    ensures
        tiled(a, b, rows, cols, rect),
{
    assert forall|i: int| a.len() <= i < b.len() implies rect.holds(area(#[trigger] b[i])) && b[i].row
        < rows && b[i].col < cols by {
        assert(p.holds(area(b[i])));
    }
    assert forall|r: int, k: int| r < rows && k < cols && #[trigger] rect.has(r, k) implies is_covered(
        b,
        a.len() as int,
        r,
        k,
    ) by {
        assert(p.has(r, k));
    }
}

/// A block tiles the units that it stands for.
proof fn lemma_one(f: TileEnv, t: TileState, row: int, col: int, bs: BlockSize)
    requires
        row < f.rows,
        col < f.cols,
    ensures
        tiled(
            t.blocks,
            block_spec(f, t, row, col, bs).blocks,
            f.rows,
            f.cols,
            (Rect { row, col, h: luma_size_spec(bs, 1) / 4, w: luma_size_spec(bs, 0) / 4 }),
        ),
{
    reveal(block_spec);
    let b = block_spec(f, t, row, col, bs).blocks;
    let n = t.blocks.len() as int;
    assert(b.take(n) =~= t.blocks);
    let rect = Rect { row, col, h: luma_size_spec(bs, 1) / 4, w: luma_size_spec(bs, 0) / 4 };
    assert(area(b[n]) == rect);
    assert forall|r: int, c: int| r < f.rows && c < f.cols && #[trigger] rect.has(r, c) implies is_covered(
        b,
        n,
        r,
        c,
    ) by {
        assert(area(b[n]).has(r, c));
    }
}

/// The parts of a block that is not split tile it.
proof fn lemma_parts(
    f: TileEnv,
    t: TileState,
    row: int,
    col: int,
    bl: BlockLevel,
    bp: BlockPartition,
)
    requires
        row < f.rows,
        col < f.cols,
        bl == BlockLevel::Bl8x8 || bp != BlockPartition::Split,
        bl != BlockLevel::Bl8x8 && bp == BlockPartition::H ==> col + half_side(bl) < f.cols,
        bl != BlockLevel::Bl8x8 && bp == BlockPartition::V ==> row + half_side(bl) < f.rows,
    ensures
        tiled(
            t.blocks,
            parts_spec(f, t, row, col, bl, bp).blocks,
            f.rows,
            f.cols,
            (Rect { row, col, h: 2 * half_side(bl), w: 2 * half_side(bl) }),
        ),
{
    reveal(parts_spec);
    let n = half_side(bl);
    let bs = bs_of(bl, bp);
    let rect = Rect { row, col, h: 2 * n, w: 2 * n };
    let u = block_spec(f, t, row, col, bs);
    let p = Rect { row, col, h: luma_size_spec(bs, 1) / 4, w: luma_size_spec(bs, 0) / 4 };
    lemma_one(f, t, row, col, bs);
    if bl == BlockLevel::Bl8x8 || bp == BlockPartition::Whole {
        assert(p == rect);
    } else if bp == BlockPartition::H {
        assert(p.h == n && p.w == 2 * n);
        if row + n < f.rows {
            let q = Rect { row: row + n, ..p };
            lemma_one(f, u, row + n, col, bs);
            lemma_join(
                t.blocks,
                u.blocks,
                block_spec(f, u, row + n, col, bs).blocks,
                f.rows,
                f.cols,
                p,
                q,
                rect,
            );
        } else {
            lemma_widen(t.blocks, u.blocks, f.rows, f.cols, p, rect);
        }
    } else {
        assert(p.h == 2 * n && p.w == n);
        if col + n < f.cols {
            let q = Rect { col: col + n, ..p };
            lemma_one(f, u, row, col + n, bs);
            lemma_join(
                t.blocks,
                u.blocks,
                block_spec(f, u, row, col + n, bs).blocks,
                f.rows,
                f.cols,
                p,
                q,
                rect,
            );
        } else {
            lemma_widen(t.blocks, u.blocks, f.rows, f.cols, p, rect);
        }
    }
}

/// The quarters of a block tile it.
proof fn lemma_quarters(f: TileEnv, t: TileState, row: int, col: int, n: int, bl: BlockLevel)
    requires
        row < f.rows,
        col < f.cols,
        n == 2 * half_side(bl),
    ensures
        tiled(
            t.blocks,
            quarters_spec(f, t, row, col, n, bl).blocks,
            f.rows,
            f.cols,
            (Rect { row, col, h: 2 * n, w: 2 * n }),
        ),
    decreases 3 - bl.code_spec(), 1int,
{
    reveal(sb_spec);
    reveal(quarters_spec);
    let (rows, cols) = (f.rows, f.cols);
    let right = col + n < cols;
    let down = row + n < rows;
    let quarter = Rect { row, col, h: n, w: n };
    let top = Rect { row, col, h: n, w: 2 * n };
    let low = Rect { row: row + n, ..top };
    let whole = Rect { row, col, h: 2 * n, w: 2 * n };
    let u0 = sb_spec(f, t, row, col, bl);
    law_superblock_is_tiled(f, t, row, col, bl);
    let u1 = if right {
        sb_spec(f, u0, row, col + n, bl)
    } else {
        u0
    };
    if right {
        law_superblock_is_tiled(f, u0, row, col + n, bl);
        let q = Rect { col: col + n, ..quarter };
        lemma_join(t.blocks, u0.blocks, u1.blocks, rows, cols, quarter, q, top);
    } else {
        lemma_widen(t.blocks, u0.blocks, rows, cols, quarter, top);
    }
    if down {
        let u2 = sb_spec(f, u1, row + n, col, bl);
        let left = Rect { row: row + n, ..quarter };
        law_superblock_is_tiled(f, u1, row + n, col, bl);
        if right {
            let u3 = sb_spec(f, u2, row + n, col + n, bl);
            law_superblock_is_tiled(f, u2, row + n, col + n, bl);
            let q = Rect { col: col + n, ..left };
            lemma_join(u1.blocks, u2.blocks, u3.blocks, rows, cols, left, q, low);
            lemma_join(t.blocks, u1.blocks, u3.blocks, rows, cols, top, low, whole);
        } else {
            lemma_widen(u1.blocks, u2.blocks, rows, cols, left, low);
            lemma_join(t.blocks, u1.blocks, u2.blocks, rows, cols, top, low, whole);
        }
    } else {
        lemma_widen(t.blocks, u1.blocks, rows, cols, top, whole);
    }
}

/// The blocks that are read of a superblock, or of a smaller block of the partition tree, tile it as far
/// as it lies in the frame.
pub proof fn law_superblock_is_tiled(f: TileEnv, t: TileState, row: int, col: int, bl: BlockLevel)
    requires
        row < f.rows,
        col < f.cols,
    ensures
        tiled(
            t.blocks,
            sb_spec(f, t, row, col, bl).blocks,
            f.rows,
            f.cols,
            (Rect { row, col, h: 2 * half_side(bl), w: 2 * half_side(bl) }),
        ),
    decreases 3 - bl.code_spec(), 0int,
{
    reveal(sb_spec);
    reveal(quarters_spec);
    let n = half_side(bl);
    let a = crate::vp9::block::finer(t.above, col, bl);
    let l = crate::vp9::block::finer(t.left, crate::vp9::block_modes::row7_spec(row), bl);
    let (bp, rac) = partition_spec(
        f,
        t.rac,
        partition_probs(f, bl, a, l),
        bl,
        col + n < f.cols,
        row + n < f.rows,
    );
    let t0 = TileState { rac, ..t };
    if bl == BlockLevel::Bl8x8 || bp != BlockPartition::Split {
        lemma_parts(f, t0, row, col, bl, bp);
    } else {
        lemma_quarters(f, t0, row, col, n, next_level(bl));
    }
}

} // verus!

//! What the blocks of a superblock leave alone: reading a superblock changes the context above only
//! in the columns of that superblock, and only adds blocks.
use vstd::prelude::*;

use crate::vp9::block_modes::{BlockView, TileEnv, TileState};
use crate::vp9::context::CtxView;
use crate::vp9::data::BWH_TAB;
use crate::vp9::header::FrameHeader;
use crate::vp9::refs::MvRefPair;
use crate::vp9::types::{BlockLevel, BlockPartition, BlockSize};

verus! {

/// Whether two sequences agree but for the entries from `from` up to `to`.
pub open spec fn kept<T>(a: Seq<T>, b: Seq<T>, from: int, to: int) -> bool {
    a.len() == b.len() && forall|i: int|
        0 <= i < a.len() && !(from <= i < to) ==> #[trigger] b[i] == a[i]
}

/// Whether two contexts agree but for the columns from `from` up to `to`, in units of 4 pixels.
pub open spec fn stays_in(h: FrameHeader, a: CtxView, b: CtxView, from: int, to: int) -> bool {
    let modes = crate::vp9::modes::without_refs(h);
    &&& kept(a.partition, b.partition, from, to)
    &&& kept(a.skip, b.skip, from, to)
    &&& kept(a.tx_size, b.tx_size, from, to)
    &&& kept(a.intra, b.intra, from, to)
    &&& kept(a.comp, b.comp, from, to)
    &&& kept(a.ref_frame, b.ref_frame, from, to)
    &&& kept(a.filter, b.filter, from, to)
    &&& kept(a.mv, b.mv, 2 * from, 2 * to)
    &&& kept(
        a.y_mode,
        b.y_mode,
        if modes {
            2 * from
        } else {
            from / 2
        },
        if modes {
            2 * to
        } else {
            to / 2
        },
    )
    &&& kept(a.coef[0], b.coef[0], from, to)
    &&& kept(
        a.coef[1],
        b.coef[1],
        crate::vp9::block_coefs::halved(from, h.subsampling_x),
        crate::vp9::block_coefs::halved(to, h.subsampling_x),
    )
    &&& kept(
        a.coef[2],
        b.coef[2],
        crate::vp9::block_coefs::halved(from, h.subsampling_x),
        crate::vp9::block_coefs::halved(to, h.subsampling_x),
    )
    &&& a.uv_mode == b.uv_mode
    &&& a.seg_id == b.seg_id
}

/// Whether two grids agree but for the columns from `from` up to `to`.
pub open spec fn grid_kept(a: Seq<MvRefPair>, b: Seq<MvRefPair>, cols: int, from: int, to: int) -> bool {
    a.len() == b.len() && forall|p: int|
        0 <= p < a.len() && !(from <= p % cols < to) ==> #[trigger] b[p] == a[p]
}

/// Whether blocks were only added.
pub open spec fn only_adds(a: Seq<BlockView>, b: Seq<BlockView>) -> bool {
    a.len() <= b.len() && b.take(a.len() as int) == a
}

proof fn lemma_stays_join(h: FrameHeader, a: CtxView, b: CtxView, c: CtxView, from: int, to: int)
    requires
        stays_in(h, a, b, from, to),
        stays_in(h, b, c, from, to),
    ensures
        stays_in(h, a, c, from, to),
{
}

proof fn lemma_stays_widen(
    h: FrameHeader,
    a: CtxView,
    b: CtxView,
    from: int,
    to: int,
    lo: int,
    hi: int,
)
    requires
        stays_in(h, a, b, from, to),
        lo <= from,
        to <= hi,
    ensures
        stays_in(h, a, b, lo, hi),
{
}

proof fn lemma_adds_join(a: Seq<BlockView>, b: Seq<BlockView>, c: Seq<BlockView>)
    requires
        only_adds(a, b),
        only_adds(b, c),
    ensures
        only_adds(a, c),
{
    assert(c.take(a.len() as int) =~= b.take(a.len() as int));
}

proof fn lemma_row_len(e: crate::vp9::coefs::PlaneCoding, s: crate::vp9::coefs::PlaneRead, x: int, y: int)
    ensures
        e.row(s, x, y).a.len() == s.a.len(),
    decreases (if x < e.end_x {
            e.end_x - x
        } else {
            0
        }),
{
    if x < e.end_x {
        lemma_row_len(e, e.after_block(s, x, y), x + crate::vp9::coefs::step_spec(e.tx), y);
    }
}

proof fn lemma_rows_len(e: crate::vp9::coefs::PlaneCoding, s: crate::vp9::coefs::PlaneRead, y: int)
    ensures
        e.rows(s, y).a.len() == s.a.len(),
    decreases (if y < e.end_y {
            e.end_y - y
        } else {
            0
        }),
{
    if y < e.end_y {
        lemma_row_len(e, s, 0, y);
        lemma_rows_len(e, e.row(s, 0, y), y + crate::vp9::coefs::step_spec(e.tx));
    }
}

/// Reading a plane changes the context only in the columns of the block.
proof fn lemma_plane_kept(
    e: crate::vp9::coefs::PlaneCoding,
    rac: crate::vp9::bool_decoder::Rac,
    counts: crate::vp9::prob::CountView,
    above: Seq<u8>,
    left: Seq<u8>,
    kind: int,
    inter: int,
    base_a: int,
    base_l: int,
)
    requires
        0 <= base_a <= above.len(),
        0 <= e.end_x,
    ensures
        kept(
            above,
            crate::vp9::block_coefs::plane_spec(
                e,
                rac,
                counts,
                above,
                left,
                kind,
                inter,
                base_a,
                base_l,
            ).above,
            base_a,
            base_a + e.end_x,
        ),
{
    reveal(crate::vp9::block_coefs::plane_spec);
    reveal(crate::vp9::coefs::PlaneCoding::all);
    let tx = e.tx.code_spec() as int;
    let s = crate::vp9::coefs::PlaneRead {
        rac,
        cnt: counts.coef[tx][kind][inter],
        eob: counts.eob[tx][kind][inter],
        a: crate::vp9::block_coefs::window(above, base_a, e.end_x),
        l: crate::vp9::block_coefs::window(left, base_l, e.end_y),
        coefs: Seq::empty(),
    };
    let step = crate::vp9::coefs::step_spec(e.tx);
    let s0 = crate::vp9::coefs::PlaneRead {
        a: crate::vp9::coefs::merged(s.a, e.end_x, step),
        l: crate::vp9::coefs::merged(s.l, e.end_y, step),
        ..s
    };
    lemma_rows_len(e, s0, 0);
    assert(s.a.len() <= e.end_x);
}

proof fn lemma_splat_kept<T>(s: Seq<T>, from: int, to: int, v: T, lo: int, hi: int)
    requires
        lo <= from,
        to <= hi,
    ensures
        kept(s, crate::vp9::context::splat(s, from, to, v), lo, hi),
{
}

/// The width of a block, in units of 4 and of 8 pixels.
pub open spec fn width_4(bs: BlockSize) -> int {
    BWH_TAB@[0]@[bs.code_spec() as int]@[0] as int
}

/// The width of a block, in units of 8 pixels.
pub open spec fn width_8(bs: BlockSize) -> int {
    BWH_TAB@[1]@[bs.code_spec() as int]@[0] as int
}

/// Whether a context has an entry for every column.
pub open spec fn covers(c: CtxView, cols: int) -> bool {
    cols <= c.coef[0].len() && cols <= c.coef[1].len() && cols <= c.coef[2].len()
}

/// The coefficients of a block change the flags above only in its columns.
proof fn lemma_coefs_kept(
    f: TileEnv,
    r: crate::vp9::block_modes::ModesRead,
    row: int,
    col: int,
    bs: BlockSize,
    side: int,
)
    requires
        0 <= col < f.cols,
        col % 2 == 0,
        side % 2 == 0,
        0 <= 2 * width_8(bs) <= side,
        covers(r.above, f.cols),
    ensures
        stays_in(
            f.h,
            r.above,
            CtxView {
                coef: crate::vp9::block::residual_spec(f, r, row, col, bs).above,
                ..r.above
            },
            col,
            col + side,
        ),
{
    let c = crate::vp9::block::residual_spec(f, r, row, col, bs).above;
    let half = f.h.subsampling_x;
    let uv = crate::vp9::block_coefs::halved(col, half);
    let uv_end = crate::vp9::block_coefs::halved(col + side, half);
    if r.modes.skip {
        let n = width_8(bs);
        let len = if half {
            n
        } else {
            2 * n
        };
        lemma_splat_kept(r.above.coef[0], col, col + 2 * n, 0u8, col, col + side);
        lemma_splat_kept(r.above.coef[1], uv, uv + len, 0u8, uv, uv_end);
        lemma_splat_kept(r.above.coef[2], uv, uv + len, 0u8, uv, uv_end);
    } else {
        reveal(crate::vp9::block_coefs::coeffs_spec);
        reveal(crate::vp9::block_coefs::luma_coding);
        reveal(crate::vp9::block_coefs::chroma_coding);
        let m = r.modes;
        let inter = crate::vp9::modes::one(!m.is_intra);
        let ey = crate::vp9::block_coefs::luma_coding(f, m, row, col, bs);
        let ec = crate::vp9::block_coefs::chroma_coding(f, m, row, col, bs);
        let base_l = crate::vp9::block_coefs::halved(row % 16, f.h.subsampling_y);
        assert(0 <= ey.end_x <= side);
        assert(0 <= ec.end_x && uv + ec.end_x <= uv_end);
        lemma_plane_kept(
            ey,
            r.rac,
            r.counts,
            r.above.coef[0],
            r.left.coef[0],
            0,
            inter,
            col,
            row % 16,
        );
        let y = crate::vp9::block_coefs::plane_spec(
            ey,
            r.rac,
            r.counts,
            r.above.coef[0],
            r.left.coef[0],
            0,
            inter,
            col,
            row % 16,
        );
        lemma_plane_kept(
            ec,
            y.rac,
            y.counts,
            r.above.coef[1],
            r.left.coef[1],
            1,
            inter,
            uv,
            base_l,
        );
        let u = crate::vp9::block_coefs::plane_spec(
            ec,
            y.rac,
            y.counts,
            r.above.coef[1],
            r.left.coef[1],
            1,
            inter,
            uv,
            base_l,
        );
        lemma_plane_kept(
            ec,
            u.rac,
            u.counts,
            r.above.coef[2],
            r.left.coef[2],
            1,
            inter,
            uv,
            base_l,
        );
    }
}

/// The modes of a block change the context above only in its columns.
proof fn lemma_modes_kept(f: TileEnv, t: TileState, row: int, col: int, bs: BlockSize, side: int)
    requires
        0 <= width_4(bs) <= side,
        side >= 2,
    ensures
        stays_in(
            f.h,
            t.above,
            crate::vp9::block_modes::modes_spec(f, t, row, col, bs).above,
            col,
            col + side,
        ),
{
    reveal(crate::vp9::block_modes::modes_spec);
}

/// What a block leaves behind above lies in its columns.
proof fn lemma_trace_kept(
    f: TileEnv,
    b: crate::vp9::block_trace::LeftBehind,
    row: int,
    col: int,
    bs: BlockSize,
    m: crate::vp9::block_modes::ModesView,
    skip: bool,
    side: int,
)
    requires
        0 <= col,
        col % 2 == 0,
        side % 2 == 0,
        side >= 2,
        0 <= width_4(bs) <= side,
        0 <= 2 * width_8(bs) <= side,
    ensures
        stays_in(
            f.h,
            b.above,
            crate::vp9::block_trace::left_behind(f.h, f.cols, b, row, col, bs, m, skip).above,
            col,
            col + side,
        ),
{
    reveal(crate::vp9::block_trace::left_behind);
}

proof fn lemma_grid_filled(
    g: Seq<MvRefPair>,
    cols: int,
    row: int,
    col: int,
    w: int,
    h: int,
    y: int,
    v: MvRefPair,
)
    requires
        0 <= col,
        0 <= w,
        col + w <= cols,
    ensures
        grid_kept(
            g,
            crate::vp9::block_trace::grid_filled(g, cols, row, col, w, h, y, v),
            cols,
            col,
            col + w,
        ),
    decreases h - y,
{
    if y < h {
        let at = (row + y) * cols + col;
        let t = crate::vp9::context::splat(g, at, at + w, v);
        assert forall|p: int| 0 <= p < g.len() && !(col <= p % cols < col + w) implies t[p]
            == g[p] by {
            if at <= p < at + w {
                let r = p - (row + y) * cols;
                assert(p == cols * (row + y) + r) by (nonlinear_arith)
                    requires
                        r == p - (row + y) * cols,
                ;
                vstd::arithmetic::div_mod::lemma_fundamental_div_mod_converse(p, cols, row + y, r);
            }
        }
        lemma_grid_filled(t, cols, row, col, w, h, y + 1, v);
    }
}

/// A block that lies in the frame changes the grid only in its columns.
proof fn lemma_block_grid(f: TileEnv, t: TileState, row: int, col: int, bs: BlockSize, side: int)
    requires
        0 <= col,
        0 <= width_4(bs) <= side,
        col + side <= f.cols,
    ensures
        grid_kept(
            t.grid,
            crate::vp9::block::block_spec(f, t, row, col, bs).grid,
            f.cols,
            col,
            col + side,
        ),
{
    reveal(crate::vp9::block::block_spec);
    reveal(crate::vp9::block_trace::left_behind);
    let m = crate::vp9::block_modes::modes_spec(f, t, row, col, bs).modes;
    lemma_grid_filled(
        t.grid,
        f.cols,
        row,
        col,
        width_4(bs),
        BWH_TAB@[0]@[bs.code_spec() as int]@[1] as int,
        0,
        crate::vp9::block_trace::grid_pair(m.is_intra, m.comp, m.ref_frame, m.mv[3]),
    );
}

/// A block changes the context above only in its columns, and is added to the blocks.
proof fn lemma_block(f: TileEnv, t: TileState, row: int, col: int, bs: BlockSize, side: int)
    requires
        0 <= col < f.cols,
        col % 2 == 0,
        side % 2 == 0,
        side >= 2,
        0 <= width_4(bs) <= side,
        0 <= 2 * width_8(bs) <= side,
        covers(t.above, f.cols),
    ensures
        stays_in(
            f.h,
            t.above,
            crate::vp9::block::block_spec(f, t, row, col, bs).above,
            col,
            col + side,
        ),
        only_adds(t.blocks, crate::vp9::block::block_spec(f, t, row, col, bs).blocks),
        col + side <= f.cols ==> grid_kept(
            t.grid,
            crate::vp9::block::block_spec(f, t, row, col, bs).grid,
            f.cols,
            col,
            col + side,
        ),
{
    if col + side <= f.cols {
        lemma_block_grid(f, t, row, col, bs, side);
    }
    reveal(crate::vp9::block::block_spec);
    let r = crate::vp9::block_modes::modes_spec(f, t, row, col, bs);
    lemma_modes_kept(f, t, row, col, bs, side);
    lemma_coefs_kept(f, r, row, col, bs, side);
    let c = crate::vp9::block::residual_spec(f, r, row, col, bs);
    let b = crate::vp9::block_trace::LeftBehind {
        above: CtxView { coef: c.above, ..r.above },
        left: CtxView { coef: c.left, ..r.left },
        grid: t.grid,
    };
    let skip = crate::vp9::block::counts_as_skipped(r.modes, c, bs);
    lemma_trace_kept(f, b, row, col, bs, r.modes, skip, side);
    lemma_stays_join(f.h, t.above, r.above, b.above, col, col + side);
    let z = crate::vp9::block::block_spec(f, t, row, col, bs);
    lemma_stays_join(f.h, t.above, b.above, z.above, col, col + side);
    assert(z.blocks.take(t.blocks.len() as int) =~= t.blocks);
}

/// The blocks of a level are no wider than the level, and half as wide where it is divided from top
/// to bottom.
proof fn lemma_widths(bl: BlockLevel, bp: BlockPartition)
    requires
        bp != BlockPartition::Split || bl == BlockLevel::Bl8x8,
    ensures
        ({
            let bs = crate::vp9::block::bs_of(bl, bp);
            let n = crate::vp9::block::half_side(bl);
            &&& 0 <= width_4(bs) <= 2 * n
            &&& 0 <= 2 * width_8(bs) <= 2 * n
            &&& bl != BlockLevel::Bl8x8 && bp == BlockPartition::V ==> width_4(bs) <= n && 2
                * width_8(bs) <= n
        }),
{
}

proof fn lemma_even(bl: BlockLevel, col: int)
    requires
        col % (2 * crate::vp9::block::half_side(bl)) == 0,
    ensures
        col % 2 == 0,
        bl != BlockLevel::Bl8x8 ==> col % crate::vp9::block::half_side(bl) == 0 && (col
            + crate::vp9::block::half_side(bl)) % crate::vp9::block::half_side(bl) == 0 && (col
            + crate::vp9::block::half_side(bl)) % 2 == 0,
{
    match bl {
        BlockLevel::Bl64x64 => {
            assert(col % 16 == 0);
        },
        BlockLevel::Bl32x32 => {
            assert(col % 8 == 0);
        },
        BlockLevel::Bl16x16 => {
            assert(col % 4 == 0);
        },
        BlockLevel::Bl8x8 => {
            assert(col % 2 == 0);
        },
    }
}

/// The parts of a block change the context above only in its columns.
proof fn lemma_parts(
    f: TileEnv,
    t: TileState,
    row: int,
    col: int,
    bl: BlockLevel,
    bp: BlockPartition,
)
    requires
        0 <= col < f.cols,
        col % (2 * crate::vp9::block::half_side(bl)) == 0,
        bp != BlockPartition::Split || bl == BlockLevel::Bl8x8,
        covers(t.above, f.cols),
    ensures
        grew(
            f,
            t,
            crate::vp9::block::parts_spec(f, t, row, col, bl, bp),
            col,
            col + 2 * crate::vp9::block::half_side(bl),
        ),
{
    reveal(grew);
    reveal(crate::vp9::block::parts_spec);
    lemma_widths(bl, bp);
    let n = crate::vp9::block::half_side(bl);
    let bs = crate::vp9::block::bs_of(bl, bp);
    let u = crate::vp9::block::block_spec(f, t, row, col, bs);
    let end = col + 2 * n;
    lemma_even(bl, col);
    lemma_block(f, t, row, col, bs, 2 * n);
    if bl == BlockLevel::Bl8x8 || bp == BlockPartition::Whole {
    } else if bp == BlockPartition::H {
        if row + n < f.rows {
            lemma_block(f, u, row + n, col, bs, 2 * n);
            let v = crate::vp9::block::block_spec(f, u, row + n, col, bs);
            lemma_stays_join(f.h, t.above, u.above, v.above, col, end);
            lemma_adds_join(t.blocks, u.blocks, v.blocks);
        }
    } else if col + n < f.cols {
        lemma_block(f, u, row, col + n, bs, n);
        let v = crate::vp9::block::block_spec(f, u, row, col + n, bs);
        lemma_stays_widen(f.h, u.above, v.above, col + n, col + n + n, col, end);
        lemma_stays_join(f.h, t.above, u.above, v.above, col, end);
        lemma_adds_join(t.blocks, u.blocks, v.blocks);
    }
}

/// Whether a state came of another by reading blocks in the columns from `from` up to `to`.
#[verifier::opaque]
pub open spec fn grew(f: TileEnv, t: TileState, u: TileState, from: int, to: int) -> bool {
    &&& stays_in(f.h, t.above, u.above, from, to)
    &&& only_adds(t.blocks, u.blocks)
    &&& covers(u.above, f.cols)
    &&& to <= f.cols ==> grid_kept(t.grid, u.grid, f.cols, from, to)
}

proof fn lemma_grew_join(
    f: TileEnv,
    t: TileState,
    u: TileState,
    v: TileState,
    lo: int,
    hi: int,
    from: int,
    to: int,
)
    requires
        grew(f, t, u, lo, hi),
        grew(f, u, v, from, to),
        lo <= from,
        to <= hi,
    ensures
        grew(f, t, v, lo, hi),
{
    reveal(grew);
    lemma_stays_widen(f.h, u.above, v.above, from, to, lo, hi);
    lemma_stays_join(f.h, t.above, u.above, v.above, lo, hi);
    lemma_adds_join(t.blocks, u.blocks, v.blocks);
}

proof fn lemma_grew_widen(
    f: TileEnv,
    t: TileState,
    u: TileState,
    lo: int,
    hi: int,
    from: int,
    to: int,
)
    requires
        grew(f, t, u, from, to),
        lo <= from,
        to <= hi,
    ensures
        grew(f, t, u, lo, hi),
{
    reveal(grew);
    lemma_stays_widen(f.h, t.above, u.above, from, to, lo, hi);
}

/// A state that grew has the columns that it had.
proof fn lemma_grew_covers(f: TileEnv, t: TileState, u: TileState, from: int, to: int)
    requires
        grew(f, t, u, from, to),
    ensures
        covers(u.above, f.cols),
{
    reveal(grew);
}

/// The quarters of a block change the context above only in its columns.
proof fn lemma_quarters(f: TileEnv, t: TileState, row: int, col: int, n: int, bl: BlockLevel)
    requires
        n == 2 * crate::vp9::block::half_side(bl),
        0 <= col < f.cols,
        col % n == 0,
        covers(t.above, f.cols),
    ensures
        grew(
            f,
            t,
            crate::vp9::block::quarters_spec(f, t, row, col, n, bl),
            col,
            col + 2 * n,
        ),
    decreases 3 - bl.code_spec(), 1int,
{
    reveal(crate::vp9::block::sb_spec);
    reveal(crate::vp9::block::quarters_spec);
    let end = col + 2 * n;
    let right = col + n < f.cols;
    let down = row + n < f.rows;
    assert((col + n) % n == 0) by (nonlinear_arith)
        requires
            col % n == 0,
            n > 0,
    ;
    let u0 = crate::vp9::block::sb_spec(f, t, row, col, bl);
    lemma_sb(f, t, row, col, bl);
    lemma_grew_covers(f, t, u0, col, col + n);
    lemma_grew_widen(f, t, u0, col, end, col, col + n);
    let u1 = if right {
        crate::vp9::block::sb_spec(f, u0, row, col + n, bl)
    } else {
        u0
    };
    if right {
        lemma_sb(f, u0, row, col + n, bl);
        lemma_grew_join(f, t, u0, u1, col, end, col + n, end);
        lemma_grew_covers(f, t, u1, col, end);
    }
    let u2 = if down {
        crate::vp9::block::sb_spec(f, u1, row + n, col, bl)
    } else {
        u1
    };
    if down {
        lemma_sb(f, u1, row + n, col, bl);
        lemma_grew_join(f, t, u1, u2, col, end, col, col + n);
        lemma_grew_covers(f, t, u2, col, end);
    }
    if right && down {
        let u3 = crate::vp9::block::sb_spec(f, u2, row + n, col + n, bl);
        lemma_sb(f, u2, row + n, col + n, bl);
        lemma_grew_join(f, t, u2, u3, col, end, col + n, end);
    }
}

proof fn lemma_sb(f: TileEnv, t: TileState, row: int, col: int, bl: BlockLevel)
    requires
        0 <= col < f.cols,
        col % (2 * crate::vp9::block::half_side(bl)) == 0,
        covers(t.above, f.cols),
    ensures
        grew(
            f,
            t,
            crate::vp9::block::sb_spec(f, t, row, col, bl),
            col,
            col + 2 * crate::vp9::block::half_side(bl),
        ),
    decreases 3 - bl.code_spec(), 0int,
{
    reveal(crate::vp9::block::sb_spec);
    reveal(crate::vp9::block::quarters_spec);
    let n = crate::vp9::block::half_side(bl);
    let a = crate::vp9::block::finer(t.above, col, bl);
    let l = crate::vp9::block::finer(t.left, crate::vp9::block_modes::row7_spec(row), bl);
    let (bp, rac) = crate::vp9::block::partition_spec(
        f,
        t.rac,
        crate::vp9::block::partition_probs(f, bl, a, l),
        bl,
        col + n < f.cols,
        row + n < f.rows,
    );
    let t0 = TileState { rac, ..t };
    lemma_even(bl, col);
    let t1 = if bl == BlockLevel::Bl8x8 || bp != BlockPartition::Split {
        crate::vp9::block::parts_spec(f, t0, row, col, bl, bp)
    } else {
        crate::vp9::block::quarters_spec(f, t0, row, col, n, crate::vp9::block::next_level(bl))
    };
    if bl == BlockLevel::Bl8x8 || bp != BlockPartition::Split {
        lemma_parts(f, t0, row, col, bl, bp);
    } else {
        assert(n == 2 * crate::vp9::block::half_side(crate::vp9::block::next_level(bl)));
        lemma_quarters(f, t0, row, col, n, crate::vp9::block::next_level(bl));
    }
    let r = crate::vp9::block::sb_spec(f, t, row, col, bl);
    assert(r == crate::vp9::block::counted(t1, bl, a + 2 * l, bp));
    lemma_same_growth(f, t, t0, t1, r, col, col + 2 * n);
}

proof fn lemma_same_growth(
    f: TileEnv,
    t: TileState,
    t0: TileState,
    t1: TileState,
    r: TileState,
    from: int,
    to: int,
)
    requires
        t0.above == t.above,
        t0.blocks == t.blocks,
        t0.grid == t.grid,
        r.above == t1.above,
        r.blocks == t1.blocks,
        r.grid == t1.grid,
        grew(f, t0, t1, from, to),
    ensures
        grew(f, t, r, from, to),
{
    reveal(grew);
}

/// Reading a superblock changes the context above only in the columns of the superblock, and only
/// adds blocks. One that does not reach over the right edge of the frame changes the grid of motion
/// vectors only in its columns, too.
pub proof fn law_superblock_stays_in_its_columns(f: TileEnv, t: TileState, row: int, col: int)
    requires
        0 <= col < f.cols,
        col % 16 == 0,
        covers(t.above, f.cols),
    ensures
        stays_in(
            f.h,
            t.above,
            crate::vp9::block::sb_spec(f, t, row, col, BlockLevel::Bl64x64).above,
            col,
            col + 16,
        ),
        only_adds(
            t.blocks,
            crate::vp9::block::sb_spec(f, t, row, col, BlockLevel::Bl64x64).blocks,
        ),
        col + 16 <= f.cols ==> grid_kept(
            t.grid,
            crate::vp9::block::sb_spec(f, t, row, col, BlockLevel::Bl64x64).grid,
            f.cols,
            col,
            col + 16,
        ),
{
    reveal(grew);
    lemma_sb(f, t, row, col, BlockLevel::Bl64x64);
}

proof fn lemma_grew_self(f: TileEnv, t: TileState, from: int, to: int)
    requires
        covers(t.above, f.cols),
    ensures
        grew(f, t, t, from, to),
{
    reveal(grew);
    assert(t.blocks.take(t.blocks.len() as int) =~= t.blocks);
}

proof fn lemma_grew_above(f: TileEnv, t: TileState, u: TileState, from: int, to: int)
    requires
        grew(f, t, u, from, to),
    ensures
        stays_in(f.h, t.above, u.above, from, to),
        to <= f.cols ==> grid_kept(t.grid, u.grid, f.cols, from, to),
{
    reveal(grew);
}

proof fn lemma_cols(f: TileEnv, t: TileState, r: int, c: int, c_end: int, first: int)
    requires
        0 <= first <= c <= c_end <= (f.cols + 15) / 16,
        covers(t.above, f.cols),
    ensures
        grew(
            f,
            t,
            crate::vp9::tiles::sb_cols_spec(f, t, r, c, c_end),
            16 * first,
            16 * c_end,
        ),
    decreases c_end - c,
{
    if c < c_end {
        let u = crate::vp9::block::sb_spec(f, t, 16 * r, 16 * c, BlockLevel::Bl64x64);
        assert((16 * c) % 16 == 0);
        lemma_sb(f, t, 16 * r, 16 * c, BlockLevel::Bl64x64);
        lemma_grew_covers(f, t, u, 16 * c, 16 * c + 16);
        lemma_cols(f, u, r, c + 1, c_end, first);
        let v = crate::vp9::tiles::sb_cols_spec(f, u, r, c + 1, c_end);
        lemma_grew_widen(f, t, u, 16 * first, 16 * c_end, 16 * c, 16 * c + 16);
        lemma_grew_join(f, t, u, v, 16 * first, 16 * c_end, 16 * first, 16 * c_end);
    } else {
        lemma_grew_self(f, t, 16 * first, 16 * c_end);
    }
}

proof fn lemma_rows(f: TileEnv, t: TileState, r: int, r_end: int, c: int, c_end: int)
    requires
        0 <= c <= c_end <= (f.cols + 15) / 16,
        covers(t.above, f.cols),
    ensures
        grew(
            f,
            t,
            crate::vp9::tiles::sb_rows_spec(f, t, r, r_end, c, c_end),
            16 * c,
            16 * c_end,
        ),
    decreases r_end - r,
{
    if r < r_end {
        let u = TileState {
            left: crate::vp9::tiles::left_reset(t.left, crate::vp9::modes::without_refs(f.h)),
            ..t
        };
        let v = crate::vp9::tiles::sb_cols_spec(f, u, r, c, c_end);
        lemma_cols(f, u, r, c, c_end, c);
        lemma_same_growth(f, t, u, v, v, 16 * c, 16 * c_end);
        lemma_grew_covers(f, t, v, 16 * c, 16 * c_end);
        lemma_rows(f, v, r + 1, r_end, c, c_end);
        let w = crate::vp9::tiles::sb_rows_spec(f, v, r + 1, r_end, c, c_end);
        lemma_grew_join(f, t, v, w, 16 * c, 16 * c_end, 16 * c, 16 * c_end);
    } else {
        lemma_grew_self(f, t, 16 * c, 16 * c_end);
    }
}

/// Reading a tile changes the context above only in the columns of the tile: tiles side by side do
/// not disturb each other there. A tile that does not reach over the right edge of the frame changes
/// the grid of motion vectors only in its columns, too.
pub proof fn law_tile_stays_in_its_columns(
    f: TileEnv,
    d: Seq<u8>,
    above: CtxView,
    grid: Seq<MvRefPair>,
    r: int,
    r_end: int,
    c: int,
    c_end: int,
)
    requires
        0 <= c <= c_end <= (f.cols + 15) / 16,
        covers(above, f.cols),
    ensures
        stays_in(
            f.h,
            above,
            crate::vp9::tiles::tile_spec(f, d, above, grid, r, r_end, c, c_end).above,
            16 * c,
            16 * c_end,
        ),
        16 * c_end <= f.cols ==> grid_kept(
            grid,
            crate::vp9::tiles::tile_spec(f, d, above, grid, r, r_end, c, c_end).grid,
            f.cols,
            16 * c,
            16 * c_end,
        ),
{
    let t = TileState {
        rac: crate::vp9::bool_decoder::Rac::init(d).after(128),
        above,
        left: crate::vp9::tiles::left_zero(),
        counts: crate::vp9::prob::zero_counts(),
        grid,
        blocks: Seq::empty(),
    };
    lemma_rows(f, t, r, r_end, c, c_end);
    let u = crate::vp9::tiles::sb_rows_spec(f, t, r, r_end, c, c_end);
    lemma_grew_above(f, t, u, 16 * c, 16 * c_end);
}

} // verus!

//! Tiles of a frame.
use vstd::prelude::*;

use crate::vp9::block::{decode_sb, BlockInfo, TileDecodeContext};
use crate::vp9::block_modes::{BlockView, TileEnv, TileState};
use crate::vp9::bool_decoder::{BoolDecoder, Rac};
use crate::vp9::context::{AboveContext, CtxView, LeftContext};
use crate::vp9::data::Tables;
use crate::vp9::header::{FrameHeader, FrameType};
use crate::vp9::prob::CountContext;
use crate::vp9::refs::MvRefPair;
use crate::vp9::types::{BlockLevel, TxSize};

verus! {

// ---- layout ----

/// The first superblock of a tile, of `2^log2` tiles over `n` superblocks.
pub open spec fn tile_start(tile: int, log2: int, n: int) -> int {
    let s = (tile * n) / crate::vp9::mvs::weight(log2);
    if s > n {
        n
    } else {
        s
    }
}

/// The first superblock of a tile, of `2^log2_tiles` tiles over `n_sbs` superblocks.
pub fn tile_sb_offset(tile_num: usize, log2_tiles: u8, n_sbs: usize) -> (r: usize)
    requires
        log2_tiles <= 10,
        tile_num <= 1024,
        n_sbs <= 1024,
    ensures
        r == tile_start(tile_num as int, log2_tiles as int, n_sbs as int),
        r <= n_sbs,
{
    proof {
        crate::vp9::mvs::lemma_weight(log2_tiles as int);
        assert(0 <= tile_num * n_sbs <= 1024 * 1024) by (nonlinear_arith)
            requires
                0 <= tile_num <= 1024,
                0 <= n_sbs <= 1024,
        ;
    }
    let d: usize = (1u32 << (log2_tiles as u32)) as usize;
    let s: usize = (tile_num * n_sbs) / d;
    if s > n_sbs {
        n_sbs
    } else {
        s
    }
}

/// A number of four bytes, the highest first.
pub open spec fn be32(d: Seq<u8>, at: int) -> int {
    0x100_0000 * d[at] + 0x1_0000 * d[at + 1] + 0x100 * d[at + 2] + d[at + 3]
}

fn read_be32(d: &[u8], at: usize) -> (r: usize)
    requires
        at + 4 <= d@.len(),
    ensures
        r == be32(d@, at as int),
        r <= u32::MAX,
{
    let v: u64 = 0x100_0000 * d[at] as u64 + 0x1_0000 * d[at + 1] as u64 + 0x100 * d[at + 2] as u64
        + d[at + 3] as u64;
    v as usize
}

/// Where the tiles from the number `t` on lie, `pos` being where they are looked for: each
/// but the last has its size in front of it, the last one goes to the end. `None` where
/// one does not lie in the data.
pub open spec fn tile_ranges(d: Seq<u8>, t: int, total: int, pos: int) -> Option<Seq<(int, int)>>
    decreases total - t,
{
    if t >= total {
        Some(Seq::empty())
    } else if t == total - 1 {
        Some(seq![(pos, d.len() as int)])
    } else if pos + 4 > d.len() || pos + 4 + be32(d, pos) > d.len() {
        None
    } else {
        let end = pos + 4 + be32(d, pos);
        match tile_ranges(d, t + 1, total, end) {
            Some(rest) => Some(seq![(pos + 4, end)] + rest),
            None => None,
        }
    }
}

/// The tiles as ranges, as values.
pub open spec fn ranges_view(s: Seq<(usize, usize)>) -> Seq<(int, int)> {
    Seq::new(s.len(), |i: int| (s[i].0 as int, s[i].1 as int))
}

/// Finds the tiles in the data of a frame.
pub fn locate_tiles(d: &[u8], total: usize) -> (r: Option<Vec<(usize, usize)>>)
    requires
        total >= 1,
    ensures
        match r {
            Some(v) => {
                &&& tile_ranges(d@, 0, total as int, 0) == Some(ranges_view(v@))
                &&& v@.len() == total
                &&& forall|i: int|
                    0 <= i < v@.len() ==> (#[trigger] v@[i]).0 <= v@[i].1 <= d@.len()
            },
            None => tile_ranges(d@, 0, total as int, 0) is None,
        },
{
    let mut v: Vec<(usize, usize)> = Vec::new();
    let mut pos: usize = 0;
    let mut t: usize = 0;
    let ghost all = tile_ranges(d@, 0, total as int, 0);
    proof {
        assert(ranges_view(v@) =~= Seq::empty());
        match all {
            Some(a) => {
                assert(ranges_view(v@) + a =~= a);
            },
            None => {},
        }
    }
    while t + 1 < total
        invariant
            t < total,
            pos <= d@.len(),
            v@.len() == t,
            forall|i: int| 0 <= i < v@.len() ==> (#[trigger] v@[i]).0 <= v@[i].1 <= d@.len(),
            all == tile_ranges(d@, 0, total as int, 0),
            match tile_ranges(d@, t as int, total as int, pos as int) {
                Some(rest) => all == Some(ranges_view(v@) + rest),
                None => all is None,
            },
        decreases total - t,
    {
        let len: usize = d.len();
        if len - pos < 4 {
            return None;
        }
        let size: usize = read_be32(d, pos);
        if len - pos - 4 < size {
            return None;
        }
        let end: usize = pos + 4 + size;
        let ghost before = ranges_view(v@);
        v.push((pos + 4, end));
        proof {
            assert(ranges_view(v@) =~= before + seq![(pos + 4, end as int)]);
            match tile_ranges(d@, t + 1, total as int, end as int) {
                Some(rest) => {
                    assert(before + (seq![(pos + 4, end as int)] + rest) =~= ranges_view(v@)
                        + rest);
                },
                None => {},
            }
        }
        pos = end;
        t += 1;
    }
    let ghost before = ranges_view(v@);
    v.push((pos, d.len()));
    proof {
        assert(ranges_view(v@) =~= before + seq![(pos as int, d@.len() as int)]);
    }
    Some(v)
}

// ---- contexts ----

/// The context on the left at the start of a tile.
pub open spec fn left_zero() -> CtxView {
    CtxView {
        partition: crate::vp9::context::fill(0u8, 8),
        skip: crate::vp9::context::fill(0u8, 8),
        tx_size: crate::vp9::context::fill(0u8, 8),
        y_mode: crate::vp9::context::fill(0u8, 16),
        uv_mode: crate::vp9::context::fill(0u8, 16),
        seg_id: crate::vp9::context::fill(0u8, 8),
        coef: crate::vp9::context::fill(crate::vp9::context::fill(0u8, 16), 3),
        intra: crate::vp9::context::fill(0u8, 8),
        comp: crate::vp9::context::fill(0u8, 8),
        ref_frame: crate::vp9::context::fill(0u8, 8),
        filter: crate::vp9::context::fill(0u8, 8),
        mv: crate::vp9::context::fill(crate::vp9::context::zero_mvs(), 16),
    }
}

/// The context on the left at the start of a row of superblocks.
pub open spec fn left_reset(l: CtxView, without_refs: bool) -> CtxView {
    CtxView {
        partition: crate::vp9::context::fill(0u8, 8),
        skip: crate::vp9::context::fill(0u8, 8),
        seg_id: crate::vp9::context::fill(0u8, 8),
        y_mode: if without_refs {
            crate::vp9::context::fill(2u8, 16)
        } else {
            crate::vp9::context::splat(l.y_mode, 0, 8, 10u8)
        },
        coef: crate::vp9::context::fill(crate::vp9::context::fill(0u8, 16), 3),
        ..l
    }
}

fn new_left() -> (r: LeftContext)
    ensures
        r@ == left_zero(),
        crate::vp9::context::ctx_wf(r@),
{
    let r = LeftContext::new();
    assert(r@.coef =~= left_zero().coef);
    assert(r@ =~= left_zero());
    r
}

fn reset_left(left: &mut LeftContext, without_refs: bool)
    requires
        crate::vp9::context::ctx_wf(old(left)@),
    ensures
        final(left)@ == left_reset(old(left)@, without_refs),
        crate::vp9::context::ctx_wf(final(left)@),
{
    let ghost l0 = left@;
    left.reset(without_refs);
    assert(left@.coef =~= left_reset(l0, without_refs).coef);
    assert(left@ =~= left_reset(l0, without_refs));
}

// ---- one tile ----

/// The state of a tile behind the superblocks from column `c` on in a row.
pub open spec fn sb_cols_spec(f: TileEnv, t: TileState, r: int, c: int, c_end: int) -> TileState
    decreases c_end - c,
{
    if c >= c_end {
        t
    } else {
        sb_cols_spec(
            f,
            crate::vp9::block::sb_spec(f, t, 16 * r, 16 * c, BlockLevel::Bl64x64),
            r,
            c + 1,
            c_end,
        )
    }
}

/// The state of a tile behind the superblocks from row `r` on.
pub open spec fn sb_rows_spec(
    f: TileEnv,
    t: TileState,
    r: int,
    r_end: int,
    c: int,
    c_end: int,
) -> TileState
    decreases r_end - r,
{
    if r >= r_end {
        t
    } else {
        let u = TileState {
            left: left_reset(t.left, crate::vp9::modes::without_refs(f.h)),
            ..t
        };
        sb_rows_spec(f, sb_cols_spec(f, u, r, c, c_end), r + 1, r_end, c, c_end)
    }
}

/// Whether the data of a tile begins as it has to: there is some, and the first bit is not
/// set.
pub open spec fn tile_begins(d: Seq<u8>) -> bool {
    d.len() > 0 && !Rac::init(d).bit(128)
}

/// The state of a tile behind its data.
pub open spec fn tile_spec(
    f: TileEnv,
    d: Seq<u8>,
    above: CtxView,
    grid: Seq<MvRefPair>,
    r: int,
    r_end: int,
    c: int,
    c_end: int,
) -> TileState {
    sb_rows_spec(
        f,
        TileState {
            rac: Rac::init(d).after(128),
            above,
            left: left_zero(),
            counts: crate::vp9::prob::zero_counts(),
            grid,
            blocks: Seq::empty(),
        },
        r,
        r_end,
        c,
        c_end,
    )
}

/// What holds of a block that was read in a frame.
pub open spec fn block_ok(h: FrameHeader, rows: int, cols: int, b: BlockView) -> bool {
    &&& crate::vp9::block_modes::block_wf(b)
    &&& b.row < rows
    &&& b.col < cols
    &&& 0 <= b.tile_col_start <= 16384
    &&& h.lossless ==> b.tx_size == TxSize::Tx4x4 && b.uv_tx_size == TxSize::Tx4x4
}

/// What is needed to read the tiles of a frame.
pub open spec fn frame_wf(
    h: FrameHeader,
    tables: Tables,
    above: AboveContext,
    grid: Seq<MvRefPair>,
    prev: Option<Seq<MvRefPair>>,
    prev_cols: int,
) -> bool {
    let cols = (h.width + 3) / 4;
    let rows = (h.height + 3) / 4;
    &&& crate::vp9::header::header_wf(h)
    &&& tables.wf()
    &&& crate::vp9::context::ctx_wf(above@)
    &&& forall|p: int| 0 <= p < 3 ==> cols <= #[trigger] above.coef@[p]@.len()
    &&& rows * cols <= grid.len()
    &&& crate::vp9::mvs::grid_wf(grid)
    &&& prev matches Some(p) ==> crate::vp9::mvs::grid_wf(p)
    &&& rows * prev_cols + cols <= usize::MAX
}

/// Reads a tile: the superblocks of the rows from `r` up to `r_end`, and the columns from
/// `c` up to `c_end`.
#[verifier::rlimit(100)]
pub(crate) fn decode_tile_column(
    data: &[u8],
    header: &FrameHeader,
    tables: &Tables,
    above: &mut AboveContext,
    cur_mv_grid: &mut [MvRefPair],
    prev_mv_grid: Option<&[MvRefPair]>,
    prev_cols_4x4: usize,
    r: usize,
    r_end: usize,
    c: usize,
    c_end: usize,
    Ghost(f): Ghost<TileEnv>,
) -> (out: Option<(Vec<BlockInfo>, CountContext)>)
    requires
        frame_wf(
            *header,
            *tables,
            *old(above),
            old(cur_mv_grid)@,
            f.prev,
            prev_cols_4x4 as int,
        ),
        r_end <= (f.rows + 15) / 16,
        c_end <= (f.cols + 15) / 16,
        c <= 1024,
        f == (TileEnv {
            h: *header,
            tables: *tables,
            rows: (header.height + 3) / 4,
            cols: (header.width + 3) / 4,
            tile_col_start: 16 * c,
            prev: match prev_mv_grid {
                Some(p) => Some(p@),
                None => None,
            },
            prev_cols: prev_cols_4x4 as int,
            sign_bias: header.sign_bias,
        }),
    ensures
        frame_wf(
            *header,
            *tables,
            *final(above),
            final(cur_mv_grid)@,
            f.prev,
            prev_cols_4x4 as int,
        ),
        final(cur_mv_grid)@.len() == old(cur_mv_grid)@.len(),
        match out {
            None => !tile_begins(data@),
            Some((blocks, counts)) => {
                let t = tile_spec(
                    f,
                    data@,
                    old(above)@,
                    old(cur_mv_grid)@,
                    r as int,
                    r_end as int,
                    c as int,
                    c_end as int,
                );
                &&& tile_begins(data@)
                &&& crate::vp9::block_modes::block_views(blocks@) == t.blocks
                &&& counts@ == t.counts
                &&& final(above)@ == t.above
                &&& final(cur_mv_grid)@ == t.grid
                &&& forall|i: int|
                    0 <= i < blocks@.len() ==> block_ok(
                        *header,
                        f.rows,
                        f.cols,
                        #[trigger] blocks@[i]@,
                    )
            },
        },
{
    let mut bd = match BoolDecoder::new(data) {
        None => return None,
        Some(bd) => bd,
    };
    if bd.get_prob(128) {
        return None;
    }
    let without_refs = header.frame_type == FrameType::KeyFrame || header.intra_only;
    let mut left = new_left();
    let ghost above0 = above@;
    let ghost grid0 = cur_mv_grid@;
    let mut td = TileDecodeContext::new(
        bd,
        header,
        tables,
        above,
        &mut left,
        c * 16,
        cur_mv_grid,
        prev_mv_grid,
        prev_cols_4x4,
    );
    let ghost t0 = td.state();
    proof {
        assert(td.env() == f);
        assert(t0.blocks =~= Seq::<BlockView>::empty());
        assert(td.wf());
    }
    let ghost td0 = td;
    let mut row: usize = r;
    while row < r_end
        invariant
            td.wf(),
            td.env() == f,
            td.header == header,
            td.cols_4x4 == f.cols,
            td.rows_4x4 == f.rows,
            r_end <= (f.rows + 15) / 16,
            c_end <= (f.cols + 15) / 16,
            f.h == *header,
            f.rows <= 16384,
            f.cols <= 16384,
            td.cur_mv_grid@.len() == grid0.len(),
            without_refs == crate::vp9::modes::without_refs(*header),
            sb_rows_spec(f, td.state(), row as int, r_end as int, c as int, c_end as int)
                == sb_rows_spec(f, t0, r as int, r_end as int, c as int, c_end as int),
            *final(td.above) == *final(td0.above),
            *final(td.left) == *final(td0.left),
            final(td.cur_mv_grid)@ == final(td0.cur_mv_grid)@,
        decreases r_end - row,
    {
        let ghost before = td.state();
        reset_left(td.left, without_refs);
        let ghost u = TileState { left: left_reset(before.left, without_refs), ..before };
        assert(td.state() == u);
        let mut col: usize = c;
        while col < c_end
            invariant
                td.wf(),
                td.env() == f,
                td.header == header,
                td.cols_4x4 == f.cols,
                td.rows_4x4 == f.rows,
                row < r_end <= (f.rows + 15) / 16,
                c_end <= (f.cols + 15) / 16,
                f.rows <= 16384,
                f.cols <= 16384,
                td.cur_mv_grid@.len() == grid0.len(),
                sb_cols_spec(f, td.state(), row as int, col as int, c_end as int)
                    == sb_cols_spec(f, u, row as int, c as int, c_end as int),
                *final(td.above) == *final(td0.above),
                *final(td.left) == *final(td0.left),
                final(td.cur_mv_grid)@ == final(td0.cur_mv_grid)@,
            decreases c_end - col,
        {
            let _ = decode_sb(&mut td, row * 16, col * 16, BlockLevel::Bl64x64);
            col += 1;
        }
        row += 1;
    }
    let TileDecodeContext { blocks, counts, .. } = td;
    Some((blocks, counts))
}

} // verus!

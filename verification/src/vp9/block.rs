//! Reading of blocks: the partition of superblocks, and the modes and coefficients of
//! each block.
use vstd::prelude::*;

use crate::error::Error;
use crate::vp9::block_coefs::{decode_coeffs, zero_nnz_ctx, BlockCoded};
use crate::vp9::block_modes::{decode_modes, BlockModes, BlockView, ModesRead, ModesView, TileEnv, TileState};
use crate::vp9::block_trace::{update_ctx, LeftBehind};
use crate::vp9::bool_decoder::BoolDecoder;
use crate::vp9::coefs::get_or;
use crate::vp9::context::{AboveContext, CtxView, LeftContext};
use crate::vp9::data::{Tables, BWH_TAB, PARTITION_TREE};
use crate::vp9::header::{FrameHeader, FrameType};
use crate::vp9::modes::is_sub8x8;
use crate::vp9::prob::{bump4, CountContext, CountView};
use crate::vp9::refs::MvRefPair;
use crate::vp9::types::{BlockLevel, BlockPartition, BlockSize, TxSize};

pub use crate::vp9::block_modes::BlockInfo;

verus! {

/// Whether every coefficient is zero.
pub open spec fn all_zero(s: Seq<i32>) -> bool {
    forall|i: int| 0 <= i < s.len() ==> #[trigger] s[i] == 0
}

fn is_all_zero(s: &Vec<i32>) -> (r: bool)
    ensures
        r == all_zero(s@),
{
    let mut i: usize = 0;
    while i < s.len()
        invariant
            i <= s@.len(),
            forall|k: int| 0 <= k < i ==> #[trigger] s@[k] == 0,
        decreases s@.len() - i,
    {
        if s[i] != 0 {
            return false;
        }
        i += 1;
    }
    true
}

/// The coefficients of a block, or none where it is skipped.
pub open spec fn residual_spec(
    f: TileEnv,
    r: ModesRead,
    row: int,
    col: int,
    bs: BlockSize,
) -> BlockCoded {
    if r.modes.skip {
        let k = bs.code_spec() as int;
        BlockCoded {
            y: Seq::empty(),
            u: Seq::empty(),
            v: Seq::empty(),
            rac: r.rac,
            counts: r.counts,
            above: crate::vp9::block_coefs::cleared(
                r.above.coef,
                col,
                BWH_TAB@[1]@[k]@[0] as int,
                f.h.subsampling_x,
            ),
            left: crate::vp9::block_coefs::cleared(
                r.left.coef,
                row % 16,
                BWH_TAB@[1]@[k]@[1] as int,
                f.h.subsampling_y,
            ),
        }
    } else {
        crate::vp9::block_coefs::coeffs_spec(
            f,
            r.modes,
            r.rac,
            r.counts,
            r.above.coef,
            r.left.coef,
            row,
            col,
            bs,
        )
    }
}

/// Whether a block counts as skipped: it says so, or it is an inter block of at least
/// 8x8 pixels with coefficients that are all zero.
pub open spec fn counts_as_skipped(m: ModesView, c: BlockCoded, bs: BlockSize) -> bool {
    m.skip || (!m.is_intra && !crate::vp9::modes::sub8x8(bs) && all_zero(c.y) && all_zero(c.u)
        && all_zero(c.v))
}

/// The state of a tile behind a block.
#[verifier::opaque]
pub open spec fn block_spec(f: TileEnv, t: TileState, row: int, col: int, bs: BlockSize) -> TileState {
    let r = crate::vp9::block_modes::modes_spec(f, t, row, col, bs);
    let m = r.modes;
    let c = residual_spec(f, r, row, col, bs);
    let skip = counts_as_skipped(m, c, bs);
    let b = crate::vp9::block_trace::left_behind(
        f.h,
        f.cols,
        LeftBehind {
            above: CtxView { coef: c.above, ..r.above },
            left: CtxView { coef: c.left, ..r.left },
            grid: t.grid,
        },
        row,
        col,
        bs,
        m,
        skip,
    );
    TileState {
        rac: c.rac,
        above: b.above,
        left: b.left,
        counts: c.counts,
        grid: b.grid,
        blocks: t.blocks.push(
            BlockView {
                row,
                col,
                bs,
                tx_size: m.tx_size,
                uv_tx_size: m.uv_tx_size,
                y_mode: m.y_mode,
                uv_mode: m.uv_mode,
                skip,
                segment_id: m.segment_id,
                tile_col_start: f.tile_col_start,
                is_inter: !m.is_intra,
                comp: m.comp,
                ref_frame: m.ref_frame,
                inter_mode: m.inter_mode,
                mv: m.mv,
                filter: m.filter,
                coefs_y: c.y,
                coefs_u: c.u,
                coefs_v: c.v,
            },
        ),
    }
}

/// What is needed to read the blocks of a tile.
pub struct TileDecodeContext<'a> {
    pub bd: BoolDecoder<'a>,
    pub header: &'a FrameHeader,
    pub tables: &'a Tables,
    pub above: &'a mut AboveContext,
    pub left: &'a mut LeftContext,
    /// Symbols counted in this tile.
    pub counts: CountContext,
    /// Blocks read so far.
    pub blocks: Vec<BlockInfo>,
    pub sb_cols: usize,
    pub sb_rows: usize,
    /// Size of the frame in units of 4 pixels.
    pub rows_4x4: usize,
    pub cols_4x4: usize,
    /// First column of the tile, in units of 4 pixels.
    pub tile_col_start: usize,
    /// Motion vectors of the frame so far, one entry for each 4x4 block.
    pub cur_mv_grid: &'a mut [MvRefPair],
    /// Motion vectors of the last frame.
    pub prev_mv_grid: Option<&'a [MvRefPair]>,
    /// Columns of 4 pixels of the last frame.
    pub prev_cols_4x4: usize,
    pub sign_bias: [bool; 3],
}

impl<'a> TileDecodeContext<'a> {
    /// What the blocks have in common.
    pub open spec fn env(self) -> TileEnv {
        TileEnv {
            h: *self.header,
            tables: *self.tables,
            rows: self.rows_4x4 as int,
            cols: self.cols_4x4 as int,
            tile_col_start: self.tile_col_start as int,
            prev: match self.prev_mv_grid {
                Some(p) => Some(p@),
                None => None,
            },
            prev_cols: self.prev_cols_4x4 as int,
            sign_bias: self.sign_bias,
        }
    }

    /// What the blocks change.
    pub open spec fn state(self) -> TileState {
        TileState {
            rac: self.bd@,
            above: self.above@,
            left: self.left@,
            counts: self.counts@,
            grid: self.cur_mv_grid@,
            blocks: crate::vp9::block_modes::block_views(self.blocks@),
        }
    }

    /// What holds of the blocks that were read.
    pub open spec fn block_ok(self, b: BlockView) -> bool {
        &&& crate::vp9::block_modes::block_wf(b)
        &&& b.row < self.rows_4x4
        &&& b.col < self.cols_4x4
        &&& b.tile_col_start == self.tile_col_start
        &&& self.header.lossless ==> b.tx_size == TxSize::Tx4x4 && b.uv_tx_size == TxSize::Tx4x4
        &&& crate::vp9::modes::without_refs(*self.header) ==> !b.is_inter
    }

    /// Whether blocks can be read.
    pub open spec fn wf(self) -> bool {
        &&& self.bd@.wf()
        &&& crate::vp9::header::header_wf(*self.header)
        &&& self.tables.wf()
        &&& self.rows_4x4 <= 16384
        &&& self.cols_4x4 <= 16384
        &&& crate::vp9::context::ctx_wf(self.above@)
        &&& crate::vp9::context::ctx_wf(self.left@)
        &&& forall|p: int| 0 <= p < 3 ==> self.cols_4x4 <= #[trigger] self.above.coef@[p]@.len()
        &&& self.rows_4x4 * self.cols_4x4 <= self.cur_mv_grid@.len()
        &&& crate::vp9::mvs::grid_wf(self.cur_mv_grid@)
        &&& self.prev_mv_grid matches Some(p) ==> crate::vp9::mvs::grid_wf(p@)
        &&& self.rows_4x4 * self.prev_cols_4x4 + self.cols_4x4 <= usize::MAX
        &&& forall|i: int|
            0 <= i < self.blocks@.len() ==> self.block_ok(#[trigger] self.blocks@[i]@)
    }

    /// What stays as it is while blocks are read.
    pub open spec fn same_tile(self, other: TileDecodeContext) -> bool {
        &&& self.env() == other.env()
        &&& self.header == other.header
        &&& self.tables == other.tables
        &&& self.prev_mv_grid == other.prev_mv_grid
        &&& self.sb_cols == other.sb_cols
        &&& self.sb_rows == other.sb_rows
        &&& self.cur_mv_grid@.len() == other.cur_mv_grid@.len()
    }
}

/// Reads a block.
#[verifier::rlimit(100)]
fn decode_block(td: &mut TileDecodeContext<'_>, row: usize, col: usize, bs: BlockSize)
    requires
        old(td).wf(),
        row < old(td).rows_4x4,
        col < old(td).cols_4x4,
        row + BWH_TAB@[0]@[bs.code_spec() as int]@[1] <= old(td).rows_4x4 + 7,
        col + BWH_TAB@[0]@[bs.code_spec() as int]@[0] <= old(td).cols_4x4 + 7,
    ensures
        final(td).wf(),
        final(td).same_tile(*old(td)),
        final(td).state() == block_spec(
            old(td).env(),
            old(td).state(),
            row as int,
            col as int,
            bs,
        ),
        *final(final(td).above) == *final(old(td).above),
        *final(final(td).left) == *final(old(td).left),
        final(final(td).cur_mv_grid)@ == final(old(td).cur_mv_grid)@,
{
    let ghost f = td.env();
    let ghost t = td.state();
    proof {
        reveal(block_spec);
        assert(row * td.prev_cols_4x4 <= td.rows_4x4 * td.prev_cols_4x4) by (nonlinear_arith)
            requires
                row <= td.rows_4x4,
                0 <= td.prev_cols_4x4,
        ;
    }
    let m: BlockModes = decode_modes(
        &mut td.bd,
        &mut td.counts,
        td.header,
        td.tables,
        td.rows_4x4,
        td.cols_4x4,
        td.tile_col_start,
        td.sign_bias,
        td.cur_mv_grid,
        td.prev_mv_grid,
        td.prev_cols_4x4,
        td.above,
        td.left,
        row,
        col,
        bs,
        Ghost(f),
        Ghost(t),
    );
    let ghost r = crate::vp9::block_modes::modes_spec(f, t, row as int, col as int, bs);
    proof {
        assert forall|p: int| 0 <= p < 3 implies td.cols_4x4
            <= #[trigger] td.above.coef@[p]@.len() by {
            assert(td.above@.coef[p] == td.above.coef@[p]@);
            assert(t.above.coef[p] == old(td).above.coef@[p]@);
        }
    }
    let k: usize = bs.code() as usize;
    let w8: usize = BWH_TAB[1][k][0] as usize;
    let h8: usize = BWH_TAB[1][k][1] as usize;
    let y: Vec<i32>;
    let u: Vec<i32>;
    let v: Vec<i32>;
    if m.skip {
        zero_nnz_ctx(
            td.above,
            td.left,
            col,
            row,
            w8,
            h8,
            td.header.subsampling_x,
            td.header.subsampling_y,
        );
        y = Vec::new();
        u = Vec::new();
        v = Vec::new();
        assert(y@ =~= Seq::<i32>::empty());
    } else {
        let c = decode_coeffs(
            &mut td.bd,
            &mut td.counts,
            td.header,
            td.tables,
            td.rows_4x4,
            td.cols_4x4,
            td.above,
            td.left,
            row,
            col,
            bs,
            &m,
            Ghost(f),
        );
        y = c.0;
        u = c.1;
        v = c.2;
    }
    let ghost c = residual_spec(f, r, row as int, col as int, bs);
    let skip = m.skip || (!m.is_intra && !is_sub8x8(bs) && is_all_zero(&y) && is_all_zero(&u)
        && is_all_zero(&v));
    update_ctx(
        td.header,
        td.above,
        td.left,
        td.cur_mv_grid,
        td.cols_4x4,
        row,
        col,
        bs,
        &m,
        skip,
    );
    let b = BlockInfo {
        row,
        col,
        bs,
        tx_size: m.tx_size,
        uv_tx_size: m.uv_tx_size,
        y_mode: m.y_mode,
        uv_mode: m.uv_mode,
        skip,
        segment_id: m.segment_id,
        tile_col_start: td.tile_col_start,
        is_inter: !m.is_intra,
        comp: m.comp,
        ref_frame: m.ref_frame,
        inter_mode: m.inter_mode,
        mv: m.mv,
        filter: m.filter,
        coefs_y: y,
        coefs_u: u,
        coefs_v: v,
    };
    let ghost before = td.blocks@;
    td.blocks.push(b);
    assert(crate::vp9::block_modes::block_views(td.blocks@) =~= crate::vp9::block_modes::block_views(before).push(b@));
}

impl<'a> TileDecodeContext<'a> {
    /// What is needed to read the blocks of a tile that starts at `tile_col_start`.
    pub fn new(
        bd: BoolDecoder<'a>,
        header: &'a FrameHeader,
        tables: &'a Tables,
        above: &'a mut AboveContext,
        left: &'a mut LeftContext,
        tile_col_start: usize,
        cur_mv_grid: &'a mut [MvRefPair],
        prev_mv_grid: Option<&'a [MvRefPair]>,
        prev_cols_4x4: usize,
    ) -> (r: Self)
        requires
            header.width <= 65536,
            header.height <= 65536,
        ensures
            r.bd == bd,
            r.header == header,
            r.tables == tables,
            *r.above == *old(above),
            *final(r.above) == *final(above),
            *r.left == *old(left),
            *final(r.left) == *final(left),
            r.counts@ == crate::vp9::prob::zero_counts(),
            r.blocks@ == Seq::<BlockInfo>::empty(),
            r.cols_4x4 == (header.width + 3) / 4,
            r.rows_4x4 == (header.height + 3) / 4,
            r.sb_cols == (r.cols_4x4 + 15) / 16,
            r.sb_rows == (r.rows_4x4 + 15) / 16,
            r.tile_col_start == tile_col_start,
            r.cur_mv_grid@ == old(cur_mv_grid)@,
            final(r.cur_mv_grid)@ == final(cur_mv_grid)@,
            r.prev_mv_grid == prev_mv_grid,
            r.prev_cols_4x4 == prev_cols_4x4,
            r.sign_bias == header.sign_bias,
    {
        let cols_4x4: usize = (header.width as usize + 3) / 4;
        let rows_4x4: usize = (header.height as usize + 3) / 4;
        TileDecodeContext {
            bd,
            header,
            tables,
            above,
            left,
            counts: CountContext::default(),
            blocks: Vec::new(),
            sb_cols: (cols_4x4 + 15) / 16,
            sb_rows: (rows_4x4 + 15) / 16,
            rows_4x4,
            cols_4x4,
            tile_col_start,
            cur_mv_grid,
            prev_mv_grid,
            prev_cols_4x4,
            sign_bias: header.sign_bias,
        }
    }
}

/// Half the side of the blocks of a level, in units of 4 pixels.
pub open spec fn half_side(bl: BlockLevel) -> int {
    match bl {
        BlockLevel::Bl64x64 => 8,
        BlockLevel::Bl32x32 => 4,
        BlockLevel::Bl16x16 => 2,
        BlockLevel::Bl8x8 => 1,
    }
}

/// The level below, or the lowest one.
pub open spec fn next_level(bl: BlockLevel) -> BlockLevel {
    match bl {
        BlockLevel::Bl64x64 => BlockLevel::Bl32x32,
        BlockLevel::Bl32x32 => BlockLevel::Bl16x16,
        BlockLevel::Bl16x16 => BlockLevel::Bl8x8,
        BlockLevel::Bl8x8 => BlockLevel::Bl8x8,
    }
}

/// The partition with a code.
pub open spec fn partition_of(v: int) -> BlockPartition {
    match BlockPartition::of_code(v as u8) {
        Ok(p) => p,
        Err(_) => BlockPartition::Split,
    }
}

/// The size of the blocks of a level that is divided in a given way.
pub open spec fn bs_of(bl: BlockLevel, bp: BlockPartition) -> BlockSize {
    match BlockSize::of_code((bl.code_spec() * 3 + bp.code_spec()) as u8) {
        Ok(b) => b,
        Err(_) => BlockSize::Bs4x4,
    }
}

/// Whether the blocks above and on the left are divided finer than a level.
pub open spec fn finer(c: CtxView, at: int, bl: BlockLevel) -> int {
    (crate::vp9::coefs::at_or(c.partition, at, 0) as int / half_side(bl)) % 2
}

/// The probabilities of the partitions of a block.
pub open spec fn partition_probs(f: TileEnv, bl: BlockLevel, a: int, l: int) -> Seq<u8> {
    let k = bl.code_spec() as int;
    if crate::vp9::modes::without_refs(f.h) {
        f.tables.kf_partition@[k]@[a + 2 * l]@
    } else {
        f.h.prob.partition@[k]@[a]@[l]@
    }
}

/// The partition of a block, and the decoder behind it. At the edge of the frame only
/// those that keep in the frame are coded.
pub open spec fn partition_spec(
    f: TileEnv,
    rac: crate::vp9::bool_decoder::Rac,
    p: Seq<u8>,
    bl: BlockLevel,
    right: bool,
    down: bool,
) -> (BlockPartition, crate::vp9::bool_decoder::Rac) {
    if bl == BlockLevel::Bl8x8 || (right && down) {
        (partition_of(rac.symbol(PARTITION_TREE@, p)), rac.after_symbol(PARTITION_TREE@, p))
    } else if right {
        (
            if rac.bit(p[1]) {
                BlockPartition::Split
            } else {
                BlockPartition::H
            },
            rac.after(p[1]),
        )
    } else if down {
        (
            if rac.bit(p[2]) {
                BlockPartition::Split
            } else {
                BlockPartition::V
            },
            rac.after(p[2]),
        )
    } else {
        (BlockPartition::Split, rac)
    }
}

/// The state of a tile behind the parts of a block that is not split, as far as they lie
/// in the frame.
#[verifier::opaque]
pub open spec fn parts_spec(
    f: TileEnv,
    t: TileState,
    row: int,
    col: int,
    bl: BlockLevel,
    bp: BlockPartition,
) -> TileState {
    let n = half_side(bl);
    let bs = bs_of(bl, bp);
    let u = block_spec(f, t, row, col, bs);
    if bl == BlockLevel::Bl8x8 || bp == BlockPartition::Whole {
        u
    } else if bp == BlockPartition::H {
        if row + n < f.rows {
            block_spec(f, u, row + n, col, bs)
        } else {
            u
        }
    } else if col + n < f.cols {
        block_spec(f, u, row, col + n, bs)
    } else {
        u
    }
}

/// The state of a tile behind the quarters of a block, each `n` units wide and of the
/// level `bl`, as far as they lie in the frame.
#[verifier::opaque]
pub open spec fn quarters_spec(
    f: TileEnv,
    t: TileState,
    row: int,
    col: int,
    n: int,
    bl: BlockLevel,
) -> TileState
    decreases 3 - bl.code_spec(), 1int,
{
    let right = col + n < f.cols;
    let down = row + n < f.rows;
    let u0 = sb_spec(f, t, row, col, bl);
    let u1 = if right {
        sb_spec(f, u0, row, col + n, bl)
    } else {
        u0
    };
    let u2 = if down {
        sb_spec(f, u1, row + n, col, bl)
    } else {
        u1
    };
    if right && down {
        sb_spec(f, u2, row + n, col + n, bl)
    } else {
        u2
    }
}

/// The state of a tile behind a block of the partition tree: its parts are read, and
/// then its partition is counted.
#[verifier::opaque]
pub open spec fn sb_spec(f: TileEnv, t: TileState, row: int, col: int, bl: BlockLevel) -> TileState
    decreases 3 - bl.code_spec(), 0int,
{
    let n = half_side(bl);
    let a = finer(t.above, col, bl);
    let l = finer(t.left, crate::vp9::block_modes::row7_spec(row), bl);
    let (bp, rac) = partition_spec(
        f,
        t.rac,
        partition_probs(f, bl, a, l),
        bl,
        col + n < f.cols,
        row + n < f.rows,
    );
    let t0 = TileState { rac, ..t };
    let t1 = if bl == BlockLevel::Bl8x8 || bp != BlockPartition::Split {
        parts_spec(f, t0, row, col, bl, bp)
    } else {
        quarters_spec(f, t0, row, col, n, next_level(bl))
    };
    counted(t1, bl, a + 2 * l, bp)
}

/// A partition is counted.
pub open spec fn counted(t: TileState, bl: BlockLevel, c: int, bp: BlockPartition) -> TileState {
    TileState {
        counts: CountView {
            partition: crate::vp9::prob::bump4_spec(
                t.counts.partition,
                0,
                bl.code_spec() as int,
                c,
                bp.code_spec() as int,
            ),
            ..t.counts
        },
        ..t
    }
}

proof fn lemma_partition_tree()
    ensures
        crate::vp9::bool_decoder::tree_wf(PARTITION_TREE@, 3),
        crate::vp9::bool_decoder::leaves_in(PARTITION_TREE@, 0, 3),
{
}

/// The sides of the blocks of a level.
proof fn lemma_sides(bl: BlockLevel, bp: BlockPartition)
    requires
        bl == BlockLevel::Bl8x8 || bp != BlockPartition::Split,
    ensures
        ({
            let n = half_side(bl);
            let w = BWH_TAB@[0]@[bs_of(bl, bp).code_spec() as int]@[0];
            let h = BWH_TAB@[0]@[bs_of(bl, bp).code_spec() as int]@[1];
            &&& w <= 2 * n
            &&& h <= 2 * n
            &&& bp == BlockPartition::H ==> h <= n
            &&& bp == BlockPartition::V ==> w <= n
        }),
{
}

/// Reads the partition of a block.
fn read_partition(
    bd: &mut BoolDecoder,
    p: &[u8; 3],
    bl: BlockLevel,
    right: bool,
    down: bool,
    Ghost(f): Ghost<TileEnv>,
) -> (r: BlockPartition)
    requires
        old(bd)@.wf(),
    ensures
        final(bd)@.wf(),
        final(bd)@.data == old(bd)@.data,
        (r, final(bd)@) == partition_spec(f, old(bd)@, p@, bl, right, down),
{
    if bl == BlockLevel::Bl8x8 || (right && down) {
        proof {
            lemma_partition_tree();
            crate::vp9::bool_decoder::law_symbol_is_leaf(bd@, PARTITION_TREE@, p@, 0, 3);
        }
        let v: u8 = bd.get_tree(&PARTITION_TREE, p) as u8;
        match BlockPartition::try_from(v) {
            Ok(b) => b,
            Err(_) => BlockPartition::Split,
        }
    } else if right {
        if bd.get_prob(p[1]) {
            BlockPartition::Split
        } else {
            BlockPartition::H
        }
    } else if down {
        if bd.get_prob(p[2]) {
            BlockPartition::Split
        } else {
            BlockPartition::V
        }
    } else {
        BlockPartition::Split
    }
}

fn bs_from_bl_bp(bl: BlockLevel, bp: BlockPartition) -> (r: BlockSize)
    ensures
        r == bs_of(bl, bp),
{
    match BlockSize::try_from(bl.code() * 3 + bp.code()) {
        Ok(b) => b,
        Err(_) => BlockSize::Bs4x4,
    }
}

fn level_below(bl: BlockLevel) -> (r: BlockLevel)
    ensures
        r == next_level(bl),
{
    match bl {
        BlockLevel::Bl64x64 => BlockLevel::Bl32x32,
        BlockLevel::Bl32x32 => BlockLevel::Bl16x16,
        BlockLevel::Bl16x16 => BlockLevel::Bl8x8,
        BlockLevel::Bl8x8 => BlockLevel::Bl8x8,
    }
}

/// Reads the parts of a block that is not split.
fn decode_parts(
    td: &mut TileDecodeContext<'_>,
    row: usize,
    col: usize,
    bl: BlockLevel,
    bp: BlockPartition,
    n: usize,
    right: bool,
    down: bool,
)
    requires
        old(td).wf(),
        row < old(td).rows_4x4,
        col < old(td).cols_4x4,
        bl == BlockLevel::Bl8x8 || bp != BlockPartition::Split,
        n == half_side(bl),
        right == (col + n < old(td).cols_4x4),
        down == (row + n < old(td).rows_4x4),
        bl != BlockLevel::Bl8x8 && bp == BlockPartition::Whole ==> right && down,
        bl != BlockLevel::Bl8x8 && bp == BlockPartition::H ==> right,
        bl != BlockLevel::Bl8x8 && bp == BlockPartition::V ==> down,
    ensures
        final(td).wf(),
        final(td).same_tile(*old(td)),
        final(td).state() == parts_spec(
            old(td).env(),
            old(td).state(),
            row as int,
            col as int,
            bl,
            bp,
        ),
        *final(final(td).above) == *final(old(td).above),
        *final(final(td).left) == *final(old(td).left),
        final(final(td).cur_mv_grid)@ == final(old(td).cur_mv_grid)@,
{
    let bs: BlockSize = bs_from_bl_bp(bl, bp);
    proof {
        reveal(parts_spec);
        lemma_sides(bl, bp);
    }
    decode_block(td, row, col, bs);
    if bl != BlockLevel::Bl8x8 {
        if bp == BlockPartition::H && down {
            decode_block(td, row + n, col, bs);
        } else if bp == BlockPartition::V && right {
            decode_block(td, row, col + n, bs);
        }
    }
}

/// Reads the quarters of a block.
fn decode_quarters(
    td: &mut TileDecodeContext<'_>,
    row: usize,
    col: usize,
    n: usize,
    bl: BlockLevel,
)
    requires
        old(td).wf(),
        row < old(td).rows_4x4,
        col < old(td).cols_4x4,
        n <= 8,
    ensures
        final(td).wf(),
        final(td).same_tile(*old(td)),
        final(td).state() == quarters_spec(
            old(td).env(),
            old(td).state(),
            row as int,
            col as int,
            n as int,
            bl,
        ),
        *final(final(td).above) == *final(old(td).above),
        *final(final(td).left) == *final(old(td).left),
        final(final(td).cur_mv_grid)@ == final(old(td).cur_mv_grid)@,
    decreases 3 - bl.code_spec(), 1int,
{
    proof {
        reveal(sb_spec);
        reveal(quarters_spec);
    }
    let right = col + n < td.cols_4x4;
    let down = row + n < td.rows_4x4;
    decode_node(td, row, col, bl);
    if right {
        decode_node(td, row, col + n, bl);
    }
    if down {
        decode_node(td, row + n, col, bl);
    }
    if right && down {
        decode_node(td, row + n, col + n, bl);
    }
}

/// Counts a partition.
fn count_partition(
    td: &mut TileDecodeContext<'_>,
    bl: BlockLevel,
    c: usize,
    bp: BlockPartition,
)
    requires
        old(td).wf(),
        c < 4,
    ensures
        final(td).wf(),
        final(td).same_tile(*old(td)),
        final(td).state() == counted(old(td).state(), bl, c as int, bp),
        *final(final(td).above) == *final(old(td).above),
        *final(final(td).left) == *final(old(td).left),
        final(final(td).cur_mv_grid)@ == final(old(td).cur_mv_grid)@,
{
    let ghost before = td.counts@;
    bump4(&mut td.counts.partition, 0, bl.code() as usize, c, bp.code() as usize);
    assert(td.counts@ == (CountView { partition: td.counts@.partition, ..before }));
}

/// Reads a block of the partition tree.
fn decode_node(td: &mut TileDecodeContext<'_>, row: usize, col: usize, bl: BlockLevel)
    requires
        old(td).wf(),
        row < old(td).rows_4x4,
        col < old(td).cols_4x4,
    ensures
        final(td).wf(),
        final(td).same_tile(*old(td)),
        final(td).state() == sb_spec(
            old(td).env(),
            old(td).state(),
            row as int,
            col as int,
            bl,
        ),
        *final(final(td).above) == *final(old(td).above),
        *final(final(td).left) == *final(old(td).left),
        final(final(td).cur_mv_grid)@ == final(old(td).cur_mv_grid)@,
    decreases 3 - bl.code_spec(), 0int,
{
    let ghost f = td.env();
    let ghost t = td.state();
    proof {
        reveal(sb_spec);
        reveal(quarters_spec);
    }
    let n: usize = match bl {
        BlockLevel::Bl64x64 => 8,
        BlockLevel::Bl32x32 => 4,
        BlockLevel::Bl16x16 => 2,
        BlockLevel::Bl8x8 => 1,
    };
    let row7: usize = (row / 2) % 8;
    let a: usize = (get_or(td.above.partition.as_slice(), col, 0) as usize / n) % 2;
    let l: usize = (td.left.partition[row7] as usize / n) % 2;
    let c: usize = a + 2 * l;
    let right = col + n < td.cols_4x4;
    let down = row + n < td.rows_4x4;
    let k: usize = bl.code() as usize;
    let p: [u8; 3] = if td.header.frame_type == FrameType::KeyFrame || td.header.intra_only {
        td.tables.kf_partition[k][c]
    } else {
        td.header.prob.partition[k][a][l]
    };
    assert(a == finer(t.above, col as int, bl));
    assert(l == finer(t.left, row7 as int, bl));
    assert(p@ == partition_probs(f, bl, a as int, l as int));
    let bp: BlockPartition = read_partition(&mut td.bd, &p, bl, right, down, Ghost(f));
    assert(td.state() == (TileState { rac: td.bd@, ..t }));
    assert(td.env() == f);
    if bl == BlockLevel::Bl8x8 || bp != BlockPartition::Split {
        decode_parts(td, row, col, bl, bp, n, right, down);
    } else {
        decode_quarters(td, row, col, n, level_below(bl));
    }
    count_partition(td, bl, c, bp);
}

/// Reads a block of the partition tree at (`row`, `col`), in units of 4 pixels. It always
/// succeeds: whatever the bits are, they stand for some blocks.
pub fn decode_sb(td: &mut TileDecodeContext<'_>, row: usize, col: usize, bl: BlockLevel) -> (r:
    Result<(), Error>)
    requires
        old(td).wf(),
        row < old(td).rows_4x4,
        col < old(td).cols_4x4,
    ensures
        r is Ok,
        final(td).wf(),
        final(td).same_tile(*old(td)),
        final(td).state() == sb_spec(
            old(td).env(),
            old(td).state(),
            row as int,
            col as int,
            bl,
        ),
        *final(final(td).above) == *final(old(td).above),
        *final(final(td).left) == *final(old(td).left),
        final(final(td).cur_mv_grid)@ == final(old(td).cur_mv_grid)@,
{
    decode_node(td, row, col, bl);
    Ok(())
}

} // verus!

//! Decoding of whole pictures: tiles, reconstruction and loop filter.
use std::sync::Arc;
use vstd::prelude::*;

use crate::error::Error;
use crate::vp9::block::BlockInfo;
use crate::vp9::block_modes::{BlockView, TileEnv};
use crate::vp9::context::{AboveContext, CtxView};
use crate::vp9::data::Tables;
use crate::vp9::header::{FrameHeader, FrameType};
use crate::vp9::loopfilter::loop_filter_frame;
use crate::vp9::prob::{CountContext, CountView};
use crate::vp9::recon::{
    reconstruct_inter_block, reconstruct_intra_block, FbView, FrameBuffer, FrameDone,
};
use crate::vp9::refs::{MvRefPair, RefFrame};
use crate::vp9::tiles::{decode_tile_column, locate_tiles, tile_sb_offset};

verus! {

// ---- tiles ----

/// What the tiles of a frame give, one behind the other.
pub struct TilesState {
    pub above: CtxView,
    pub grid: Seq<MvRefPair>,
    pub blocks: Seq<BlockView>,
    pub counts: CountView,
    /// Whether each tile begins as it has to.
    pub ok: bool,
}

/// The environment of the tile in column `tc`.
pub open spec fn tile_env(f: TileEnv, tc: int) -> TileEnv {
    TileEnv {
        tile_col_start: 16 * crate::vp9::tiles::tile_start(
            tc,
            f.h.tile_cols_log2 as int,
            (f.cols + 15) / 16,
        ),
        ..f
    }
}

/// The tile in row `tr` and column `tc` is read.
pub open spec fn one_tile(
    f: TileEnv,
    d: Seq<u8>,
    range: (int, int),
    s: TilesState,
    tr: int,
    tc: int,
) -> TilesState {
    let sb_rows = (f.rows + 15) / 16;
    let sb_cols = (f.cols + 15) / 16;
    let rl = f.h.tile_rows_log2 as int;
    let cl = f.h.tile_cols_log2 as int;
    let bytes = d.subrange(range.0, range.1);
    let t = crate::vp9::tiles::tile_spec(
        tile_env(f, tc),
        bytes,
        s.above,
        s.grid,
        crate::vp9::tiles::tile_start(tr, rl, sb_rows),
        crate::vp9::tiles::tile_start(tr + 1, rl, sb_rows),
        crate::vp9::tiles::tile_start(tc, cl, sb_cols),
        crate::vp9::tiles::tile_start(tc + 1, cl, sb_cols),
    );
    if !crate::vp9::tiles::tile_begins(bytes) {
        TilesState { ok: false, ..s }
    } else {
        TilesState {
            above: t.above,
            grid: t.grid,
            blocks: s.blocks + t.blocks,
            counts: crate::vp9::prob::sum_counts(s.counts, t.counts),
            ok: true,
        }
    }
}

/// The tiles from the number `k` on are read, row by row.
pub open spec fn tiles_from(
    f: TileEnv,
    d: Seq<u8>,
    ranges: Seq<(int, int)>,
    n_cols: int,
    s: TilesState,
    k: int,
) -> TilesState
    decreases ranges.len() - k,
{
    if k >= ranges.len() || !s.ok {
        s
    } else {
        tiles_from(
            f,
            d,
            ranges,
            n_cols,
            one_tile(f, d, ranges[k], s, k / n_cols, k % n_cols),
            k + 1,
        )
    }
}

fn power(log2: u8) -> (r: usize)
    requires
        log2 <= 10,
    ensures
        r == crate::vp9::mvs::weight(log2 as int),
        1 <= r <= 1024,
{
    proof {
        crate::vp9::mvs::lemma_weight(log2 as int);
    }
    (1u32 << (log2 as u32)) as usize
}

/// Appends blocks.
fn append_blocks(all: &mut Vec<BlockInfo>, more: Vec<BlockInfo>)
    ensures
        final(all)@ == old(all)@ + more@,
        crate::vp9::block_modes::block_views(final(all)@)
            == crate::vp9::block_modes::block_views(old(all)@)
            + crate::vp9::block_modes::block_views(more@),
{
    let mut more = more;
    let ghost a0 = all@;
    let ghost m0 = more@;
    all.append(&mut more);
    assert(crate::vp9::block_modes::block_views(all@) =~= crate::vp9::block_modes::block_views(a0)
        + crate::vp9::block_modes::block_views(m0));
}

/// Reads the tiles of a frame.
#[verifier::rlimit(100)]
fn decode_tiles(
    d: &[u8],
    ranges: &Vec<(usize, usize)>,
    header: &FrameHeader,
    tables: &Tables,
    above: &mut AboveContext,
    grid: &mut [MvRefPair],
    prev: Option<&[MvRefPair]>,
    prev_cols: usize,
    Ghost(f): Ghost<TileEnv>,
) -> (out: Option<(Vec<BlockInfo>, CountContext)>)
    requires
        crate::vp9::tiles::frame_wf(
            *header,
            *tables,
            *old(above),
            old(grid)@,
            f.prev,
            prev_cols as int,
        ),
        f == (TileEnv {
            h: *header,
            tables: *tables,
            rows: (header.height + 3) / 4,
            cols: (header.width + 3) / 4,
            tile_col_start: 0,
            prev: match prev {
                Some(p) => Some(p@),
                None => None,
            },
            prev_cols: prev_cols as int,
            sign_bias: header.sign_bias,
        }),
        ranges@.len() == crate::vp9::mvs::weight(header.tile_rows_log2 as int)
            * crate::vp9::mvs::weight(header.tile_cols_log2 as int),
        forall|i: int|
            0 <= i < ranges@.len() ==> (#[trigger] ranges@[i]).0 <= ranges@[i].1 <= d@.len(),
    ensures
        final(grid)@.len() == old(grid)@.len(),
        crate::vp9::mvs::grid_wf(final(grid)@),
        ({
            let s = tiles_from(
                f,
                d@,
                crate::vp9::tiles::ranges_view(ranges@),
                crate::vp9::mvs::weight(header.tile_cols_log2 as int),
                TilesState {
                    above: old(above)@,
                    grid: old(grid)@,
                    blocks: Seq::empty(),
                    counts: crate::vp9::prob::zero_counts(),
                    ok: true,
                },
                0,
            );
            match out {
                None => !s.ok,
                Some((blocks, counts)) => {
                    &&& s.ok
                    &&& crate::vp9::block_modes::block_views(blocks@) == s.blocks
                    &&& counts@ == s.counts
                    &&& final(grid)@ == s.grid
                    &&& forall|i: int|
                        0 <= i < blocks@.len() ==> crate::vp9::tiles::block_ok(
                            *header,
                            f.rows,
                            f.cols,
                            #[trigger] blocks@[i]@,
                        )
                },
            }
        }),
{
    let n_cols: usize = power(header.tile_cols_log2);
    let n_rows: usize = power(header.tile_rows_log2);
    let sb_rows: usize = ((header.height as usize + 3) / 4 + 15) / 16;
    let sb_cols: usize = ((header.width as usize + 3) / 4 + 15) / 16;
    let mut blocks: Vec<BlockInfo> = Vec::new();
    let mut counts: CountContext = CountContext::default();
    let ghost rv = crate::vp9::tiles::ranges_view(ranges@);
    let ghost s0 = TilesState {
        above: above@,
        grid: grid@,
        blocks: Seq::empty(),
        counts: crate::vp9::prob::zero_counts(),
        ok: true,
    };
    let ghost glen = grid@.len();
    proof {
        assert(crate::vp9::block_modes::block_views(blocks@) =~= s0.blocks);
    }
    let mut k: usize = 0;
    while k < ranges.len()
        invariant
            k <= ranges@.len(),
            1 <= n_cols <= 1024,
            n_cols == crate::vp9::mvs::weight(header.tile_cols_log2 as int),
            1 <= n_rows <= 1024,
            ranges@.len() == n_rows * n_cols,
            sb_rows == (f.rows + 15) / 16,
            sb_cols == (f.cols + 15) / 16,
            sb_rows <= 1024,
            sb_cols <= 1024,
            header.tile_cols_log2 <= 9,
            header.tile_rows_log2 <= 2,
            n_rows == crate::vp9::mvs::weight(header.tile_rows_log2 as int),
            crate::vp9::tiles::frame_wf(
                *header,
                *tables,
                *above,
                grid@,
                f.prev,
                prev_cols as int,
            ),
            f == (TileEnv {
                h: *header,
                tables: *tables,
                rows: (header.height + 3) / 4,
                cols: (header.width + 3) / 4,
                tile_col_start: 0,
                prev: match prev {
                    Some(p) => Some(p@),
                    None => None,
                },
                prev_cols: prev_cols as int,
                sign_bias: header.sign_bias,
            }),
            forall|i: int|
                0 <= i < ranges@.len() ==> (#[trigger] ranges@[i]).0 <= ranges@[i].1 <= d@.len(),
            rv == crate::vp9::tiles::ranges_view(ranges@),
            grid@.len() == glen,
            glen == old(grid)@.len(),
            s0 == (TilesState {
                above: old(above)@,
                grid: old(grid)@,
                blocks: Seq::empty(),
                counts: crate::vp9::prob::zero_counts(),
                ok: true,
            }),
            forall|i: int|
                0 <= i < blocks@.len() ==> crate::vp9::tiles::block_ok(
                    *header,
                    f.rows,
                    f.cols,
                    #[trigger] blocks@[i]@,
                ),
            tiles_from(
                f,
                d@,
                rv,
                n_cols as int,
                TilesState {
                    above: above@,
                    grid: grid@,
                    blocks: crate::vp9::block_modes::block_views(blocks@),
                    counts: counts@,
                    ok: true,
                },
                k as int,
            ) == tiles_from(f, d@, rv, n_cols as int, s0, 0),
        decreases ranges@.len() - k,
    {
        let tr: usize = k / n_cols;
        let tc: usize = k % n_cols;
        proof {
            assert(tr < n_rows) by (nonlinear_arith)
                requires
                    tr == k / n_cols,
                    k < n_rows * n_cols,
                    n_cols >= 1,
            ;
        }
        let r: usize = tile_sb_offset(tr, header.tile_rows_log2, sb_rows);
        let r_end: usize = tile_sb_offset(tr + 1, header.tile_rows_log2, sb_rows);
        let c: usize = tile_sb_offset(tc, header.tile_cols_log2, sb_cols);
        let c_end: usize = tile_sb_offset(tc + 1, header.tile_cols_log2, sb_cols);
        let bytes: &[u8] = vstd::slice::slice_subrange(d, ranges[k].0, ranges[k].1);
        let ghost e = tile_env(f, tc as int);
        let ghost cur = TilesState {
            above: above@,
            grid: grid@,
            blocks: crate::vp9::block_modes::block_views(blocks@),
            counts: counts@,
            ok: true,
        };
        let ghost next = one_tile(f, d@, rv[k as int], cur, tr as int, tc as int);
        assert(bytes@ == d@.subrange(rv[k as int].0, rv[k as int].1));
        let got = decode_tile_column(
            bytes,
            header,
            tables,
            above,
            grid,
            prev,
            prev_cols,
            r,
            r_end,
            c,
            c_end,
            Ghost(e),
        );
        match got {
            None => {
                assert(!next.ok);
                assert(tiles_from(f, d@, rv, n_cols as int, next, k + 1) == next);
                return None;
            },
            Some((b, n)) => {
                append_blocks(&mut blocks, b);
                counts.merge(&n);
            },
        }
        k += 1;
    }
    Some((blocks, counts))
}

// ---- reconstruction ----

/// A frame behind the blocks from the number `i` on, as long as everything is there.
pub open spec fn recon_from(
    fb: FbView,
    blocks: Seq<BlockView>,
    h: FrameHeader,
    slots: Seq<Option<Arc<RefFrame>>>,
    subpel: [[[i16; 8]; 16]; 4],
    i: int,
) -> FrameDone
    decreases blocks.len() - i,
{
    if i >= blocks.len() {
        FrameDone { fb, ok: true }
    } else {
        let b = blocks[i];
        let d = if b.is_inter {
            crate::vp9::recon::inter_block_spec(fb, b, h, slots, subpel)
        } else {
            crate::vp9::recon::intra_block_spec(fb, b, h, b.tile_col_start)
        };
        if d.ok {
            recon_from(d.fb, blocks, h, slots, subpel, i + 1)
        } else {
            d
        }
    }
}

fn reconstruct(
    fb: &mut FrameBuffer,
    blocks: &Vec<BlockInfo>,
    header: &FrameHeader,
    slots: &[Option<Arc<RefFrame>>; 8],
    subpel: &[[[i16; 8]; 16]; 4],
) -> (ok: bool)
    requires
        old(fb).wf(),
        crate::vp9::header::header_wf(*header),
        forall|i: int|
            0 <= i < blocks@.len() ==> crate::vp9::tiles::block_ok(
                *header,
                (header.height + 3) / 4,
                (header.width + 3) / 4,
                #[trigger] blocks@[i]@,
            ),
    ensures
        (FrameDone { fb: final(fb)@, ok }) == recon_from(
            old(fb)@,
            crate::vp9::block_modes::block_views(blocks@),
            *header,
            slots@,
            *subpel,
            0,
        ),
        crate::vp9::recon::same_shape(final(fb)@, old(fb)@),
{
    let ghost fb0 = fb@;
    let ghost bv = crate::vp9::block_modes::block_views(blocks@);
    let mut i: usize = 0;
    while i < blocks.len()
        invariant
            i <= blocks@.len(),
            fb.wf(),
            crate::vp9::header::header_wf(*header),
            forall|i: int|
                0 <= i < blocks@.len() ==> crate::vp9::tiles::block_ok(
                    *header,
                    (header.height + 3) / 4,
                    (header.width + 3) / 4,
                    #[trigger] blocks@[i]@,
                ),
            bv == crate::vp9::block_modes::block_views(blocks@),
            fb0 == old(fb)@,
            crate::vp9::recon::same_shape(fb@, fb0),
            recon_from(fb@, bv, *header, slots@, *subpel, i as int) == recon_from(
                fb0,
                bv,
                *header,
                slots@,
                *subpel,
                0,
            ),
        decreases blocks@.len() - i,
    {
        let b: &BlockInfo = &blocks[i];
        assert(bv[i as int] == b@);
        let r: Result<(), Error> = if b.is_inter {
            reconstruct_inter_block(fb, b, header, slots, subpel)
        } else {
            reconstruct_intra_block(fb, b, header, b.tile_col_start)
        };
        if r.is_err() {
            return false;
        }
        i += 1;
    }
    true
}

// ---- pictures ----

/// The context above at the start of a frame.
pub open spec fn above_start(cols: int, without_refs: bool) -> CtxView {
    let nnz = 16 * ((cols + 15) / 16);
    CtxView {
        partition: crate::vp9::context::fill(0u8, cols),
        skip: crate::vp9::context::fill(0u8, cols),
        tx_size: crate::vp9::context::fill(0u8, cols),
        y_mode: if without_refs {
            crate::vp9::context::fill(2u8, 2 * cols)
        } else {
            crate::vp9::context::splat(
                crate::vp9::context::fill(0u8, 2 * cols),
                0,
                cols,
                10u8,
            )
        },
        uv_mode: crate::vp9::context::fill(0u8, 2 * cols),
        seg_id: crate::vp9::context::fill(0u8, cols),
        coef: crate::vp9::context::fill(crate::vp9::context::fill(0u8, nnz), 3),
        intra: crate::vp9::context::fill(0u8, cols),
        comp: crate::vp9::context::fill(0u8, cols),
        ref_frame: crate::vp9::context::fill(0u8, cols),
        filter: crate::vp9::context::fill(0u8, cols),
        mv: crate::vp9::context::fill(crate::vp9::context::zero_mvs(), 2 * cols),
    }
}

fn new_above(cols: usize, without_refs: bool) -> (r: AboveContext)
    requires
        cols <= 16384,
    ensures
        r@ == above_start(cols as int, without_refs),
        crate::vp9::context::ctx_wf(r@),
        forall|p: int| 0 <= p < 3 ==> cols <= #[trigger] r.coef@[p]@.len(),
{
    let mut r = AboveContext::new(cols, (cols + 15) / 16);
    r.reset(without_refs);
    let ghost e = above_start(cols as int, without_refs);
    assert(r@.coef =~= e.coef);
    assert(r@.y_mode =~= e.y_mode);
    assert(r@ =~= e);
    r
}

/// A cell of the grid of motion vectors before anything was read.
pub open spec fn empty_pair() -> MvRefPair {
    MvRefPair { mv: crate::vp9::context::zero_mvs(), ref_frame: [0i8, 0i8] }
}

fn new_grid(n: usize) -> (g: Vec<MvRefPair>)
    ensures
        g@ == crate::vp9::context::fill(empty_pair(), n as int),
        crate::vp9::mvs::grid_wf(g@),
{
    let mv: [[i16; 2]; 2] = crate::vp9::context::no_mvs();
    let refs: [i8; 2] = [0, 0];
    assert(refs =~= empty_pair().ref_frame);
    let e = MvRefPair { mv, ref_frame: refs };
    let mut g: Vec<MvRefPair> = Vec::new();
    assert(g@ =~= crate::vp9::context::fill(empty_pair(), 0));
    while g.len() < n
        invariant
            g@.len() <= n,
            e == empty_pair(),
            g@ == crate::vp9::context::fill(empty_pair(), g@.len() as int),
        decreases n - g@.len(),
    {
        let ghost k = g@.len() as int;
        g.push(e);
        assert(g@ =~= crate::vp9::context::fill(empty_pair(), k + 1));
    }
    g
}

/// A black frame as values.
pub open spec fn black(w: int, h: int) -> FbView {
    FbView {
        y: crate::vp9::context::fill(0u8, crate::vp9::recon::luma_len(w, h)),
        u: crate::vp9::context::fill(0u8, crate::vp9::recon::chroma_len(w, h)),
        v: crate::vp9::context::fill(0u8, crate::vp9::recon::chroma_len(w, h)),
        y_stride: crate::vp9::recon::round_up(w, 64),
        uv_stride: crate::vp9::recon::round_up((w + 1) / 2, 64),
        width: w,
        height: h,
    }
}

/// What a picture is decoded to.
pub struct PictureView {
    pub fb: FbView,
    pub grid: Seq<MvRefPair>,
    pub counts: CountView,
}

/// What a picture is decoded from, besides its data.
pub struct PictureInput {
    pub h: FrameHeader,
    pub tables: Tables,
    pub slots: Seq<Option<Arc<RefFrame>>>,
    pub prev: Option<Seq<MvRefPair>>,
    pub prev_cols: int,
}

impl PictureInput {
    /// What the tiles have in common.
    pub open spec fn env(self) -> TileEnv {
        TileEnv {
            h: self.h,
            tables: self.tables,
            rows: (self.h.height + 3) / 4,
            cols: (self.h.width + 3) / 4,
            tile_col_start: 0,
            prev: self.prev,
            prev_cols: self.prev_cols,
            sign_bias: self.h.sign_bias,
        }
    }

    /// The number of tiles.
    pub open spec fn n_tiles(self) -> int {
        crate::vp9::mvs::weight(self.h.tile_rows_log2 as int) * crate::vp9::mvs::weight(
            self.h.tile_cols_log2 as int,
        )
    }

    /// What the tiles in `d` give.
    pub open spec fn tiles(self, d: Seq<u8>, ranges: Seq<(int, int)>) -> TilesState {
        let f = self.env();
        tiles_from(
            f,
            d,
            ranges,
            crate::vp9::mvs::weight(self.h.tile_cols_log2 as int),
            TilesState {
                above: above_start(f.cols, crate::vp9::modes::without_refs(self.h)),
                grid: crate::vp9::context::fill(empty_pair(), f.rows * f.cols),
                blocks: Seq::empty(),
                counts: crate::vp9::prob::zero_counts(),
                ok: true,
            },
            0,
        )
    }

    /// The picture in the tile data `d`, where it is valid: the tiles are read, their
    /// blocks reconstructed, and the edges filtered.
    #[verifier::opaque]
    pub open spec fn picture(self, d: Seq<u8>) -> Option<PictureView> {
        let w = self.h.width as int;
        let h = self.h.height as int;
        match crate::vp9::tiles::tile_ranges(d, 0, self.n_tiles(), 0) {
            None => None,
            Some(ranges) => {
                let t = self.tiles(d, ranges);
                let r = recon_from(
                    black(w, h),
                    t.blocks,
                    self.h,
                    self.slots,
                    self.tables.subpel,
                    0,
                );
                if w == 0 || h == 0 || crate::vp9::recon::luma_len(w, h) + 64 > isize::MAX || !t.ok
                    || !r.ok {
                    None
                } else {
                    Some(
                        PictureView {
                            fb: crate::vp9::loopfilter::loop_filter_spec(
                                r.fb,
                                t.blocks,
                                self.h,
                            ),
                            grid: t.grid,
                            counts: t.counts,
                        },
                    )
                }
            },
        }
    }
}

/// A decoded picture.
pub struct Picture {
    pub fb: FrameBuffer,
    /// Motion vectors, one entry for each 4x4 block.
    pub grid: Vec<MvRefPair>,
    /// Symbols counted.
    pub counts: CountContext,
}

/// Chroma planes are no larger than luma.
pub proof fn lemma_plane_sizes(w: int, h: int)
    requires
        1 <= w <= 65536,
        1 <= h <= 65536,
    ensures
        crate::vp9::recon::chroma_len(w, h) <= crate::vp9::recon::luma_len(w, h),
        64 <= crate::vp9::recon::round_up(w, 64) <= 65536,
{
    let a = crate::vp9::recon::round_up((w + 1) / 2, 64);
    let b = crate::vp9::recon::round_up((h + 1) / 2, 32);
    let c = crate::vp9::recon::round_up(w, 64);
    let d = crate::vp9::recon::round_up(h, 64);
    assert(0 <= a <= c && 0 <= b <= d);
    assert(a * b <= c * d) by (nonlinear_arith)
        requires
            0 <= a <= c,
            0 <= b <= d,
    ;
}

/// Decodes the picture in the tile data of a frame. Where the tiles do not lie in the data,
/// one does not begin as it has to, or a block cannot be reconstructed, the data is
/// invalid.
#[verifier::rlimit(100)]
pub fn decode_picture(
    header: &FrameHeader,
    tables: &Tables,
    data: &[u8],
    slots: &[Option<Arc<RefFrame>>; 8],
    prev: Option<&[MvRefPair]>,
    prev_cols: usize,
) -> (r: Result<Picture, Error>)
    requires
        crate::vp9::header::header_wf(*header),
        tables.wf(),
        prev matches Some(p) ==> crate::vp9::mvs::grid_wf(p@),
        prev_cols <= 16384,
    ensures
        ({
            let i = PictureInput {
                h: *header,
                tables: *tables,
                slots: slots@,
                prev: match prev {
                    Some(p) => Some(p@),
                    None => None,
                },
                prev_cols: prev_cols as int,
            };
            match r {
                Ok(p) => {
                    &&& i.picture(data@) == Some(
                        PictureView { fb: p.fb@, grid: p.grid@, counts: p.counts@ },
                    )
                    &&& p.fb.wf()
                    &&& p.fb.width == header.width
                    &&& p.fb.height == header.height
                    &&& crate::vp9::recon::same_shape(
                        p.fb@,
                        black(header.width as int, header.height as int),
                    )
                    &&& 1 <= p.fb.width
                    &&& 1 <= p.fb.height
                    &&& crate::vp9::recon::luma_len(p.fb.width as int, p.fb.height as int) + 64
                        <= isize::MAX
                    &&& crate::vp9::mvs::grid_wf(p.grid@)
                },
                Err(e) => i.picture(data@) is None && e == Error::InvalidData,
            }
        }),
{
    let ghost i = PictureInput {
        h: *header,
        tables: *tables,
        slots: slots@,
        prev: match prev {
            Some(p) => Some(p@),
            None => None,
        },
        prev_cols: prev_cols as int,
    };
    let ghost f = i.env();
    proof {
        reveal(PictureInput::picture);
    }
    let width: usize = header.width as usize;
    let height: usize = header.height as usize;
    let n_cols: usize = power(header.tile_cols_log2);
    let n_rows: usize = power(header.tile_rows_log2);
    proof {
        assert(1 <= n_rows * n_cols <= 1024 * 1024) by (nonlinear_arith)
            requires
                1 <= n_rows <= 1024,
                1 <= n_cols <= 1024,
        ;
    }
    let ranges: Vec<(usize, usize)> = match locate_tiles(data, n_rows * n_cols) {
        Some(v) => v,
        None => return Err(Error::InvalidData),
    };
    if width == 0 || height == 0 {
        return Err(Error::InvalidData);
    }
    let y_w: u64 = (width as u64 + 63) / 64 * 64;
    let y_h: u64 = (height as u64 + 63) / 64 * 64;
    proof {
        lemma_plane_sizes(width as int, height as int);
        assert(0 <= y_w * y_h <= 65536 * 65536) by (nonlinear_arith)
            requires
                0 <= y_w <= 65536,
                0 <= y_h <= 65536,
        ;
    }
    if y_w * y_h + 64 > isize::MAX as u64 {
        return Err(Error::InvalidData);
    }
    let mut fb = FrameBuffer::new(header.width, header.height);
    assert(fb@ == black(width as int, height as int));
    let cols: usize = (width + 3) / 4;
    let rows: usize = (height + 3) / 4;
    let without_refs = header.frame_type == FrameType::KeyFrame || header.intra_only;
    let mut above: AboveContext = new_above(cols, without_refs);
    proof {
        assert(0 <= rows * cols <= 16384 * 16384) by (nonlinear_arith)
            requires
                0 <= rows <= 16384,
                0 <= cols <= 16384,
        ;
        assert(0 <= rows * prev_cols <= 16384 * 16384) by (nonlinear_arith)
            requires
                0 <= rows <= 16384,
                0 <= prev_cols <= 16384,
        ;
    }
    let mut grid: Vec<MvRefPair> = new_grid(rows * cols);
    let (blocks, counts) = match decode_tiles(
        data,
        &ranges,
        header,
        tables,
        &mut above,
        grid.as_mut_slice(),
        prev,
        prev_cols,
        Ghost(f),
    ) {
        Some(x) => x,
        None => return Err(Error::InvalidData),
    };
    let ghost t = i.tiles(data@, crate::vp9::tiles::ranges_view(ranges@));
    if !reconstruct(&mut fb, &blocks, header, slots, &tables.subpel) {
        return Err(Error::InvalidData);
    }
    proof {
        assert forall|k: int| 0 <= k < blocks@.len() implies crate::vp9::loopfilter::filter_wf(
            #[trigger] blocks@[k]@,
            (fb.width + 7) / 8,
            (fb.height + 7) / 8,
        ) by {
            assert(crate::vp9::tiles::block_ok(*header, f.rows, f.cols, blocks@[k]@));
        }
    }
    loop_filter_frame(&mut fb, blocks.as_slice(), header);
    Ok(Picture { fb, grid, counts })
}

} // verus!

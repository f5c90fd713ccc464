//! Blocks, and the reading of their modes.
use vstd::prelude::*;

use crate::vp9::bool_decoder::{BoolDecoder, Rac};
use crate::vp9::context::{AboveContext, CtxView, LeftContext};
use crate::vp9::data::{Tables, BWH_TAB};
use crate::vp9::header::{FrameHeader, FrameType, TxMode};
use crate::vp9::inter_modes::{decode_inter_mode, MvSource};
use crate::vp9::modes::{
    decode_intra_mode, decode_non_kf_intra_mode, read_is_intra, read_segment, read_skip,
    read_tx_size, uv_tx_size, Taken,
};
use crate::vp9::prob::{CountContext, CountView};
use crate::vp9::refs::MvRefPair;
use crate::vp9::types::{BlockSize, IntraMode, TxSize};

verus! {

/// A block that was read.
pub struct BlockInfo {
    /// Row, in units of 4 pixels.
    pub row: usize,
    /// Column, in units of 4 pixels.
    pub col: usize,
    pub bs: BlockSize,
    pub tx_size: TxSize,
    pub uv_tx_size: TxSize,
    /// Luma modes of the four quarters.
    pub y_mode: [IntraMode; 4],
    pub uv_mode: IntraMode,
    /// Whether there are no coefficients.
    pub skip: bool,
    pub segment_id: u8,
    /// First column of the tile, in units of 4 pixels.
    pub tile_col_start: usize,
    pub is_inter: bool,
    /// Whether there are two references.
    pub comp: bool,
    /// References: 0 to 2, or -1 where there is none.
    pub ref_frame: [i8; 2],
    /// Inter modes of the four quarters: 10 to 13.
    pub inter_mode: [u8; 4],
    /// Motion vectors of the four quarters, by reference, as columns and rows in
    /// eighths of a pixel.
    pub mv: [[[i16; 2]; 2]; 4],
    /// Interpolation filter.
    pub filter: u8,
    /// Coefficients, one transform block behind the other, by plane.
    pub coefs_y: Vec<i32>,
    pub coefs_u: Vec<i32>,
    pub coefs_v: Vec<i32>,
}

/// What a block holds.
pub struct BlockView {
    pub row: int,
    pub col: int,
    pub bs: BlockSize,
    pub tx_size: TxSize,
    pub uv_tx_size: TxSize,
    pub y_mode: Seq<IntraMode>,
    pub uv_mode: IntraMode,
    pub skip: bool,
    pub segment_id: u8,
    pub tile_col_start: int,
    pub is_inter: bool,
    pub comp: bool,
    pub ref_frame: Seq<i8>,
    pub inter_mode: Seq<u8>,
    pub mv: Seq<[[i16; 2]; 2]>,
    pub filter: u8,
    pub coefs_y: Seq<i32>,
    pub coefs_u: Seq<i32>,
    pub coefs_v: Seq<i32>,
}

impl View for BlockInfo {
    type V = BlockView;

    open spec fn view(&self) -> BlockView {
        BlockView {
            row: self.row as int,
            col: self.col as int,
            bs: self.bs,
            tx_size: self.tx_size,
            uv_tx_size: self.uv_tx_size,
            y_mode: self.y_mode@,
            uv_mode: self.uv_mode,
            skip: self.skip,
            segment_id: self.segment_id,
            tile_col_start: self.tile_col_start as int,
            is_inter: self.is_inter,
            comp: self.comp,
            ref_frame: self.ref_frame@,
            inter_mode: self.inter_mode@,
            mv: self.mv@,
            filter: self.filter,
            coefs_y: self.coefs_y@,
            coefs_u: self.coefs_u@,
            coefs_v: self.coefs_v@,
        }
    }
}

/// What holds of every block of a frame.
pub open spec fn block_wf(b: BlockView) -> bool {
    &&& b.segment_id < 8
    &&& b.filter <= 3
    &&& forall|i: int| 0 <= i < 4 ==> (#[trigger] b.y_mode[i]).code_spec() <= 9
    &&& b.uv_mode.code_spec() <= 9
    &&& -1 <= b.ref_frame[0] <= 2
    &&& -1 <= b.ref_frame[1] <= 2
    &&& b.is_inter ==> 0 <= b.ref_frame[0]
    &&& b.is_inter && b.comp ==> 0 <= b.ref_frame[1]
    &&& b.ref_frame.len() == 2
    &&& b.y_mode.len() == 4
    &&& b.mv.len() == 4
    &&& b.inter_mode.len() == 4
}

/// The blocks of a tile as values.
pub open spec fn block_views(b: Seq<BlockInfo>) -> Seq<BlockView> {
    Seq::new(b.len(), |i: int| b[i]@)
}

/// What the blocks of a tile have in common.
pub struct TileEnv {
    pub h: FrameHeader,
    pub tables: Tables,
    pub rows: int,
    pub cols: int,
    pub tile_col_start: int,
    pub prev: Option<Seq<MvRefPair>>,
    pub prev_cols: int,
    pub sign_bias: [bool; 3],
}

/// What the blocks of a tile change.
pub struct TileState {
    pub rac: Rac,
    pub above: CtxView,
    pub left: CtxView,
    pub counts: CountView,
    pub grid: Seq<MvRefPair>,
    pub blocks: Seq<BlockView>,
}

/// The modes of a block.
pub struct BlockModes {
    pub segment_id: u8,
    pub skip: bool,
    pub is_intra: bool,
    pub tx_size: TxSize,
    pub uv_tx_size: TxSize,
    pub y_mode: [IntraMode; 4],
    pub uv_mode: IntraMode,
    pub comp: bool,
    pub ref_frame: [i8; 2],
    pub inter_mode: [u8; 4],
    pub mv: [[[i16; 2]; 2]; 4],
    pub filter: u8,
    pub filter_id: u8,
}

/// The modes of a block as values.
pub struct ModesView {
    pub segment_id: u8,
    pub skip: bool,
    pub is_intra: bool,
    pub tx_size: TxSize,
    pub uv_tx_size: TxSize,
    pub y_mode: Seq<IntraMode>,
    pub uv_mode: IntraMode,
    pub comp: bool,
    pub ref_frame: Seq<i8>,
    pub inter_mode: Seq<u8>,
    pub mv: Seq<[[i16; 2]; 2]>,
    pub filter: u8,
    pub filter_id: u8,
}

impl View for BlockModes {
    type V = ModesView;

    open spec fn view(&self) -> ModesView {
        ModesView {
            segment_id: self.segment_id,
            skip: self.skip,
            is_intra: self.is_intra,
            tx_size: self.tx_size,
            uv_tx_size: self.uv_tx_size,
            y_mode: self.y_mode@,
            uv_mode: self.uv_mode,
            comp: self.comp,
            ref_frame: self.ref_frame@,
            inter_mode: self.inter_mode@,
            mv: self.mv@,
            filter: self.filter,
            filter_id: self.filter_id,
        }
    }
}

/// Ranges of the modes of a block.
pub open spec fn modes_wf(m: ModesView) -> bool {
    &&& m.segment_id < 8
    &&& m.y_mode.len() == 4
    &&& m.ref_frame.len() == 2
    &&& m.inter_mode.len() == 4
    &&& m.mv.len() == 4
    &&& forall|i: int| 0 <= i < 4 ==> (#[trigger] m.y_mode[i]).code_spec() <= 9
    &&& m.uv_mode.code_spec() <= 9
    &&& m.filter <= 3
    &&& m.filter_id <= 2
    &&& -1 <= m.ref_frame[0] <= 2
    &&& -1 <= m.ref_frame[1] <= 2
    &&& !m.is_intra ==> 0 <= m.ref_frame[0]
    &&& !m.is_intra && m.comp ==> 0 <= m.ref_frame[1]
    &&& !m.is_intra ==> 10 <= m.inter_mode[3] <= 13
}

/// The modes of a block, with the decoder, the counts and the contexts behind them.
pub struct ModesRead {
    pub modes: ModesView,
    pub rac: Rac,
    pub counts: CountView,
    pub above: CtxView,
    pub left: CtxView,
}

/// The row of 8 pixels in a superblock.
pub open spec fn row7_spec(row: int) -> int {
    (row / 2) % 8
}

/// What is read first of a block.
pub struct Head {
    pub segment_id: u8,
    pub skip: bool,
    pub is_intra: bool,
    pub tx_size: TxSize,
}

/// What is read first of a block: segment, skip flag, intra flag and transform size.
#[verifier::opaque]
pub open spec fn head_spec(
    f: TileEnv,
    t: TileState,
    row: int,
    col: int,
    bs: BlockSize,
) -> Taken<Head> {
    let row7 = row7_spec(row);
    let have_a = row > 0;
    let have_l = col > f.tile_col_start;
    let (seg, r1) = crate::vp9::modes::segment_spec(t.rac, f.h);
    let sk = crate::vp9::modes::skip_spec(r1, t.counts, f.h, seg, t.above, t.left, col, row7);
    let it = crate::vp9::modes::intra_spec(
        sk.rac,
        sk.counts,
        f.h,
        seg,
        t.above,
        t.left,
        col,
        row7,
        have_a,
        have_l,
    );
    let tx = crate::vp9::modes::tx_size_spec(
        it.rac,
        it.counts,
        f.h,
        bs,
        sk.value,
        it.value,
        t.above,
        t.left,
        col,
        row7,
        have_a,
        have_l,
    );
    Taken {
        value: Head {
            segment_id: seg as u8,
            skip: sk.value,
            is_intra: it.value,
            tx_size: tx.value,
        },
        rac: tx.rac,
        counts: tx.counts,
    }
}

/// The modes of a block: what is read first, and then the intra modes, or the
/// references and motion vectors.
#[verifier::opaque]
pub open spec fn modes_spec(
    f: TileEnv,
    t: TileState,
    row: int,
    col: int,
    bs: BlockSize,
) -> ModesRead {
    let row7 = row7_spec(row);
    let tx = head_spec(f, t, row, col, bs);
    let m0 = ModesView {
        segment_id: tx.value.segment_id,
        skip: tx.value.skip,
        is_intra: tx.value.is_intra,
        tx_size: tx.value.tx_size,
        uv_tx_size: crate::vp9::modes::uv_tx_spec(
            bs,
            tx.value.tx_size,
            f.h.subsampling_x,
            f.h.subsampling_y,
        ),
        y_mode: crate::vp9::context::fill(IntraMode::DcPred, 4),
        uv_mode: IntraMode::DcPred,
        comp: false,
        ref_frame: seq![-1i8, -1i8],
        inter_mode: crate::vp9::context::fill(0u8, 4),
        mv: crate::vp9::context::fill(crate::vp9::context::zero_mvs(), 4),
        filter: 0,
        filter_id: 0,
    };
    if crate::vp9::modes::without_refs(f.h) {
        let k = crate::vp9::modes::kf_modes_spec(
            tx.rac,
            f.tables,
            bs,
            crate::vp9::coefs::at_or(t.above.y_mode, 2 * col, 2),
            crate::vp9::coefs::at_or(t.above.y_mode, 2 * col + 1, 2),
            t.left.y_mode[2 * row7],
            t.left.y_mode[2 * row7 + 1],
        );
        ModesRead {
            modes: ModesView { y_mode: k.modes, uv_mode: k.uv, ..m0 },
            rac: k.rac,
            counts: tx.counts,
            above: crate::vp9::modes::kf_above(t.above, bs, col, k.modes),
            left: crate::vp9::modes::kf_left(t.left, bs, row7, k.modes),
        }
    } else if tx.value.is_intra {
        let k = crate::vp9::modes::intra_modes_spec(tx.rac, tx.counts, f.h, bs);
        ModesRead {
            modes: ModesView { y_mode: k.value.0, uv_mode: k.value.1, ..m0 },
            rac: k.rac,
            counts: k.counts,
            above: t.above,
            left: t.left,
        }
    } else {
        let k = crate::vp9::inter_modes::inter_spec(
            tx.rac,
            tx.counts,
            f.h,
            tx.value.segment_id as int,
            MvSource {
                rows: f.rows,
                cols: f.cols,
                tile_col_start: f.tile_col_start,
                sign_bias: f.sign_bias,
                grid: t.grid,
                prev: f.prev,
                prev_cols: f.prev_cols,
            },
            t.above,
            t.left,
            row,
            col,
            row7,
            bs,
        );
        ModesRead {
            modes: ModesView {
                comp: k.comp,
                ref_frame: k.refs,
                inter_mode: k.mode,
                mv: k.mv,
                filter: k.filter,
                filter_id: k.filter_id,
                ..m0
            },
            rac: k.rac,
            counts: k.counts,
            above: t.above,
            left: t.left,
        }
    }
}

/// Reads what comes first of a block.
fn read_head(
    bd: &mut BoolDecoder,
    counts: &mut CountContext,
    h: &FrameHeader,
    tile_col_start: usize,
    above: &AboveContext,
    left: &LeftContext,
    row: usize,
    col: usize,
    bs: BlockSize,
    Ghost(f): Ghost<TileEnv>,
    Ghost(t): Ghost<TileState>,
) -> (r: Head)
    requires
        old(bd)@.wf(),
        crate::vp9::context::ctx_wf(above@),
        crate::vp9::context::ctx_wf(left@),
        f.h == *h,
        f.tile_col_start == tile_col_start,
        t.rac == old(bd)@,
        t.counts == old(counts)@,
        t.above == above@,
        t.left == left@,
    ensures
        final(bd)@.wf(),
        final(bd)@.data == old(bd)@.data,
        (Taken { value: r, rac: final(bd)@, counts: final(counts)@ }) == head_spec(
            f,
            t,
            row as int,
            col as int,
            bs,
        ),
        r.segment_id < 8,
        !r.is_intra && h.segmentation.enabled && h.segmentation.feat@[r.segment_id as int].ref_enabled
            ==> h.segmentation.feat@[r.segment_id as int].ref_val > 0,
        crate::vp9::modes::without_refs(*h) ==> r.is_intra,
        h.tx_mode == TxMode::Only4x4 ==> r.tx_size == TxSize::Tx4x4,
{
    proof {
        reveal(head_spec);
    }
    let row7: usize = (row / 2) % 8;
    let have_a = row > 0;
    let have_l = col > tile_col_start;
    let segment_id: u8 = read_segment(bd, h);
    let skip = read_skip(bd, counts, h, segment_id, above, left, col, row7);
    let is_intra = read_is_intra(
        bd,
        counts,
        h,
        segment_id,
        above,
        left,
        col,
        row7,
        have_a,
        have_l,
    );
    let tx_size: TxSize = read_tx_size(
        bd,
        counts,
        h,
        bs,
        skip,
        is_intra,
        above,
        left,
        col,
        row7,
        have_a,
        have_l,
    );
    Head { segment_id, skip, is_intra, tx_size }
}

/// The modes of a block keep the contexts in order.
proof fn lemma_kf_ctx(above: CtxView, left: CtxView, bs: BlockSize, col: int, row7: int, m: Seq<IntraMode>)
    requires
        crate::vp9::context::ctx_wf(above),
        crate::vp9::context::ctx_wf(left),
        forall|i: int| 0 <= i < 4 ==> (#[trigger] m[i]).code_spec() <= 9,
    ensures
        crate::vp9::context::ctx_wf(crate::vp9::modes::kf_above(above, bs, col, m)),
        crate::vp9::context::ctx_wf(crate::vp9::modes::kf_left(left, bs, row7, m)),
{
    assert(m[0].code_spec() <= 9 && m[1].code_spec() <= 9 && m[2].code_spec() <= 9
        && m[3].code_spec() <= 9);
}

/// Four flat modes.
fn flat_modes() -> (r: [IntraMode; 4])
    ensures
        r@ == crate::vp9::context::fill(IntraMode::DcPred, 4),
{
    let d = IntraMode::DcPred;
    let r: [IntraMode; 4] = [d, d, d, d];
    assert(r@ =~= crate::vp9::context::fill(IntraMode::DcPred, 4));
    r
}

/// Four times no mode of motion.
fn still_modes() -> (r: [u8; 4])
    ensures
        r@ == crate::vp9::context::fill(0u8, 4),
{
    let r: [u8; 4] = [0u8; 4];
    assert(r@ =~= crate::vp9::context::fill(0u8, 4));
    r
}

/// No references.
fn no_refs() -> (r: [i8; 2])
    ensures
        r@ == seq![-1i8, -1i8],
{
    let r: [i8; 2] = [-1, -1];
    assert(r@ =~= seq![-1i8, -1i8]);
    r
}

/// Four times no motion.
fn still_mvs() -> (r: [[[i16; 2]; 2]; 4])
    ensures
        r@ == crate::vp9::context::fill(crate::vp9::context::zero_mvs(), 4),
{
    let r: [[[i16; 2]; 2]; 4] = [crate::vp9::context::no_mvs(); 4];
    assert(r@ =~= crate::vp9::context::fill(crate::vp9::context::zero_mvs(), 4));
    r
}

/// Reads the modes of a block.
#[verifier::rlimit(100)]
pub fn decode_modes(
    bd: &mut BoolDecoder,
    counts: &mut CountContext,
    h: &FrameHeader,
    tables: &Tables,
    rows: usize,
    cols: usize,
    tile_col_start: usize,
    sign_bias: [bool; 3],
    grid: &[MvRefPair],
    prev: Option<&[MvRefPair]>,
    prev_cols: usize,
    above: &mut AboveContext,
    left: &mut LeftContext,
    row: usize,
    col: usize,
    bs: BlockSize,
    Ghost(f): Ghost<TileEnv>,
    Ghost(t): Ghost<TileState>,
) -> (r: BlockModes)
    requires
        old(bd)@.wf(),
        crate::vp9::header::header_wf(*h),
        rows <= 16384,
        cols <= 16384,
        row < rows,
        col < cols,
        row + BWH_TAB@[0]@[bs.code_spec() as int]@[1] <= rows + 7,
        col + BWH_TAB@[0]@[bs.code_spec() as int]@[0] <= cols + 7,
        rows * cols <= grid@.len(),
        crate::vp9::mvs::grid_wf(grid@),
        prev matches Some(p) ==> crate::vp9::mvs::grid_wf(p@),
        row * prev_cols + col <= usize::MAX,
        crate::vp9::context::ctx_wf(old(above)@),
        crate::vp9::context::ctx_wf(old(left)@),
        f == (TileEnv {
            h: *h,
            tables: *tables,
            rows: rows as int,
            cols: cols as int,
            tile_col_start: tile_col_start as int,
            prev: match prev {
                Some(p) => Some(p@),
                None => None,
            },
            prev_cols: prev_cols as int,
            sign_bias,
        }),
        t.rac == old(bd)@,
        t.counts == old(counts)@,
        t.above == old(above)@,
        t.left == old(left)@,
        t.grid == grid@,
    ensures
        final(bd)@.wf(),
        final(bd)@.data == old(bd)@.data,
        (ModesRead {
            modes: r@,
            rac: final(bd)@,
            counts: final(counts)@,
            above: final(above)@,
            left: final(left)@,
        }) == modes_spec(f, t, row as int, col as int, bs),
        modes_wf(r@),
        crate::vp9::context::ctx_wf(final(above)@),
        crate::vp9::context::ctx_wf(final(left)@),
        final(above)@ == (CtxView { y_mode: final(above)@.y_mode, ..old(above)@ }),
        final(left)@ == (CtxView { y_mode: final(left)@.y_mode, ..old(left)@ }),
        h.tx_mode == TxMode::Only4x4 ==> r.tx_size == TxSize::Tx4x4 && r.uv_tx_size
            == TxSize::Tx4x4,
        crate::vp9::modes::without_refs(*h) ==> r.is_intra,
{
    let row7: usize = (row / 2) % 8;
    let head = read_head(
        bd,
        counts,
        h,
        tile_col_start,
        above,
        left,
        row,
        col,
        bs,
        Ghost(f),
        Ghost(t),
    );
    let uv_tx: TxSize = uv_tx_size(bs, head.tx_size, h.subsampling_x, h.subsampling_y);
    let mut m = BlockModes {
        segment_id: head.segment_id,
        skip: head.skip,
        is_intra: head.is_intra,
        tx_size: head.tx_size,
        uv_tx_size: uv_tx,
        y_mode: flat_modes(),
        uv_mode: IntraMode::DcPred,
        comp: false,
        ref_frame: no_refs(),
        inter_mode: still_modes(),
        mv: still_mvs(),
        filter: 0,
        filter_id: 0,
    };
    proof {
        reveal(modes_spec);
    }
    if h.frame_type == FrameType::KeyFrame || h.intra_only {
        let (y_mode, uv_mode) = decode_intra_mode(bd, tables, above, left, bs, col, row7);
        m.y_mode = y_mode;
        m.uv_mode = uv_mode;
        proof {
            lemma_kf_ctx(t.above, t.left, bs, col as int, row7 as int, y_mode@);
        }
    } else if head.is_intra {
        let (y_mode, uv_mode) = decode_non_kf_intra_mode(bd, counts, h, bs);
        m.y_mode = y_mode;
        m.uv_mode = uv_mode;
    } else {
        let r = decode_inter_mode(
            bd,
            counts,
            h,
            head.segment_id,
            rows,
            cols,
            tile_col_start,
            sign_bias,
            grid,
            prev,
            prev_cols,
            above,
            left,
            row,
            col,
            row7,
            bs,
        );
        m.comp = r.comp;
        m.ref_frame = r.ref_frame;
        m.inter_mode = r.inter_mode;
        m.mv = r.mv;
        m.filter = r.filter;
        m.filter_id = r.filter_id;
    }
    m
}

} // verus!

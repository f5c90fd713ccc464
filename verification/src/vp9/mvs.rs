//! Motion vector prediction and reading.
use vstd::prelude::*;

use crate::vp9::bool_decoder::{BoolDecoder, Rac};
use crate::vp9::data::{MV_CLASS_TREE, MV_FP_TREE, MV_JOINT_TREE, MV_REF_BLK_OFF};
use crate::vp9::prob::{bump1, bump2, CountContext, CountView, MvCompCounts, MvCountView};
use crate::vp9::refs::MvRefPair;
use crate::vp9::types::{BlockSize, MvCompProbs, ProbContext};

verus! {

/// A motion vector: columns, then rows, in eighths of a pixel.
pub open spec fn mv2(a: [i16; 2]) -> (i16, i16) {
    (a@[0], a@[1])
}

/// `v` brought into `lo..=hi`.
pub open spec fn clamp16_spec(v: i16, lo: i16, hi: i16) -> i16 {
    if v < lo {
        lo
    } else if v > hi {
        hi
    } else {
        v
    }
}

fn clamp16(v: i16, lo: i16, hi: i16) -> (r: i16)
    ensures
        r == clamp16_spec(v, lo, hi),
{
    if v < lo {
        lo
    } else if v > hi {
        hi
    } else {
        v
    }
}

/// Where a block takes motion vectors from, and how far they can reach.
pub struct MvSearchCtx {
    pub min_mv: [i16; 2],
    pub max_mv: [i16; 2],
    /// First column of the tile, in units of 4 pixels.
    pub tile_col_start: usize,
    pub cols_4x4: usize,
    pub rows_4x4: usize,
    /// Sides of the references: last, golden, alternate.
    pub sign_bias: [bool; 3],
}

impl MvSearchCtx {
    /// Whether the limits are in order, and positions next to the frame can be
    /// computed with.
    pub open spec fn wf(self) -> bool {
        &&& self.min_mv@[0] <= self.max_mv@[0]
        &&& self.min_mv@[1] <= self.max_mv@[1]
        &&& self.cols_4x4 + 512 <= isize::MAX
        &&& self.rows_4x4 + 512 <= isize::MAX
    }
}

/// A motion vector brought into the limits of a block.
pub open spec fn clamp_mv_spec(mv: (i16, i16), ctx: MvSearchCtx) -> (i16, i16) {
    (
        clamp16_spec(mv.0, ctx.min_mv@[0], ctx.max_mv@[0]),
        clamp16_spec(mv.1, ctx.min_mv@[1], ctx.max_mv@[1]),
    )
}

fn clamp_mv(mv: (i16, i16), ctx: &MvSearchCtx) -> (r: (i16, i16))
    ensures
        r == clamp_mv_spec(mv, *ctx),
{
    (
        clamp16(mv.0, ctx.min_mv[0], ctx.max_mv[0]),
        clamp16(mv.1, ctx.min_mv[1], ctx.max_mv[1]),
    )
}

/// A component without its odd eighth, taken towards zero.
pub open spec fn round_mv_spec(v: i16) -> i16 {
    if v & 1 != 0 {
        if v < 0 {
            (v + 1) as i16
        } else {
            (v - 1) as i16
        }
    } else {
        v
    }
}

fn round_mv_comp(v: i16) -> (r: i16)
    ensures
        r == round_mv_spec(v),
{
    if v & 1 != 0 {
        if v < 0 {
            v + 1
        } else {
            v - 1
        }
    } else {
        v
    }
}

/// Both components of a motion vector in one number.
pub open spec fn packed_spec(mv: (i16, i16)) -> u32 {
    (mv.0 as u16 as u32) | ((mv.1 as u16 as u32) << 16)
}

fn mv_as_u32(mv: (i16, i16)) -> (r: u32)
    ensures
        r == packed_spec(mv),
{
    (mv.0 as u16 as u32) | ((mv.1 as u16 as u32) << 16)
}

/// The number that stands for no motion vector.
pub const INVALID_MV: u32 = 0x8000_8000;

/// State of a search: the vector that was found, and those that were passed over.
pub struct Search {
    pub found: Option<(i16, i16)>,
    pub mem: u32,
    pub mem_sub8x8: u32,
}

/// What a search looks at.
pub struct Query {
    pub ctx: MvSearchCtx,
    pub grid: Seq<MvRefPair>,
    pub prev: Option<Seq<MvRefPair>>,
    pub prev_cols: int,
    pub above: Seq<[[i16; 2]; 2]>,
    pub left: Seq<[[i16; 2]; 2]>,
    pub ref_idx: i8,
    pub z: int,
    pub idx: int,
    pub sb: int,
    pub row: int,
    pub col: int,
    pub row7: int,
    pub bs: BlockSize,
    pub sub_mvs: Seq<[[i16; 2]; 2]>,
    pub use_last: bool,
}

/// A vector of the same block is offered: the first one is taken, or, where the
/// second is asked for, the first that differs from it.
pub open spec fn offer_direct_spec(s: Search, mv: (i16, i16), idx: int) -> Search {
    if s.found is Some {
        s
    } else if idx == 0 {
        Search { found: Some(mv), ..s }
    } else if s.mem == INVALID_MV {
        Search { mem: packed_spec(mv), ..s }
    } else if packed_spec(mv) != s.mem {
        Search { found: Some(mv), ..s }
    } else {
        s
    }
}

/// A vector of a neighbour is offered to a block of at least 8x8 pixels, or to the
/// first part of a smaller one.
pub open spec fn offer_plain_spec(s: Search, mv: (i16, i16), idx: int, ctx: MvSearchCtx) -> Search {
    if s.found is Some {
        s
    } else if idx == 0 {
        Search { found: Some(clamp_mv_spec(mv, ctx)), ..s }
    } else if s.mem == INVALID_MV {
        Search { mem: packed_spec(mv), ..s }
    } else if packed_spec(mv) != s.mem {
        Search { found: Some(clamp_mv_spec(mv, ctx)), ..s }
    } else {
        s
    }
}

/// A vector of a neighbour is offered to a later part of a block: one that differs
/// from the part before, once it is in the limits. Where a second vector does not,
/// the zero vector is taken.
pub open spec fn offer_part_spec(s: Search, mv: (i16, i16), ctx: MvSearchCtx) -> Search {
    let t = clamp_mv_spec(mv, ctx);
    if s.found is Some {
        s
    } else if s.mem_sub8x8 == INVALID_MV {
        if packed_spec(t) != s.mem {
            Search { found: Some(t), ..s }
        } else {
            Search { mem_sub8x8: packed_spec(mv), ..s }
        }
    } else if s.mem_sub8x8 != packed_spec(mv) {
        Search { found: Some(if packed_spec(t) != s.mem { t } else { (0i16, 0i16) }), ..s }
    } else {
        s
    }
}

/// A vector of a neighbour is offered.
pub open spec fn offer_spec(s: Search, mv: (i16, i16), q: Query) -> Search {
    if q.sb > 0 {
        offer_part_spec(s, mv, q.ctx)
    } else {
        offer_plain_spec(s, mv, q.idx, q.ctx)
    }
}

fn offer_direct(s: &mut Search, mv: (i16, i16), idx: usize)
    ensures
        *final(s) == offer_direct_spec(*old(s), mv, idx as int),
{
    if s.found.is_some() {
        return ;
    }
    let m: u32 = mv_as_u32(mv);
    if idx == 0 {
        s.found = Some(mv);
    } else if s.mem == INVALID_MV {
        s.mem = m;
    } else if m != s.mem {
        s.found = Some(mv);
    }
}

fn offer(s: &mut Search, mv: (i16, i16), sb: i32, idx: usize, ctx: &MvSearchCtx)
    ensures
        *final(s) == (if sb > 0 {
            offer_part_spec(*old(s), mv, *ctx)
        } else {
            offer_plain_spec(*old(s), mv, idx as int, *ctx)
        }),
{
    if s.found.is_some() {
        return ;
    }
    let m: u32 = mv_as_u32(mv);
    let t: (i16, i16) = clamp_mv(mv, ctx);
    if sb > 0 {
        let n: u32 = mv_as_u32(t);
        if s.mem_sub8x8 == INVALID_MV {
            if n != s.mem {
                s.found = Some(t);
            } else {
                s.mem_sub8x8 = m;
            }
        } else if s.mem_sub8x8 != m {
            s.found = Some(if n != s.mem { t } else { (0i16, 0i16) });
        }
    } else if idx == 0 {
        s.found = Some(t);
    } else if s.mem == INVALID_MV {
        s.mem = m;
    } else if m != s.mem {
        s.found = Some(t);
    }
}

/// The vector of a neighbour for the reference that is searched.
pub open spec fn same_ref_spec(pair: MvRefPair, ref_idx: i8) -> Option<(i16, i16)> {
    if pair.ref_frame@[0] == ref_idx {
        Some(mv2(pair.mv@[0]))
    } else if pair.ref_frame@[1] == ref_idx {
        Some(mv2(pair.mv@[1]))
    } else {
        None
    }
}

/// The vector of a neighbour for the same reference is offered.
pub open spec fn offer_same_spec(s: Search, pair: MvRefPair, q: Query) -> Search {
    match same_ref_spec(pair, q.ref_idx) {
        Some(mv) => offer_spec(s, mv, q),
        None => s,
    }
}

/// A vector turned round where the reference lies on the other side.
pub open spec fn turned(mv: (i16, i16), other_side: bool) -> (i16, i16) {
    if other_side {
        (0i16.wrapping_sub(mv.0), 0i16.wrapping_sub(mv.1))
    } else {
        mv
    }
}

/// The vectors of a neighbour for other references are offered. The second one only
/// counts where it differs from the first.
pub open spec fn offer_other_spec(s: Search, pair: MvRefPair, q: Query) -> Search {
    let r0 = pair.ref_frame@[0];
    let r1 = pair.ref_frame@[1];
    let bias = q.ctx.sign_bias@;
    let m0 = mv2(pair.mv@[0]);
    let m1 = mv2(pair.mv@[1]);
    let s1 = if r0 != q.ref_idx && r0 >= 0 {
        offer_spec(s, turned(m0, bias[r0 as int] != bias[q.ref_idx as int]), q)
    } else {
        s
    };
    if r1 != q.ref_idx && r1 >= 0 && packed_spec(m0) != packed_spec(m1) {
        offer_spec(s1, turned(m1, bias[r1 as int] != bias[q.ref_idx as int]), q)
    } else {
        s1
    }
}

/// The vectors of the parts before in the same block are offered.
pub open spec fn direct_stage(s: Search, q: Query) -> Search {
    let sub = q.sub_mvs;
    if q.sb == 1 || q.sb == 2 {
        offer_direct_spec(s, mv2(sub[0]@[q.z]), q.idx)
    } else if q.sb == 3 {
        offer_direct_spec(
            offer_direct_spec(
                offer_direct_spec(s, mv2(sub[2]@[q.z]), q.idx),
                mv2(sub[1]@[q.z]),
                q.idx,
            ),
            mv2(sub[0]@[q.z]),
            q.idx,
        )
    } else {
        s
    }
}

/// The vector of the part above a block of less than 8x8 pixels is offered.
pub open spec fn above_stage(s: Search, q: Query) -> Search {
    let at = 2 * q.col + q.sb % 2;
    if q.sb >= 0 && q.row > 0 && at < q.above.len() {
        let pair = q.grid[(q.row - 1) * q.ctx.cols_4x4 + q.col];
        if pair.ref_frame@[0] == q.ref_idx {
            offer_spec(s, mv2(q.above[at]@[0]), q)
        } else if pair.ref_frame@[1] == q.ref_idx {
            offer_spec(s, mv2(q.above[at]@[1]), q)
        } else {
            s
        }
    } else {
        s
    }
}

/// The vector of the part on the left of a block of less than 8x8 pixels is offered.
pub open spec fn left_stage(s: Search, q: Query) -> Search {
    let at = 2 * q.row7 + q.sb / 2;
    if q.sb >= 0 && q.col > q.ctx.tile_col_start && at < q.left.len() {
        let pair = q.grid[q.row * q.ctx.cols_4x4 + q.col - 1];
        if pair.ref_frame@[0] == q.ref_idx {
            offer_spec(s, mv2(q.left[at]@[0]), q)
        } else if pair.ref_frame@[1] == q.ref_idx {
            offer_spec(s, mv2(q.left[at]@[1]), q)
        } else {
            s
        }
    } else {
        s
    }
}

/// The neighbour number `i` of a block, where it lies in the tile and the frame.
pub open spec fn neighbor_spec(q: Query, i: int) -> Option<MvRefPair> {
    let off = MV_REF_BLK_OFF@[q.bs.code_spec() as int]@[i]@;
    let c = q.col + 2 * off[0];
    let r = q.row + 2 * off[1];
    if q.ctx.tile_col_start <= c < q.ctx.cols_4x4 && 0 <= r < q.ctx.rows_4x4 {
        Some(q.grid[r * q.ctx.cols_4x4 + c])
    } else {
        None
    }
}

/// The neighbours from `i` on offer their vectors for the same reference.
pub open spec fn near_stage(s: Search, q: Query, i: int) -> Search
    decreases 8 - i,
{
    if i >= 8 {
        s
    } else {
        let t = match neighbor_spec(q, i) {
            Some(pair) => offer_same_spec(s, pair, q),
            None => s,
        };
        near_stage(t, q, i + 1)
    }
}

/// The neighbours from `i` on offer their vectors for other references.
pub open spec fn other_stage(s: Search, q: Query, i: int) -> Search
    decreases 8 - i,
{
    if i >= 8 {
        s
    } else {
        let t = match neighbor_spec(q, i) {
            Some(pair) => offer_other_spec(s, pair, q),
            None => s,
        };
        other_stage(t, q, i + 1)
    }
}

/// The vectors of the last frame at the same place.
pub open spec fn prev_pair_spec(q: Query) -> Option<MvRefPair> {
    match q.prev {
        Some(prev) => {
            let at = q.row * q.prev_cols + q.col;
            if q.use_last && at < prev.len() {
                Some(prev[at])
            } else {
                None
            }
        },
        None => None,
    }
}

/// The motion vector that is predicted: the vectors of the block itself, of its
/// neighbours and of the last frame are offered, first those for the same
/// reference. Where none is taken, it is the zero vector, in the limits.
pub open spec fn find_ref_mv_spec(q: Query) -> (i16, i16) {
    let s0 = Search { found: None, mem: INVALID_MV, mem_sub8x8: INVALID_MV };
    let s1 = left_stage(above_stage(direct_stage(s0, q), q), q);
    let s2 = near_stage(s1, q, if q.sb >= 0 { 2int } else { 0int });
    let s3 = match prev_pair_spec(q) {
        Some(pair) => offer_same_spec(s2, pair, q),
        None => s2,
    };
    let s4 = other_stage(s3, q, 0);
    let s5 = match prev_pair_spec(q) {
        Some(pair) => offer_other_spec(s4, pair, q),
        None => s4,
    };
    match s5.found {
        Some(mv) => mv,
        None => clamp_mv_spec((0i16, 0i16), q.ctx),
    }
}

/// Once a vector is found, nothing is offered any more.
proof fn lemma_found(s: Search, q: Query, i: int)
    requires
        s.found is Some,
    ensures
        near_stage(s, q, i) == s,
        other_stage(s, q, i) == s,
    decreases 8 - i,
{
    if i < 8 {
        lemma_found(s, q, i + 1);
    }
}

/// Whether every reference of a grid of motion vectors exists.
pub open spec fn grid_wf(grid: Seq<MvRefPair>) -> bool {
    forall|i: int|
        0 <= i < grid.len() ==> (#[trigger] grid[i]).ref_frame@[0] <= 2 && grid[i].ref_frame@[1]
            <= 2
}

fn offer_same(s: &mut Search, pair: &MvRefPair, ref_idx: i8, sb: i32, idx: usize, ctx: &MvSearchCtx)
    ensures
        forall|q: Query|
            #![trigger offer_same_spec(*old(s), *pair, q)]
            q.ref_idx == ref_idx && q.sb == sb && q.idx == idx && q.ctx == *ctx ==> *final(s)
                == offer_same_spec(*old(s), *pair, q),
{
    if pair.ref_frame[0] == ref_idx {
        offer(s, (pair.mv[0][0], pair.mv[0][1]), sb, idx, ctx);
    } else if pair.ref_frame[1] == ref_idx {
        offer(s, (pair.mv[1][0], pair.mv[1][1]), sb, idx, ctx);
    }
}

fn turn(mv: (i16, i16), other_side: bool) -> (r: (i16, i16))
    ensures
        r == turned(mv, other_side),
{
    if other_side {
        (0i16.wrapping_sub(mv.0), 0i16.wrapping_sub(mv.1))
    } else {
        mv
    }
}

fn offer_other(
    s: &mut Search,
    pair: &MvRefPair,
    ref_idx: i8,
    sb: i32,
    idx: usize,
    ctx: &MvSearchCtx,
)
    requires
        pair.ref_frame@[0] <= 2,
        pair.ref_frame@[1] <= 2,
        0 <= ref_idx <= 2,
    ensures
        forall|q: Query|
            #![trigger offer_other_spec(*old(s), *pair, q)]
            q.ref_idx == ref_idx && q.sb == sb && q.idx == idx && q.ctx == *ctx ==> *final(s)
                == offer_other_spec(*old(s), *pair, q),
{
    let m0: (i16, i16) = (pair.mv[0][0], pair.mv[0][1]);
    let m1: (i16, i16) = (pair.mv[1][0], pair.mv[1][1]);
    let r0: i8 = pair.ref_frame[0];
    let r1: i8 = pair.ref_frame[1];
    if r0 != ref_idx && r0 >= 0 {
        let other = ctx.sign_bias[r0 as usize] != ctx.sign_bias[ref_idx as usize];
        offer(s, turn(m0, other), sb, idx, ctx);
    }
    if r1 != ref_idx && r1 >= 0 && mv_as_u32(m0) != mv_as_u32(m1) {
        let other = ctx.sign_bias[r1 as usize] != ctx.sign_bias[ref_idx as usize];
        offer(s, turn(m1, other), sb, idx, ctx);
    }
}

/// The index of the neighbour number `i` of a block in the grid.
fn neighbor_index(
    ctx: &MvSearchCtx,
    row: usize,
    col: usize,
    bs: BlockSize,
    i: usize,
    len: usize,
) -> (r: Option<usize>)
    requires
        i < 8,
        ctx.wf(),
        row < ctx.rows_4x4,
        col < ctx.cols_4x4,
        ctx.rows_4x4 * ctx.cols_4x4 <= len,
    ensures
        r matches Some(k) ==> k < len,
        forall|q: Query|
            #![trigger neighbor_spec(q, i as int)]
            q.ctx == *ctx && q.row == row && q.col == col && q.bs == bs ==> neighbor_spec(
                q,
                i as int,
            ) == (match r {
                Some(k) => Some(q.grid[k as int]),
                None => None,
            }),
{
    let b: usize = bs.code() as usize;
    let dc: i8 = MV_REF_BLK_OFF[b][i][0];
    let dr: i8 = MV_REF_BLK_OFF[b][i][1];
    let c: isize = col as isize + dc as isize * 2;
    let r: isize = row as isize + dr as isize * 2;
    if c >= ctx.tile_col_start as isize && c >= 0 && (c as usize) < ctx.cols_4x4 && r >= 0 && (
    r as usize) < ctx.rows_4x4 && (c as usize) >= ctx.tile_col_start {
        proof {
            assert(r * ctx.cols_4x4 + c < ctx.rows_4x4 * ctx.cols_4x4 && 0 <= r * ctx.cols_4x4)
                by (nonlinear_arith)
                requires
                    0 <= r <= ctx.rows_4x4 - 1,
                    0 <= c < ctx.cols_4x4,
            ;
        }
        Some(r as usize * ctx.cols_4x4 + c as usize)
    } else {
        None
    }
}

/// Predicts a motion vector of a block.
///
/// `cur_mv_grid` holds the vectors of the frame so far, `prev_mv_grid` those of the
/// last one. `idx` asks for the nearest vector (0) or the next one (1), `z` is the
/// reference of the block that is looked at in its own parts, and `sb` the part, or
/// -1 in a block of at least 8x8 pixels.
pub fn find_ref_mvs(
    ctx: &MvSearchCtx,
    cur_mv_grid: &[MvRefPair],
    prev_mv_grid: Option<&[MvRefPair]>,
    prev_cols_4x4: usize,
    above_mv_ctx: &[[[i16; 2]; 2]],
    left_mv_ctx: &[[[i16; 2]; 2]],
    pmv: &mut [i16; 2],
    ref_idx: i8,
    z: usize,
    idx: usize,
    sb: i32,
    row: usize,
    col: usize,
    row7: usize,
    bs: BlockSize,
    sub_mvs: &[[[i16; 2]; 2]; 4],
    use_last_frame_mvs: bool,
)
    requires
        ctx.wf(),
        row < ctx.rows_4x4,
        col < ctx.cols_4x4,
        ctx.rows_4x4 * ctx.cols_4x4 <= cur_mv_grid@.len(),
        grid_wf(cur_mv_grid@),
        prev_mv_grid matches Some(p) ==> grid_wf(p@),
        row * prev_cols_4x4 + col <= usize::MAX,
        row7 <= 7,
        z < 2,
        -1 <= sb <= 3,
        0 <= ref_idx <= 2,
    ensures
        mv2(*final(pmv)) == find_ref_mv_spec(
            Query {
                ctx: *ctx,
                grid: cur_mv_grid@,
                prev: match prev_mv_grid {
                    Some(p) => Some(p@),
                    None => None,
                },
                prev_cols: prev_cols_4x4 as int,
                above: above_mv_ctx@,
                left: left_mv_ctx@,
                ref_idx,
                z: z as int,
                idx: idx as int,
                sb: sb as int,
                row: row as int,
                col: col as int,
                row7: row7 as int,
                bs,
                sub_mvs: sub_mvs@,
                use_last: use_last_frame_mvs,
            },
        ),
{
    let ghost q = Query {
        ctx: *ctx,
        grid: cur_mv_grid@,
        prev: match prev_mv_grid {
            Some(p) => Some(p@),
            None => None,
        },
        prev_cols: prev_cols_4x4 as int,
        above: above_mv_ctx@,
        left: left_mv_ctx@,
        ref_idx,
        z: z as int,
        idx: idx as int,
        sb: sb as int,
        row: row as int,
        col: col as int,
        row7: row7 as int,
        bs,
        sub_mvs: sub_mvs@,
        use_last: use_last_frame_mvs,
    };
    let mut s = Search { found: None, mem: INVALID_MV, mem_sub8x8: INVALID_MV };
    let ghost s0 = s;
    let mut i: usize = 0;
    if sb >= 0 {
        i = 2;
        if sb == 1 || sb == 2 {
            offer_direct(&mut s, (sub_mvs[0][z][0], sub_mvs[0][z][1]), idx);
        } else if sb == 3 {
            offer_direct(&mut s, (sub_mvs[2][z][0], sub_mvs[2][z][1]), idx);
            offer_direct(&mut s, (sub_mvs[1][z][0], sub_mvs[1][z][1]), idx);
            offer_direct(&mut s, (sub_mvs[0][z][0], sub_mvs[0][z][1]), idx);
        }
        assert(s == direct_stage(s0, q));
        let above_idx: usize = 2 * col + (sb as usize) % 2;
        if row > 0 && above_idx < above_mv_ctx.len() {
            proof {
                lemma_in_grid(row - 1, col as int, ctx.rows_4x4 as int, ctx.cols_4x4 as int);
                assert(cur_mv_grid@.len() == cur_mv_grid.len());
            }
            let pair: MvRefPair = cur_mv_grid[(row - 1) * ctx.cols_4x4 + col];
            let two: [[i16; 2]; 2] = above_mv_ctx[above_idx];
            if pair.ref_frame[0] == ref_idx {
                offer(&mut s, (two[0][0], two[0][1]), sb, idx, ctx);
            } else if pair.ref_frame[1] == ref_idx {
                offer(&mut s, (two[1][0], two[1][1]), sb, idx, ctx);
            }
        }
        assert(s == above_stage(direct_stage(s0, q), q));
        let left_idx: usize = 2 * row7 + (sb as usize) / 2;
        if col > ctx.tile_col_start && left_idx < left_mv_ctx.len() {
            proof {
                lemma_in_grid(row as int, col - 1, ctx.rows_4x4 as int, ctx.cols_4x4 as int);
                assert(cur_mv_grid@.len() == cur_mv_grid.len());
            }
            let pair: MvRefPair = cur_mv_grid[row * ctx.cols_4x4 + (col - 1)];
            let two: [[i16; 2]; 2] = left_mv_ctx[left_idx];
            if pair.ref_frame[0] == ref_idx {
                offer(&mut s, (two[0][0], two[0][1]), sb, idx, ctx);
            } else if pair.ref_frame[1] == ref_idx {
                offer(&mut s, (two[1][0], two[1][1]), sb, idx, ctx);
            }
        }
    }
    let ghost s1 = left_stage(above_stage(direct_stage(s0, q), q), q);
    assert(s == s1);
    let ghost start = i as int;
    while i < 8 && s.found.is_none()
        invariant
            i <= 8,
            ctx.wf(),
            row < ctx.rows_4x4,
            col < ctx.cols_4x4,
            ctx.rows_4x4 * ctx.cols_4x4 <= cur_mv_grid@.len(),
            q.ctx == *ctx,
            q.grid == cur_mv_grid@,
            q.ref_idx == ref_idx,
            q.idx == idx,
            q.sb == sb,
            q.row == row,
            q.col == col,
            q.bs == bs,
            near_stage(s, q, i as int) == near_stage(s1, q, start),
        decreases 8 - i,
    {
        let at = neighbor_index(ctx, row, col, bs, i, cur_mv_grid.len());
        assert(neighbor_spec(q, i as int) == (match at {
            Some(k) => Some(q.grid[k as int]),
            None => None,
        }));
        if let Some(k) = at {
            let ghost before = s;
            let pair: MvRefPair = cur_mv_grid[k];
            offer_same(&mut s, &pair, ref_idx, sb, idx, ctx);
            assert(s == offer_same_spec(before, pair, q));
        }
        i += 1;
    }
    proof {
        if i < 8 {
            lemma_found(s, q, i as int);
        }
    }
    let ghost s2 = near_stage(s1, q, start);
    assert(s == s2);
    let mut prev_pair: Option<MvRefPair> = None;
    if use_last_frame_mvs {
        if let Some(prev) = prev_mv_grid {
            proof {
                assert(0 <= row * prev_cols_4x4) by (nonlinear_arith)
                    requires
                        0 <= row,
                        0 <= prev_cols_4x4,
                ;
            }
            let at: usize = row * prev_cols_4x4 + col;
            if at < prev.len() {
                prev_pair = Some(prev[at]);
            }
        }
    }
    assert(prev_pair == prev_pair_spec(q));
    if let Some(pair) = prev_pair {
        let ghost before = s;
        offer_same(&mut s, &pair, ref_idx, sb, idx, ctx);
        assert(s == offer_same_spec(before, pair, q));
    }
    let ghost s3 = s;
    let mut i: usize = 0;
    while i < 8 && s.found.is_none()
        invariant
            i <= 8,
            ctx.wf(),
            row < ctx.rows_4x4,
            col < ctx.cols_4x4,
            0 <= ref_idx <= 2,
            ctx.rows_4x4 * ctx.cols_4x4 <= cur_mv_grid@.len(),
            grid_wf(cur_mv_grid@),
            q.ctx == *ctx,
            q.grid == cur_mv_grid@,
            q.ref_idx == ref_idx,
            q.idx == idx,
            q.sb == sb,
            q.row == row,
            q.col == col,
            q.bs == bs,
            other_stage(s, q, i as int) == other_stage(s3, q, 0),
        decreases 8 - i,
    {
        let at = neighbor_index(ctx, row, col, bs, i, cur_mv_grid.len());
        assert(neighbor_spec(q, i as int) == (match at {
            Some(k) => Some(q.grid[k as int]),
            None => None,
        }));
        if let Some(k) = at {
            let ghost before = s;
            let pair: MvRefPair = cur_mv_grid[k];
            offer_other(&mut s, &pair, ref_idx, sb, idx, ctx);
            assert(s == offer_other_spec(before, pair, q));
        }
        i += 1;
    }
    proof {
        if i < 8 {
            lemma_found(s, q, i as int);
        }
    }
    let ghost s4 = s;
    if let Some(pair) = prev_pair {
        offer_other(&mut s, &pair, ref_idx, sb, idx, ctx);
        assert(s == offer_other_spec(s4, pair, q));
    }
    let mv: (i16, i16) = match s.found {
        Some(mv) => mv,
        None => clamp_mv((0i16, 0i16), ctx),
    };
    *pmv = [mv.0, mv.1];
}

/// A cell of the grid of motion vectors lies in it.
proof fn lemma_in_grid(row: int, col: int, rows: int, cols: int)
    requires
        0 <= row < rows,
        0 <= col < cols,
    ensures
        0 <= row * cols,
        row * cols + col < rows * cols,
{
    assert(0 <= row * cols && row * cols + col < rows * cols) by (nonlinear_arith)
        requires
            0 <= row <= rows - 1,
            0 <= col < cols,
    ;
}

/// The weight of the bit number `m`.
pub open spec fn weight(m: int) -> int
    decreases m,
{
    if m <= 0 {
        1
    } else {
        2 * weight(m - 1)
    }
}

/// A step in reading a component: the value so far, the decoder and the counts.
pub struct MvRead {
    pub value: int,
    pub rac: Rac,
    pub counts: MvCountView,
}

/// The first `m` bits of a long component.
pub open spec fn mv_bits_spec(
    rac: Rac,
    probs: MvCompProbs,
    counts: MvCountView,
    m: int,
) -> MvRead
    decreases m,
{
    if m <= 0 {
        MvRead { value: 0, rac, counts }
    } else {
        let p = mv_bits_spec(rac, probs, counts, m - 1);
        let b = p.rac.bit(probs.bits@[m - 1]);
        MvRead {
            value: p.value + if b {
                weight(m - 1)
            } else {
                0
            },
            rac: p.rac.after(probs.bits@[m - 1]),
            counts: MvCountView {
                bits: crate::vp9::prob::bump2_spec(
                    p.counts.bits,
                    m - 1,
                    if b {
                        1
                    } else {
                        0
                    },
                ),
                ..p.counts
            },
        }
    }
}

/// The fraction that ends a component: quarters, then the last eighth, which is set
/// where it is not read.
pub open spec fn mv_fraction_spec(
    s: MvRead,
    fp_probs: Seq<u8>,
    hp_prob: u8,
    use_hp: bool,
) -> (int, int, Rac) {
    let fp = s.rac.symbol(MV_FP_TREE@, fp_probs);
    let r1 = s.rac.after_symbol(MV_FP_TREE@, fp_probs);
    if use_hp {
        (fp, if r1.bit(hp_prob) { 1 } else { 0 }, r1.after(hp_prob))
    } else {
        (fp, 1, r1)
    }
}

/// A component of a motion vector's difference: the sign, the class, and the bits
/// within the class, in eighths of a pixel. The last eighth is counted also where it is not read.
#[verifier::opaque]
pub open spec fn mv_component_spec(
    rac: Rac,
    probs: MvCompProbs,
    counts: MvCountView,
    hp: bool,
) -> MvRead {
    let sign = rac.bit(probs.sign);
    let r1 = rac.after(probs.sign);
    let c = r1.symbol(MV_CLASS_TREE@, probs.classes@);
    let r2 = r1.after_symbol(MV_CLASS_TREE@, probs.classes@);
    let k1 = MvCountView {
        sign: crate::vp9::prob::bump1_spec(counts.sign, if sign { 1 } else { 0 }),
        classes: crate::vp9::prob::bump1_spec(counts.classes, c),
        ..counts
    };
    let e = if c > 0 {
        let s = mv_bits_spec(r2, probs, k1, c);
        let (fp, last, r3) = mv_fraction_spec(s, probs.fp@, probs.hp, hp);
        MvRead {
            value: 8 * s.value + 2 * fp + last + 8 * weight(c),
            rac: r3,
            counts: MvCountView {
                fp: crate::vp9::prob::bump1_spec(s.counts.fp, fp),
                hp: crate::vp9::prob::bump1_spec(s.counts.hp, last),
                ..s.counts
            },
        }
    } else {
        let n: int = if r2.bit(probs.class0) {
            1
        } else {
            0
        };
        let s = MvRead {
            value: n,
            rac: r2.after(probs.class0),
            counts: MvCountView {
                class0: crate::vp9::prob::bump1_spec(k1.class0, n),
                ..k1
            },
        };
        let (fp, last, r3) = mv_fraction_spec(s, probs.class0_fp@[n]@, probs.class0_hp, hp);
        MvRead {
            value: 8 * n + 2 * fp + last,
            rac: r3,
            counts: MvCountView {
                class0_fp: crate::vp9::prob::bump2_spec(s.counts.class0_fp, n, fp),
                class0_hp: crate::vp9::prob::bump1_spec(s.counts.class0_hp, last),
                ..s.counts
            },
        }
    };
    MvRead {
        value: if sign {
            -(e.value + 1)
        } else {
            e.value + 1
        },
        ..e
    }
}

pub proof fn lemma_weight(m: int)
    requires
        0 <= m <= 10,
    ensures
        1 <= weight(m) <= 1024,
        weight(m) as u32 == 1u32 << (m as u32),
{
    reveal_with_fuel(weight, 11);
    assert(1u32 << 0u32 == 1 && 1u32 << 1u32 == 2 && 1u32 << 2u32 == 4 && 1u32 << 3u32 == 8
        && 1u32 << 4u32 == 16 && 1u32 << 5u32 == 32 && 1u32 << 6u32 == 64 && 1u32 << 7u32 == 128
        && 1u32 << 8u32 == 256 && 1u32 << 9u32 == 512 && 1u32 << 10u32 == 1024) by (bit_vector);
}

proof fn lemma_mv_bits(rac: Rac, probs: MvCompProbs, counts: MvCountView, m: int)
    requires
        0 <= m,
    ensures
        0 <= mv_bits_spec(rac, probs, counts, m).value < weight(m),
    decreases m,
{
    if m > 0 {
        lemma_mv_bits(rac, probs, counts, m - 1);
    }
}

/// The trees of motion vectors hold what their readers count on.
proof fn lemma_mv_trees()
    ensures
        crate::vp9::bool_decoder::tree_wf(MV_JOINT_TREE@, 3),
        crate::vp9::bool_decoder::tree_wf(MV_CLASS_TREE@, 10),
        crate::vp9::bool_decoder::tree_wf(MV_FP_TREE@, 3),
        crate::vp9::bool_decoder::leaves_in(MV_JOINT_TREE@, 0, 3),
        crate::vp9::bool_decoder::leaves_in(MV_CLASS_TREE@, 0, 10),
        crate::vp9::bool_decoder::leaves_in(MV_FP_TREE@, 0, 3),
{
}

/// Reads the fraction that ends a component.
fn read_mv_fraction(
    bd: &mut BoolDecoder,
    fp_probs: &[u8; 3],
    hp_prob: u8,
    use_hp: bool,
    Ghost(s): Ghost<MvRead>,
) -> (r: (usize, usize))
    requires
        old(bd)@.wf(),
        s.rac == old(bd)@,
    ensures
        final(bd)@.wf(),
        final(bd)@.data == old(bd)@.data,
        (r.0 as int, r.1 as int, final(bd)@) == mv_fraction_spec(s, fp_probs@, hp_prob, use_hp),
        r.0 <= 3,
        r.1 <= 1,
{
    proof {
        lemma_mv_trees();
        crate::vp9::bool_decoder::law_symbol_is_leaf(bd@, MV_FP_TREE@, fp_probs@, 0, 3);
    }
    let fp: usize = bd.get_tree(&MV_FP_TREE, fp_probs) as usize;
    if use_hp {
        let b = bd.get_prob(hp_prob);
        (fp, if b { 1 } else { 0 })
    } else {
        (fp, 1)
    }
}

/// Reads the bits of a long component.
fn read_mv_bits(
    bd: &mut BoolDecoder,
    prob_comp: &MvCompProbs,
    counts: &mut MvCompCounts,
    n: usize,
) -> (r: i32)
    requires
        old(bd)@.wf(),
        1 <= n <= 10,
    ensures
        final(bd)@.wf(),
        final(bd)@.data == old(bd)@.data,
        r == mv_bits_spec(old(bd)@, *prob_comp, old(counts)@, n as int).value,
        final(bd)@ == mv_bits_spec(old(bd)@, *prob_comp, old(counts)@, n as int).rac,
        final(counts)@ == mv_bits_spec(old(bd)@, *prob_comp, old(counts)@, n as int).counts,
        0 <= r < weight(n as int),
{
    let ghost rac = bd@;
    let ghost start = counts@;
    let mut value: i32 = 0;
    let mut w: i32 = 1;
    let mut m: usize = 0;
    while m < n
        invariant
            m <= n <= 10,
            rac == old(bd)@,
            start == old(counts)@,
            bd@.wf(),
            bd@.data == rac.data,
            w == weight(m as int),
            0 <= value < weight(m as int),
            value == mv_bits_spec(rac, *prob_comp, start, m as int).value,
            bd@ == mv_bits_spec(rac, *prob_comp, start, m as int).rac,
            counts@ == mv_bits_spec(rac, *prob_comp, start, m as int).counts,
        decreases n - m,
    {
        proof {
            lemma_weight(m as int);
        }
        let ghost before = counts@;
        let b = bd.get_prob(prob_comp.bits[m]);
        bump2(&mut counts.bits, m, if b { 1 } else { 0 });
        if b {
            value = value + w;
        }
        w = 2 * w;
        m += 1;
        assert(weight(m as int) == 2 * weight(m - 1));
        assert(counts@ == (MvCountView { bits: counts@.bits, ..before }));
    }
    value
}

/// Reads a component of a motion vector's difference, and counts its symbols.
pub fn read_mv_component(
    bd: &mut BoolDecoder,
    prob_comp: &MvCompProbs,
    counts: &mut MvCompCounts,
    hp: bool,
) -> (r: i16)
    requires
        old(bd)@.wf(),
    ensures
        final(bd)@.wf(),
        final(bd)@.data == old(bd)@.data,
        r == mv_component_spec(old(bd)@, *prob_comp, old(counts)@, hp).value,
        final(bd)@ == mv_component_spec(old(bd)@, *prob_comp, old(counts)@, hp).rac,
        final(counts)@ == mv_component_spec(old(bd)@, *prob_comp, old(counts)@, hp).counts,
        r != 0,
        -16384 <= r <= 16384,
{
    proof {
        reveal(mv_component_spec);
        lemma_mv_trees();
    }
    let sign = bd.get_prob(prob_comp.sign);
    bump1(&mut counts.sign, if sign { 1 } else { 0 });
    proof {
        crate::vp9::bool_decoder::law_symbol_is_leaf(bd@, MV_CLASS_TREE@, prob_comp.classes@, 0, 10);
    }
    let c: usize = bd.get_tree(&MV_CLASS_TREE, &prob_comp.classes) as usize;
    bump1(&mut counts.classes, c);
    let ghost k1 = counts@;
    let ghost r2 = bd@;
    let n: i32;
    if c > 0 {
        let m: i32 = read_mv_bits(bd, prob_comp, counts, c);
        let ghost s = mv_bits_spec(r2, *prob_comp, k1, c as int);
        let (fp, last) = read_mv_fraction(bd, &prob_comp.fp, prob_comp.hp, hp, Ghost(s));
        bump1(&mut counts.fp, fp);
        bump1(&mut counts.hp, last);
        let w: i32 = (1u32 << (c as u32)) as i32;
        proof {
            lemma_weight(c as int);
        }
        n = 8 * m + 2 * (fp as i32) + last as i32 + 8 * w;
    } else {
        let b = bd.get_prob(prob_comp.class0);
        let k: usize = if b { 1 } else { 0 };
        bump1(&mut counts.class0, k);
        let ghost s = MvRead { value: k as int, rac: bd@, counts: counts@ };
        let (fp, last) = read_mv_fraction(
            bd,
            &prob_comp.class0_fp[k],
            prob_comp.class0_hp,
            hp,
            Ghost(s),
        );
        bump2(&mut counts.class0_fp, k, fp);
        bump1(&mut counts.class0_hp, last);
        n = 8 * (k as i32) + 2 * (fp as i32) + last as i32;
    }
    if sign {
        (-(n + 1)) as i16
    } else {
        (n + 1) as i16
    }
}

/// The number that stands in a block for the mode in which no motion is coded.
pub const ZEROMV: u8 = 12;

/// The number of the mode in which the next motion vector in the neighbourhood is taken.
pub const NEARMV: u8 = 11;

/// The number of the mode in which a difference is coded.
pub const NEWMV: u8 = 13;

/// A motion vector, and what was read for it.
pub struct MvTaken {
    pub mv: (i16, i16),
    pub rac: Rac,
    pub counts: CountView,
}

/// Whether a predicted vector is short enough to be kept in eighths of a pixel.
pub open spec fn keeps_eighths(mv: (i16, i16), high_precision: bool) -> bool {
    high_precision && -64 < mv.0 < 64 && -64 < mv.1 < 64
}

/// The predicted vector that a block starts from.
pub open spec fn start_mv_spec(q: Query, mode: u8, high_precision: bool) -> (i16, i16) {
    let p = find_ref_mv_spec(
        Query {
            idx: if mode == NEARMV {
                1
            } else {
                0
            },
            sb: if mode == NEWMV {
                -1
            } else {
                q.sb
            },
            ..q
        },
    );
    if (mode == NEWMV || q.sb == -1) && !keeps_eighths(p, high_precision) {
        (round_mv_spec(p.0), round_mv_spec(p.1))
    } else {
        p
    }
}

/// The counts with those of one component of motion vectors replaced.
pub open spec fn with_mv_comp(counts: CountView, i: int, c: MvCountView) -> CountView {
    CountView { mv_comp: counts.mv_comp.update(i, c), ..counts }
}

/// A difference is read and added: the joint tells which components it has, the
/// rows come first.
#[verifier::opaque]
pub open spec fn add_difference_spec(
    mv: (i16, i16),
    rac: Rac,
    prob: ProbContext,
    counts: CountView,
    hp: bool,
) -> MvTaken {
    let j = rac.symbol(MV_JOINT_TREE@, prob.mv_joint@);
    let t0 = MvTaken {
        mv,
        rac: rac.after_symbol(MV_JOINT_TREE@, prob.mv_joint@),
        counts: CountView {
            mv_joint: crate::vp9::prob::bump1_spec(counts.mv_joint, j),
            ..counts
        },
    };
    let t1 = if j >= 2 {
        let d = mv_component_spec(t0.rac, prob.mv_comp@[0], t0.counts.mv_comp[0], hp);
        MvTaken {
            mv: (t0.mv.0, t0.mv.1.wrapping_add(d.value as i16)),
            rac: d.rac,
            counts: with_mv_comp(t0.counts, 0, d.counts),
        }
    } else {
        t0
    };
    if j % 2 == 1 {
        let d = mv_component_spec(t1.rac, prob.mv_comp@[1], t1.counts.mv_comp[1], hp);
        MvTaken {
            mv: (t1.mv.0.wrapping_add(d.value as i16), t1.mv.1),
            rac: d.rac,
            counts: with_mv_comp(t1.counts, 1, d.counts),
        }
    } else {
        t1
    }
}

/// A motion vector of a block: the predicted one, with the difference where the mode
/// codes one. The difference has eighths where the prediction was short enough.
pub open spec fn take_mv_spec(
    q: Query,
    mode: u8,
    rac: Rac,
    prob: ProbContext,
    counts: CountView,
    high_precision: bool,
) -> MvTaken {
    let p = find_ref_mv_spec(
        Query {
            idx: if mode == NEARMV {
                1
            } else {
                0
            },
            sb: if mode == NEWMV {
                -1
            } else {
                q.sb
            },
            ..q
        },
    );
    let mv = start_mv_spec(q, mode, high_precision);
    if mode == NEWMV {
        add_difference_spec(mv, rac, prob, counts, keeps_eighths(p, high_precision))
    } else {
        MvTaken { mv, rac, counts }
    }
}

/// The motion vectors of a block.
pub struct MvPairTaken {
    pub mv0: (i16, i16),
    pub mv1: (i16, i16),
    pub rac: Rac,
    pub counts: CountView,
}

/// The motion vectors of a block, one for each of its references. Where it has one
/// reference, the second vector stays as it was, but for the mode without motion.
pub open spec fn fill_mv_spec(
    q: Query,
    before1: (i16, i16),
    mode: u8,
    comp: bool,
    refs: Seq<i8>,
    rac: Rac,
    prob: ProbContext,
    counts: CountView,
    high_precision: bool,
) -> MvPairTaken {
    if mode == ZEROMV {
        MvPairTaken { mv0: (0i16, 0i16), mv1: (0i16, 0i16), rac, counts }
    } else {
        let a = take_mv_spec(
            Query { ref_idx: refs[0], z: 0, ..q },
            mode,
            rac,
            prob,
            counts,
            high_precision,
        );
        if comp {
            let b = take_mv_spec(
                Query { ref_idx: refs[1], z: 1, ..q },
                mode,
                a.rac,
                prob,
                a.counts,
                high_precision,
            );
            MvPairTaken { mv0: a.mv, mv1: b.mv, rac: b.rac, counts: b.counts }
        } else {
            MvPairTaken { mv0: a.mv, mv1: before1, rac: a.rac, counts: a.counts }
        }
    }
}

/// Reads a difference and adds it.
fn add_difference(
    mv: &mut [i16; 2],
    bd: &mut BoolDecoder,
    prob: &ProbContext,
    counts: &mut CountContext,
    hp: bool,
)
    requires
        old(bd)@.wf(),
    ensures
        final(bd)@.wf(),
        final(bd)@.data == old(bd)@.data,
        mv2(*final(mv)) == add_difference_spec(mv2(*old(mv)), old(bd)@, *prob, old(counts)@, hp).mv,
        final(bd)@ == add_difference_spec(mv2(*old(mv)), old(bd)@, *prob, old(counts)@, hp).rac,
        final(counts)@ == add_difference_spec(
            mv2(*old(mv)),
            old(bd)@,
            *prob,
            old(counts)@,
            hp,
        ).counts,
{
    proof {
        reveal(add_difference_spec);
        lemma_mv_trees();
        crate::vp9::bool_decoder::law_symbol_is_leaf(bd@, MV_JOINT_TREE@, prob.mv_joint@, 0, 3);
    }
    let j: usize = bd.get_tree(&MV_JOINT_TREE, &prob.mv_joint) as usize;
    let ghost c0 = counts@;
    bump1(&mut counts.mv_joint, j);
    assert(counts@ == (CountView { mv_joint: counts@.mv_joint, ..c0 }));
    if j >= 2 {
        let ghost c1 = counts@;
        let d: i16 = read_mv_component(bd, &prob.mv_comp[0], &mut counts.mv_comp[0], hp);
        assert(counts@ == with_mv_comp(c1, 0, counts@.mv_comp[0]));
        mv[1] = mv[1].wrapping_add(d);
    }
    if j % 2 == 1 {
        let ghost c1 = counts@;
        let d: i16 = read_mv_component(bd, &prob.mv_comp[1], &mut counts.mv_comp[1], hp);
        assert(counts@ == with_mv_comp(c1, 1, counts@.mv_comp[1]));
        mv[0] = mv[0].wrapping_add(d);
    }
}

/// Reads a motion vector of a block.
fn take_mv(
    bd: &mut BoolDecoder,
    ctx: &MvSearchCtx,
    cur_mv_grid: &[MvRefPair],
    prev_mv_grid: Option<&[MvRefPair]>,
    prev_cols_4x4: usize,
    above_mv_ctx: &[[[i16; 2]; 2]],
    left_mv_ctx: &[[[i16; 2]; 2]],
    mode: u8,
    sb: i32,
    row: usize,
    col: usize,
    row7: usize,
    bs: BlockSize,
    ref_idx: i8,
    z: usize,
    sub_mvs: &[[[i16; 2]; 2]; 4],
    prob: &ProbContext,
    counts: &mut CountContext,
    high_precision_mvs: bool,
    use_last_frame_mvs: bool,
    Ghost(q): Ghost<Query>,
) -> (r: [i16; 2])
    requires
        old(bd)@.wf(),
        ctx.wf(),
        row < ctx.rows_4x4,
        col < ctx.cols_4x4,
        ctx.rows_4x4 * ctx.cols_4x4 <= cur_mv_grid@.len(),
        grid_wf(cur_mv_grid@),
        prev_mv_grid matches Some(p) ==> grid_wf(p@),
        row * prev_cols_4x4 + col <= usize::MAX,
        row7 <= 7,
        z < 2,
        -1 <= sb <= 3,
        0 <= ref_idx <= 2,
        q == (Query {
            ctx: *ctx,
            grid: cur_mv_grid@,
            prev: match prev_mv_grid {
                Some(p) => Some(p@),
                None => None,
            },
            prev_cols: prev_cols_4x4 as int,
            above: above_mv_ctx@,
            left: left_mv_ctx@,
            ref_idx,
            z: z as int,
            idx: q.idx,
            sb: sb as int,
            row: row as int,
            col: col as int,
            row7: row7 as int,
            bs,
            sub_mvs: sub_mvs@,
            use_last: use_last_frame_mvs,
        }),
    ensures
        final(bd)@.wf(),
        final(bd)@.data == old(bd)@.data,
        mv2(r) == take_mv_spec(q, mode, old(bd)@, *prob, old(counts)@, high_precision_mvs).mv,
        final(bd)@ == take_mv_spec(
            q,
            mode,
            old(bd)@,
            *prob,
            old(counts)@,
            high_precision_mvs,
        ).rac,
        final(counts)@ == take_mv_spec(
            q,
            mode,
            old(bd)@,
            *prob,
            old(counts)@,
            high_precision_mvs,
        ).counts,
{
    let mut mv: [i16; 2] = [0, 0];
    let idx: usize = if mode == NEARMV { 1 } else { 0 };
    let part: i32 = if mode == NEWMV { -1 } else { sb };
    find_ref_mvs(
        ctx,
        cur_mv_grid,
        prev_mv_grid,
        prev_cols_4x4,
        above_mv_ctx,
        left_mv_ctx,
        &mut mv,
        ref_idx,
        z,
        idx,
        part,
        row,
        col,
        row7,
        bs,
        sub_mvs,
        use_last_frame_mvs,
    );
    let ghost p = mv2(mv);
    assert(p == find_ref_mv_spec(Query { idx: idx as int, sb: part as int, ..q }));
    let hp = high_precision_mvs && mv[0] > -64 && mv[0] < 64 && mv[1] > -64 && mv[1] < 64;
    if (mode == NEWMV || sb == -1) && !hp {
        mv = [round_mv_comp(mv[0]), round_mv_comp(mv[1])];
    }
    if mode == NEWMV {
        add_difference(&mut mv, bd, prob, counts, hp);
    }
    mv
}

/// Reads the motion vectors of a block, or of a part of one.
pub fn fill_mv(
    bd: &mut BoolDecoder,
    ctx: &MvSearchCtx,
    cur_mv_grid: &[MvRefPair],
    prev_mv_grid: Option<&[MvRefPair]>,
    prev_cols_4x4: usize,
    above_mv_ctx: &[[[i16; 2]; 2]],
    left_mv_ctx: &[[[i16; 2]; 2]],
    mv_out: &mut [[i16; 2]; 2],
    mode: u8,
    sb: i32,
    row: usize,
    col: usize,
    row7: usize,
    bs: BlockSize,
    comp: bool,
    ref_frames: &[i8; 2],
    sub_mvs: &[[[i16; 2]; 2]; 4],
    prob: &ProbContext,
    counts: &mut CountContext,
    high_precision_mvs: bool,
    use_last_frame_mvs: bool,
)
    requires
        old(bd)@.wf(),
        ctx.wf(),
        row < ctx.rows_4x4,
        col < ctx.cols_4x4,
        ctx.rows_4x4 * ctx.cols_4x4 <= cur_mv_grid@.len(),
        grid_wf(cur_mv_grid@),
        prev_mv_grid matches Some(p) ==> grid_wf(p@),
        row * prev_cols_4x4 + col <= usize::MAX,
        row7 <= 7,
        -1 <= sb <= 3,
        mode != ZEROMV ==> 0 <= ref_frames@[0] <= 2,
        mode != ZEROMV && comp ==> 0 <= ref_frames@[1] <= 2,
    ensures
        final(bd)@.wf(),
        final(bd)@.data == old(bd)@.data,
        (MvPairTaken {
            mv0: mv2(final(mv_out)@[0]),
            mv1: mv2(final(mv_out)@[1]),
            rac: final(bd)@,
            counts: final(counts)@,
        }) == fill_mv_spec(
            Query {
                ctx: *ctx,
                grid: cur_mv_grid@,
                prev: match prev_mv_grid {
                    Some(p) => Some(p@),
                    None => None,
                },
                prev_cols: prev_cols_4x4 as int,
                above: above_mv_ctx@,
                left: left_mv_ctx@,
                ref_idx: 0,
                z: 0,
                idx: 0,
                sb: sb as int,
                row: row as int,
                col: col as int,
                row7: row7 as int,
                bs,
                sub_mvs: sub_mvs@,
                use_last: use_last_frame_mvs,
            },
            mv2(old(mv_out)@[1]),
            mode,
            comp,
            ref_frames@,
            old(bd)@,
            *prob,
            old(counts)@,
            high_precision_mvs,
        ),
{
    if mode == ZEROMV {
        *mv_out = [[0, 0], [0, 0]];
        return ;
    }
    let ghost q = Query {
        ctx: *ctx,
        grid: cur_mv_grid@,
        prev: match prev_mv_grid {
            Some(p) => Some(p@),
            None => None,
        },
        prev_cols: prev_cols_4x4 as int,
        above: above_mv_ctx@,
        left: left_mv_ctx@,
        ref_idx: 0,
        z: 0,
        idx: 0,
        sb: sb as int,
        row: row as int,
        col: col as int,
        row7: row7 as int,
        bs,
        sub_mvs: sub_mvs@,
        use_last: use_last_frame_mvs,
    };
    mv_out[0] = take_mv(
        bd,
        ctx,
        cur_mv_grid,
        prev_mv_grid,
        prev_cols_4x4,
        above_mv_ctx,
        left_mv_ctx,
        mode,
        sb,
        row,
        col,
        row7,
        bs,
        ref_frames[0],
        0,
        sub_mvs,
        prob,
        counts,
        high_precision_mvs,
        use_last_frame_mvs,
        Ghost(Query { ref_idx: ref_frames@[0], z: 0, ..q }),
    );
    if comp {
        mv_out[1] = take_mv(
            bd,
            ctx,
            cur_mv_grid,
            prev_mv_grid,
            prev_cols_4x4,
            above_mv_ctx,
            left_mv_ctx,
            mode,
            sb,
            row,
            col,
            row7,
            bs,
            ref_frames[1],
            1,
            sub_mvs,
            prob,
            counts,
            high_precision_mvs,
            use_last_frame_mvs,
            Ghost(Query { ref_idx: ref_frames@[1], z: 1, ..q }),
        );
    }
}

/// Whether a place was predicted from no reference.
pub open spec fn no_reference(pair: MvRefPair) -> bool {
    pair.ref_frame@[0] < 0 && pair.ref_frame@[1] < 0
}

/// Whether no place that a search looks at was predicted from a reference: none of the neighbours, not
/// the ones right above and on the left, and not the same place in the last frame.
pub open spec fn no_candidates(q: Query) -> bool {
    &&& forall|i: int|
        0 <= i < 8 ==> (#[trigger] neighbor_spec(q, i) matches Some(pair) ==> no_reference(pair))
    &&& prev_pair_spec(q) matches Some(pair) ==> no_reference(pair)
    &&& q.sb >= 0 && q.row > 0 ==> no_reference(q.grid[(q.row - 1) * q.ctx.cols_4x4 + q.col])
    &&& q.sb >= 0 && q.col > q.ctx.tile_col_start ==> no_reference(
        q.grid[q.row * q.ctx.cols_4x4 + q.col - 1],
    )
}

/// Where nothing next to a block was predicted from a reference, its prediction, or that of its first
/// part, is the zero vector, moved into the limits of the block.
pub proof fn law_nothing_found_is_zero(q: Query)
    requires
        q.sb == -1 || q.sb == 0,
        q.ref_idx >= 0,
        no_candidates(q),
    ensures
        find_ref_mv_spec(q) == clamp_mv_spec((0i16, 0i16), q.ctx),
{
    let s0 = Search { found: None, mem: INVALID_MV, mem_sub8x8: INVALID_MV };
    assert(left_stage(above_stage(direct_stage(s0, q), q), q) == s0);
    lemma_no_neighbors(s0, q, 0);
    lemma_no_neighbors(s0, q, 2);
}

proof fn lemma_no_neighbors(s: Search, q: Query, i: int)
    requires
        0 <= i <= 8,
        q.ref_idx >= 0,
        no_candidates(q),
    ensures
        near_stage(s, q, i) == s,
        other_stage(s, q, i) == s,
    decreases 8 - i,
{
    if i < 8 {
        assert(neighbor_spec(q, i) matches Some(pair) ==> no_reference(pair));
        lemma_no_neighbors(s, q, i + 1);
    }
}

/// Whether a vector lies in the limits of a block.
pub open spec fn in_limits(mv: (i16, i16), ctx: MvSearchCtx) -> bool {
    &&& ctx.min_mv@[0] <= mv.0 <= ctx.max_mv@[0]
    &&& ctx.min_mv@[1] <= mv.1 <= ctx.max_mv@[1]
}

/// The prediction of a block of at least 8x8 pixels, and that of the first part of a smaller one, lies
/// in the limits of the block.
pub proof fn law_prediction_in_limits(q: Query)
    requires
        q.sb == -1 || q.sb == 0,
        q.ctx.wf(),
    ensures
        in_limits(find_ref_mv_spec(q), q.ctx),
{
    let s0 = Search { found: None, mem: INVALID_MV, mem_sub8x8: INVALID_MV };
    let s1 = left_stage(above_stage(direct_stage(s0, q), q), q);
    let from = if q.sb >= 0 {
        2int
    } else {
        0int
    };
    lemma_stages_in_limits(s1, q, from);
    let s2 = near_stage(s1, q, from);
    let s3 = match prev_pair_spec(q) {
        Some(pair) => offer_same_spec(s2, pair, q),
        None => s2,
    };
    lemma_stages_in_limits(s3, q, 0);
}

proof fn lemma_stages_in_limits(s: Search, q: Query, i: int)
    requires
        q.sb == -1 || q.sb == 0,
        q.ctx.wf(),
        0 <= i,
        s.found matches Some(mv) ==> in_limits(mv, q.ctx),
    ensures
        near_stage(s, q, i).found matches Some(mv) ==> in_limits(mv, q.ctx),
        other_stage(s, q, i).found matches Some(mv) ==> in_limits(mv, q.ctx),
    decreases 8 - i,
{
    if i < 8 {
        let t = match neighbor_spec(q, i) {
            Some(pair) => offer_same_spec(s, pair, q),
            None => s,
        };
        lemma_stages_in_limits(t, q, i + 1);
        let t = match neighbor_spec(q, i) {
            Some(pair) => offer_other_spec(s, pair, q),
            None => s,
        };
        lemma_stages_in_limits(t, q, i + 1);
    }
}

} // verus!

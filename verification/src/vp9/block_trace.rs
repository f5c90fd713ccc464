//! What a block leaves behind for its neighbours and the next frame.
use vstd::prelude::*;

use crate::vp9::block_modes::{BlockModes, ModesView};
use crate::vp9::context::{AboveContext, CtxView, LeftContext};
use crate::vp9::data::BWH_TAB;
use crate::vp9::header::{FrameHeader, FrameType};
use crate::vp9::modes::{fill_within, is_sub8x8};
use crate::vp9::refs::MvRefPair;
use crate::vp9::types::BlockSize;

verus! {

/// What a block leaves behind, apart from its motion vectors.
pub struct Trace {
    pub skip: bool,
    pub tx_size: u8,
    pub partition: u8,
    /// Whether the frame has references, and the rest is left behind too.
    pub refs: bool,
    pub is_inter: bool,
    pub comp: bool,
    pub vref: u8,
    /// Code of the interpolation filter, where it is coded for each block.
    pub filter: Option<u8>,
    pub mode: u8,
}

/// One as a byte for a condition that holds.
pub open spec fn flag8(b: bool) -> u8 {
    if b {
        1
    } else {
        0
    }
}

/// A context with the trace of a block of `n` entries from `at` on, with `n_modes` modes
/// from `at_modes` on.
pub open spec fn traced(
    c: CtxView,
    at: int,
    n: int,
    at_modes: int,
    n_modes: int,
    t: Trace,
) -> CtxView {
    let d = CtxView {
        skip: crate::vp9::context::splat(c.skip, at, at + n, flag8(t.skip)),
        tx_size: crate::vp9::context::splat(c.tx_size, at, at + n, t.tx_size),
        partition: crate::vp9::context::splat(c.partition, at, at + n, t.partition),
        ..c
    };
    if t.refs {
        CtxView {
            intra: crate::vp9::context::splat(c.intra, at, at + n, flag8(!t.is_inter)),
            comp: crate::vp9::context::splat(c.comp, at, at + n, flag8(t.comp)),
            ref_frame: if t.is_inter {
                crate::vp9::context::splat(c.ref_frame, at, at + n, t.vref)
            } else {
                c.ref_frame
            },
            filter: match t.filter {
                Some(f) => if t.is_inter {
                    crate::vp9::context::splat(c.filter, at, at + n, f)
                } else {
                    c.filter
                },
                None => c.filter,
            },
            y_mode: crate::vp9::context::splat(
                c.y_mode,
                at_modes,
                at_modes + n_modes,
                t.mode,
            ),
            ..d
        }
    } else {
        d
    }
}

fn flag(b: bool) -> (r: u8)
    ensures
        r == flag8(b),
{
    if b {
        1
    } else {
        0
    }
}

fn trace_above(above: &mut AboveContext, col: usize, w: usize, w8: usize, t: &Trace)
    requires
        col <= 16384,
        w <= 16,
        w8 <= 8,
        t.tx_size <= 3,
        t.mode <= 13,
        crate::vp9::context::ctx_wf(old(above)@),
    ensures
        final(above)@ == traced(
            old(above)@,
            col as int,
            w as int,
            (col / 2) as int,
            w8 as int,
            *t,
        ),
        crate::vp9::context::ctx_wf(final(above)@),
        final(above).coef == old(above).coef,
{
    let ghost a0 = above@;
    let end: usize = col + w;
    fill_within(above.skip.as_mut_slice(), col, end, flag(t.skip));
    fill_within(above.tx_size.as_mut_slice(), col, end, t.tx_size);
    fill_within(above.partition.as_mut_slice(), col, end, t.partition);
    if t.refs {
        fill_within(above.intra.as_mut_slice(), col, end, flag(!t.is_inter));
        fill_within(above.comp.as_mut_slice(), col, end, flag(t.comp));
        if t.is_inter {
            fill_within(above.ref_frame.as_mut_slice(), col, end, t.vref);
            if let Some(f) = t.filter {
                fill_within(above.filter.as_mut_slice(), col, end, f);
            }
        }
        fill_within(above.y_mode.as_mut_slice(), col / 2, col / 2 + w8, t.mode);
    }
    assert(above@ =~= traced(a0, col as int, w as int, (col / 2) as int, w8 as int, *t));
}

fn trace_left(left: &mut LeftContext, row7: usize, h8: usize, t: &Trace)
    requires
        row7 <= 7,
        h8 <= 8,
        t.tx_size <= 3,
        t.mode <= 13,
        crate::vp9::context::ctx_wf(old(left)@),
    ensures
        final(left)@ == traced(
            old(left)@,
            row7 as int,
            h8 as int,
            row7 as int,
            if row7 + h8 < 8 {
                h8 as int
            } else {
                8 - row7
            },
            *t,
        ),
        crate::vp9::context::ctx_wf(final(left)@),
{
    let ghost l0 = left@;
    let end: usize = row7 + h8;
    fill_within(&mut left.skip, row7, end, flag(t.skip));
    fill_within(&mut left.tx_size, row7, end, t.tx_size);
    fill_within(&mut left.partition, row7, end, t.partition);
    if t.refs {
        fill_within(&mut left.intra, row7, end, flag(!t.is_inter));
        fill_within(&mut left.comp, row7, end, flag(t.comp));
        if t.is_inter {
            fill_within(&mut left.ref_frame, row7, end, t.vref);
            if let Some(f) = t.filter {
                fill_within(&mut left.filter, row7, end, f);
            }
        }
        let last: usize = if end < 8 { end } else { 8 };
        fill_within(&mut left.y_mode, row7, last, t.mode);
    }
    assert(left@ =~= traced(
        l0,
        row7 as int,
        h8 as int,
        row7 as int,
        if row7 + h8 < 8 {
            h8 as int
        } else {
            8 - row7
        },
        *t,
    ));
}

/// The partition that a block leaves behind above, by size.
pub const ABOVE_PARTITION_CTX: [u8; 13] = [0, 0, 8, 8, 8, 12, 12, 12, 14, 14, 14, 15, 15];

/// The partition that a block leaves behind on the left, by size.
pub const LEFT_PARTITION_CTX: [u8; 13] = [0, 8, 0, 8, 12, 8, 12, 14, 12, 14, 15, 14, 15];

/// Motion vectors with those of the lower or right edge of a block, from `at` on: those
/// of two quarters, or that of the block over `n` entries.
pub open spec fn mv_traced(
    c: Seq<[[i16; 2]; 2]>,
    at: int,
    n: int,
    small: bool,
    first: [[i16; 2]; 2],
    last: [[i16; 2]; 2],
) -> Seq<[[i16; 2]; 2]> {
    if small {
        crate::vp9::context::splat(
            crate::vp9::context::splat(c, at, at + 1, first),
            at + 1,
            at + 2,
            last,
        )
    } else {
        crate::vp9::context::splat(c, at, at + n, last)
    }
}

/// The motion vectors and references of a block in the grid.
pub open spec fn grid_pair(is_intra: bool, comp: bool, refs: Seq<i8>, mv: [[i16; 2]; 2]) -> MvRefPair {
    if is_intra {
        MvRefPair { mv: crate::vp9::context::zero_mvs(), ref_frame: [-1i8, -1i8] }
    } else if comp {
        MvRefPair { mv, ref_frame: [refs[0], refs[1]] }
    } else {
        MvRefPair { mv: [mv@[0], [0i16, 0i16]], ref_frame: [refs[0], -1i8] }
    }
}

/// A grid with the cells of a block filled from its row `y` on. A block that reaches
/// over the right edge goes on in the next row.
pub open spec fn grid_filled(
    g: Seq<MvRefPair>,
    cols: int,
    row: int,
    col: int,
    w: int,
    h: int,
    y: int,
    v: MvRefPair,
) -> Seq<MvRefPair>
    decreases h - y,
{
    if y >= h {
        g
    } else {
        let at = (row + y) * cols + col;
        grid_filled(
            crate::vp9::context::splat(g, at, at + w, v),
            cols,
            row,
            col,
            w,
            h,
            y + 1,
            v,
        )
    }
}

fn make_pair(is_intra: bool, comp: bool, refs: &[i8; 2], mv: [[i16; 2]; 2]) -> (r: MvRefPair)
    requires
        refs@[0] <= 2,
        refs@[1] <= 2,
    ensures
        r == grid_pair(is_intra, comp, refs@, mv),
        r.ref_frame@[0] <= 2,
        r.ref_frame@[1] <= 2,
{
    let e_mv: [[i16; 2]; 2];
    let e_refs: [i8; 2];
    if is_intra {
        e_mv = crate::vp9::context::no_mvs();
        e_refs = [-1, -1];
    } else if comp {
        e_mv = mv;
        e_refs = [refs[0], refs[1]];
    } else {
        let z: [i16; 2] = [0, 0];
        e_mv = [mv[0], z];
        e_refs = [refs[0], -1];
        assert(z =~= grid_pair(is_intra, comp, refs@, mv).mv@[1]);
    }
    let ghost e = grid_pair(is_intra, comp, refs@, mv);
    assert(e_refs =~= e.ref_frame);
    assert(e_mv =~= e.mv);
    MvRefPair { mv: e_mv, ref_frame: e_refs }
}

fn fill_grid(
    grid: &mut [MvRefPair],
    cols: usize,
    row: usize,
    col: usize,
    w: usize,
    h: usize,
    v: MvRefPair,
)
    requires
        row <= 16384,
        col <= 16384,
        cols <= 16384,
        w <= 16,
        h <= 16,
        v.ref_frame@[0] <= 2,
        v.ref_frame@[1] <= 2,
        crate::vp9::mvs::grid_wf(old(grid)@),
    ensures
        final(grid)@ == grid_filled(
            old(grid)@,
            cols as int,
            row as int,
            col as int,
            w as int,
            h as int,
            0,
            v,
        ),
        final(grid)@.len() == old(grid)@.len(),
        crate::vp9::mvs::grid_wf(final(grid)@),
{
    let ghost g0 = grid@;
    let mut y: usize = 0;
    while y < h
        invariant
            y <= h <= 16,
            row <= 16384,
            col <= 16384,
            cols <= 16384,
            w <= 16,
            v.ref_frame@[0] <= 2,
            v.ref_frame@[1] <= 2,
            grid@.len() == g0.len(),
            crate::vp9::mvs::grid_wf(grid@),
            grid_filled(
                grid@,
                cols as int,
                row as int,
                col as int,
                w as int,
                h as int,
                y as int,
                v,
            ) == grid_filled(
                g0,
                cols as int,
                row as int,
                col as int,
                w as int,
                h as int,
                0,
                v,
            ),
        decreases h - y,
    {
        proof {
            assert(0 <= (row + y) * cols <= 16400 * 16384) by (nonlinear_arith)
                requires
                    0 <= row + y <= 16400,
                    0 <= cols <= 16384,
            ;
        }
        let at: usize = (row + y) * cols + col;
        fill_within(grid, at, at + w, v);
        y += 1;
    }
}

/// The reference that a block leaves behind: its only one, or the variable one of two.
pub open spec fn vref_spec(h: FrameHeader, m: ModesView) -> u8 {
    if m.is_intra {
        0
    } else if m.comp && h.sign_bias@[h.var_comp_ref@[0] as int] {
        m.ref_frame[1] as u8
    } else {
        m.ref_frame[0] as u8
    }
}

/// What a block leaves behind on a side, apart from its motion vectors.
pub open spec fn trace_spec(h: FrameHeader, m: ModesView, skip: bool, partition: u8) -> Trace {
    Trace {
        skip,
        tx_size: m.tx_size.code_spec(),
        partition,
        refs: !crate::vp9::modes::without_refs(h),
        is_inter: !m.is_intra,
        comp: m.comp,
        vref: vref_spec(h, m),
        filter: if h.filter_mode == 4 {
            Some(m.filter_id)
        } else {
            None
        },
        mode: if m.is_intra {
            m.y_mode[3].code_spec()
        } else {
            m.inter_mode[3]
        },
    }
}

/// The contexts and the grid behind a block.
pub struct LeftBehind {
    pub above: CtxView,
    pub left: CtxView,
    pub grid: Seq<MvRefPair>,
}

/// What a block leaves behind.
#[verifier::opaque]
pub open spec fn left_behind(
    h: FrameHeader,
    cols: int,
    b: LeftBehind,
    row: int,
    col: int,
    bs: BlockSize,
    m: ModesView,
    skip: bool,
) -> LeftBehind {
    let k = bs.code_spec() as int;
    let w4 = BWH_TAB@[0]@[k]@[0] as int;
    let h4 = BWH_TAB@[0]@[k]@[1] as int;
    let w8 = BWH_TAB@[1]@[k]@[0] as int;
    let h8 = BWH_TAB@[1]@[k]@[1] as int;
    let row7 = crate::vp9::block_modes::row7_spec(row);
    let above = traced(
        b.above,
        col,
        w4,
        col / 2,
        w8,
        trace_spec(h, m, skip, ABOVE_PARTITION_CTX@[k]),
    );
    let left = traced(
        b.left,
        row7,
        h8,
        row7,
        if row7 + h8 < 8 {
            h8
        } else {
            8 - row7
        },
        trace_spec(h, m, skip, LEFT_PARTITION_CTX@[k]),
    );
    let small = crate::vp9::modes::sub8x8(bs);
    if crate::vp9::modes::without_refs(h) {
        LeftBehind { above, left, grid: b.grid }
    } else {
        LeftBehind {
            above: if m.is_intra {
                above
            } else {
                CtxView {
                    mv: mv_traced(above.mv, 2 * col, 2 * w8, small, m.mv[2], m.mv[3]),
                    ..above
                }
            },
            left: if m.is_intra {
                left
            } else {
                CtxView {
                    mv: mv_traced(left.mv, 2 * row7, 2 * h8, small, m.mv[1], m.mv[3]),
                    ..left
                }
            },
            grid: grid_filled(
                b.grid,
                cols,
                row,
                col,
                w4,
                h4,
                0,
                grid_pair(m.is_intra, m.comp, m.ref_frame, m.mv[3]),
            ),
        }
    }
}

/// Updates the motion vectors above and on the left, and the grid, behind a block.
fn update_mv_ctx(
    above: &mut AboveContext,
    left: &mut LeftContext,
    grid: &mut [MvRefPair],
    cols: usize,
    row: usize,
    col: usize,
    bs: BlockSize,
    m: &BlockModes,
)
    requires
        row <= 16384,
        col <= 16384,
        cols <= 16384,
        crate::vp9::block_modes::modes_wf(m@),
        crate::vp9::mvs::grid_wf(old(grid)@),
    ensures
        ({
            let k = bs.code_spec() as int;
            let small = crate::vp9::modes::sub8x8(bs);
            let row7 = crate::vp9::block_modes::row7_spec(row as int);
            &&& final(above)@ == (if m.is_intra {
                old(above)@
            } else {
                CtxView {
                    mv: mv_traced(
                        old(above)@.mv,
                        2 * col,
                        2 * BWH_TAB@[1]@[k]@[0],
                        small,
                        m.mv@[2],
                        m.mv@[3],
                    ),
                    ..old(above)@
                }
            })
            &&& final(left)@ == (if m.is_intra {
                old(left)@
            } else {
                CtxView {
                    mv: mv_traced(
                        old(left)@.mv,
                        2 * row7,
                        2 * BWH_TAB@[1]@[k]@[1],
                        small,
                        m.mv@[1],
                        m.mv@[3],
                    ),
                    ..old(left)@
                }
            })
            &&& final(grid)@ == grid_filled(
                old(grid)@,
                cols as int,
                row as int,
                col as int,
                BWH_TAB@[0]@[k]@[0] as int,
                BWH_TAB@[0]@[k]@[1] as int,
                0,
                grid_pair(m.is_intra, m.comp, m.ref_frame@, m.mv@[3]),
            )
        }),
        final(above).coef == old(above).coef,
        final(grid)@.len() == old(grid)@.len(),
        crate::vp9::mvs::grid_wf(final(grid)@),
{
    let k: usize = bs.code() as usize;
    let w4: usize = BWH_TAB[0][k][0] as usize;
    let h4: usize = BWH_TAB[0][k][1] as usize;
    let w8: usize = BWH_TAB[1][k][0] as usize;
    let h8: usize = BWH_TAB[1][k][1] as usize;
    let row7: usize = (row / 2) % 8;
    let ghost a0 = above@;
    let ghost l0 = left@;
    if !m.is_intra {
        let a: usize = col * 2;
        let l: usize = row7 * 2;
        if is_sub8x8(bs) {
            fill_within(&mut left.mv, l, l + 1, m.mv[1]);
            fill_within(&mut left.mv, l + 1, l + 2, m.mv[3]);
            fill_within(above.mv.as_mut_slice(), a, a + 1, m.mv[2]);
            fill_within(above.mv.as_mut_slice(), a + 1, a + 2, m.mv[3]);
        } else {
            fill_within(above.mv.as_mut_slice(), a, a + w8 * 2, m.mv[3]);
            fill_within(&mut left.mv, l, l + h8 * 2, m.mv[3]);
        }
        assert(above@ =~= (CtxView { mv: above@.mv, ..a0 }));
        assert(left@ =~= (CtxView { mv: left@.mv, ..l0 }));
    }
    let v: MvRefPair = make_pair(m.is_intra, m.comp, &m.ref_frame, m.mv[3]);
    fill_grid(grid, cols, row, col, w4, h4, v);
}

/// Updates the contexts and the grid behind a block.
pub fn update_ctx(
    h: &FrameHeader,
    above: &mut AboveContext,
    left: &mut LeftContext,
    grid: &mut [MvRefPair],
    cols: usize,
    row: usize,
    col: usize,
    bs: BlockSize,
    m: &BlockModes,
    skip: bool,
)
    requires
        row <= 16384,
        col <= 16384,
        cols <= 16384,
        crate::vp9::block_modes::modes_wf(m@),
        crate::vp9::header::header_wf(*h),
        crate::vp9::mvs::grid_wf(old(grid)@),
        crate::vp9::context::ctx_wf(old(above)@),
        crate::vp9::context::ctx_wf(old(left)@),
    ensures
        (LeftBehind { above: final(above)@, left: final(left)@, grid: final(grid)@ })
            == left_behind(
            *h,
            cols as int,
            LeftBehind { above: old(above)@, left: old(left)@, grid: old(grid)@ },
            row as int,
            col as int,
            bs,
            m@,
            skip,
        ),
        final(above).coef == old(above).coef,
        final(grid)@.len() == old(grid)@.len(),
        crate::vp9::mvs::grid_wf(final(grid)@),
        crate::vp9::context::ctx_wf(final(above)@),
        crate::vp9::context::ctx_wf(final(left)@),
{
    proof {
        reveal(left_behind);
        assert(h.var_comp_ref@[0] <= 2);
    }
    let k: usize = bs.code() as usize;
    let w4: usize = BWH_TAB[0][k][0] as usize;
    let w8: usize = BWH_TAB[1][k][0] as usize;
    let h8: usize = BWH_TAB[1][k][1] as usize;
    let row7: usize = (row / 2) % 8;
    let refs = !(h.frame_type == FrameType::KeyFrame || h.intra_only);
    let vref: u8 = if m.is_intra {
        0
    } else if m.comp && h.sign_bias[h.var_comp_ref[0] as usize] {
        m.ref_frame[1] as u8
    } else {
        m.ref_frame[0] as u8
    };
    let filter: Option<u8> = if h.filter_mode == 4 { Some(m.filter_id) } else { None };
    let mode: u8 = if m.is_intra { m.y_mode[3].code() } else { m.inter_mode[3] };
    proof {
        assert(m@.y_mode[3].code_spec() <= 9);
    }
    let mut t = Trace {
        skip,
        tx_size: m.tx_size.code(),
        partition: ABOVE_PARTITION_CTX[k],
        refs,
        is_inter: !m.is_intra,
        comp: m.comp,
        vref,
        filter,
        mode,
    };
    trace_above(above, col, w4, w8, &t);
    t.partition = LEFT_PARTITION_CTX[k];
    trace_left(left, row7, h8, &t);
    if refs {
        update_mv_ctx(above, left, grid, cols, row, col, bs, m);
    }
}

} // verus!

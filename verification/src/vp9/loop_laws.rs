//! What the loop filter does to the edges of blocks.
use vstd::prelude::*;

use crate::vp9::block_modes::BlockView;
use crate::vp9::data::BWH_TAB;
use crate::vp9::edge_filter::{edge_spec, line_spec};
use crate::vp9::header::FrameHeader;
use crate::vp9::loopfilter::{
    block_level, blocks_in, collected, has_edge, inner_limit, inner_spec, level_edge,
    loop_filter_spec, luma_edges, outer_limit, pair_spec, sb_plane, sb_view, with_block, Pair,
    SbFilterView, SbPlaneView,
};
use crate::vp9::recon::FbView;
use crate::vp9::types::TxSize;

verus! {

/// How edges lie in a plane with rows of `w` bytes: the lines across an edge are `along` apart, and the
/// pixels of a line `step`.
pub struct Lie {
    pub along: int,
    pub step: int,
    pub w: int,
}

impl Lie {
    spec fn wf(self) -> bool {
        &&& 64 <= self.w
        &&& (self.along == 1 && self.step == self.w) || (self.along == self.w && self.step == 1)
    }

    /// The place of the pixel number `n` of the line number `m`.
    spec fn spot(self, m: int, n: int) -> int {
        m * self.along + n * self.step
    }

    /// Whether a line and a pixel of it lie in the rows of the plane.
    spec fn fits(self, m: int, n: int) -> bool {
        if self.along == 1 {
            0 <= m < self.w
        } else {
            0 <= n < self.w
        }
    }

    proof fn lemma_spots(self, m: int, n: int, i: int, j: int)
        requires
            self.wf(),
            self.fits(m, n),
            self.fits(i, j),
            self.spot(m, n) == self.spot(i, j),
        ensures
            m == i,
            n == j,
    {
        let w = self.w;
        if self.along == 1 {
            assert(m * 1 == m && i * 1 == i) by (nonlinear_arith);
            assert(n == j) by (nonlinear_arith)
                requires
                    m + n * w == i + j * w,
                    0 <= m < w,
                    0 <= i < w,
            ;
        } else {
            assert(n * 1 == n && j * 1 == j) by (nonlinear_arith);
            assert(m == i) by (nonlinear_arith)
                requires
                    m * w + n == i * w + j,
                    0 <= n < w,
                    0 <= j < w,
            ;
        }
    }

    proof fn lemma_next(self, m: int, n: int, k: int)
        ensures
            self.spot(m, n) + k * self.along == self.spot(m + k, n),
            self.spot(m, n) + k * self.step == self.spot(m, n + k),
    {
        assert((m + k) * self.along == m * self.along + k * self.along) by (nonlinear_arith);
        assert((n + k) * self.step == n * self.step + k * self.step) by (nonlinear_arith);
    }
}

/// Whether an edge of 8 lines from the line number `m0` on, in front of the pixel number `e`, can be
/// filtered over 8 pixels within the rows of the plane.
spec fn edge_fits(g: Lie, m0: int, e: int) -> bool {
    forall|k: int, j: int|
        #![trigger g.fits(m0 + k, e + j)]
        0 <= k < 8 && -4 <= j < 4 ==> g.fits(m0 + k, e + j)
}

/// A pixel of another line, or away from the edge, stays as it is.
proof fn lemma_line_keeps(
    d: Seq<u8>,
    g: Lie,
    m0: int,
    e: int,
    outer: int,
    inner: int,
    thresh: int,
    wd: int,
    m: int,
    n: int,
)
    requires
        g.wf(),
        wd < 16,
        forall|j: int| -4 <= j < 4 ==> g.fits(m0, #[trigger] (e + j)),
        g.fits(m, n),
        0 <= g.spot(m, n) < d.len(),
        m != m0 || n < e - 3 || n > e + 2,
    ensures
        line_spec(d, g.spot(m0, e), g.step, outer, inner, thresh, wd).len() == d.len(),
        line_spec(d, g.spot(m0, e), g.step, outer, inner, thresh, wd)[g.spot(m, n)] == d[g.spot(
            m,
            n,
        )],
{
    let base = g.spot(m0, e);
    let i = g.spot(m, n);
    assert forall|k: int| -3 <= k < 3 implies i != base + #[trigger] (k * g.step) by {
        g.lemma_next(m0, e, k);
        assert(g.fits(m0, e + k));
        if i == base + k * g.step {
            g.lemma_spots(m, n, m0, e + k);
        }
    }
    crate::vp9::edge_filter::law_filter_stays_near_edge(
        d,
        base,
        g.step,
        outer,
        inner,
        thresh,
        wd,
        i,
    );
}

/// The state of a line with a step: before its edge is filtered, and behind that.
spec fn untouched(d: Seq<u8>, g: Lie, m: int, s: int, a: u8, b: u8) -> bool {
    &&& forall|n: int| 0 <= n < s ==> d[#[trigger] g.spot(m, n)] == a
    &&& forall|n: int| s <= n < s + 4 ==> d[#[trigger] g.spot(m, n)] == b
}

spec fn spread(d: Seq<u8>, g: Lie, m: int, s: int, a: u8, b: u8) -> bool {
    &&& d[g.spot(m, s - 1)] == (5 * a + 3 * b + 4) / 8
    &&& d[g.spot(m, s)] == (3 * a + 5 * b + 4) / 8
}

/// A line with a step, in a plane of `len` bytes.
pub struct Target {
    pub g: Lie,
    pub m: int,
    pub s: int,
    pub a: u8,
    pub b: u8,
    pub len: int,
}

impl Target {
    spec fn wf(self) -> bool {
        &&& self.g.wf()
        &&& 0 <= self.m < 64
        &&& 8 <= self.s <= 56
        &&& self.s % 8 == 0
        &&& 64 * self.g.w <= self.len
    }

    spec fn untouched(self, d: Seq<u8>) -> bool {
        d.len() == self.len && untouched(d, self.g, self.m, self.s, self.a, self.b)
    }

    spec fn spread(self, d: Seq<u8>) -> bool {
        d.len() == self.len && spread(d, self.g, self.m, self.s, self.a, self.b)
    }

    proof fn lemma_inside(self, n: int)
        requires
            self.wf(),
            0 <= n < 64,
        ensures
            self.g.fits(self.m, n),
            0 <= self.g.spot(self.m, n) < self.len,
    {
        let (m, w) = (self.m, self.g.w);
        if self.g.along == 1 {
            assert(m * 1 == m) by (nonlinear_arith);
            assert(0 <= n * w && n * w + w <= 64 * w) by (nonlinear_arith)
                requires
                    0 <= n <= 63,
                    64 <= w,
            ;
        } else {
            assert(n * 1 == n) by (nonlinear_arith);
            assert(0 <= m * w && m * w + w <= 64 * w) by (nonlinear_arith)
                requires
                    0 <= m <= 63,
                    64 <= w,
            ;
        }
    }

    /// A line that is filtered leaves this line alone, if it is another one or the edge is elsewhere.
    proof fn lemma_line(self, d: Seq<u8>, m0: int, e: int, outer: int, inner: int, thresh: int, wd: int)
        requires
            self.wf(),
            wd < 16,
            0 <= thresh,
            4 <= e <= 60,
            e % 4 == 0,
            forall|j: int| -4 <= j < 4 ==> self.g.fits(m0, #[trigger] (e + j)),
        ensures
            ({
                let r = line_spec(d, self.g.spot(m0, e), self.g.step, outer, inner, thresh, wd);
                &&& self.untouched(d) && (m0 != self.m || e != self.s) && (m0 != self.m || e < self.s)
                    ==> self.untouched(r)
                &&& self.spread(d) && (m0 != self.m || e > self.s) ==> self.spread(r)
            }),
    {
        let g = self.g;
        let r = line_spec(d, g.spot(m0, e), g.step, outer, inner, thresh, wd);
        if self.untouched(d) && m0 != self.m {
            assert forall|n: int| 0 <= n < self.s + 4 implies r[#[trigger] g.spot(self.m, n)] == d[g.spot(
                self.m,
                n,
            )] && r.len() == d.len() by {
                self.lemma_inside(n);
                lemma_line_keeps(d, g, m0, e, outer, inner, thresh, wd, self.m, n);
            }
            assert(r[g.spot(self.m, 0)] == d[g.spot(self.m, 0)]);
        } else if self.untouched(d) && e < self.s {
            assert forall|k: int| -4 <= k < 4 implies (0 <= g.spot(m0, e) + #[trigger] (k * g.step)
                < d.len() ==> d[g.spot(m0, e) + k * g.step] == self.a) by {
                g.lemma_next(m0, e, k);
                assert(0 <= e + k < self.s);
                assert(d[g.spot(self.m, e + k)] == self.a);
            }
            crate::vp9::edge_filter::law_even_line_is_left(
                d,
                g.spot(m0, e),
                g.step,
                outer,
                inner,
                thresh,
                wd,
                self.a,
            );
        }
        if self.spread(d) && (m0 != self.m || e > self.s) {
            self.lemma_inside(self.s - 1);
            self.lemma_inside(self.s);
            lemma_line_keeps(d, g, m0, e, outer, inner, thresh, wd, self.m, self.s - 1);
            lemma_line_keeps(d, g, m0, e, outer, inner, thresh, wd, self.m, self.s);
        }
    }

    /// The same, of the lines of an edge from the number `k` on.
    proof fn lemma_lines(
        self,
        d: Seq<u8>,
        m0: int,
        e: int,
        outer: int,
        inner: int,
        thresh: int,
        wd: int,
        k: int,
    )
        requires
            self.wf(),
            wd < 16,
            0 <= thresh,
            4 <= e <= 60,
            e % 4 == 0,
            edge_fits(self.g, m0, e),
            0 <= k <= 8,
        ensures
            ({
                let r = edge_spec(
                    d,
                    self.g.spot(m0, e),
                    self.g.along,
                    self.g.step,
                    outer,
                    inner,
                    thresh,
                    wd,
                    k,
                );
                let other = self.m < m0 + k || self.m >= m0 + 8;
                &&& self.untouched(d) && (other || e < self.s) ==> self.untouched(r)
                &&& self.spread(d) && (other || e > self.s) ==> self.spread(r)
            }),
        decreases 8 - k,
    {
        if k < 8 {
            let g = self.g;
            g.lemma_next(m0, e, k);
            assert forall|j: int| -4 <= j < 4 implies g.fits(m0 + k, #[trigger] (e + j)) by {
                assert(g.fits(m0 + k, e + j));
            }
            self.lemma_line(d, m0 + k, e, outer, inner, thresh, wd);
            let next = line_spec(d, g.spot(m0 + k, e), g.step, outer, inner, thresh, wd);
            self.lemma_lines(next, m0, e, outer, inner, thresh, wd, k + 1);
        }
    }

    /// The edge at the step is filtered over 8 pixels.
    proof fn lemma_hit(
        self,
        d: Seq<u8>,
        m0: int,
        outer: int,
        inner: int,
        thresh: int,
        k: int,
    )
        requires
            self.wf(),
            0 <= thresh,
            0 <= inner,
            2 * crate::vp9::edge_filter::apart(self.a as int, self.b as int)
                + crate::vp9::edge_filter::apart(self.a as int, self.b as int) / 2 <= outer,
            edge_fits(self.g, m0, self.s),
            self.untouched(d),
            0 <= k,
            m0 + k <= self.m < m0 + 8,
        ensures
            self.spread(
                edge_spec(
                    d,
                    self.g.spot(m0, self.s),
                    self.g.along,
                    self.g.step,
                    outer,
                    inner,
                    thresh,
                    8,
                    k,
                ),
            ),
        decreases 8 - k,
    {
        let g = self.g;
        let e = self.s;
        g.lemma_next(m0, e, k);
        assert forall|j: int| -4 <= j < 4 implies g.fits(m0 + k, #[trigger] (e + j)) by {
            assert(g.fits(m0 + k, e + j));
        }
        let next = line_spec(d, g.spot(m0 + k, e), g.step, outer, inner, thresh, 8);
        if m0 + k < self.m {
            self.lemma_line(d, m0 + k, e, outer, inner, thresh, 8);
            self.lemma_hit(next, m0, outer, inner, thresh, k + 1);
        } else {
            let base = g.spot(self.m, e);
            assert forall|j: int| -4 <= j < 0 implies d[base + #[trigger] (j * g.step)] == self.a by {
                g.lemma_next(self.m, e, j);
                assert(d[g.spot(self.m, e + j)] == self.a);
            }
            assert forall|j: int| 0 <= j < 4 implies d[base + #[trigger] (j * g.step)] == self.b by {
                g.lemma_next(self.m, e, j);
                assert(d[g.spot(self.m, e + j)] == self.b);
            }
            self.lemma_inside(e - 4);
            self.lemma_inside(e + 3);
            g.lemma_next(self.m, e, -4);
            g.lemma_next(self.m, e, 3);
            g.lemma_next(self.m, e, -1);
            assert((-4) * g.step == -(4 * g.step) && 3 * g.step == g.step * 3 && (-1) * g.step
                == -g.step) by (nonlinear_arith);
            assert((3 + 1) * g.step == 4 * g.step) by (nonlinear_arith);
            crate::vp9::edge_filter::law_step_is_spread(
                d,
                base,
                g.step,
                outer,
                inner,
                thresh,
                self.a,
                self.b,
            );
            assert(self.spread(next));
            self.lemma_lines(next, m0, e, outer, inner, thresh, 8, k + 1);
        }
    }
}

/// Whether a level is high enough for the step to be filtered.
pub open spec fn level_filters(level: int, a: u8, b: u8) -> bool {
    0 < level < 64 && 5 * crate::vp9::edge_filter::apart(a as int, b as int) <= 4 * level
}

impl Target {
    /// An edge that is filtered by a level.
    proof fn lemma_edge(self, d: Seq<u8>, m0: int, e: int, level: int, sharpness: int, wd: int)
        requires
            self.wf(),
            wd == 4 || wd == 8,
            0 <= level < 64,
            4 <= e <= 60,
            e % 4 == 0,
            edge_fits(self.g, m0, e),
        ensures
            ({
                let r = level_edge(
                    d,
                    self.g.spot(m0, e),
                    self.g.along,
                    self.g.step,
                    level,
                    sharpness,
                    wd,
                );
                let other = self.m < m0 || self.m >= m0 + 8;
                &&& self.untouched(d) && (other || e < self.s) ==> self.untouched(r)
                &&& self.spread(d) && (other || e > self.s) ==> self.spread(r)
                &&& self.untouched(d) && !other && e == self.s && wd == 8 && level_filters(
                    level,
                    self.a,
                    self.b,
                ) ==> self.spread(r)
            }),
    {
        let outer = outer_limit(level, sharpness);
        let inner = inner_limit(level, sharpness);
        self.lemma_lines(d, m0, e, outer, inner, level / 16, wd, 0);
        if self.untouched(d) && m0 <= self.m < m0 + 8 && e == self.s && wd == 8 && level_filters(
            level,
            self.a,
            self.b,
        ) {
            self.lemma_hit(d, m0, outer, inner, level / 16, 0);
        }
    }

    /// Two edges in a line, none of them wide.
    proof fn lemma_pair(
        self,
        d: Seq<u8>,
        m0: int,
        e: int,
        p: Pair,
        l1: int,
        l2: int,
        sharpness: int,
    )
        requires
            self.wf(),
            !p.a_wide,
            !p.b_wide,
            0 <= l1 < 64,
            0 <= l2 < 64,
            8 <= e <= 56,
            e % 8 == 0,
            edge_fits(self.g, m0, e),
            edge_fits(self.g, m0 + 8, e),
        ensures
            ({
                let r = pair_spec(
                    d,
                    self.g.spot(m0, e),
                    self.g.spot(m0 + 8, e),
                    self.g.along,
                    self.g.step,
                    p,
                    l1,
                    l2,
                    sharpness,
                );
                let other = self.m < m0 || self.m >= m0 + 16;
                &&& self.untouched(d) && (other || e < self.s) ==> self.untouched(r)
                &&& self.spread(d) && (other || e > self.s) ==> self.spread(r)
                &&& self.untouched(d) && e == self.s && m0 <= self.m < m0 + 8 && p.a_any && p.a_long
                    && level_filters(l1, self.a, self.b) ==> self.spread(r)
                &&& self.untouched(d) && e == self.s && m0 + 8 <= self.m < m0 + 16 && p.b_any
                    && p.b_long && level_filters(l2, self.a, self.b) ==> self.spread(r)
            }),
    {
        let g = self.g;
        let w1 = crate::vp9::loopfilter::reach_of(p.a_long);
        let w2 = crate::vp9::loopfilter::reach_of(p.b_long);
        let d1 = if p.a_any {
            level_edge(d, g.spot(m0, e), g.along, g.step, l1, sharpness, w1)
        } else {
            d
        };
        self.lemma_edge(d, m0, e, l1, sharpness, w1);
        self.lemma_edge(d1, m0 + 8, e, l2, sharpness, w2);
    }

    /// Two edges in the middle of cells.
    proof fn lemma_inner(
        self,
        d: Seq<u8>,
        m0: int,
        e: int,
        a: bool,
        b: bool,
        l1: int,
        l2: int,
        sharpness: int,
    )
        requires
            self.wf(),
            0 <= l1 < 64,
            0 <= l2 < 64,
            4 <= e <= 60,
            e % 8 == 4,
            edge_fits(self.g, m0, e),
            edge_fits(self.g, m0 + 8, e),
        ensures
            ({
                let r = inner_spec(
                    d,
                    self.g.spot(m0, e),
                    self.g.spot(m0 + 8, e),
                    self.g.along,
                    self.g.step,
                    a,
                    b,
                    l1,
                    l2,
                    sharpness,
                );
                let other = self.m < m0 || self.m >= m0 + 16;
                &&& self.untouched(d) && (other || e < self.s) ==> self.untouched(r)
                &&& self.spread(d) && (other || e > self.s) ==> self.spread(r)
            }),
    {
        let g = self.g;
        let d1 = if a {
            level_edge(d, g.spot(m0, e), g.along, g.step, l1, sharpness, 4)
        } else {
            d
        };
        self.lemma_edge(d, m0, e, l1, sharpness, 4);
        self.lemma_edge(d1, m0 + 8, e, l2, sharpness, 4);
    }
}

/// Whether a superblock lies at the start of a luma plane, and none of its edges is filtered over 16
/// pixels.
spec fn plain(p: SbPlaneView) -> bool {
    &&& p.off == 0
    &&& p.at_edge
    &&& !p.ss_h
    &&& !p.ss_v
    &&& 64 <= p.stride
    &&& p.level.len() == 64
    &&& p.mask.len() == 256
    &&& forall|i: int| 0 <= i < 64 ==> #[trigger] p.level[i] < 64
    &&& forall|y: int, x: int| 0 <= y < 8 && 0 <= x < 8 ==> !#[trigger] has_edge(p.mask, y, 0, x)
}

/// Horizontal edges: a line is a column of the plane.
spec fn upright(w: int) -> Lie {
    Lie { along: 1, step: w, w }
}

/// Vertical edges: a line is a row of the plane.
spec fn level_lie(w: int) -> Lie {
    Lie { along: w, step: 1, w }
}

/// Where the edges of a cell lie.
proof fn lemma_upright(p: SbPlaneView, y: int, x: int)
    requires
        plain(p),
        0 <= y < 8,
        0 <= x < 7,
    ensures
        upright(p.stride).wf(),
        p.at(y, x) == upright(p.stride).spot(8 * x, 8 * y),
        p.at(y, x) + 8 == upright(p.stride).spot(8 * x + 8, 8 * y),
        p.at(y, x) + 4 * p.stride == upright(p.stride).spot(8 * x, 8 * y + 4),
        p.at(y, x) + 4 * p.stride + 8 == upright(p.stride).spot(8 * x + 8, 8 * y + 4),
        edge_fits(upright(p.stride), 8 * x, 8 * y),
        edge_fits(upright(p.stride), 8 * x + 8, 8 * y),
        edge_fits(upright(p.stride), 8 * x, 8 * y + 4),
        edge_fits(upright(p.stride), 8 * x + 8, 8 * y + 4),
{
    let w = p.stride;
    assert(y * 8 * w == 8 * y * w && (8 * y + 4) * w == 8 * y * w + 4 * w) by (nonlinear_arith);
    assert((8 * x) * 1 == 8 * x && (8 * x + 8) * 1 == 8 * x + 8) by (nonlinear_arith);
}

proof fn lemma_level(p: SbPlaneView, y: int, x: int)
    requires
        plain(p),
        0 <= y < 7,
        0 <= x < 8,
    ensures
        level_lie(p.stride).wf(),
        p.at(y, x) == level_lie(p.stride).spot(8 * y, 8 * x),
        p.at(y, x) + 8 * p.stride == level_lie(p.stride).spot(8 * y + 8, 8 * x),
        p.at(y, x) + 4 == level_lie(p.stride).spot(8 * y, 8 * x + 4),
        p.at(y, x) + 8 * p.stride + 4 == level_lie(p.stride).spot(8 * y + 8, 8 * x + 4),
        x >= 1 ==> edge_fits(level_lie(p.stride), 8 * y, 8 * x),
        x >= 1 ==> edge_fits(level_lie(p.stride), 8 * y + 8, 8 * x),
        edge_fits(level_lie(p.stride), 8 * y, 8 * x + 4),
        edge_fits(level_lie(p.stride), 8 * y + 8, 8 * x + 4),
{
    let w = p.stride;
    assert(y * 8 * w == 8 * y * w && (8 * y + 8) * w == 8 * y * w + 8 * w) by (nonlinear_arith);
    assert((8 * x) * 1 == 8 * x && (8 * x + 4) * 1 == 8 * x + 4) by (nonlinear_arith);
}

impl Target {
    /// Whether the cell of the line has an edge over 8 pixels at the step, of a level that filters it.
    spec fn is_cut(self, p: SbPlaneView, y: int, x: int) -> bool {
        has_edge(p.mask, y, 1, x) && level_filters(p.level[8 * y + x] as int, self.a, self.b)
    }

    #[verifier::spinoff_prover]
    proof fn lemma_row_cell(self, p: SbPlaneView, d: Seq<u8>, y: int, x: int)
        requires
            self.wf(),
            plain(p),
            self.g == upright(p.stride),
            0 <= y < 8,
            0 <= x < 7,
            x % 2 == 0,
        ensures
            ({
                let r = p.row_cell(d, y, x);
                let other = self.m < 8 * x || self.m >= 8 * x + 16;
                &&& self.untouched(d) && (other || 8 * y < self.s) ==> self.untouched(r)
                &&& self.spread(d) && (other || 8 * y > self.s) ==> self.spread(r)
                &&& self.untouched(d) && !other && 8 * y == self.s && self.is_cut(p, y, self.m / 8)
                    ==> self.spread(r)
            }),
    {
        lemma_upright(p, y, x);
        let x2 = x + 1;
        let l1 = p.level[8 * y + x] as int;
        let l2 = p.level[8 * y + x + 1] as int;
        let q = Pair {
            a_wide: has_edge(p.mask, y, 0, x),
            a_long: has_edge(p.mask, y, 1, x),
            a_any: p.any(y, x),
            b_wide: has_edge(p.mask, y, 0, x2),
            b_long: has_edge(p.mask, y, 1, x2),
            b_any: p.any(y, x2),
        };
        let d1 = if y == 0 {
            d
        } else {
            pair_spec(d, p.at(y, x), p.at(y, x) + 8, 1, p.stride, q, l1, l2, p.sharpness)
        };
        if y > 0 {
            self.lemma_pair(d, 8 * x, 8 * y, q, l1, l2, p.sharpness);
        }
        self.lemma_inner(
            d1,
            8 * x,
            8 * y + 4,
            has_edge(p.mask, y, 3, x),
            has_edge(p.mask, y, 3, x2),
            l1,
            l2,
            p.sharpness,
        );
    }

    #[verifier::spinoff_prover]
    proof fn lemma_col_cell(self, p: SbPlaneView, d: Seq<u8>, y: int, x: int)
        requires
            self.wf(),
            plain(p),
            self.g == level_lie(p.stride),
            0 <= y < 7,
            y % 2 == 0,
            0 <= x < 8,
        ensures
            ({
                let r = p.col_cell(d, y, x);
                let other = self.m < 8 * y || self.m >= 8 * y + 16;
                &&& self.untouched(d) && (other || 8 * x < self.s) ==> self.untouched(r)
                &&& self.spread(d) && (other || 8 * x > self.s) ==> self.spread(r)
                &&& self.untouched(d) && !other && 8 * x == self.s && self.is_cut(p, self.m / 8, x)
                    ==> self.spread(r)
            }),
    {
        lemma_level(p, y, x);
        let y2 = y + 1;
        let at = p.at(y, x);
        let below = at + 8 * p.stride;
        let l1 = p.level[8 * y + x] as int;
        let l2 = p.level[8 * y + x + 8] as int;
        let q = Pair {
            a_wide: has_edge(p.mask, y, 0, x),
            a_long: has_edge(p.mask, y, 1, x),
            a_any: p.any(y, x),
            b_wide: has_edge(p.mask, y2, 0, x),
            b_long: has_edge(p.mask, y2, 1, x),
            b_any: has_edge(p.mask, y2, 1, x) || has_edge(p.mask, y2, 2, x),
        };
        let d1 = if x == 0 {
            d
        } else {
            pair_spec(d, at, below, p.stride, 1, q, l1, l2, p.sharpness)
        };
        if x > 0 {
            self.lemma_pair(d, 8 * y, 8 * x, q, l1, l2, p.sharpness);
        }
        self.lemma_inner(
            d1,
            8 * y,
            8 * x + 4,
            has_edge(p.mask, y, 3, x),
            has_edge(p.mask, y2, 3, x),
            l1,
            l2,
            p.sharpness,
        );
    }

    proof fn lemma_row_cells(self, p: SbPlaneView, d: Seq<u8>, y: int, x: int)
        requires
            self.wf(),
            plain(p),
            self.g == upright(p.stride),
            0 <= y < 8,
            0 <= x <= 8,
            x % 2 == 0,
        ensures
            ({
                let r = p.row_cells(d, y, x);
                &&& self.untouched(d) && 8 * y < self.s ==> self.untouched(r)
                &&& self.spread(d) && (8 * y > self.s || self.m < 8 * x) ==> self.spread(r)
                &&& self.untouched(d) && 8 * y == self.s && self.m >= 8 * x && self.is_cut(
                    p,
                    y,
                    self.m / 8,
                ) ==> self.spread(r)
            }),
        decreases 12 - x,
    {
        if self.is_cut(p, y, self.m / 8) && self.m >= 8 * x {
            assert(p.any(y, self.m / 8));
            assert(p.any_from(y, x));
        }
        if x < 8 && p.any_from(y, x) {
            self.lemma_row_cell(p, d, y, x);
            self.lemma_row_cells(p, p.row_cell(d, y, x), y, x + 2);
        }
    }

    proof fn lemma_rows(self, p: SbPlaneView, d: Seq<u8>, y: int)
        requires
            self.wf(),
            plain(p),
            self.g == upright(p.stride),
            0 <= y <= 8,
            self.is_cut(p, self.s / 8, self.m / 8),
        ensures
            self.untouched(d) && 8 * y <= self.s ==> self.spread(p.rows_from(d, y)),
            self.spread(d) && 8 * y > self.s ==> self.spread(p.rows_from(d, y)),
        decreases 8 - y,
    {
        if y < 8 {
            self.lemma_row_cells(p, d, y, 0);
            self.lemma_rows(p, p.row_cells(d, y, 0), y + 1);
        }
    }

    proof fn lemma_col_cells(self, p: SbPlaneView, d: Seq<u8>, y: int, x: int)
        requires
            self.wf(),
            plain(p),
            self.g == level_lie(p.stride),
            0 <= y < 7,
            y % 2 == 0,
            0 <= x <= 8,
            self.is_cut(p, self.m / 8, self.s / 8),
        ensures
            ({
                let r = p.col_cells(d, y, x);
                let other = self.m < 8 * y || self.m >= 8 * y + 16;
                &&& self.untouched(d) && other ==> self.untouched(r)
                &&& self.spread(d) && (other || 8 * x > self.s) ==> self.spread(r)
                &&& self.untouched(d) && !other && 8 * x <= self.s ==> self.spread(r)
            }),
        decreases 8 - x,
    {
        if x < 8 {
            self.lemma_col_cell(p, d, y, x);
            self.lemma_col_cells(p, p.col_cell(d, y, x), y, x + 1);
        }
    }

    proof fn lemma_cols(self, p: SbPlaneView, d: Seq<u8>, y: int)
        requires
            self.wf(),
            plain(p),
            self.g == level_lie(p.stride),
            0 <= y <= 8,
            y % 2 == 0,
            self.is_cut(p, self.m / 8, self.s / 8),
        ensures
            self.untouched(d) && self.m >= 8 * y ==> self.spread(p.cols_from(d, y)),
            self.spread(d) && self.m < 8 * y ==> self.spread(p.cols_from(d, y)),
        decreases 12 - y,
    {
        if y < 8 {
            self.lemma_col_cells(p, d, y, 0);
            self.lemma_cols(p, p.col_cells(d, y, 0), y + 2);
        }
    }
}

/// Whether each line of a plane has one value over its first 64 pixels.
spec fn even_lines(d: Seq<u8>, g: Lie, val: spec_fn(int) -> u8) -> bool {
    forall|m: int, n: int| 0 <= m < 64 && 0 <= n < 64 ==> d[#[trigger] g.spot(m, n)] == val(m)
}

proof fn lemma_even_edge(
    d: Seq<u8>,
    g: Lie,
    val: spec_fn(int) -> u8,
    m0: int,
    e: int,
    level: int,
    sharpness: int,
    wd: int,
)
    requires
        even_lines(d, g, val),
        g.wf(),
        0 <= m0 <= 56,
        4 <= e <= 60,
        wd < 16,
        0 <= level,
    ensures
        level_edge(d, g.spot(m0, e), g.along, g.step, level, sharpness, wd) == d,
{
    lemma_even_edge_from(
        d,
        g,
        val,
        m0,
        e,
        outer_limit(level, sharpness),
        inner_limit(level, sharpness),
        level / 16,
        wd,
        0,
    );
}

proof fn lemma_even_edge_from(
    d: Seq<u8>,
    g: Lie,
    val: spec_fn(int) -> u8,
    m0: int,
    e: int,
    outer: int,
    inner: int,
    thresh: int,
    wd: int,
    k: int,
)
    requires
        even_lines(d, g, val),
        g.wf(),
        0 <= m0 <= 56,
        4 <= e <= 60,
        wd < 16,
        0 <= thresh,
        0 <= k <= 8,
    ensures
        edge_spec(d, g.spot(m0, e), g.along, g.step, outer, inner, thresh, wd, k) == d,
    decreases 8 - k,
{
    if k < 8 {
        g.lemma_next(m0, e, k);
        let base = g.spot(m0 + k, e);
        assert forall|j: int| -4 <= j < 4 implies (0 <= base + #[trigger] (j * g.step) < d.len()
            ==> d[base + j * g.step] == val(m0 + k)) by {
            g.lemma_next(m0 + k, e, j);
            assert(d[g.spot(m0 + k, e + j)] == val(m0 + k));
        }
        crate::vp9::edge_filter::law_even_line_is_left(
            d,
            base,
            g.step,
            outer,
            inner,
            thresh,
            wd,
            val(m0 + k),
        );
        lemma_even_edge_from(d, g, val, m0, e, outer, inner, thresh, wd, k + 1);
    }
}

/// Vertical edges change nothing in a plane whose rows have one value each.
proof fn lemma_even_cols(p: SbPlaneView, d: Seq<u8>, val: spec_fn(int) -> u8, y: int)
    requires
        plain(p),
        even_lines(d, level_lie(p.stride), val),
        0 <= y <= 8,
        y % 2 == 0,
    ensures
        p.cols_from(d, y) == d,
    decreases 12 - y,
{
    if y < 8 {
        lemma_even_col_cells(p, d, val, y, 0);
        lemma_even_cols(p, d, val, y + 2);
    }
}

proof fn lemma_even_col_cells(p: SbPlaneView, d: Seq<u8>, val: spec_fn(int) -> u8, y: int, x: int)
    requires
        plain(p),
        even_lines(d, level_lie(p.stride), val),
        0 <= y < 7,
        y % 2 == 0,
        0 <= x <= 8,
    ensures
        p.col_cells(d, y, x) == d,
    decreases 8 - x,
{
    if x < 8 {
        let g = level_lie(p.stride);
        lemma_level(p, y, x);
        let l1 = p.level[8 * y + x] as int;
        let l2 = p.level[8 * y + x + 8] as int;
        if x > 0 {
            lemma_even_edge(d, g, val, 8 * y, 8 * x, l1, p.sharpness, 8);
            lemma_even_edge(d, g, val, 8 * y, 8 * x, l1, p.sharpness, 4);
            lemma_even_edge(d, g, val, 8 * y + 8, 8 * x, l2, p.sharpness, 8);
            lemma_even_edge(d, g, val, 8 * y + 8, 8 * x, l2, p.sharpness, 4);
        }
        lemma_even_edge(d, g, val, 8 * y, 8 * x + 4, l1, p.sharpness, 4);
        lemma_even_edge(d, g, val, 8 * y + 8, 8 * x + 4, l2, p.sharpness, 4);
        assert(!has_edge(p.mask, y, 0, x) && !has_edge(p.mask, y + 1, 0, x));
        assert(p.col_cell(d, y, x) == d);
        lemma_even_col_cells(p, d, val, y, x + 1);
    }
}

/// A line that has one value over its first `hi` pixels.
struct Even {
    g: Lie,
    m: int,
    hi: int,
    v: u8,
    len: int,
}

impl Even {
    spec fn wf(self) -> bool {
        &&& self.g.wf()
        &&& self.g.along == 1
        &&& 0 <= self.m < 64
        &&& 0 <= self.hi <= 64
        &&& 64 * self.g.w <= self.len
    }

    spec fn holds(self, d: Seq<u8>) -> bool {
        d.len() == self.len && forall|n: int|
            0 <= n < self.hi ==> d[#[trigger] self.g.spot(self.m, n)] == self.v
    }

    proof fn lemma_lines(
        self,
        d: Seq<u8>,
        m0: int,
        e: int,
        outer: int,
        inner: int,
        thresh: int,
        wd: int,
        k: int,
    )
        requires
            self.wf(),
            self.holds(d),
            wd < 16,
            0 <= thresh,
            0 <= m0 <= 56,
            4 <= e,
            e + 4 <= self.hi,
            0 <= k <= 8,
        ensures
            self.holds(
                edge_spec(
                    d,
                    self.g.spot(m0, e),
                    self.g.along,
                    self.g.step,
                    outer,
                    inner,
                    thresh,
                    wd,
                    k,
                ),
            ),
        decreases 8 - k,
    {
        if k < 8 {
            let g = self.g;
            g.lemma_next(m0, e, k);
            let base = g.spot(m0 + k, e);
            let r = line_spec(d, base, g.step, outer, inner, thresh, wd);
            if m0 + k == self.m {
                assert forall|j: int| -4 <= j < 4 implies (0 <= base + #[trigger] (j * g.step)
                    < d.len() ==> d[base + j * g.step] == self.v) by {
                    g.lemma_next(m0 + k, e, j);
                    assert(d[g.spot(self.m, e + j)] == self.v);
                }
                crate::vp9::edge_filter::law_even_line_is_left(
                    d,
                    base,
                    g.step,
                    outer,
                    inner,
                    thresh,
                    wd,
                    self.v,
                );
            } else {
                assert forall|n: int| 0 <= n < self.hi implies r[#[trigger] g.spot(self.m, n)]
                    == self.v && r.len() == self.len by {
                    let w = g.w;
                    assert(self.m * 1 == self.m) by (nonlinear_arith);
                    assert(0 <= n * w && n * w + w <= 64 * w) by (nonlinear_arith)
                        requires
                            0 <= n <= 63,
                            64 <= w,
                    ;
                    lemma_line_keeps(d, g, m0 + k, e, outer, inner, thresh, wd, self.m, n);
                    assert(d[g.spot(self.m, n)] == self.v);
                }
                assert(r[g.spot(self.m, 0)] == self.v);
            }
            self.lemma_lines(r, m0, e, outer, inner, thresh, wd, k + 1);
        }
    }

    proof fn lemma_edge(self, d: Seq<u8>, m0: int, e: int, level: int, sharpness: int, wd: int)
        requires
            self.wf(),
            self.holds(d),
            wd < 16,
            0 <= level,
            0 <= m0 <= 56,
            4 <= e,
            e + 4 <= self.hi,
        ensures
            self.holds(
                level_edge(d, self.g.spot(m0, e), self.g.along, self.g.step, level, sharpness, wd),
            ),
    {
        self.lemma_lines(
            d,
            m0,
            e,
            outer_limit(level, sharpness),
            inner_limit(level, sharpness),
            level / 16,
            wd,
            0,
        );
    }

    /// Whether the horizontal edges of a superblock lie in the first `hi` rows.
    spec fn bounds(self, p: SbPlaneView) -> bool {
        forall|y: int, c: int, x: int|
            0 <= y < 8 && 0 <= c < 4 && 0 <= x < 8 && #[trigger] has_edge(p.mask, y, c, x) ==> 8 * y
                + 8 <= self.hi
    }

    #[verifier::spinoff_prover]
    proof fn lemma_row_cell(self, p: SbPlaneView, d: Seq<u8>, y: int, x: int)
        requires
            self.wf(),
            plain(p),
            self.g == upright(p.stride),
            self.bounds(p),
            self.holds(d),
            0 <= y < 8,
            0 <= x < 7,
        ensures
            self.holds(p.row_cell(d, y, x)),
    {
        lemma_upright(p, y, x);
        let g = self.g;
        let x2 = x + 1;
        let l1 = p.level[8 * y + x] as int;
        let l2 = p.level[8 * y + x + 1] as int;
        let s = p.sharpness;
        let w1 = crate::vp9::loopfilter::reach_of(has_edge(p.mask, y, 1, x));
        let w2 = crate::vp9::loopfilter::reach_of(has_edge(p.mask, y, 1, x2));
        assert(!has_edge(p.mask, y, 0, x) && !has_edge(p.mask, y, 0, x2));
        let d1 = if y > 0 && p.any(y, x) {
            level_edge(d, p.at(y, x), 1, p.stride, l1, s, w1)
        } else {
            d
        };
        if y > 0 && p.any(y, x) {
            self.lemma_edge(d, 8 * x, 8 * y, l1, s, w1);
        }
        let d2 = if y > 0 && p.any(y, x2) {
            level_edge(d1, p.at(y, x) + 8, 1, p.stride, l2, s, w2)
        } else {
            d1
        };
        if y > 0 && p.any(y, x2) {
            self.lemma_edge(d1, 8 * x + 8, 8 * y, l2, s, w2);
        }
        let d3 = if has_edge(p.mask, y, 3, x) {
            level_edge(d2, p.at(y, x) + 4 * p.stride, 1, p.stride, l1, s, 4)
        } else {
            d2
        };
        if has_edge(p.mask, y, 3, x) {
            self.lemma_edge(d2, 8 * x, 8 * y + 4, l1, s, 4);
        }
        if has_edge(p.mask, y, 3, x2) {
            self.lemma_edge(d3, 8 * x + 8, 8 * y + 4, l2, s, 4);
        }
    }

    proof fn lemma_row_cells(self, p: SbPlaneView, d: Seq<u8>, y: int, x: int)
        requires
            self.wf(),
            plain(p),
            self.g == upright(p.stride),
            self.bounds(p),
            self.holds(d),
            0 <= y < 8,
            0 <= x <= 8,
            x % 2 == 0,
        ensures
            self.holds(p.row_cells(d, y, x)),
        decreases 12 - x,
    {
        if x < 8 && p.any_from(y, x) {
            self.lemma_row_cell(p, d, y, x);
            self.lemma_row_cells(p, p.row_cell(d, y, x), y, x + 2);
        }
    }

    proof fn lemma_rows(self, p: SbPlaneView, d: Seq<u8>, y: int)
        requires
            self.wf(),
            plain(p),
            self.g == upright(p.stride),
            self.bounds(p),
            self.holds(d),
            0 <= y <= 8,
        ensures
            self.holds(p.rows_from(d, y)),
        decreases 8 - y,
    {
        if y < 8 {
            self.lemma_row_cells(p, d, y, 0);
            self.lemma_rows(p, p.row_cells(d, y, 0), y + 1);
        }
    }
}

/// Whether a block covers a cell of 8x8 pixels.
pub open spec fn covers_cell(b: BlockView, y: int, x: int) -> bool {
    &&& b.row / 2 <= y < b.row / 2 + crate::vp9::mc::luma_size_spec(b.bs, 1) / 8
    &&& b.col / 2 <= x < b.col / 2 + crate::vp9::mc::luma_size_spec(b.bs, 0) / 8
}

/// Whether a block has a residual in transforms of 8x8 pixels, so that the cells that it covers have
/// edges on all sides.
pub open spec fn is_cut_in_eights(b: BlockView) -> bool {
    b.tx_size == TxSize::Tx8x8 && !(b.is_inter && b.skip)
}

/// Whether the blocks of a frame of `cols` by `rows` cells have one level, and transforms of at most 8x8
/// pixels.
pub open spec fn uniform(
    blocks: Seq<BlockView>,
    h: FrameHeader,
    level: int,
    cols: int,
    rows: int,
) -> bool {
    forall|i: int|
        0 <= i < blocks.len() ==> ({
            let b = #[trigger] blocks[i];
            &&& block_level(h, b) == level
            &&& b.tx_size == TxSize::Tx4x4 || b.tx_size == TxSize::Tx8x8
            &&& 0 <= b.row && b.row / 2 < rows
            &&& 0 <= b.col && b.col / 2 < cols
        })
}

/// What is known of the edges of a superblock behind some of its blocks.
spec fn known(s: SbFilterView, level: int, rows: int) -> bool {
    &&& s.level.len() == 64
    &&& s.y_cols.len() == 256
    &&& s.y_rows.len() == 256
    &&& forall|i: int| 0 <= i < 64 ==> #[trigger] s.level[i] == 0 || s.level[i] == level
    &&& forall|y: int, x: int|
        0 <= y < 8 && 0 <= x < 8 ==> !#[trigger] has_edge(s.y_cols, y, 0, x)
    &&& forall|y: int, x: int|
        0 <= y < 8 && 0 <= x < 8 ==> !#[trigger] has_edge(s.y_rows, y, 0, x)
    &&& forall|y: int, c: int, x: int|
        0 <= y < 8 && 0 <= c < 4 && 0 <= x < 8 && #[trigger] has_edge(s.y_rows, y, c, x) ==> y < rows
}

/// Whether a cell has its edges over 8 pixels.
spec fn cell_cut(s: SbFilterView, level: int, y: int, x: int) -> bool {
    has_edge(s.y_rows, y, 1, x) && has_edge(s.y_cols, y, 1, x) && s.level[8 * y + x] == level
}

#[verifier::spinoff_prover]
proof fn lemma_with_block(
    s: SbFilterView,
    h: FrameHeader,
    b: BlockView,
    cols: int,
    rows: int,
    level: int,
)
    requires
        known(s, level, rows),
        0 < level,
        0 < cols <= 8,
        0 < rows <= 8,
        block_level(h, b) == level,
        b.tx_size == TxSize::Tx4x4 || b.tx_size == TxSize::Tx8x8,
        0 <= b.row && b.row / 2 < rows,
        0 <= b.col && b.col / 2 < cols,
    ensures
        ({
            let t = with_block(s, h, b, cols, rows);
            &&& known(t, level, rows)
            &&& forall|y: int, x: int|
                0 <= y < rows && 0 <= x < cols && #[trigger] cell_cut(s, level, y, x) ==> cell_cut(
                    t,
                    level,
                    y,
                    x,
                )
            &&& forall|y: int, x: int|
                0 <= y < rows && 0 <= x < cols && is_cut_in_eights(b) && covers_cell(b, y, x)
                    ==> #[trigger] cell_cut(t, level, y, x)
        }),
{
    let t = with_block(s, h, b, cols, rows);
    let j = luma_edges(b, cols, rows);
    let k = b.bs.code_spec() as int;
    assert(BWH_TAB@[1]@[k]@[0] == crate::vp9::mc::luma_size_spec(b.bs, 0) / 8);
    assert(BWH_TAB@[1]@[k]@[1] == crate::vp9::mc::luma_size_spec(b.bs, 1) / 8);
    assert forall|y: int, c: int, x: int| 0 <= y < 8 && 0 <= c < 4 && 0 <= x < 8 implies (#[trigger]
        has_edge(t.y_rows, y, c, x) <==> has_edge(s.y_rows, y, c, x) || j.row_edge(y, c, x))
        && (has_edge(t.y_cols, y, c, x) <==> has_edge(s.y_cols, y, c, x) || j.col_edge(y, c, x)) by {
        let i = 32 * y + 8 * c + x;
        assert(i / 32 == y && (i / 8) % 4 == c && i % 8 == x);
    }
    assert forall|y: int, x: int| 0 <= y < 8 && 0 <= x < 8 implies #[trigger] t.level[8 * y + x] == (if j.row
        <= y < j.row + BWH_TAB@[1]@[k]@[1] && j.col <= x < j.col + BWH_TAB@[1]@[k]@[0] {
        level as u8
    } else {
        s.level[8 * y + x]
    }) by {
        let i = 8 * y + x;
        assert(i / 8 == y && i % 8 == x);
    }
    assert forall|i: int| 0 <= i < 64 implies #[trigger] t.level[i] == 0 || t.level[i] == level by {
        assert(s.level[i] == 0 || s.level[i] == level);
    }
    assert forall|y: int, x: int| 0 <= y < 8 && 0 <= x < 8 implies !#[trigger] has_edge(
        t.y_cols,
        y,
        0,
        x,
    ) by {
        assert(has_edge(t.y_rows, y, 0, x) <==> has_edge(s.y_rows, y, 0, x) || j.row_edge(y, 0, x));
        assert(!has_edge(s.y_cols, y, 0, x));
    }
    assert forall|y: int, x: int|
        0 <= y < rows && 0 <= x < cols && #[trigger] cell_cut(s, level, y, x) implies cell_cut(
        t,
        level,
        y,
        x,
    ) by {
        assert(has_edge(t.y_rows, y, 1, x) <==> has_edge(s.y_rows, y, 1, x) || j.row_edge(y, 1, x));
    }
    assert forall|y: int, x: int|
        0 <= y < rows && 0 <= x < cols && is_cut_in_eights(b) && covers_cell(
            b,
            y,
            x,
        ) implies #[trigger] cell_cut(t, level, y, x) by {
        assert(has_edge(t.y_rows, y, 1, x) <==> has_edge(s.y_rows, y, 1, x) || j.row_edge(y, 1, x));
        assert(j.covers(y, x));
        assert(t.level[8 * y + x] == level);
    }
}

proof fn lemma_collected(
    blocks: Seq<BlockView>,
    list: Seq<usize>,
    h: FrameHeader,
    cols: int,
    rows: int,
    n: int,
    level: int,
)
    requires
        uniform(blocks, h, level, cols, rows),
        0 < level,
        0 < cols <= 8,
        0 < rows <= 8,
        0 <= n <= list.len(),
        forall|k: int| 0 <= k < list.len() ==> #[trigger] list[k] < blocks.len(),
    ensures
        ({
            let s = collected(blocks, list, h, cols, rows, n);
            &&& known(s, level, rows)
            &&& forall|k: int, y: int, x: int|
                #![trigger covers_cell(blocks[list[k] as int], y, x)]
                0 <= k < n && 0 <= y < rows && 0 <= x < cols && is_cut_in_eights(
                    blocks[list[k] as int],
                ) && covers_cell(blocks[list[k] as int], y, x) ==> cell_cut(s, level, y, x)
        }),
    decreases n,
{
    if n > 0 {
        lemma_collected(blocks, list, h, cols, rows, n - 1, level);
        let s = collected(blocks, list, h, cols, rows, n - 1);
        let b = blocks[list[n - 1] as int];
        lemma_with_block(s, h, b, cols, rows, level);
        let t = collected(blocks, list, h, cols, rows, n);
        assert forall|k: int, y: int, x: int|
            #![trigger covers_cell(blocks[list[k] as int], y, x)]
            0 <= k < n && 0 <= y < rows && 0 <= x < cols && is_cut_in_eights(
                blocks[list[k] as int],
            ) && covers_cell(blocks[list[k] as int], y, x) implies cell_cut(t, level, y, x) by {
            if k < n - 1 {
                assert(cell_cut(s, level, y, x));
            }
        }
    }
}

/// The blocks of a frame of one superblock are all in its list.
proof fn lemma_listed(blocks: Seq<BlockView>, n: int)
    requires
        0 <= n <= blocks.len(),
        forall|i: int|
            0 <= i < blocks.len() ==> 0 <= (#[trigger] blocks[i]).row < 16 && 0 <= blocks[i].col < 16,
        blocks.len() <= usize::MAX,
    ensures
        blocks_in(blocks, n, 0, 0).len() == n,
        forall|k: int| 0 <= k < n ==> #[trigger] blocks_in(blocks, n, 0, 0)[k] == k,
    decreases n,
{
    if n > 0 {
        lemma_listed(blocks, n - 1);
        assert(0 <= blocks[n - 1].row < 16 && 0 <= blocks[n - 1].col < 16);
    }
}

/// The edges of the only superblock of a frame.
proof fn lemma_sb(fb: FbView, blocks: Seq<BlockView>, h: FrameHeader, level: int)
    requires
        0 < fb.width <= 64,
        0 < fb.height <= 64,
        h.filter_level > 0,
        0 < level < 64,
        blocks.len() <= usize::MAX,
        uniform(blocks, h, level, (fb.width + 7) / 8, (fb.height + 7) / 8),
    ensures
        ({
            let s = sb_view(blocks, h, fb.width, fb.height, 0, 0);
            let (cols, rows) = ((fb.width + 7) / 8, (fb.height + 7) / 8);
            &&& known(s, level, rows)
            &&& loop_filter_spec(fb, blocks, h).y == crate::vp9::loopfilter::plane_filtered(
                fb.y,
                s,
                false,
                fb.y_stride,
                0,
                0,
                h,
            )
            &&& forall|i: int, y: int, x: int|
                #![trigger covers_cell(blocks[i], y, x)]
                0 <= i < blocks.len() && 0 <= y < rows && 0 <= x < cols && is_cut_in_eights(blocks[i])
                    && covers_cell(blocks[i], y, x) ==> cell_cut(s, level, y, x)
        }),
{
    let (cols, rows) = ((fb.width + 7) / 8, (fb.height + 7) / 8);
    let n = blocks.len() as int;
    let list = blocks_in(blocks, n, 0, 0);
    lemma_listed(blocks, n);
    lemma_collected(blocks, list, h, cols, rows, n, level);
    let s = sb_view(blocks, h, fb.width, fb.height, 0, 0);
    assert forall|i: int, y: int, x: int|
        #![trigger covers_cell(blocks[i], y, x)]
        0 <= i < blocks.len() && 0 <= y < rows && 0 <= x < cols && is_cut_in_eights(blocks[i])
            && covers_cell(blocks[i], y, x) implies cell_cut(s, level, y, x) by {
        assert(list[i] == i);
        assert(covers_cell(blocks[list[i] as int], y, x));
    }
    reveal_with_fuel(crate::vp9::loopfilter::filtered_from, 4);
    assert((fb.height + 63) / 64 == 1 && (fb.width + 63) / 64 == 1);
}

/// A step across the horizontal border of a block is smoothed: in a picture of at most 64x64 pixels that
/// is `a` above the border and `b` from it on, behind a block with a residual in transforms of 8x8
/// pixels, the two pixels at the border come nearer to each other by a quarter of the step each, as the
/// filter over 8 pixels has it.
pub proof fn law_horizontal_border_is_smoothed(
    fb: FbView,
    blocks: Seq<BlockView>,
    h: FrameHeader,
    level: int,
    a: u8,
    b: u8,
    i: int,
    y: int,
    c: int,
)
    requires
        0 < fb.width <= 64,
        0 < fb.height <= 64,
        64 <= fb.y_stride,
        64 * fb.y_stride <= fb.y.len(),
        h.filter_level > 0,
        level_filters(level, a, b),
        blocks.len() <= usize::MAX,
        uniform(blocks, h, level, (fb.width + 7) / 8, (fb.height + 7) / 8),
        1 <= y < (fb.height + 7) / 8,
        0 <= c < 8 * ((fb.width + 7) / 8),
        0 <= i < blocks.len(),
        is_cut_in_eights(blocks[i]),
        covers_cell(blocks[i], y, c / 8),
        forall|r: int, x: int|
            0 <= r < 64 && 0 <= x < 64 ==> fb.y[#[trigger] (r * fb.y_stride + x)] == (if r < 8 * y {
                a
            } else {
                b
            }),
    ensures
        ({
            let p = loop_filter_spec(fb, blocks, h).y;
            &&& p[(8 * y - 1) * fb.y_stride + c] == (5 * a + 3 * b + 4) / 8
            &&& p[8 * y * fb.y_stride + c] == (3 * a + 5 * b + 4) / 8
        }),
{
    lemma_sb(fb, blocks, h, level);
    let w = fb.y_stride;
    let s = sb_view(blocks, h, fb.width, fb.height, 0, 0);
    let pc = sb_plane(s, false, false, w, 0, 0, h);
    let pr = sb_plane(s, false, true, w, 0, 0, h);
    assert(0 * 64 * w == 0) by (nonlinear_arith);
    assert(plain(pc) && plain(pr));
    let val = |r: int| if r < 8 * y {
        a
    } else {
        b
    };
    let gl = level_lie(w);
    assert forall|m: int, n: int| 0 <= m < 64 && 0 <= n < 64 implies fb.y[#[trigger] gl.spot(m, n)]
        == val(m) by {
        assert(gl.spot(m, n) == m * w + n) by {
            assert(n * 1 == n) by (nonlinear_arith);
        }
        assert(fb.y[m * w + n] == val(m));
    }
    lemma_even_cols(pc, fb.y, val, 0);
    let g = upright(w);
    let t = Target { g, m: c, s: 8 * y, a, b, len: fb.y.len() as int };
    assert forall|n: int| 0 <= n < 64 implies g.spot(c, n) == n * w + c by {
        assert(c * 1 == c) by (nonlinear_arith);
    }
    assert(t.untouched(fb.y)) by {
        assert forall|n: int| 0 <= n < 8 * y + 4 implies fb.y[#[trigger] g.spot(c, n)] == val(n) by {
            assert(fb.y[n * w + c] == val(n));
        }
    }
    assert(cell_cut(s, level, y, c / 8));
    assert(t.is_cut(pr, y, c / 8));
    t.lemma_rows(pr, fb.y, 0);
    assert(g.spot(c, 8 * y - 1) == (8 * y - 1) * w + c);
    assert(g.spot(c, 8 * y) == 8 * y * w + c);
}

/// Whether a block with a residual in transforms of 8x8 pixels covers a cell.
pub open spec fn has_cut_block(blocks: Seq<BlockView>, y: int, x: int) -> bool {
    exists|i: int|
        0 <= i < blocks.len() && is_cut_in_eights(blocks[i]) && #[trigger] covers_cell(
            blocks[i],
            y,
            x,
        )
}

/// A step across a vertical border is smoothed in the same way, where every cell on its right has a
/// residual in transforms of 8x8 pixels.
pub proof fn law_vertical_border_is_smoothed(
    fb: FbView,
    blocks: Seq<BlockView>,
    h: FrameHeader,
    level: int,
    a: u8,
    b: u8,
    x: int,
    r: int,
)
    requires
        0 < fb.width <= 64,
        0 < fb.height <= 64,
        64 <= fb.y_stride,
        64 * fb.y_stride <= fb.y.len(),
        h.filter_level > 0,
        level_filters(level, a, b),
        blocks.len() <= usize::MAX,
        uniform(blocks, h, level, (fb.width + 7) / 8, (fb.height + 7) / 8),
        1 <= x < (fb.width + 7) / 8,
        0 <= r < 8 * ((fb.height + 7) / 8),
        forall|y: int| 0 <= y < (fb.height + 7) / 8 ==> #[trigger] has_cut_block(blocks, y, x),
        forall|k: int, n: int|
            0 <= k < 64 && 0 <= n < 64 ==> fb.y[#[trigger] (k * fb.y_stride + n)] == (if n < 8 * x {
                a
            } else {
                b
            }),
    ensures
        ({
            let p = loop_filter_spec(fb, blocks, h).y;
            &&& p[r * fb.y_stride + 8 * x - 1] == (5 * a + 3 * b + 4) / 8
            &&& p[r * fb.y_stride + 8 * x] == (3 * a + 5 * b + 4) / 8
        }),
{
    lemma_sb(fb, blocks, h, level);
    let w = fb.y_stride;
    let rows = (fb.height + 7) / 8;
    let s = sb_view(blocks, h, fb.width, fb.height, 0, 0);
    let pc = sb_plane(s, false, false, w, 0, 0, h);
    let pr = sb_plane(s, false, true, w, 0, 0, h);
    assert(0 * 64 * w == 0) by (nonlinear_arith);
    assert(plain(pc) && plain(pr));
    let gl = level_lie(w);
    let d = pc.cols_from(fb.y, 0);
    let va = ((5 * a + 3 * b + 4) / 8) as u8;
    let vb = ((3 * a + 5 * b + 4) / 8) as u8;
    assert forall|m: int| 0 <= m < 8 * rows implies d.len() == fb.y.len() && d[#[trigger] (m * w) + 8
        * x - 1] == va && d[m * w + 8 * x] == vb by {
        let t = Target { g: gl, m, s: 8 * x, a, b, len: fb.y.len() as int };
        assert forall|n: int| 0 <= n < 64 implies gl.spot(m, n) == m * w + n by {
            assert(n * 1 == n) by (nonlinear_arith);
        }
        assert(t.untouched(fb.y)) by {
            assert forall|n: int| 0 <= n < 8 * x + 4 implies fb.y[#[trigger] gl.spot(m, n)] == (if n < 8
                * x {
                a
            } else {
                b
            }) by {
                assert(fb.y[m * w + n] == (if n < 8 * x {
                    a
                } else {
                    b
                }));
            }
        }
        assert(has_cut_block(blocks, m / 8, x));
        let i = choose|i: int|
            0 <= i < blocks.len() && is_cut_in_eights(blocks[i]) && #[trigger] covers_cell(
                blocks[i],
                m / 8,
                x,
            );
        assert(covers_cell(blocks[i], m / 8, x));
        assert(cell_cut(s, level, m / 8, x));
        assert(t.is_cut(pc, m / 8, x));
        t.lemma_cols(pc, fb.y, 0);
        assert(gl.spot(m, 8 * x - 1) == m * w + 8 * x - 1);
        assert(gl.spot(m, 8 * x) == m * w + 8 * x);
    }
    assert(d[(r * w) + 8 * x - 1] == va);
    lemma_column_stays(pr, d, 8 * x - 1, 8 * rows, va, r);
    lemma_column_stays(pr, d, 8 * x, 8 * rows, vb, r);
}

proof fn lemma_column_stays(p: SbPlaneView, d: Seq<u8>, c: int, hi: int, v: u8, r: int)
    requires
        plain(p),
        0 <= c < 64,
        0 <= r < hi <= 64,
        64 * p.stride <= d.len(),
        forall|m: int| 0 <= m < hi ==> d[#[trigger] (m * p.stride) + c] == v,
        forall|y: int, k: int, x: int|
            0 <= y < 8 && 0 <= k < 4 && 0 <= x < 8 && #[trigger] has_edge(p.mask, y, k, x) ==> 8 * y
                + 8 <= hi,
    ensures
        p.rows_from(d, 0)[r * p.stride + c] == v,
{
    let g = upright(p.stride);
    let e = Even { g, m: c, hi, v, len: d.len() as int };
    assert(c * 1 == c) by (nonlinear_arith);
    assert(e.holds(d)) by {
        assert forall|n: int| 0 <= n < hi implies d[#[trigger] g.spot(c, n)] == v by {
            assert(d[(n * p.stride) + c] == v);
        }
    }
    e.lemma_rows(p, d, 0);
    assert(p.rows_from(d, 0)[g.spot(c, r)] == v);
}

} // verus!

//! The loop filter: which edges of a superblock are filtered, and how.
use vstd::prelude::*;

use crate::vp9::block::BlockInfo;
use crate::vp9::block_modes::BlockView;
use crate::vp9::data::BWH_TAB;
use crate::vp9::edge_filter::{is_flat, loop_filter_edge};
use crate::vp9::header::FrameHeader;
use crate::vp9::recon::{FbView, FrameBuffer};

verus! {

// ---- limits ----

/// How far pixels on one side of an edge can be apart, by level and sharpness.
pub open spec fn inner_limit(level: int, sharpness: int) -> int {
    let a = if sharpness == 0 {
        level
    } else if sharpness <= 4 {
        level / 2
    } else {
        level / 4
    };
    let b = if sharpness > 0 && a > 9 - sharpness {
        9 - sharpness
    } else {
        a
    };
    if level == 0 {
        0
    } else if b < 1 {
        1
    } else {
        b
    }
}

/// How far the two sides of an edge can be apart, by level and sharpness.
pub open spec fn outer_limit(level: int, sharpness: int) -> int {
    let v = 2 * (level + 2) + inner_limit(level, sharpness);
    if level == 0 {
        0
    } else if v > 255 {
        255
    } else {
        v
    }
}

fn limits(level: u8, sharpness: u8) -> (r: (i32, i32))
    requires
        level < 64,
        sharpness < 8,
    ensures
        r.0 == inner_limit(level as int, sharpness as int),
        r.1 == outer_limit(level as int, sharpness as int),
{
    if level == 0 {
        return (0, 0);
    }
    let l: i32 = level as i32;
    let s: i32 = sharpness as i32;
    let a: i32 = if s == 0 {
        l
    } else if s <= 4 {
        l / 2
    } else {
        l / 4
    };
    let b: i32 = if s > 0 && a > 9 - s { 9 - s } else { a };
    let c: i32 = if b < 1 { 1 } else { b };
    let v: i32 = 2 * (l + 2) + c;
    (c, if v > 255 { 255 } else { v })
}

// ---- masks ----

/// The edges of one direction in a superblock: 8 rows of 8 cells, by class. The classes
/// are edges over 16, 8 and 4 pixels on a side of a cell, and over 4 pixels in its middle.
pub type EdgeMask = [bool; 256];

/// Whether an edge is in a mask.
pub open spec fn has_edge(m: Seq<bool>, y: int, class: int, x: int) -> bool {
    m[32 * y + 8 * class + x]
}

fn edge_in(m: &EdgeMask, y: usize, class: usize, x: usize) -> (r: bool)
    requires
        y < 8,
        class < 4,
        x < 8,
    ensures
        r == has_edge(m@, y as int, class as int, x as int),
{
    m[32 * y + 8 * class + x]
}

/// A block, in cells of 8x8 luma pixels.
pub struct EdgeJob {
    pub ss_h: bool,
    pub ss_v: bool,
    /// Position in the superblock.
    pub row: usize,
    pub col: usize,
    /// Size, as far as it lies in the frame.
    pub w: usize,
    pub h: usize,
    /// Columns and rows of the frame modulo 8, where they are odd and the block reaches
    /// the end, else zero.
    pub col_end: usize,
    pub row_end: usize,
    /// Transform size: 0 to 3.
    pub tx: usize,
    /// Whether the block has no residual.
    pub skip_inter: bool,
}

/// One for a condition that holds.
pub open spec fn unit(b: bool) -> int {
    if b {
        1
    } else {
        0
    }
}

/// The distance of the edges of a transform in cells, by its size (at least 1) and the
/// subsampling.
pub open spec fn spacing(tx: int, half: bool) -> int {
    let l = tx + unit(half) - 1;
    if l <= 0 {
        1
    } else if l == 1 {
        2
    } else if l == 2 {
        4
    } else {
        8
    }
}

impl EdgeJob {
    /// Whether the job can be computed with.
    pub open spec fn wf(self) -> bool {
        &&& self.row < 8
        &&& self.col < 8
        &&& 1 <= self.w <= 8
        &&& 1 <= self.h <= 8
        &&& self.tx <= 3
    }

    /// Whether a block with the smallest transform is passed over: in subsampled planes
    /// every other cell has no edges of its own.
    pub open spec fn passed_over(self) -> bool {
        self.tx == 0 && ((self.ss_v && self.h == 1 && self.row % 2 == 1) || (self.ss_h && self.w
            == 1 && self.col % 2 == 1))
    }

    /// The height that counts.
    pub open spec fn height(self) -> int {
        if self.tx == 0 && self.ss_v && self.h == 1 && self.row_end == 0 {
            2
        } else {
            self.h as int
        }
    }

    /// The width that counts.
    pub open spec fn width(self) -> int {
        if self.tx == 0 && self.ss_h && self.w == 1 && self.col_end == 0 {
            2
        } else {
            self.w as int
        }
    }

    /// Whether a cell lies in the block.
    pub open spec fn covers(self, y: int, x: int) -> bool {
        self.row <= y < self.row + self.height() && self.col <= x < self.col + self.width()
    }

    /// Whether a cell lies in the block, but for its last column.
    pub open spec fn covers_short(self, y: int, x: int) -> bool {
        self.row <= y < self.row + self.height() && self.col <= x < self.col + self.width() - 1
    }

    /// Whether a column is one where edges of the smallest transform get the longer
    /// filter.
    pub open spec fn wide_col(self, x: int) -> bool {
        if self.ss_h {
            x % 8 == 0
        } else {
            x % 4 == 0
        }
    }

    /// Whether a row is one where edges of the smallest transform get the longer filter.
    pub open spec fn wide_row(self, y: int) -> bool {
        if self.ss_v {
            y % 8 == 0
        } else {
            y % 4 == 0
        }
    }

    /// The class of the edges of a larger transform.
    pub open spec fn plain_class(self) -> int {
        unit(self.tx == 1)
    }

    /// Whether the block puts a vertical edge on the left of a cell.
    pub open spec fn col_edge(self, y: int, class: int, x: int) -> bool {
        if self.passed_over() || !self.covers(y, x) {
            false
        } else if self.tx == 0 && !self.skip_inter {
            (class == 1 && self.wide_col(x)) || (class == 2 && !self.wide_col(x)) || (class == 3
                && !self.ss_h)
        } else if !self.skip_inter {
            let on = x % spacing(self.tx as int, self.ss_h) == 0;
            if self.ss_h && self.tx > 1 && self.width() % 2 == 1 {
                on && ((class == 0 && self.covers_short(y, x)) || (class == 1
                    && !self.covers_short(y, x)))
            } else {
                on && class == self.plain_class()
            }
        } else if self.tx != 0 {
            x == self.col && class == unit(self.tx == 1 || self.w == unit(self.ss_h))
        } else {
            x == self.col && ((class == 1 && self.wide_col(x)) || (class == 2 && !self.wide_col(
                x,
            )))
        }
    }

    /// Whether the block puts a horizontal edge on top of a cell.
    pub open spec fn row_edge(self, y: int, class: int, x: int) -> bool {
        if self.passed_over() || !self.covers(y, x) {
            false
        } else if self.tx == 0 && !self.skip_inter {
            let odd_end = self.col_end % 2 == 1;
            let side = class == (if self.wide_row(y) {
                1int
            } else {
                2int
            });
            (side && (if self.ss_h && self.ss_v && odd_end && y % 2 == 1 {
                self.covers_short(y, x)
            } else {
                true
            })) || (class == 3 && !self.ss_v && (if self.ss_h && odd_end {
                self.covers_short(y, x)
            } else {
                true
            }))
        } else if !self.skip_inter {
            let d = y - self.row;
            let on = d % spacing(self.tx as int, self.ss_v) == 0;
            if self.ss_v && self.tx > 1 && self.height() % 2 == 1 {
                on && ((class == 0 && d < self.height() - 1) || (class == 1 && d == self.height()
                    - 1))
            } else {
                on && class == self.plain_class()
            }
        } else if self.tx != 0 {
            y == self.row && class == unit(self.tx == 1 || self.h == unit(self.ss_v))
        } else {
            y == self.row && class == (if self.wide_row(y) {
                1int
            } else {
                2int
            })
        }
    }
}

/// A mask with the vertical edges of a block.
pub open spec fn with_cols(m: Seq<bool>, j: EdgeJob) -> Seq<bool> {
    Seq::new(
        m.len(),
        |i: int| m[i] || j.col_edge(i / 32, (i / 8) % 4, i % 8),
    )
}

/// A mask with the horizontal edges of a block.
pub open spec fn with_rows(m: Seq<bool>, j: EdgeJob) -> Seq<bool> {
    Seq::new(
        m.len(),
        |i: int| m[i] || j.row_edge(i / 32, (i / 8) % 4, i % 8),
    )
}

fn unit_of(b: bool) -> (r: usize)
    ensures
        r == unit(b),
{
    if b {
        1
    } else {
        0
    }
}

fn spacing_of(tx: usize, half: bool) -> (r: usize)
    requires
        tx <= 3,
    ensures
        r == spacing(tx as int, half),
        1 <= r <= 8,
{
    let l: usize = tx + unit_of(half);
    if l <= 1 {
        1
    } else if l == 2 {
        2
    } else if l == 3 {
        4
    } else {
        8
    }
}

impl EdgeJob {
    fn is_passed_over(&self) -> (r: bool)
        ensures
            r == self.passed_over(),
    {
        self.tx == 0 && ((self.ss_v && self.h == 1 && self.row % 2 == 1) || (self.ss_h && self.w
            == 1 && self.col % 2 == 1))
    }

    fn height_of(&self) -> (r: usize)
        ensures
            r == self.height(),
    {
        if self.tx == 0 && self.ss_v && self.h == 1 && self.row_end == 0 {
            2
        } else {
            self.h
        }
    }

    fn width_of(&self) -> (r: usize)
        ensures
            r == self.width(),
    {
        if self.tx == 0 && self.ss_h && self.w == 1 && self.col_end == 0 {
            2
        } else {
            self.w
        }
    }

    fn is_wide_col(&self, x: usize) -> (r: bool)
        ensures
            r == self.wide_col(x as int),
    {
        if self.ss_h {
            x % 8 == 0
        } else {
            x % 4 == 0
        }
    }

    fn is_wide_row(&self, y: usize) -> (r: bool)
        ensures
            r == self.wide_row(y as int),
    {
        if self.ss_v {
            y % 8 == 0
        } else {
            y % 4 == 0
        }
    }

    fn is_col_edge(&self, y: usize, class: usize, x: usize) -> (r: bool)
        requires
            self.wf(),
            y < 8,
            x < 8,
        ensures
            r == self.col_edge(y as int, class as int, x as int),
    {
        let w: usize = self.width_of();
        let h: usize = self.height_of();
        if self.is_passed_over() || y < self.row || y >= self.row + h || x < self.col || x
            >= self.col + w {
            return false;
        }
        let short = x < self.col + w - 1;
        let wide = self.is_wide_col(x);
        if self.tx == 0 && !self.skip_inter {
            (class == 1 && wide) || (class == 2 && !wide) || (class == 3 && !self.ss_h)
        } else if !self.skip_inter {
            let on = x % spacing_of(self.tx, self.ss_h) == 0;
            if self.ss_h && self.tx > 1 && w % 2 == 1 {
                on && ((class == 0 && short) || (class == 1 && !short))
            } else {
                on && class == unit_of(self.tx == 1)
            }
        } else if self.tx != 0 {
            x == self.col && class == unit_of(self.tx == 1 || self.w == unit_of(self.ss_h))
        } else {
            x == self.col && ((class == 1 && wide) || (class == 2 && !wide))
        }
    }

    fn is_row_edge(&self, y: usize, class: usize, x: usize) -> (r: bool)
        requires
            self.wf(),
            y < 8,
            x < 8,
        ensures
            r == self.row_edge(y as int, class as int, x as int),
    {
        let w: usize = self.width_of();
        let h: usize = self.height_of();
        if self.is_passed_over() || y < self.row || y >= self.row + h || x < self.col || x
            >= self.col + w {
            return false;
        }
        let short = x < self.col + w - 1;
        let side = class == (if self.is_wide_row(y) { 1usize } else { 2usize });
        if self.tx == 0 && !self.skip_inter {
            let odd_end = self.col_end % 2 == 1;
            (side && (if self.ss_h && self.ss_v && odd_end && y % 2 == 1 { short } else { true }))
                || (class == 3 && !self.ss_v && (if self.ss_h && odd_end { short } else { true }))
        } else if !self.skip_inter {
            let d: usize = y - self.row;
            let on = d % spacing_of(self.tx, self.ss_v) == 0;
            if self.ss_v && self.tx > 1 && h % 2 == 1 {
                on && ((class == 0 && d < h - 1) || (class == 1 && d == h - 1))
            } else {
                on && class == unit_of(self.tx == 1)
            }
        } else if self.tx != 0 {
            y == self.row && class == unit_of(self.tx == 1 || self.h == unit_of(self.ss_v))
        } else {
            y == self.row && side
        }
    }
}

/// Adds the edges of a block to the masks of a plane.
fn mask_edges(cols: &mut EdgeMask, rows: &mut EdgeMask, j: &EdgeJob)
    requires
        j.wf(),
    ensures
        final(cols)@ == with_cols(old(cols)@, *j),
        final(rows)@ == with_rows(old(rows)@, *j),
{
    let ghost c0 = cols@;
    let ghost r0 = rows@;
    let mut i: usize = 0;
    while i < 256
        invariant
            i <= 256,
            j.wf(),
            c0.len() == 256,
            r0.len() == 256,
            forall|k: int| 0 <= k < i ==> #[trigger] cols@[k] == with_cols(c0, *j)[k],
            forall|k: int| i <= k < 256 ==> #[trigger] cols@[k] == c0[k],
            forall|k: int| 0 <= k < i ==> #[trigger] rows@[k] == with_rows(r0, *j)[k],
            forall|k: int| i <= k < 256 ==> #[trigger] rows@[k] == r0[k],
        decreases 256 - i,
    {
        let y: usize = i / 32;
        let class: usize = (i / 8) % 4;
        let x: usize = i % 8;
        let c = cols[i] || j.is_col_edge(y, class, x);
        let r = rows[i] || j.is_row_edge(y, class, x);
        cols[i] = c;
        rows[i] = r;
        i += 1;
    }
    assert(cols@ =~= with_cols(c0, *j));
    assert(rows@ =~= with_rows(r0, *j));
}

// ---- planes ----

/// An edge filtered by a level and a sharpness, over `wd` pixels.
pub open spec fn level_edge(
    dst: Seq<u8>,
    off: int,
    along: int,
    step: int,
    level: int,
    sharpness: int,
    wd: int,
) -> Seq<u8> {
    crate::vp9::edge_filter::edge_spec(
        dst,
        off,
        along,
        step,
        outer_limit(level, sharpness),
        inner_limit(level, sharpness),
        level / 16,
        wd,
        0,
    )
}

fn filter_by_level(
    dst: &mut [u8],
    off: u64,
    along: u64,
    step: u64,
    level: u8,
    sharpness: u8,
    wd: u32,
)
    requires
        0 < step <= 65536,
        along <= 65536,
        off <= 0x8000_0000_0000,
        level < 64,
        sharpness < 8,
    ensures
        final(dst)@ == level_edge(
            old(dst)@,
            off as int,
            along as int,
            step as int,
            level as int,
            sharpness as int,
            wd as int,
        ),
        final(dst)@.len() == old(dst)@.len(),
{
    let (inner, outer) = limits(level, sharpness);
    loop_filter_edge(dst, off, along, step, outer, inner, (level / 16) as i32, wd);
}

/// Two edges of 8 pixels in a line: which classes each of them has.
pub struct Pair {
    pub a_wide: bool,
    pub a_long: bool,
    pub a_any: bool,
    pub b_wide: bool,
    pub b_long: bool,
    pub b_any: bool,
}

/// The pixels that an edge is filtered over.
pub open spec fn reach_of(long: bool) -> int {
    if long {
        8
    } else {
        4
    }
}

/// Two edges in a line are filtered. Only where both are wide, they are filtered over 16
/// pixels, with the level of the first.
pub open spec fn pair_spec(
    dst: Seq<u8>,
    at1: int,
    at2: int,
    along: int,
    step: int,
    p: Pair,
    l1: int,
    l2: int,
    sharpness: int,
) -> Seq<u8> {
    if p.a_any && p.a_wide && p.b_wide {
        level_edge(
            level_edge(dst, at1, along, step, l1, sharpness, 16),
            at2,
            along,
            step,
            l1,
            sharpness,
            16,
        )
    } else if p.a_any && p.a_wide {
        level_edge(dst, at1, along, step, l1, sharpness, 8)
    } else {
        let d = if p.a_any {
            level_edge(dst, at1, along, step, l1, sharpness, reach_of(p.a_long))
        } else {
            dst
        };
        if p.b_any {
            level_edge(d, at2, along, step, l2, sharpness, reach_of(p.b_long))
        } else {
            d
        }
    }
}

fn filter_pair(
    dst: &mut [u8],
    at1: u64,
    at2: u64,
    along: u64,
    step: u64,
    p: &Pair,
    l1: u8,
    l2: u8,
    sharpness: u8,
)
    requires
        0 < step <= 65536,
        along <= 65536,
        at1 <= 0x8000_0000_0000,
        at2 <= 0x8000_0000_0000,
        l1 < 64,
        l2 < 64,
        sharpness < 8,
    ensures
        final(dst)@ == pair_spec(
            old(dst)@,
            at1 as int,
            at2 as int,
            along as int,
            step as int,
            *p,
            l1 as int,
            l2 as int,
            sharpness as int,
        ),
        final(dst)@.len() == old(dst)@.len(),
{
    if p.a_any && p.a_wide {
        if p.b_wide {
            filter_by_level(dst, at1, along, step, l1, sharpness, 16);
            filter_by_level(dst, at2, along, step, l1, sharpness, 16);
        } else {
            filter_by_level(dst, at1, along, step, l1, sharpness, 8);
        }
    } else {
        if p.a_any {
            filter_by_level(dst, at1, along, step, l1, sharpness, if p.a_long { 8 } else { 4 });
        }
        if p.b_any {
            filter_by_level(dst, at2, along, step, l2, sharpness, if p.b_long { 8 } else { 4 });
        }
    }
}

/// Two edges in the middle of cells are filtered.
pub open spec fn inner_spec(
    dst: Seq<u8>,
    at1: int,
    at2: int,
    along: int,
    step: int,
    a: bool,
    b: bool,
    l1: int,
    l2: int,
    sharpness: int,
) -> Seq<u8> {
    let d = if a {
        level_edge(dst, at1, along, step, l1, sharpness, 4)
    } else {
        dst
    };
    if b {
        level_edge(d, at2, along, step, l2, sharpness, 4)
    } else {
        d
    }
}

/// A superblock in a plane, with the edges of one direction.
pub struct SbPlane {
    /// Where the superblock starts in the plane.
    pub off: u64,
    pub stride: u64,
    /// Whether the superblock lies at the edge of the frame that the edges run along.
    pub at_edge: bool,
    pub ss_h: bool,
    pub ss_v: bool,
    /// Levels of the cells.
    pub level: [u8; 64],
    pub mask: EdgeMask,
    pub sharpness: u8,
}

/// A superblock in a plane, as values.
pub struct SbPlaneView {
    pub off: int,
    pub stride: int,
    pub at_edge: bool,
    pub ss_h: bool,
    pub ss_v: bool,
    pub level: Seq<u8>,
    pub mask: Seq<bool>,
    pub sharpness: int,
}

impl View for SbPlane {
    type V = SbPlaneView;

    open spec fn view(&self) -> SbPlaneView {
        SbPlaneView {
            off: self.off as int,
            stride: self.stride as int,
            at_edge: self.at_edge,
            ss_h: self.ss_h,
            ss_v: self.ss_v,
            level: self.level@,
            mask: self.mask@,
            sharpness: self.sharpness as int,
        }
    }
}

impl SbPlaneView {
    /// Whether a cell has an edge on its side.
    pub open spec fn any(self, y: int, x: int) -> bool {
        has_edge(self.mask, y, 0, x) || has_edge(self.mask, y, 1, x) || has_edge(
            self.mask,
            y,
            2,
            x,
        )
    }

    /// The pixels of a cell in a row.
    pub open spec fn cell_w(self) -> int {
        if self.ss_h {
            4
        } else {
            8
        }
    }

    /// The rows of pixels of a cell.
    pub open spec fn cell_h(self) -> int {
        if self.ss_v {
            4
        } else {
            8
        }
    }

    /// Where a cell starts.
    pub open spec fn at(self, y: int, x: int) -> int {
        self.off + y * self.cell_h() * self.stride + x * self.cell_w()
    }

    /// The vertical edges at column `x` of the two rows of 8 pixels from the cell row `y`
    /// on.
    pub open spec fn col_cell(self, dst: Seq<u8>, y: int, x: int) -> Seq<u8> {
        let y2 = y + 1 + unit(self.ss_v);
        let at = self.at(y, x);
        let below = at + 8 * self.stride;
        let i1 = 8 * y + if self.ss_h {
            2 * (x / 2)
        } else {
            x
        };
        let l1 = self.level[i1] as int;
        let l2 = self.level[i1 + if self.ss_v {
            16int
        } else {
            8int
        }] as int;
        let p = Pair {
            a_wide: has_edge(self.mask, y, 0, x),
            a_long: has_edge(self.mask, y, 1, x),
            a_any: self.any(y, x),
            b_wide: has_edge(self.mask, y2, 0, x),
            b_long: has_edge(self.mask, y2, 1, x),
            b_any: has_edge(self.mask, y2, 1, x) || has_edge(self.mask, y2, 2, x),
        };
        let d = if self.at_edge && x == 0 {
            dst
        } else {
            pair_spec(
                dst,
                at,
                below,
                self.stride,
                1,
                p,
                l1,
                l2,
                self.sharpness,
            )
        };
        if self.ss_h {
            d
        } else {
            inner_spec(
                d,
                at + 4,
                below + 4,
                self.stride,
                1,
                has_edge(self.mask, y, 3, x),
                has_edge(self.mask, y2, 3, x),
                l1,
                l2,
                self.sharpness,
            )
        }
    }

    /// The vertical edges from column `x` on of two rows of 8 pixels.
    pub open spec fn col_cells(self, dst: Seq<u8>, y: int, x: int) -> Seq<u8>
        decreases 8 - x,
    {
        if x >= 8 {
            dst
        } else {
            self.col_cells(self.col_cell(dst, y, x), y, x + 1)
        }
    }

    /// The vertical edges from the cell row `y` on.
    pub open spec fn cols_from(self, dst: Seq<u8>, y: int) -> Seq<u8>
        decreases 12 - y,
    {
        if y >= 8 {
            dst
        } else {
            self.cols_from(
                self.col_cells(dst, y, 0),
                if self.ss_v {
                    y + 4
                } else {
                    y + 2
                },
            )
        }
    }

    /// The horizontal edges at the cell row `y` of the two columns of 8 pixels from `x`
    /// on.
    pub open spec fn row_cell(self, dst: Seq<u8>, y: int, x: int) -> Seq<u8> {
        let x2 = x + 1 + unit(self.ss_h);
        let at = self.at(y, x);
        let i1 = x + if self.ss_v {
            16 * (y / 2)
        } else {
            8 * y
        };
        let l1 = self.level[i1] as int;
        let l2 = self.level[i1 + 1 + unit(self.ss_h)] as int;
        let p = Pair {
            a_wide: has_edge(self.mask, y, 0, x),
            a_long: has_edge(self.mask, y, 1, x),
            a_any: self.any(y, x),
            b_wide: has_edge(self.mask, y, 0, x2),
            b_long: has_edge(self.mask, y, 1, x2),
            b_any: self.any(y, x2),
        };
        let d = if self.at_edge && y == 0 {
            dst
        } else {
            pair_spec(
                dst,
                at,
                at + 8,
                1,
                self.stride,
                p,
                l1,
                l2,
                self.sharpness,
            )
        };
        if self.ss_v {
            d
        } else {
            inner_spec(
                d,
                at + 4 * self.stride,
                at + 4 * self.stride + 8,
                1,
                self.stride,
                has_edge(self.mask, y, 3, x),
                has_edge(self.mask, y, 3, x2),
                l1,
                l2,
                self.sharpness,
            )
        }
    }

    /// Whether a cell from column `x` on has an edge on its top.
    pub open spec fn any_from(self, y: int, x: int) -> bool {
        exists|k: int| x <= k < 8 && #[trigger] self.any(y, k)
    }

    /// The horizontal edges of a cell row from column `x` on, as long as there are edges on
    /// top of cells.
    pub open spec fn row_cells(self, dst: Seq<u8>, y: int, x: int) -> Seq<u8>
        decreases 12 - x,
    {
        if x >= 8 || !self.any_from(y, x) {
            dst
        } else {
            self.row_cells(
                self.row_cell(dst, y, x),
                y,
                if self.ss_h {
                    x + 4
                } else {
                    x + 2
                },
            )
        }
    }

    /// The horizontal edges from the cell row `y` on.
    pub open spec fn rows_from(self, dst: Seq<u8>, y: int) -> Seq<u8>
        decreases 8 - y,
    {
        if y >= 8 {
            dst
        } else {
            self.rows_from(self.row_cells(dst, y, 0), y + 1)
        }
    }
}

impl SbPlane {
    /// Whether the superblock can be computed with.
    pub open spec fn wf(self) -> bool {
        &&& self.off <= 0x4000_0000_0000
        &&& 0 < self.stride <= 65536
        &&& self.sharpness < 8
        &&& forall|i: int| 0 <= i < 64 ==> #[trigger] self.level@[i] < 64
    }

    fn has(&self, y: usize, class: usize, x: usize) -> (r: bool)
        requires
            y < 8,
            class < 4,
            x < 8,
        ensures
            r == has_edge(self.mask@, y as int, class as int, x as int),
    {
        edge_in(&self.mask, y, class, x)
    }

    fn has_any(&self, y: usize, x: usize) -> (r: bool)
        requires
            y < 8,
            x < 8,
        ensures
            r == self@.any(y as int, x as int),
    {
        self.has(y, 0, x) || self.has(y, 1, x) || self.has(y, 2, x)
    }

    fn start_of(&self, y: usize, x: usize) -> (r: u64)
        requires
            self.wf(),
            y < 8,
            x < 8,
        ensures
            r == self@.at(y as int, x as int),
            r <= 0x4000_0100_0000,
    {
        let ch: u64 = if self.ss_v { 4 } else { 8 };
        let cw: u64 = if self.ss_h { 4 } else { 8 };
        proof {
            assert(0 <= y * ch <= 56) by (nonlinear_arith)
                requires
                    0 <= y <= 7,
                    0 <= ch <= 8,
            ;
            assert(0 <= y * ch * self.stride <= 56 * 65536) by (nonlinear_arith)
                requires
                    0 <= y * ch <= 56,
                    0 <= self.stride <= 65536,
            ;
            assert(0 <= x * cw <= 56) by (nonlinear_arith)
                requires
                    0 <= x <= 7,
                    0 <= cw <= 8,
            ;
        }
        self.off + y as u64 * ch * self.stride + x as u64 * cw
    }

    fn filter_col_cell(&self, dst: &mut [u8], y: usize, x: usize)
        requires
            self.wf(),
            x < 8,
            y <= 6,
            self.ss_v ==> y <= 4,
        ensures
            final(dst)@ == self@.col_cell(old(dst)@, y as int, x as int),
            final(dst)@.len() == old(dst)@.len(),
    {
        let y2: usize = y + 1 + unit_of(self.ss_v);
        let at: u64 = self.start_of(y, x);
        let below: u64 = at + 8 * self.stride;
        let i1: usize = 8 * y + if self.ss_h { 2 * (x / 2) } else { x };
        let l1: u8 = self.level[i1];
        let l2: u8 = self.level[i1 + if self.ss_v { 16usize } else { 8usize }];
        if !(self.at_edge && x == 0) {
            let p = Pair {
                a_wide: self.has(y, 0, x),
                a_long: self.has(y, 1, x),
                a_any: self.has_any(y, x),
                b_wide: self.has(y2, 0, x),
                b_long: self.has(y2, 1, x),
                b_any: self.has(y2, 1, x) || self.has(y2, 2, x),
            };
            filter_pair(dst, at, below, self.stride, 1, &p, l1, l2, self.sharpness);
        }
        if !self.ss_h {
            if self.has(y, 3, x) {
                filter_by_level(dst, at + 4, self.stride, 1, l1, self.sharpness, 4);
            }
            if self.has(y2, 3, x) {
                filter_by_level(dst, below + 4, self.stride, 1, l2, self.sharpness, 4);
            }
        }
    }

    fn filter_row_cell(&self, dst: &mut [u8], y: usize, x: usize)
        requires
            self.wf(),
            y < 8,
            x <= 6,
            self.ss_h ==> x <= 4,
        ensures
            final(dst)@ == self@.row_cell(old(dst)@, y as int, x as int),
            final(dst)@.len() == old(dst)@.len(),
    {
        let x2: usize = x + 1 + unit_of(self.ss_h);
        let at: u64 = self.start_of(y, x);
        let i1: usize = x + if self.ss_v { 16 * (y / 2) } else { 8 * y };
        let l1: u8 = self.level[i1];
        let l2: u8 = self.level[i1 + 1 + unit_of(self.ss_h)];
        if !(self.at_edge && y == 0) {
            let p = Pair {
                a_wide: self.has(y, 0, x),
                a_long: self.has(y, 1, x),
                a_any: self.has_any(y, x),
                b_wide: self.has(y, 0, x2),
                b_long: self.has(y, 1, x2),
                b_any: self.has_any(y, x2),
            };
            filter_pair(dst, at, at + 8, 1, self.stride, &p, l1, l2, self.sharpness);
        }
        if !self.ss_v {
            let mid: u64 = at + 4 * self.stride;
            if self.has(y, 3, x) {
                filter_by_level(dst, mid, 1, self.stride, l1, self.sharpness, 4);
            }
            if self.has(y, 3, x2) {
                filter_by_level(dst, mid + 8, 1, self.stride, l2, self.sharpness, 4);
            }
        }
    }

    /// Filters the vertical edges of a superblock.
    pub fn filter_plane_cols(&self, dst: &mut [u8])
        requires
            self.wf(),
        ensures
            final(dst)@ == self@.cols_from(old(dst)@, 0),
            final(dst)@.len() == old(dst)@.len(),
    {
        let ghost d0 = dst@;
        let step: usize = if self.ss_v { 4 } else { 2 };
        let mut y: usize = 0;
        while y < 8
            invariant
                self.wf(),
                y <= 8,
                step == (if self.ss_v {
                    4int
                } else {
                    2int
                }),
                y % step == 0,
                dst@.len() == d0.len(),
                self@.cols_from(dst@, y as int) == self@.cols_from(d0, 0),
            decreases 8 - y,
        {
            let ghost row0 = dst@;
            let mut x: usize = 0;
            while x < 8
                invariant
                    self.wf(),
                    x <= 8,
                    y <= 6,
                    self.ss_v ==> y <= 4,
                    dst@.len() == d0.len(),
                    self@.col_cells(dst@, y as int, x as int) == self@.col_cells(
                        row0,
                        y as int,
                        0,
                    ),
                decreases 8 - x,
            {
                self.filter_col_cell(dst, y, x);
                x += 1;
            }
            y += step;
        }
    }

    fn has_any_from(&self, y: usize, x: usize) -> (r: bool)
        requires
            y < 8,
            x <= 8,
        ensures
            r == self@.any_from(y as int, x as int),
    {
        let mut k: usize = x;
        while k < 8
            invariant
                x <= k <= 8,
                y < 8,
                forall|i: int| x <= i < k ==> !#[trigger] self@.any(y as int, i),
            decreases 8 - k,
        {
            if self.has_any(y, k) {
                assert(self@.any(y as int, k as int));
                return true;
            }
            k += 1;
        }
        false
    }

    /// Filters the horizontal edges of a superblock.
    pub fn filter_plane_rows(&self, dst: &mut [u8])
        requires
            self.wf(),
        ensures
            final(dst)@ == self@.rows_from(old(dst)@, 0),
            final(dst)@.len() == old(dst)@.len(),
    {
        let ghost d0 = dst@;
        let step: usize = if self.ss_h { 4 } else { 2 };
        let mut y: usize = 0;
        while y < 8
            invariant
                self.wf(),
                y <= 8,
                step == (if self.ss_h {
                    4int
                } else {
                    2int
                }),
                dst@.len() == d0.len(),
                self@.rows_from(dst@, y as int) == self@.rows_from(d0, 0),
            decreases 8 - y,
        {
            let ghost row0 = dst@;
            let mut x: usize = 0;
            let mut more = self.has_any_from(y, 0);
            while x < 8 && more
                invariant
                    self.wf(),
                    x <= 8,
                    y < 8,
                    step == (if self.ss_h {
                        4int
                    } else {
                        2int
                    }),
                    x % step == 0,
                    more == self@.any_from(y as int, x as int),
                    dst@.len() == d0.len(),
                    self@.row_cells(dst@, y as int, x as int) == self@.row_cells(
                        row0,
                        y as int,
                        0,
                    ),
                decreases 8 - x,
            {
                self.filter_row_cell(dst, y, x);
                x += step;
                more = self.has_any_from(y, x);
            }
            y += 1;
        }
    }
}

// ---- frames ----

/// The levels and edges of a superblock.
pub struct SbFilter {
    pub level: [u8; 64],
    pub y_cols: EdgeMask,
    pub y_rows: EdgeMask,
    pub uv_cols: EdgeMask,
    pub uv_rows: EdgeMask,
}

/// The levels and edges of a superblock, as values.
pub struct SbFilterView {
    pub level: Seq<u8>,
    pub y_cols: Seq<bool>,
    pub y_rows: Seq<bool>,
    pub uv_cols: Seq<bool>,
    pub uv_rows: Seq<bool>,
}

impl View for SbFilter {
    type V = SbFilterView;

    open spec fn view(&self) -> SbFilterView {
        SbFilterView {
            level: self.level@,
            y_cols: self.y_cols@,
            y_rows: self.y_rows@,
            uv_cols: self.uv_cols@,
            uv_rows: self.uv_rows@,
        }
    }
}

/// A superblock without edges.
pub open spec fn no_edges() -> SbFilterView {
    SbFilterView {
        level: crate::vp9::context::fill(0u8, 64),
        y_cols: crate::vp9::context::fill(false, 256),
        y_rows: crate::vp9::context::fill(false, 256),
        uv_cols: crate::vp9::context::fill(false, 256),
        uv_rows: crate::vp9::context::fill(false, 256),
    }
}

/// The filter level of a block: that of its segment, its reference, and whether it moves.
pub open spec fn block_level(h: FrameHeader, b: BlockView) -> u8 {
    let r = if b.is_inter {
        b.ref_frame[0] + 1
    } else {
        0
    };
    let moves = b.is_inter && b.inter_mode[3] != 12;
    h.segmentation.feat@[b.segment_id as int].lflvl@[if r > 3 {
        3
    } else {
        r
    }]@[unit(moves)]
}

/// The levels of a superblock with that of a block.
pub open spec fn with_level(l: Seq<u8>, col: int, row: int, w: int, h: int, v: u8) -> Seq<u8> {
    Seq::new(
        l.len(),
        |i: int|
            if row <= i / 8 < row + h && col <= i % 8 < col + w {
                v
            } else {
                l[i]
            },
    )
}

/// `n` cells from `at` on, as far as they lie in a frame of `frame` cells.
pub open spec fn cells_inside(n: int, at: int, frame: int) -> int {
    if n < frame - at {
        n
    } else {
        frame - at
    }
}

/// The size of a frame modulo 8 in cells, where it is odd and a block reaches its end.
pub open spec fn odd_end(n: int, at: int, frame: int) -> int {
    if frame % 2 == 1 && at + n >= frame {
        frame % 8
    } else {
        0
    }
}

/// The edges of a block in luma.
pub open spec fn luma_edges(b: BlockView, cols: int, rows: int) -> EdgeJob {
    let k = b.bs.code_spec() as int;
    let col = b.col / 2;
    let row = b.row / 2;
    EdgeJob {
        ss_h: false,
        ss_v: false,
        row: (row % 8) as usize,
        col: (col % 8) as usize,
        w: cells_inside(BWH_TAB@[1]@[k]@[0] as int, col, cols) as usize,
        h: cells_inside(BWH_TAB@[1]@[k]@[1] as int, row, rows) as usize,
        col_end: 0,
        row_end: 0,
        tx: b.tx_size.code_spec() as usize,
        skip_inter: b.is_inter && b.skip,
    }
}

/// The edges of a block in chroma.
pub open spec fn chroma_edges(
    b: BlockView,
    cols: int,
    rows: int,
    ss_h: bool,
    ss_v: bool,
) -> EdgeJob {
    let k = b.bs.code_spec() as int;
    EdgeJob {
        ss_h,
        ss_v,
        col_end: odd_end(BWH_TAB@[1]@[k]@[0] as int, b.col / 2, cols) as usize,
        row_end: odd_end(BWH_TAB@[1]@[k]@[1] as int, b.row / 2, rows) as usize,
        tx: b.uv_tx_size.code_spec() as usize,
        ..luma_edges(b, cols, rows)
    }
}

/// A superblock with the edges of a block. One with the level zero has none.
pub open spec fn with_block(
    s: SbFilterView,
    h: FrameHeader,
    b: BlockView,
    cols: int,
    rows: int,
) -> SbFilterView {
    let level = block_level(h, b);
    let k = b.bs.code_spec() as int;
    let y = luma_edges(b, cols, rows);
    let uv = chroma_edges(b, cols, rows, h.subsampling_x, h.subsampling_y);
    let chroma = h.subsampling_x || h.subsampling_y;
    if level == 0 {
        s
    } else {
        SbFilterView {
            level: with_level(
                s.level,
                y.col as int,
                y.row as int,
                BWH_TAB@[1]@[k]@[0] as int,
                BWH_TAB@[1]@[k]@[1] as int,
                level,
            ),
            y_cols: with_cols(s.y_cols, y),
            y_rows: with_rows(s.y_rows, y),
            uv_cols: if chroma {
                with_cols(s.uv_cols, uv)
            } else {
                s.uv_cols
            },
            uv_rows: if chroma {
                with_rows(s.uv_rows, uv)
            } else {
                s.uv_rows
            },
        }
    }
}

/// What is needed of a block to filter it.
pub open spec fn filter_wf(b: BlockView, cols: int, rows: int) -> bool {
    &&& b.segment_id < 8
    &&& b.is_inter ==> 0 <= b.ref_frame[0] <= 2
    &&& b.row / 2 < rows
    &&& b.col / 2 < cols
}

/// Whether the levels of a frame can be looked up.
pub open spec fn levels_wf(h: FrameHeader) -> bool {
    &&& h.sharpness_level < 8
    &&& forall|i: int|
        0 <= i < 8 ==> crate::vp9::uncompressed::levels_in_range(
            (#[trigger] h.segmentation.feat@[i]).lflvl,
        )
}

fn set_level(l: &mut [u8; 64], col: usize, row: usize, w: usize, h: usize, v: u8)
    requires
        col < 8,
        row < 8,
        w <= 8,
        h <= 8,
    ensures
        final(l)@ == with_level(old(l)@, col as int, row as int, w as int, h as int, v),
{
    let ghost l0 = l@;
    let mut i: usize = 0;
    while i < 64
        invariant
            i <= 64,
            col < 8,
            row < 8,
            w <= 8,
            h <= 8,
            l0.len() == 64,
            forall|k: int|
                0 <= k < i ==> #[trigger] l@[k] == with_level(
                    l0,
                    col as int,
                    row as int,
                    w as int,
                    h as int,
                    v,
                )[k],
            forall|k: int| i <= k < 64 ==> #[trigger] l@[k] == l0[k],
        decreases 64 - i,
    {
        let y: usize = i / 8;
        let x: usize = i % 8;
        if row <= y && y < row + h && col <= x && x < col + w {
            l[i] = v;
        }
        i += 1;
    }
    assert(l@ =~= with_level(l0, col as int, row as int, w as int, h as int, v));
}

fn level_of(h: &FrameHeader, b: &BlockInfo) -> (r: u8)
    requires
        levels_wf(*h),
        b.segment_id < 8,
        b.is_inter ==> 0 <= b.ref_frame@[0] <= 2,
    ensures
        r == block_level(*h, b@),
        r < 64,
{
    let r: usize = if b.is_inter { (b.ref_frame[0] + 1) as usize } else { 0 };
    let m: usize = unit_of(b.is_inter && b.inter_mode[3] != 12);
    proof {
        assert(h.segmentation.feat@[b.segment_id as int].lflvl@[r as int]@[m as int] < 64);
    }
    h.segmentation.feat[b.segment_id as usize].lflvl[r][m]
}

/// Adds the edges of a block to its superblock.
#[verifier::rlimit(100)]
#[verifier::spinoff_prover]
fn add_block(s: &mut SbFilter, h: &FrameHeader, b: &BlockInfo, cols: usize, rows: usize)
    requires
        levels_wf(*h),
        filter_wf(b@, cols as int, rows as int),
        cols <= 8192,
        rows <= 8192,
        forall|i: int| 0 <= i < 64 ==> #[trigger] old(s).level@[i] < 64,
    ensures
        final(s)@ == with_block(old(s)@, *h, b@, cols as int, rows as int),
        forall|i: int| 0 <= i < 64 ==> #[trigger] final(s).level@[i] < 64,
{
    let level: u8 = level_of(h, b);
    if level == 0 {
        return ;
    }
    let k: usize = b.bs.code() as usize;
    let w8: usize = BWH_TAB[1][k][0] as usize;
    let h8: usize = BWH_TAB[1][k][1] as usize;
    let col: usize = b.col / 2;
    let row: usize = b.row / 2;
    let mut j = EdgeJob {
        ss_h: false,
        ss_v: false,
        row: row % 8,
        col: col % 8,
        w: if w8 < cols - col { w8 } else { cols - col },
        h: if h8 < rows - row { h8 } else { rows - row },
        col_end: 0,
        row_end: 0,
        tx: b.tx_size.code() as usize,
        skip_inter: b.is_inter && b.skip,
    };
    assert(j == luma_edges(b@, cols as int, rows as int));
    set_level(&mut s.level, j.col, j.row, w8, h8, level);
    mask_edges(&mut s.y_cols, &mut s.y_rows, &j);
    if h.subsampling_x || h.subsampling_y {
        j.ss_h = h.subsampling_x;
        j.ss_v = h.subsampling_y;
        j.col_end = if cols % 2 == 1 && col + w8 >= cols { cols % 8 } else { 0 };
        j.row_end = if rows % 2 == 1 && row + h8 >= rows { rows % 8 } else { 0 };
        j.tx = b.uv_tx_size.code() as usize;
        assert(j == chroma_edges(
            b@,
            cols as int,
            rows as int,
            h.subsampling_x,
            h.subsampling_y,
        ));
        mask_edges(&mut s.uv_cols, &mut s.uv_rows, &j);
    }
}

/// The numbers of those of the first `n` blocks that lie in a superblock.
pub open spec fn blocks_in(blocks: Seq<BlockView>, n: int, sb_row: int, sb_col: int) -> Seq<usize>
    decreases n,
{
    if n <= 0 {
        Seq::empty()
    } else {
        let l = blocks_in(blocks, n - 1, sb_row, sb_col);
        let b = blocks[n - 1];
        if b.row / 16 == sb_row && b.col / 16 == sb_col {
            l.push((n - 1) as usize)
        } else {
            l
        }
    }
}

/// A superblock with the edges of the first `n` blocks of a list.
pub open spec fn collected(
    blocks: Seq<BlockView>,
    list: Seq<usize>,
    h: FrameHeader,
    cols: int,
    rows: int,
    n: int,
) -> SbFilterView
    decreases n,
{
    if n <= 0 {
        no_edges()
    } else {
        with_block(
            collected(blocks, list, h, cols, rows, n - 1),
            h,
            blocks[list[n - 1] as int],
            cols,
            rows,
        )
    }
}

fn collect(
    blocks: &[BlockInfo],
    list: &Vec<usize>,
    h: &FrameHeader,
    cols: usize,
    rows: usize,
) -> (s: SbFilter)
    requires
        levels_wf(*h),
        cols <= 8192,
        rows <= 8192,
        forall|i: int| 0 <= i < list@.len() ==> #[trigger] list@[i] < blocks@.len(),
        forall|i: int|
            0 <= i < blocks@.len() ==> filter_wf(
                #[trigger] blocks@[i]@,
                cols as int,
                rows as int,
            ),
    ensures
        s@ == collected(
            crate::vp9::block_modes::block_views(blocks@),
            list@,
            *h,
            cols as int,
            rows as int,
            list@.len() as int,
        ),
        forall|i: int| 0 <= i < 64 ==> #[trigger] s.level@[i] < 64,
{
    let mut s = SbFilter {
        level: [0u8; 64],
        y_cols: [false; 256],
        y_rows: [false; 256],
        uv_cols: [false; 256],
        uv_rows: [false; 256],
    };
    proof {
        assert(s.level@ =~= no_edges().level);
        assert(s.y_cols@ =~= no_edges().y_cols);
        assert(s.y_rows@ =~= no_edges().y_rows);
        assert(s.uv_cols@ =~= no_edges().uv_cols);
        assert(s.uv_rows@ =~= no_edges().uv_rows);
    }
    let mut n: usize = 0;
    while n < list.len()
        invariant
            n <= list@.len(),
            levels_wf(*h),
            cols <= 8192,
            rows <= 8192,
            forall|i: int| 0 <= i < list@.len() ==> #[trigger] list@[i] < blocks@.len(),
            forall|i: int|
                0 <= i < blocks@.len() ==> filter_wf(
                    #[trigger] blocks@[i]@,
                    cols as int,
                    rows as int,
                ),
            s@ == collected(crate::vp9::block_modes::block_views(blocks@), list@, *h, cols as int, rows as int, n as int),
            forall|i: int| 0 <= i < 64 ==> #[trigger] s.level@[i] < 64,
        decreases list@.len() - n,
    {
        add_block(&mut s, h, &blocks[list[n]], cols, rows);
        n += 1;
    }
    s
}

/// A superblock in a plane, with the vertical (`rows` is false) or horizontal edges.
pub open spec fn sb_plane(
    s: SbFilterView,
    chroma: bool,
    rows: bool,
    stride: int,
    sb_row: int,
    sb_col: int,
    h: FrameHeader,
) -> SbPlaneView {
    let ss_h = chroma && h.subsampling_x;
    let ss_v = chroma && h.subsampling_y;
    let sub = h.subsampling_x || h.subsampling_y;
    let rh = if ss_v {
        32int
    } else {
        64
    };
    let cw = if ss_h {
        32int
    } else {
        64
    };
    SbPlaneView {
        off: sb_row * rh * stride + sb_col * cw,
        stride,
        at_edge: if rows {
            sb_row == 0
        } else {
            sb_col == 0
        },
        ss_h,
        ss_v,
        level: s.level,
        mask: if chroma && sub {
            if rows {
                s.uv_rows
            } else {
                s.uv_cols
            }
        } else if rows {
            s.y_rows
        } else {
            s.y_cols
        },
        sharpness: h.sharpness_level as int,
    }
}

/// A plane with the edges of a superblock filtered, the vertical ones first.
pub open spec fn plane_filtered(
    dst: Seq<u8>,
    s: SbFilterView,
    chroma: bool,
    stride: int,
    sb_row: int,
    sb_col: int,
    h: FrameHeader,
) -> Seq<u8> {
    let d = sb_plane(s, chroma, false, stride, sb_row, sb_col, h).cols_from(dst, 0);
    sb_plane(s, chroma, true, stride, sb_row, sb_col, h).rows_from(d, 0)
}

/// Filters a superblock in a plane.
fn filter_plane(
    dst: &mut [u8],
    s: &SbFilter,
    chroma: bool,
    stride: usize,
    sb_row: usize,
    sb_col: usize,
    h: &FrameHeader,
)
    requires
        0 < stride <= 65536,
        sb_row <= 1024,
        sb_col <= 1024,
        h.sharpness_level < 8,
        forall|i: int| 0 <= i < 64 ==> #[trigger] s.level@[i] < 64,
    ensures
        final(dst)@ == plane_filtered(
            old(dst)@,
            s@,
            chroma,
            stride as int,
            sb_row as int,
            sb_col as int,
            *h,
        ),
        final(dst)@.len() == old(dst)@.len(),
{
    let ss_h = chroma && h.subsampling_x;
    let ss_v = chroma && h.subsampling_y;
    let own = chroma && (h.subsampling_x || h.subsampling_y);
    let rh: u64 = if ss_v { 32 } else { 64 };
    let cw: u64 = if ss_h { 32 } else { 64 };
    proof {
        assert(0 <= sb_row * rh <= 65536) by (nonlinear_arith)
            requires
                0 <= sb_row <= 1024,
                0 <= rh <= 64,
        ;
        assert(0 <= sb_row * rh * stride <= 65536 * 65536) by (nonlinear_arith)
            requires
                0 <= sb_row * rh <= 65536,
                0 <= stride <= 65536,
        ;
        assert(0 <= sb_col * cw <= 65536) by (nonlinear_arith)
            requires
                0 <= sb_col <= 1024,
                0 <= cw <= 64,
        ;
    }
    let off: u64 = sb_row as u64 * rh * stride as u64 + sb_col as u64 * cw;
    let mut p = SbPlane {
        off,
        stride: stride as u64,
        at_edge: sb_col == 0,
        ss_h,
        ss_v,
        level: s.level,
        mask: if own { s.uv_cols } else { s.y_cols },
        sharpness: h.sharpness_level,
    };
    assert(p@ == sb_plane(s@, chroma, false, stride as int, sb_row as int, sb_col as int, *h));
    p.filter_plane_cols(dst);
    p.at_edge = sb_row == 0;
    p.mask = if own { s.uv_rows } else { s.y_rows };
    assert(p@ == sb_plane(s@, chroma, true, stride as int, sb_row as int, sb_col as int, *h));
    p.filter_plane_rows(dst);
}

/// A frame with the edges of a superblock filtered.
pub open spec fn sb_filtered(
    fb: FbView,
    s: SbFilterView,
    sb_row: int,
    sb_col: int,
    h: FrameHeader,
) -> FbView {
    FbView {
        y: plane_filtered(fb.y, s, false, fb.y_stride, sb_row, sb_col, h),
        u: plane_filtered(fb.u, s, true, fb.uv_stride, sb_row, sb_col, h),
        v: plane_filtered(fb.v, s, true, fb.uv_stride, sb_row, sb_col, h),
        ..fb
    }
}

/// The edges of a superblock of a frame.
pub open spec fn sb_view(
    blocks: Seq<BlockView>,
    h: FrameHeader,
    width: int,
    height: int,
    sb_row: int,
    sb_col: int,
) -> SbFilterView {
    let list = blocks_in(blocks, blocks.len() as int, sb_row, sb_col);
    collected(blocks, list, h, (width + 7) / 8, (height + 7) / 8, list.len() as int)
}

/// A frame with the superblocks from (`sb_row`, `sb_col`) on filtered, row by row.
pub open spec fn filtered_from(
    fb: FbView,
    blocks: Seq<BlockView>,
    h: FrameHeader,
    sb_row: int,
    sb_col: int,
) -> FbView
    decreases (fb.height + 63) / 64 - sb_row, (fb.width + 63) / 64 - sb_col,
{
    let sb_rows = (fb.height + 63) / 64;
    let sb_cols = (fb.width + 63) / 64;
    if sb_row >= sb_rows {
        fb
    } else if sb_col >= sb_cols {
        filtered_from(fb, blocks, h, sb_row + 1, 0)
    } else {
        let s = sb_view(blocks, h, fb.width, fb.height, sb_row, sb_col);
        filtered_from(
            sb_filtered(fb, s, sb_row, sb_col, h),
            blocks,
            h,
            sb_row,
            sb_col + 1,
        )
    }
}

/// A frame with its edges filtered. At the level zero, nothing is.
pub open spec fn loop_filter_spec(fb: FbView, blocks: Seq<BlockView>, h: FrameHeader) -> FbView {
    if h.filter_level == 0 {
        fb
    } else {
        filtered_from(fb, blocks, h, 0, 0)
    }
}

/// Whether the lists hold the blocks of each superblock, of the first `n`.
pub open spec fn lists_hold(
    lists: Seq<Vec<usize>>,
    blocks: Seq<BlockView>,
    n: int,
    sb_rows: int,
    sb_cols: int,
) -> bool {
    &&& lists.len() == sb_rows * sb_cols
    &&& forall|r: int, c: int|
        #![trigger blocks_in(blocks, n, r, c)]
        0 <= r < sb_rows && 0 <= c < sb_cols ==> lists[r * sb_cols + c]@ == blocks_in(
            blocks,
            n,
            r,
            c,
        )
}

/// Cells of a grid have different numbers.
proof fn lemma_cells(r: int, c: int, r2: int, c2: int, rows: int, cols: int)
    requires
        0 <= r < rows,
        0 <= c < cols,
        0 <= r2 < rows,
        0 <= c2 < cols,
    ensures
        0 <= r * cols + c < rows * cols,
        r * cols + c == r2 * cols + c2 ==> r == r2 && c == c2,
{
    assert(0 <= r * cols + c < rows * cols) by (nonlinear_arith)
        requires
            0 <= r <= rows - 1,
            0 <= c < cols,
    ;
    if r * cols + c == r2 * cols + c2 {
        assert(r == r2) by (nonlinear_arith)
            requires
                r * cols + c == r2 * cols + c2,
                0 <= c < cols,
                0 <= c2 < cols,
        ;
    }
}

/// The numbers of the blocks of each superblock.
fn sort_blocks(blocks: &[BlockInfo], sb_rows: usize, sb_cols: usize) -> (lists: Vec<Vec<usize>>)
    requires
        sb_rows <= 1024,
        sb_cols <= 1024,
    ensures
        lists_hold(
            lists@,
            crate::vp9::block_modes::block_views(blocks@),
            blocks@.len() as int,
            sb_rows as int,
            sb_cols as int,
        ),
{
    proof {
        assert(0 <= sb_rows * sb_cols <= 1024 * 1024) by (nonlinear_arith)
            requires
                0 <= sb_rows <= 1024,
                0 <= sb_cols <= 1024,
        ;
    }
    let total: usize = sb_rows * sb_cols;
    let mut lists: Vec<Vec<usize>> = Vec::new();
    while lists.len() < total
        invariant
            lists@.len() <= total,
            forall|k: int|
                0 <= k < lists@.len() ==> (#[trigger] lists@[k])@ == Seq::<usize>::empty(),
        decreases total - lists@.len(),
    {
        let l: Vec<usize> = Vec::new();
        assert(l@ =~= Seq::<usize>::empty());
        lists.push(l);
    }
    proof {
        assert forall|r: int, c: int|
            #![trigger blocks_in(crate::vp9::block_modes::block_views(blocks@), 0, r, c)]
            0 <= r < sb_rows && 0 <= c < sb_cols implies lists@[r * sb_cols + c]@ == blocks_in(
            crate::vp9::block_modes::block_views(blocks@),
            0,
            r,
            c,
        ) by {
            lemma_cells(r, c, r, c, sb_rows as int, sb_cols as int);
        }
    }
    let mut n: usize = 0;
    while n < blocks.len()
        invariant
            n <= blocks@.len(),
            total == sb_rows * sb_cols,
            lists_hold(lists@, crate::vp9::block_modes::block_views(blocks@), n as int, sb_rows as int, sb_cols as int),
        decreases blocks@.len() - n,
    {
        let br: usize = blocks[n].row / 16;
        let bc: usize = blocks[n].col / 16;
        let ghost before = lists@;
        if br < sb_rows && bc < sb_cols {
            proof {
                lemma_cells(
                    br as int,
                    bc as int,
                    br as int,
                    bc as int,
                    sb_rows as int,
                    sb_cols as int,
                );
                assert(0 <= br * sb_cols) by (nonlinear_arith)
                    requires
                        0 <= br,
                        0 <= sb_cols,
                ;
            }
            let k: usize = br * sb_cols + bc;
            let ghost l0 = lists@[k as int]@;
            let l = &mut lists[k];
            l.push(n);
            assert(lists@ =~= before.update(k as int, lists@[k as int]));
        }
        proof {
            assert forall|r: int, c: int|
                #![trigger blocks_in(crate::vp9::block_modes::block_views(blocks@), n + 1, r, c)]
                0 <= r < sb_rows && 0 <= c < sb_cols implies lists@[r * sb_cols + c]@
                == blocks_in(crate::vp9::block_modes::block_views(blocks@), n + 1, r, c) by {
                assert(blocks_in(crate::vp9::block_modes::block_views(blocks@), n as int, r, c) == before[r * sb_cols + c]@);
                lemma_cells(r, c, r, c, sb_rows as int, sb_cols as int);
                if br < sb_rows && bc < sb_cols {
                    lemma_cells(
                        r,
                        c,
                        br as int,
                        bc as int,
                        sb_rows as int,
                        sb_cols as int,
                    );
                }
            }
        }
        n += 1;
    }
    lists
}

/// Those of the first `n` blocks that lie in a superblock are among them.
proof fn lemma_blocks_in(blocks: Seq<BlockView>, n: int, r: int, c: int)
    requires
        0 <= n <= blocks.len() <= usize::MAX,
    ensures
        forall|i: int|
            0 <= i < blocks_in(blocks, n, r, c).len() ==> #[trigger] blocks_in(
                blocks,
                n,
                r,
                c,
            )[i] < n,
    decreases n,
{
    if n > 0 {
        lemma_blocks_in(blocks, n - 1, r, c);
        let l = blocks_in(blocks, n - 1, r, c);
        let all = blocks_in(blocks, n, r, c);
        assert forall|i: int| 0 <= i < all.len() implies #[trigger] all[i] < n by {
            if i < l.len() {
                assert(l[i] < n - 1);
                assert(all[i] == l[i]);
            }
        }
    }
}

/// Filters the edges of the blocks of a frame.
pub fn loop_filter_frame(fb: &mut FrameBuffer, blocks: &[BlockInfo], header: &FrameHeader)
    requires
        old(fb).wf(),
        old(fb).width <= 65536,
        old(fb).height <= 65536,
        levels_wf(*header),
        forall|i: int|
            0 <= i < blocks@.len() ==> filter_wf(
                #[trigger] blocks@[i]@,
                (old(fb).width + 7) / 8,
                (old(fb).height + 7) / 8,
            ),
    ensures
        final(fb)@ == loop_filter_spec(old(fb)@, crate::vp9::block_modes::block_views(blocks@), *header),
        crate::vp9::recon::same_shape(final(fb)@, old(fb)@),
{
    if header.filter_level == 0 {
        return ;
    }
    let ghost fb0 = fb@;
    let width: usize = fb.width as usize;
    let height: usize = fb.height as usize;
    let cols: usize = (width + 7) / 8;
    let rows: usize = (height + 7) / 8;
    let sb_cols: usize = (width + 63) / 64;
    let sb_rows: usize = (height + 63) / 64;
    let y_stride: usize = fb.y_stride;
    let uv_stride: usize = fb.uv_stride;
    let lists: Vec<Vec<usize>> = sort_blocks(blocks, sb_rows, sb_cols);
    let mut sb_row: usize = 0;
    while sb_row < sb_rows
        invariant
            sb_row <= sb_rows,
            sb_rows == (fb0.height + 63) / 64,
            sb_cols == (fb0.width + 63) / 64,
            sb_rows <= 1024,
            sb_cols <= 1024,
            cols == (fb0.width + 7) / 8,
            rows == (fb0.height + 7) / 8,
            cols <= 8192,
            rows <= 8192,
            64 <= y_stride <= 65536,
            64 <= uv_stride <= 65536,
            y_stride == fb0.y_stride,
            uv_stride == fb0.uv_stride,
            levels_wf(*header),
            forall|i: int|
                0 <= i < blocks@.len() ==> filter_wf(
                    #[trigger] blocks@[i]@,
                    cols as int,
                    rows as int,
                ),
            lists_hold(
                lists@,
                crate::vp9::block_modes::block_views(blocks@),
                blocks@.len() as int,
                sb_rows as int,
                sb_cols as int,
            ),
            crate::vp9::recon::same_shape(fb@, fb0),
            filtered_from(fb@, crate::vp9::block_modes::block_views(blocks@), *header, sb_row as int, 0) == filtered_from(
                fb0,
                crate::vp9::block_modes::block_views(blocks@),
                *header,
                0,
                0,
            ),
        decreases sb_rows - sb_row,
    {
        let mut sb_col: usize = 0;
        while sb_col < sb_cols
            invariant
                sb_row < sb_rows,
                sb_col <= sb_cols,
                sb_rows == (fb0.height + 63) / 64,
                sb_cols == (fb0.width + 63) / 64,
                sb_rows <= 1024,
                sb_cols <= 1024,
                cols == (fb0.width + 7) / 8,
                rows == (fb0.height + 7) / 8,
                cols <= 8192,
                rows <= 8192,
                64 <= y_stride <= 65536,
                64 <= uv_stride <= 65536,
                y_stride == fb0.y_stride,
                uv_stride == fb0.uv_stride,
                levels_wf(*header),
                forall|i: int|
                    0 <= i < blocks@.len() ==> filter_wf(
                        #[trigger] blocks@[i]@,
                        cols as int,
                        rows as int,
                    ),
                lists_hold(
                    lists@,
                    crate::vp9::block_modes::block_views(blocks@),
                    blocks@.len() as int,
                    sb_rows as int,
                    sb_cols as int,
                ),
                crate::vp9::recon::same_shape(fb@, fb0),
                filtered_from(fb@, crate::vp9::block_modes::block_views(blocks@), *header, sb_row as int, sb_col as int)
                    == filtered_from(fb0, crate::vp9::block_modes::block_views(blocks@), *header, 0, 0),
            decreases sb_cols - sb_col,
        {
            let ghost want = blocks_in(
                crate::vp9::block_modes::block_views(blocks@),
                blocks@.len() as int,
                sb_row as int,
                sb_col as int,
            );
            proof {
                lemma_cells(
                    sb_row as int,
                    sb_col as int,
                    sb_row as int,
                    sb_col as int,
                    sb_rows as int,
                    sb_cols as int,
                );
                assert(0 <= sb_row * sb_cols <= 1024 * 1024) by (nonlinear_arith)
                    requires
                        0 <= sb_row <= 1024,
                        0 <= sb_cols <= 1024,
                ;
                assert(blocks.len() == blocks@.len());
                lemma_blocks_in(
                    crate::vp9::block_modes::block_views(blocks@),
                    blocks@.len() as int,
                    sb_row as int,
                    sb_col as int,
                );
            }
            let list: &Vec<usize> = &lists[sb_row * sb_cols + sb_col];
            assert(list@ == want);
            let s: SbFilter = collect(blocks, list, header, cols, rows);
            filter_plane(
                fb.y.as_mut_slice(),
                &s,
                false,
                y_stride,
                sb_row,
                sb_col,
                header,
            );
            filter_plane(
                fb.u.as_mut_slice(),
                &s,
                true,
                uv_stride,
                sb_row,
                sb_col,
                header,
            );
            filter_plane(
                fb.v.as_mut_slice(),
                &s,
                true,
                uv_stride,
                sb_row,
                sb_col,
                header,
            );
            sb_col += 1;
        }
        sb_row += 1;
    }
}

/// At the level zero a frame is left as it is.
pub proof fn law_level_zero_is_off(fb: FbView, blocks: Seq<BlockView>, h: FrameHeader)
    requires
        h.filter_level == 0,
    ensures
        loop_filter_spec(fb, blocks, h) == fb,
{
}

proof fn lemma_level_edge_flat(
    dst: Seq<u8>,
    off: int,
    along: int,
    step: int,
    level: int,
    sharpness: int,
    wd: int,
    v: u8,
)
    requires
        0 < step,
        0 <= level,
        is_flat(dst, v),
    ensures
        level_edge(dst, off, along, step, level, sharpness, wd) == dst,
{
    crate::vp9::edge_filter::lemma_flat_lines(
        dst,
        off,
        along,
        step,
        outer_limit(level, sharpness),
        inner_limit(level, sharpness),
        level / 16,
        wd,
        0,
        v,
    );
}

proof fn lemma_pair_flat(
    dst: Seq<u8>,
    at1: int,
    at2: int,
    along: int,
    step: int,
    p: Pair,
    l1: int,
    l2: int,
    sharpness: int,
    v: u8,
)
    requires
        0 < step,
        0 <= l1,
        0 <= l2,
        is_flat(dst, v),
    ensures
        pair_spec(dst, at1, at2, along, step, p, l1, l2, sharpness) == dst,
{
    lemma_level_edge_flat(dst, at1, along, step, l1, sharpness, 16, v);
    lemma_level_edge_flat(dst, at2, along, step, l1, sharpness, 16, v);
    lemma_level_edge_flat(dst, at1, along, step, l1, sharpness, 8, v);
    lemma_level_edge_flat(dst, at1, along, step, l1, sharpness, 4, v);
    lemma_level_edge_flat(dst, at2, along, step, l2, sharpness, 8, v);
    lemma_level_edge_flat(dst, at2, along, step, l2, sharpness, 4, v);
}

proof fn lemma_inner_flat(
    dst: Seq<u8>,
    at1: int,
    at2: int,
    along: int,
    step: int,
    a: bool,
    b: bool,
    l1: int,
    l2: int,
    sharpness: int,
    v: u8,
)
    requires
        0 < step,
        0 <= l1,
        0 <= l2,
        is_flat(dst, v),
    ensures
        inner_spec(dst, at1, at2, along, step, a, b, l1, l2, sharpness) == dst,
{
    lemma_level_edge_flat(dst, at1, along, step, l1, sharpness, 4, v);
    lemma_level_edge_flat(dst, at2, along, step, l2, sharpness, 4, v);
}

impl SbPlaneView {
    proof fn lemma_col_cell_flat(self, dst: Seq<u8>, y: int, x: int, v: u8)
        requires
            is_flat(dst, v),
        ensures
            self.col_cell(dst, y, x) == dst,
    {
        let y2 = y + 1 + unit(self.ss_v);
        let at = self.at(y, x);
        let below = at + 8 * self.stride;
        let i1 = 8 * y + if self.ss_h {
            2 * (x / 2)
        } else {
            x
        };
        let l1 = self.level[i1] as int;
        let l2 = self.level[i1 + if self.ss_v {
            16int
        } else {
            8int
        }] as int;
        let p = Pair {
            a_wide: has_edge(self.mask, y, 0, x),
            a_long: has_edge(self.mask, y, 1, x),
            a_any: self.any(y, x),
            b_wide: has_edge(self.mask, y2, 0, x),
            b_long: has_edge(self.mask, y2, 1, x),
            b_any: has_edge(self.mask, y2, 1, x) || has_edge(self.mask, y2, 2, x),
        };
        lemma_pair_flat(dst, at, below, self.stride, 1, p, l1, l2, self.sharpness, v);
        lemma_inner_flat(
            dst,
            at + 4,
            below + 4,
            self.stride,
            1,
            has_edge(self.mask, y, 3, x),
            has_edge(self.mask, y2, 3, x),
            l1,
            l2,
            self.sharpness,
            v,
        );
    }

    proof fn lemma_row_cell_flat(self, dst: Seq<u8>, y: int, x: int, v: u8)
        requires
            is_flat(dst, v),
            0 < self.stride,
        ensures
            self.row_cell(dst, y, x) == dst,
    {
        let x2 = x + 1 + unit(self.ss_h);
        let at = self.at(y, x);
        let i1 = x + if self.ss_v {
            16 * (y / 2)
        } else {
            8 * y
        };
        let l1 = self.level[i1] as int;
        let l2 = self.level[i1 + 1 + unit(self.ss_h)] as int;
        let p = Pair {
            a_wide: has_edge(self.mask, y, 0, x),
            a_long: has_edge(self.mask, y, 1, x),
            a_any: self.any(y, x),
            b_wide: has_edge(self.mask, y, 0, x2),
            b_long: has_edge(self.mask, y, 1, x2),
            b_any: self.any(y, x2),
        };
        lemma_pair_flat(dst, at, at + 8, 1, self.stride, p, l1, l2, self.sharpness, v);
        lemma_inner_flat(
            dst,
            at + 4 * self.stride,
            at + 4 * self.stride + 8,
            1,
            self.stride,
            has_edge(self.mask, y, 3, x),
            has_edge(self.mask, y, 3, x2),
            l1,
            l2,
            self.sharpness,
            v,
        );
    }

    proof fn lemma_col_cells_flat(self, dst: Seq<u8>, y: int, x: int, v: u8)
        requires
            is_flat(dst, v),
        ensures
            self.col_cells(dst, y, x) == dst,
        decreases 8 - x,
    {
        if x < 8 {
            self.lemma_col_cell_flat(dst, y, x, v);
            self.lemma_col_cells_flat(dst, y, x + 1, v);
        }
    }

    proof fn lemma_cols_flat(self, dst: Seq<u8>, y: int, v: u8)
        requires
            is_flat(dst, v),
        ensures
            self.cols_from(dst, y) == dst,
        decreases 12 - y,
    {
        if y < 8 {
            self.lemma_col_cells_flat(dst, y, 0, v);
            self.lemma_cols_flat(
                dst,
                if self.ss_v {
                    y + 4
                } else {
                    y + 2
                },
                v,
            );
        }
    }

    proof fn lemma_row_cells_flat(self, dst: Seq<u8>, y: int, x: int, v: u8)
        requires
            is_flat(dst, v),
            0 < self.stride,
        ensures
            self.row_cells(dst, y, x) == dst,
        decreases 12 - x,
    {
        if x < 8 {
            self.lemma_row_cell_flat(dst, y, x, v);
            self.lemma_row_cells_flat(
                dst,
                y,
                if self.ss_h {
                    x + 4
                } else {
                    x + 2
                },
                v,
            );
        }
    }

    proof fn lemma_rows_flat(self, dst: Seq<u8>, y: int, v: u8)
        requires
            is_flat(dst, v),
            0 < self.stride,
        ensures
            self.rows_from(dst, y) == dst,
        decreases 8 - y,
    {
        if y < 8 {
            self.lemma_row_cells_flat(dst, y, 0, v);
            self.lemma_rows_flat(dst, y + 1, v);
        }
    }
}

proof fn lemma_plane_flat(
    dst: Seq<u8>,
    s: SbFilterView,
    chroma: bool,
    stride: int,
    sb_row: int,
    sb_col: int,
    h: FrameHeader,
    v: u8,
)
    requires
        is_flat(dst, v),
        0 < stride,
    ensures
        plane_filtered(dst, s, chroma, stride, sb_row, sb_col, h) == dst,
{
    sb_plane(s, chroma, false, stride, sb_row, sb_col, h).lemma_cols_flat(dst, 0, v);
    sb_plane(s, chroma, true, stride, sb_row, sb_col, h).lemma_rows_flat(dst, 0, v);
}

proof fn lemma_flat_from(
    fb: FbView,
    blocks: Seq<BlockView>,
    h: FrameHeader,
    sb_row: int,
    sb_col: int,
    y: u8,
    u: u8,
    v: u8,
)
    requires
        is_flat(fb.y, y),
        is_flat(fb.u, u),
        is_flat(fb.v, v),
        0 < fb.y_stride,
        0 < fb.uv_stride,
    ensures
        filtered_from(fb, blocks, h, sb_row, sb_col) == fb,
    decreases (fb.height + 63) / 64 - sb_row, (fb.width + 63) / 64 - sb_col,
{
    if sb_row < (fb.height + 63) / 64 {
        if sb_col >= (fb.width + 63) / 64 {
            lemma_flat_from(fb, blocks, h, sb_row + 1, 0, y, u, v);
        } else {
            let s = sb_view(blocks, h, fb.width, fb.height, sb_row, sb_col);
            lemma_plane_flat(fb.y, s, false, fb.y_stride, sb_row, sb_col, h, y);
            lemma_plane_flat(fb.u, s, true, fb.uv_stride, sb_row, sb_col, h, u);
            lemma_plane_flat(fb.v, s, true, fb.uv_stride, sb_row, sb_col, h, v);
            assert(sb_filtered(fb, s, sb_row, sb_col, h) == fb);
            lemma_flat_from(fb, blocks, h, sb_row, sb_col + 1, y, u, v);
        }
    }
}

/// A frame each of whose planes has one value is left as it is, whatever its blocks.
pub proof fn law_flat_frame_is_left(
    fb: FbView,
    blocks: Seq<BlockView>,
    h: FrameHeader,
    y: u8,
    u: u8,
    v: u8,
)
    requires
        is_flat(fb.y, y),
        is_flat(fb.u, u),
        is_flat(fb.v, v),
        0 < fb.y_stride,
        0 < fb.uv_stride,
    ensures
        loop_filter_spec(fb, blocks, h) == fb,
{
    lemma_flat_from(fb, blocks, h, 0, 0, y, u, v);
}

/// A higher level lets more through the limits, a greater sharpness less; the outer limit grows by at
/// least two with each level.
pub proof fn law_limits_follow_level_and_sharpness(level: int, higher: int, sharpness: int, sharper: int)
    requires
        1 <= level < higher <= 63,
        0 <= sharpness <= sharper < 8,
    ensures
        1 <= inner_limit(level, sharpness) <= inner_limit(higher, sharpness) <= 63,
        inner_limit(level, sharper) <= inner_limit(level, sharpness),
        outer_limit(level, sharpness) + 2 * (higher - level) <= outer_limit(higher, sharpness),
        inner_limit(level, 0) == level,
        sharpness > 0 ==> inner_limit(level, sharpness) <= 9 - sharpness,
        outer_limit(level, sharpness) == 2 * level + 4 + inner_limit(level, sharpness),
        inner_limit(0, sharpness) == 0 && outer_limit(0, sharpness) == 0,
{
}

} // verus!

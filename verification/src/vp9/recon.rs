//! Reconstruction of blocks: prediction, and the residual on top of it.
use std::sync::Arc;
use vstd::prelude::*;

use crate::error::Error;
use crate::vp9::block::BlockInfo;
use crate::vp9::block_modes::BlockView;
use crate::vp9::data::{BWH_TAB, INTRA_TXFM_TYPE};
use crate::vp9::edges::{prepare_intra_edges, Place};
use crate::vp9::header::FrameHeader;
use crate::vp9::idct::{itxfm_add, itxfm_add_lossless};
use crate::vp9::inter_pred::{can_predict, inter_pred};
use crate::vp9::intra_pred::intra_pred;
use crate::vp9::refs::RefFrame;
use crate::vp9::types::{IntraMode, TxSize, TxType};

verus! {

/// A frame of 4:2:0 pixels. Its planes are padded to whole superblocks.
pub struct FrameBuffer {
    pub y: Vec<u8>,
    pub u: Vec<u8>,
    pub v: Vec<u8>,
    pub y_stride: usize,
    pub uv_stride: usize,
    pub width: u32,
    pub height: u32,
}

/// The pixels of a frame, and their layout.
pub struct FbView {
    pub y: Seq<u8>,
    pub u: Seq<u8>,
    pub v: Seq<u8>,
    pub y_stride: int,
    pub uv_stride: int,
    pub width: int,
    pub height: int,
}

impl View for FrameBuffer {
    type V = FbView;

    open spec fn view(&self) -> FbView {
        FbView {
            y: self.y@,
            u: self.u@,
            v: self.v@,
            y_stride: self.y_stride as int,
            uv_stride: self.uv_stride as int,
            width: self.width as int,
            height: self.height as int,
        }
    }
}

/// Whether two frames have the same size and layout.
pub open spec fn same_shape(a: FbView, b: FbView) -> bool {
    &&& a == (FbView { y: a.y, u: a.u, v: a.v, ..b })
    &&& a.y.len() == b.y.len()
    &&& a.u.len() == b.u.len()
    &&& a.v.len() == b.v.len()
}

/// `v` rounded up to a multiple of `n`.
pub open spec fn round_up(v: int, n: int) -> int {
    (v + n - 1) / n * n
}

/// The bytes of the luma plane of a frame.
pub open spec fn luma_len(width: int, height: int) -> int {
    round_up(width, 64) * round_up(height, 64)
}

/// The bytes of a chroma plane of a frame.
pub open spec fn chroma_len(width: int, height: int) -> int {
    round_up((width + 1) / 2, 64) * round_up((height + 1) / 2, 32)
}

impl FrameBuffer {
    /// Whether rows are long enough for blocks.
    pub open spec fn wf(self) -> bool {
        &&& 64 <= self.y_stride <= 65536
        &&& 64 <= self.uv_stride <= 65536
    }

    /// A black frame.
    pub fn new(width: u32, height: u32) -> (r: Self)
        requires
            width <= 65536,
            height <= 65536,
            luma_len(width as int, height as int) <= usize::MAX,
            chroma_len(width as int, height as int) <= usize::MAX,
        ensures
            r.width == width,
            r.height == height,
            r.y_stride == round_up(width as int, 64),
            r.uv_stride == round_up((width + 1) / 2, 64),
            r.y@ == crate::vp9::context::fill(0u8, luma_len(width as int, height as int)),
            r.u@ == crate::vp9::context::fill(0u8, chroma_len(width as int, height as int)),
            r.v@ == crate::vp9::context::fill(0u8, chroma_len(width as int, height as int)),
            width > 0 ==> r.wf(),
    {
        let w: usize = width as usize;
        let h: usize = height as usize;
        let y_stride: usize = (w + 63) / 64 * 64;
        let uv_stride: usize = ((w + 1) / 2 + 63) / 64 * 64;
        let y_rows: usize = (h + 63) / 64 * 64;
        let uv_rows: usize = ((h + 1) / 2 + 31) / 32 * 32;
        let y: Vec<u8> = vec![0u8; y_stride * y_rows];
        let u: Vec<u8> = vec![0u8; uv_stride * uv_rows];
        let v: Vec<u8> = vec![0u8; uv_stride * uv_rows];
        assert(y@ =~= crate::vp9::context::fill(0u8, luma_len(width as int, height as int)));
        assert(u@ =~= crate::vp9::context::fill(0u8, chroma_len(width as int, height as int)));
        assert(v@ =~= crate::vp9::context::fill(0u8, chroma_len(width as int, height as int)));
        FrameBuffer { y, u, v, y_stride, uv_stride, width, height }
    }
}

/// The number of coefficients up to the last one that is not zero.
pub open spec fn eob_spec(c: Seq<i32>) -> int
    decreases c.len(),
{
    if c.len() == 0 {
        0
    } else if c.last() != 0 {
        c.len() as int
    } else {
        eob_spec(c.drop_last())
    }
}

fn find_eob(c: &[i32]) -> (r: usize)
    ensures
        r == eob_spec(c@),
        r <= c@.len(),
{
    let mut n: usize = c.len();
    assert(c@ =~= c@.subrange(0, n as int));
    while n > 0
        invariant
            n <= c@.len(),
            eob_spec(c@.subrange(0, n as int)) == eob_spec(c@),
        decreases n,
    {
        assert(c@.subrange(0, n as int).drop_last() =~= c@.subrange(0, n - 1));
        if c[n - 1] != 0 {
            return n;
        }
        n -= 1;
    }
    0
}

/// A plane with the part from `off` on replaced.
pub open spec fn with_tail(plane: Seq<u8>, off: int, tail: Seq<u8>) -> Seq<u8> {
    plane.subrange(0, off) + tail
}

/// The part of a plane from `off` on.
pub open spec fn tail(plane: Seq<u8>, off: int) -> Seq<u8> {
    plane.subrange(off, plane.len() as int)
}

/// The residual of a transform block is added at the start of a plane.
#[verifier::opaque]
pub open spec fn residual_spec(
    dst: Seq<u8>,
    stride: int,
    coefs: Seq<i32>,
    tx: TxSize,
    tx_type: TxType,
    lossless: bool,
    bit_depth: u8,
) -> Seq<u8> {
    if eob_spec(coefs) == 0 {
        dst
    } else if lossless {
        crate::vp9::idct::add_block_spec(
            dst,
            stride,
            4,
            4,
            |row: int, col: int| crate::vp9::idct::lossless_residual_spec(coefs, row, col),
            crate::vp9::idct::max_pixel_spec(bit_depth),
        )
    } else {
        crate::vp9::idct::itxfm_add_spec(
            dst,
            stride,
            coefs,
            tx,
            tx_type,
            bit_depth,
            eob_spec(coefs),
        )
    }
}

/// How a plane of a block is reconstructed.
pub struct Job<'a> {
    pub stride: usize,
    pub tx: TxSize,
    /// Side of a transform block in pixels.
    pub n: usize,
    /// Position in units of 4 pixels of the plane.
    pub col: usize,
    pub row: usize,
    /// Size in units of 4 pixels, as far as it lies in the frame.
    pub end_x: usize,
    pub end_y: usize,
    /// Whole width in units of 4 pixels.
    pub full_w: usize,
    /// Size of the plane in pixels, in whole blocks of 8x8 luma pixels.
    pub frame_w: usize,
    pub frame_h: usize,
    /// First column of the tile in pixels.
    pub tile_px: usize,
    pub intra: bool,
    pub chroma: bool,
    /// Whether each quarter has a mode of its own.
    pub quarters: bool,
    pub modes: [IntraMode; 4],
    pub skip: bool,
    pub coefs: &'a Vec<i32>,
    pub lossless: bool,
    pub bit_depth: u8,
}

/// A step in the reconstruction of a plane.
pub struct PlaneDone {
    pub buf: Seq<u8>,
    /// Coefficients that were used.
    pub used: int,
    /// Whether everything was there so far.
    pub ok: bool,
}

/// How a plane of a block is reconstructed, as values.
pub struct JobView {
    pub stride: usize,
    pub tx: TxSize,
    pub n: usize,
    pub col: usize,
    pub row: usize,
    pub end_x: usize,
    pub end_y: usize,
    pub full_w: usize,
    pub frame_w: usize,
    pub frame_h: usize,
    pub tile_px: usize,
    pub intra: bool,
    pub chroma: bool,
    pub quarters: bool,
    pub modes: Seq<IntraMode>,
    pub skip: bool,
    pub coefs: Seq<i32>,
    pub lossless: bool,
    pub bit_depth: u8,
}

impl<'a> View for Job<'a> {
    type V = JobView;

    open spec fn view(&self) -> JobView {
        JobView {
            stride: self.stride,
            tx: self.tx,
            n: self.n,
            col: self.col,
            row: self.row,
            end_x: self.end_x,
            end_y: self.end_y,
            full_w: self.full_w,
            frame_w: self.frame_w,
            frame_h: self.frame_h,
            tile_px: self.tile_px,
            intra: self.intra,
            chroma: self.chroma,
            quarters: self.quarters,
            modes: self.modes@,
            skip: self.skip,
            coefs: self.coefs@,
            lossless: self.lossless,
            bit_depth: self.bit_depth,
        }
    }
}

impl JobView {
    /// Whether the job can be computed with.
    pub open spec fn wf(self) -> bool {
        &&& 64 <= self.stride <= 65536
        &&& self.n == crate::vp9::idct::tx_side_spec(self.tx)
        &&& self.col <= 16384
        &&& self.row <= 16384
        &&& self.end_x <= 16
        &&& self.end_y <= 16
        &&& self.full_w <= 16
        &&& self.frame_w <= 65536
        &&& self.frame_h <= 65536
        &&& self.lossless ==> self.tx == TxSize::Tx4x4
        &&& 8 <= self.bit_depth <= 12
        &&& forall|i: int| 0 <= i < 4 ==> (#[trigger] self.modes[i]).code_spec() <= 9
    }

    /// Where the transform block at (`x`, `y`) lies, in units of 4 pixels.
    pub open spec fn place(self, x: int, y: int) -> Place {
        Place {
            stride: self.stride,
            px: ((self.col + x) * 4) as usize,
            py: ((self.row + y) * 4) as usize,
            frame_w: self.frame_w,
            frame_h: self.frame_h,
            tile_px: self.tile_px,
            n: self.n,
            have_right: x + self.n as int / 4 < self.full_w,
        }
    }

    /// The mode at (`x`, `y`).
    pub open spec fn mode(self, x: int, y: int) -> IntraMode {
        if self.quarters {
            if 2 * y + x > 3 {
                self.modes[3]
            } else {
                self.modes[2 * y + x]
            }
        } else {
            self.modes[0]
        }
    }

    /// The transform type at (`x`, `y`): that of the luma mode, else the cosine transform.
    pub open spec fn tx_type(self, x: int, y: int) -> TxType {
        if self.intra && !self.chroma {
            match TxType::of_code(INTRA_TXFM_TYPE@[self.mode(x, y).code_spec() as int]) {
                Ok(t) => t,
                Err(_) => TxType::DctDct,
            }
        } else {
            TxType::DctDct
        }
    }

    /// Whether a chroma block is passed over: it reaches out of the frame, or of either
    /// chroma plane.
    pub open spec fn passed_over(self, p: Place, len: int, other_len: int) -> bool {
        self.intra && self.chroma && !(p.fits(len) && p.fits(other_len) && p.px + p.n
            <= self.frame_w && p.py + p.n <= self.frame_h)
    }

    /// The prediction of the block at (`x`, `y`).
    #[verifier::opaque]
    pub open spec fn predicted(self, buf: Seq<u8>, x: int, y: int) -> Seq<u8> {
        let p = self.place(x, y);
        let off = p.py * p.stride + p.px;
        let m = crate::vp9::edges::resolved_mode(
            self.mode(x, y),
            p.have_left(),
            p.have_top(),
        );
        with_tail(
            buf,
            off,
            crate::vp9::intra_pred::intra_pred_spec(
                tail(buf, off),
                self.stride as int,
                p.edges(buf, m),
                m,
                self.bit_depth,
            ),
        )
    }

    /// The residual of the block at (`x`, `y`), which starts at the coefficient `used`.
    #[verifier::opaque]
    pub open spec fn with_residual(self, buf: Seq<u8>, used: int, x: int, y: int) -> Seq<u8> {
        let p = self.place(x, y);
        let off = p.py * p.stride + p.px;
        with_tail(
            buf,
            off,
            residual_spec(
                tail(buf, off),
                self.stride as int,
                self.coefs.subrange(used, used + self.n * self.n),
                self.tx,
                self.tx_type(x, y),
                self.lossless,
                self.bit_depth,
            ),
        )
    }

    /// The step behind the transform block at (`x`, `y`).
    pub open spec fn step(self, s: PlaneDone, other_len: int, x: int, y: int) -> PlaneDone {
        let p = self.place(x, y);
        let len = s.buf.len() as int;
        let next = s.used + self.n * self.n;
        let enough = next <= self.coefs.len();
        let coefs = self.coefs.subrange(s.used, next);
        if self.passed_over(p, len, other_len) {
            PlaneDone { used: next, ..s }
        } else if !self.skip && !enough {
            PlaneDone { ok: false, ..s }
        } else if !p.fits(len) && (self.intra || (!self.skip && eob_spec(coefs) > 0)) {
            PlaneDone { ok: false, ..s }
        } else {
            let b1 = if self.intra {
                self.predicted(s.buf, x, y)
            } else {
                s.buf
            };
            let b2 = if !self.skip && eob_spec(coefs) > 0 {
                self.with_residual(b1, s.used, x, y)
            } else {
                b1
            };
            PlaneDone { buf: b2, used: next, ok: true }
        }
    }

    /// The transform blocks from `x` on in the row at `y`.
    pub open spec fn line(self, s: PlaneDone, other_len: int, x: int, y: int) -> PlaneDone
        decreases (if x < self.end_x {
            self.end_x - x
        } else {
            0
        }),
    {
        if x >= self.end_x || !s.ok || self.n < 4 {
            s
        } else {
            self.line(self.step(s, other_len, x, y), other_len, x + self.n as int / 4, y)
        }
    }

    /// The transform blocks from the row at `y` on.
    pub open spec fn lines(self, s: PlaneDone, other_len: int, y: int) -> PlaneDone
        decreases (if y < self.end_y {
            self.end_y - y
        } else {
            0
        }),
    {
        if y >= self.end_y || !s.ok || self.n < 4 {
            s
        } else {
            self.lines(self.line(s, other_len, 0, y), other_len, y + self.n as int / 4)
        }
    }

    /// The plane behind the job, and whether everything was there.
    #[verifier::opaque]
    pub open spec fn done(self, buf: Seq<u8>, other_len: int) -> PlaneDone {
        self.lines(PlaneDone { buf, used: 0, ok: true }, other_len, 0)
    }
}

impl<'a> Job<'a> {
    fn is_passed_over(&self, p: Place, len: usize, other_len: usize) -> (r: bool)
        requires
            self@.wf(),
            p.wf(),
            p.px <= 70000,
            p.py <= 70000,
            p.stride <= 65536,
        ensures
            r == self@.passed_over(p, len as int, other_len as int),
    {
        self.intra && self.chroma && !(fits(p, len) && fits(p, other_len) && p.px + p.n
            <= self.frame_w && p.py + p.n <= self.frame_h)
    }

    /// Predicts the block at (`x`, `y`).
    fn predict(&self, plane: &mut [u8], p: Place, mode: IntraMode, Ghost(x): Ghost<int>, Ghost(y): Ghost<int>)
        requires
            self@.wf(),
            p == self@.place(x, y),
            p.wf(),
            mode == self@.mode(x, y),
            mode.code_spec() <= 9,
            p.fits(old(plane)@.len() as int),
        ensures
            final(plane)@ == self@.predicted(old(plane)@, x, y),
            final(plane)@.len() == old(plane)@.len(),
    {
        proof {
            reveal(JobView::predicted);
            lemma_offset(p, plane@.len() as int);
            assert(plane@.len() == plane.len());
        }
        let (m, above, left, corner) = prepare_intra_edges(p, plane, mode);
        let off: usize = p.py * p.stride + p.px;
        let ghost before = plane@;
        let (_, rest) = plane.split_at_mut(off);
        intra_pred(rest, p.stride, above.as_slice(), left.as_slice(), corner, m, p.n, self.bit_depth);
    }

    /// Adds the residual of the block at (`x`, `y`).
    fn add_residual(
        &self,
        plane: &mut [u8],
        p: Place,
        coefs: &[i32],
        eob: usize,
        tx_type: TxType,
        Ghost(used): Ghost<int>,
        Ghost(x): Ghost<int>,
        Ghost(y): Ghost<int>,
    )
        requires
            self@.wf(),
            p == self@.place(x, y),
            p.wf(),
            p.fits(old(plane)@.len() as int),
            0 <= used,
            used + self.n * self.n <= self.coefs@.len(),
            coefs@ == self.coefs@.subrange(used, used + self.n * self.n),
            eob == eob_spec(coefs@),
            eob > 0,
            tx_type == self@.tx_type(x, y),
        ensures
            final(plane)@ == self@.with_residual(old(plane)@, used, x, y),
            final(plane)@.len() == old(plane)@.len(),
    {
        proof {
            reveal(JobView::with_residual);
            reveal(residual_spec);
            lemma_offset(p, plane@.len() as int);
            assert(plane@.len() == plane.len());
            assert(self.n * self.n >= 16) by (nonlinear_arith)
                requires
                    self.n >= 4,
            ;
        }
        let off: usize = p.py * p.stride + p.px;
        let (_, rest) = plane.split_at_mut(off);
        if self.lossless {
            itxfm_add_lossless(rest, p.stride, coefs, self.bit_depth);
        } else {
            itxfm_add(rest, p.stride, coefs, self.tx, tx_type, self.bit_depth, eob);
        }
    }

    fn exec_place(&self, x: usize, y: usize) -> (r: Place)
        requires
            self@.wf(),
            x < 16,
            y < 16,
        ensures
            r == self@.place(x as int, y as int),
            r.wf(),
            r.px <= 70000,
            r.py <= 70000,
            r.stride <= 65536,
    {
        Place {
            stride: self.stride,
            px: (self.col + x) * 4,
            py: (self.row + y) * 4,
            frame_w: self.frame_w,
            frame_h: self.frame_h,
            tile_px: self.tile_px,
            n: self.n,
            have_right: x + self.n / 4 < self.full_w,
        }
    }

    fn exec_mode(&self, x: usize, y: usize) -> (r: IntraMode)
        requires
            self@.wf(),
            x < 16,
            y < 16,
        ensures
            r == self@.mode(x as int, y as int),
            r.code_spec() <= 9,
    {
        proof {
            assert(self.modes@[0].code_spec() <= 9 && self.modes@[1].code_spec() <= 9
                && self.modes@[2].code_spec() <= 9 && self.modes@[3].code_spec() <= 9);
        }
        if self.quarters {
            let k: usize = 2 * y + x;
            self.modes[if k > 3 { 3 } else { k }]
        } else {
            self.modes[0]
        }
    }

    fn exec_tx_type(&self, mode: IntraMode, Ghost(x): Ghost<int>, Ghost(y): Ghost<int>) -> (r: TxType)
        requires
            mode == self@.mode(x, y),
            mode.code_spec() <= 9,
        ensures
            r == self@.tx_type(x, y),
    {
        if self.intra && !self.chroma {
            match TxType::try_from(INTRA_TXFM_TYPE[mode.code() as usize]) {
                Ok(t) => t,
                Err(_) => TxType::DctDct,
            }
        } else {
            TxType::DctDct
        }
    }

    /// Reconstructs the transform block at (`x`, `y`). Returns whether everything was
    /// there.
    fn run_step(&self, plane: &mut [u8], other_len: usize, used: usize, x: usize, y: usize) -> (r: (
        usize,
        bool,
    ))
        requires
            self@.wf(),
            x < 16,
            y < 16,
            used <= 300000,
        ensures
            (PlaneDone { buf: final(plane)@, used: r.0 as int, ok: r.1 }) == self@.step(
                PlaneDone { buf: old(plane)@, used: used as int, ok: true },
                other_len as int,
                x as int,
                y as int,
            ),
            final(plane)@.len() == old(plane)@.len(),
            r.0 <= used + 1024,
    {
        let p: Place = self.exec_place(x, y);
        let len: usize = plane.len();
        proof {
            assert(self.n * self.n <= 1024) by (nonlinear_arith)
                requires
                    self.n <= 32,
            ;
        }
        let next: usize = used + self.n * self.n;
        if self.is_passed_over(p, len, other_len) {
            return (next, true);
        }
        let mode: IntraMode = self.exec_mode(x, y);
        let mut eob: usize = 0;
        if !self.skip {
            if next > self.coefs.len() {
                return (used, false);
            }
            eob = find_eob(vstd::slice::slice_subrange(self.coefs.as_slice(), used, next));
        }
        if !fits(p, len) && (self.intra || eob > 0) {
            return (used, false);
        }
        if self.intra {
            self.predict(plane, p, mode, Ghost(x as int), Ghost(y as int));
        }
        if eob > 0 {
            let coefs: &[i32] = vstd::slice::slice_subrange(self.coefs.as_slice(), used, next);
            let t: TxType = self.exec_tx_type(mode, Ghost(x as int), Ghost(y as int));
            self.add_residual(
                plane,
                p,
                coefs,
                eob,
                t,
                Ghost(used as int),
                Ghost(x as int),
                Ghost(y as int),
            );
        }
        (next, true)
    }

    /// Reconstructs the plane. Returns whether everything was there.
    pub fn run(&self, plane: &mut [u8], other_len: usize) -> (ok: bool)
        requires
            self@.wf(),
        ensures
            final(plane)@ == self@.done(old(plane)@, other_len as int).buf,
            ok == self@.done(old(plane)@, other_len as int).ok,
            final(plane)@.len() == old(plane)@.len(),
    {
        let ghost s0 = PlaneDone { buf: plane@, used: 0, ok: true };
        proof {
            reveal(JobView::done);
        }
        let len: usize = plane.len();
        let step: usize = self.n / 4;
        let mut used: usize = 0;
        let mut ok = true;
        let mut y: usize = 0;
        let mut n_rows: usize = 0;
        while y < self.end_y && ok
            invariant
                self@.wf(),
                step == self.n as int / 4,
                1 <= step <= 8,
                y <= 24,
                n_rows <= y,
                used <= n_rows * 16384,
                plane@.len() == len,
                self@.lines(
                    PlaneDone { buf: plane@, used: used as int, ok },
                    other_len as int,
                    y as int,
                ) == self@.lines(s0, other_len as int, 0),
            decreases 24 - y, (if ok {
                1int
            } else {
                0int
            }),
        {
            let ghost row0 = PlaneDone { buf: plane@, used: used as int, ok };
            let ghost used0 = used;
            let mut x: usize = 0;
            let mut n_cols: usize = 0;
            while x < self.end_x && ok
                invariant
                    self@.wf(),
                    step == self.n as int / 4,
                    1 <= step <= 8,
                    x <= 24,
                    y < 16,
                    n_cols <= x,
                    n_cols <= 16,
                    used <= used0 + n_cols * 1024,
                    used0 <= 16 * 16384,
                    plane@.len() == len,
                    self@.line(
                        PlaneDone { buf: plane@, used: used as int, ok },
                        other_len as int,
                        x as int,
                        y as int,
                    ) == self@.line(row0, other_len as int, 0, y as int),
                decreases 24 - x, (if ok {
                    1int
                } else {
                    0int
                }),
            {
                let (u, o) = self.run_step(plane, other_len, used, x, y);
                used = u;
                ok = o;
                x += step;
                n_cols += 1;
            }
            y += step;
            n_rows += 1;
        }
        ok
    }
}

/// Where a place lies in its plane.
proof fn lemma_offset(p: Place, len: int)
    requires
        p.wf(),
        p.fits(len),
    ensures
        0 <= p.py * p.stride,
        p.py * p.stride + p.px <= len,
        crate::vp9::plane::rect_fits(
            len - (p.py * p.stride + p.px),
            p.stride as int,
            p.n as int,
            p.n as int,
        ),
        crate::vp9::idct::block_fits(
            len - (p.py * p.stride + p.px),
            p.stride as int,
            p.n as int,
        ),
{
    assert(0 <= p.py * p.stride && 0 <= (p.n - 1) * p.stride) by (nonlinear_arith)
        requires
            0 <= p.py,
            0 <= p.n - 1,
            0 <= p.stride,
    ;
}

/// Whether a place lies in a plane.
fn fits(p: Place, len: usize) -> (r: bool)
    requires
        p.wf(),
        p.px <= 70000,
        p.py <= 70000,
        p.stride <= 65536,
    ensures
        r == p.fits(len as int),
{
    proof {
        assert(0 <= p.py * p.stride <= 70000 * 65536 && 0 <= (p.n - 1) * p.stride <= 31 * 65536)
            by (nonlinear_arith)
            requires
                0 <= p.py <= 70000,
                0 <= p.n - 1 <= 31,
                0 <= p.stride <= 65536,
        ;
    }
    let a: u64 = p.py as u64 * p.stride as u64 + p.px as u64;
    a + (p.n as u64 - 1) * p.stride as u64 + p.n as u64 <= len as u64
}

/// What is needed of a block and its frame to reconstruct it.
pub open spec fn recon_wf(b: BlockView, h: FrameHeader) -> bool {
    &&& b.row <= 16384
    &&& b.col <= 16384
    &&& h.width <= 65536
    &&& h.height <= 65536
    &&& 8 <= h.bit_depth <= 12
    &&& h.lossless ==> b.tx_size == TxSize::Tx4x4 && b.uv_tx_size == TxSize::Tx4x4
    &&& crate::vp9::block_modes::block_wf(b)
}

/// `v` brought down to `m`.
pub open spec fn at_most(v: int, m: int) -> int {
    if v < m {
        v
    } else {
        m
    }
}

/// `n` units of 8 pixels from `at` on, up to the end of the frame at `frame`, in units of
/// 4 pixels.
pub open spec fn end_spec(n: int, at: int, frame: int) -> int {
    at_most(
        2 * n,
        if frame > at {
            2 * (frame - at)
        } else {
            0
        },
    )
}

/// How luma is reconstructed.
pub open spec fn luma_job(
    b: BlockView,
    h: FrameHeader,
    stride: usize,
    tile_col_start: int,
    intra: bool,
) -> JobView {
    let k = b.bs.code_spec() as int;
    let cols = (h.width + 7) / 8;
    let rows = (h.height + 7) / 8;
    let w8 = BWH_TAB@[1]@[k]@[0] as int;
    let h8 = BWH_TAB@[1]@[k]@[1] as int;
    JobView {
        stride,
        tx: b.tx_size,
        n: crate::vp9::idct::tx_side_spec(b.tx_size) as usize,
        col: b.col as usize,
        row: b.row as usize,
        end_x: end_spec(w8, b.col / 2, cols) as usize,
        end_y: end_spec(h8, b.row / 2, rows) as usize,
        full_w: (2 * w8) as usize,
        frame_w: (8 * cols) as usize,
        frame_h: (8 * rows) as usize,
        tile_px: (4 * tile_col_start) as usize,
        intra,
        chroma: false,
        quarters: k > 9 && b.tx_size == TxSize::Tx4x4,
        modes: b.y_mode,
        skip: b.skip,
        coefs: b.coefs_y,
        lossless: h.lossless,
        bit_depth: h.bit_depth,
    }
}

/// How a chroma plane is reconstructed.
pub open spec fn chroma_job(
    b: BlockView,
    h: FrameHeader,
    stride: usize,
    tile_col_start: int,
    intra: bool,
    coefs: Seq<i32>,
) -> JobView {
    let k = b.bs.code_spec() as int;
    let y = luma_job(b, h, stride, tile_col_start, intra);
    let ex = crate::vp9::block_coefs::halved(y.end_x as int, h.subsampling_x);
    let ey = crate::vp9::block_coefs::halved(y.end_y as int, h.subsampling_y);
    JobView {
        stride,
        tx: b.uv_tx_size,
        n: crate::vp9::idct::tx_side_spec(b.uv_tx_size) as usize,
        col: crate::vp9::block_coefs::halved(b.col, h.subsampling_x) as usize,
        row: crate::vp9::block_coefs::halved(b.row, h.subsampling_y) as usize,
        end_x: if intra {
            ex as usize
        } else {
            at_most(BWH_TAB@[1]@[k]@[0] as int, ex) as usize
        },
        end_y: if intra {
            ey as usize
        } else {
            at_most(BWH_TAB@[1]@[k]@[1] as int, ey) as usize
        },
        full_w: crate::vp9::block_coefs::halved(y.full_w as int, h.subsampling_x) as usize,
        frame_w: crate::vp9::block_coefs::halved(y.frame_w as int, h.subsampling_x) as usize,
        frame_h: crate::vp9::block_coefs::halved(y.frame_h as int, h.subsampling_y) as usize,
        tile_px: crate::vp9::block_coefs::halved(y.tile_px as int, h.subsampling_x) as usize,
        chroma: true,
        quarters: false,
        modes: crate::vp9::context::fill(b.uv_mode, 4),
        coefs,
        ..y
    }
}

/// A frame behind a reconstruction, and whether everything was there.
pub struct FrameDone {
    pub fb: FbView,
    pub ok: bool,
}

/// The planes of a frame are reconstructed one behind the other, as long as everything is
/// there.
pub open spec fn jobs_spec(fb: FbView, y: JobView, u: JobView, v: JobView) -> FrameDone {
    let a = y.done(fb.y, 0);
    let b = u.done(fb.u, fb.v.len() as int);
    let c = v.done(fb.v, fb.u.len() as int);
    if !a.ok {
        FrameDone { fb: FbView { y: a.buf, ..fb }, ok: false }
    } else if !b.ok {
        FrameDone { fb: FbView { y: a.buf, u: b.buf, ..fb }, ok: false }
    } else {
        FrameDone { fb: FbView { y: a.buf, u: b.buf, v: c.buf, ..fb }, ok: c.ok }
    }
}

fn run_jobs(fb: &mut FrameBuffer, y: &Job, u: &Job, v: &Job) -> (ok: bool)
    requires
        y@.wf(),
        u@.wf(),
        v@.wf(),
    ensures
        (FrameDone { fb: final(fb)@, ok }) == jobs_spec(old(fb)@, y@, u@, v@),
        same_shape(final(fb)@, old(fb)@),
{
    if !y.run(fb.y.as_mut_slice(), 0) {
        return false;
    }
    let v_len: usize = fb.v.len();
    if !u.run(fb.u.as_mut_slice(), v_len) {
        return false;
    }
    let u_len: usize = fb.u.len();
    v.run(fb.v.as_mut_slice(), u_len)
}

fn at_most_of(v: usize, m: usize) -> (r: usize)
    ensures
        r == at_most(v as int, m as int),
{
    if v < m {
        v
    } else {
        m
    }
}

fn side_of(tx: TxSize) -> (r: usize)
    ensures
        r == crate::vp9::idct::tx_side_spec(tx),
{
    match tx {
        TxSize::Tx4x4 => 4,
        TxSize::Tx8x8 => 8,
        TxSize::Tx16x16 => 16,
        TxSize::Tx32x32 => 32,
    }
}

fn halve(v: usize, half: bool) -> (r: usize)
    ensures
        r == crate::vp9::block_coefs::halved(v as int, half),
        r <= v,
{
    if half {
        v / 2
    } else {
        v
    }
}

fn make_luma_job<'a>(
    b: &'a BlockInfo,
    h: &FrameHeader,
    stride: usize,
    tile_col_start: usize,
    intra: bool,
) -> (r: Job<'a>)
    requires
        recon_wf(b@, *h),
        64 <= stride <= 65536,
        tile_col_start <= 16384,
    ensures
        r@ == luma_job(b@, *h, stride, tile_col_start as int, intra),
        r@.wf(),
{
    let k: usize = b.bs.code() as usize;
    let cols: usize = (h.width as usize + 7) / 8;
    let rows: usize = (h.height as usize + 7) / 8;
    let w8: usize = BWH_TAB[1][k][0] as usize;
    let h8: usize = BWH_TAB[1][k][1] as usize;
    let col8: usize = b.col / 2;
    let row8: usize = b.row / 2;
    let left: usize = if cols > col8 { 2 * (cols - col8) } else { 0 };
    let down: usize = if rows > row8 { 2 * (rows - row8) } else { 0 };
    proof {
        assert forall|i: int| 0 <= i < 4 implies (#[trigger] b.y_mode@[i]).code_spec() <= 9 by {
            assert(b@.y_mode[i] == b.y_mode@[i]);
        }
    }
    Job {
        stride,
        tx: b.tx_size,
        n: side_of(b.tx_size),
        col: b.col,
        row: b.row,
        end_x: at_most_of(2 * w8, left),
        end_y: at_most_of(2 * h8, down),
        full_w: 2 * w8,
        frame_w: 8 * cols,
        frame_h: 8 * rows,
        tile_px: 4 * tile_col_start,
        intra,
        chroma: false,
        quarters: k > 9 && b.tx_size == TxSize::Tx4x4,
        modes: b.y_mode,
        skip: b.skip,
        coefs: &b.coefs_y,
        lossless: h.lossless,
        bit_depth: h.bit_depth,
    }
}

fn make_chroma_job<'a>(
    b: &'a BlockInfo,
    h: &FrameHeader,
    stride: usize,
    tile_col_start: usize,
    intra: bool,
    coefs: &'a Vec<i32>,
) -> (r: Job<'a>)
    requires
        recon_wf(b@, *h),
        64 <= stride <= 65536,
        tile_col_start <= 16384,
    ensures
        r@ == chroma_job(b@, *h, stride, tile_col_start as int, intra, coefs@),
        r@.wf(),
{
    let k: usize = b.bs.code() as usize;
    let y: Job = make_luma_job(b, h, stride, tile_col_start, intra);
    let ex: usize = halve(y.end_x, h.subsampling_x);
    let ey: usize = halve(y.end_y, h.subsampling_y);
    let modes: [IntraMode; 4] = [b.uv_mode, b.uv_mode, b.uv_mode, b.uv_mode];
    assert(modes@ =~= crate::vp9::context::fill(b.uv_mode, 4));
    Job {
        stride,
        tx: b.uv_tx_size,
        n: side_of(b.uv_tx_size),
        col: halve(b.col, h.subsampling_x),
        row: halve(b.row, h.subsampling_y),
        end_x: if intra {
            ex
        } else {
            at_most_of(BWH_TAB[1][k][0] as usize, ex)
        },
        end_y: if intra {
            ey
        } else {
            at_most_of(BWH_TAB[1][k][1] as usize, ey)
        },
        full_w: halve(y.full_w, h.subsampling_x),
        frame_w: halve(y.frame_w, h.subsampling_x),
        frame_h: halve(y.frame_h, h.subsampling_y),
        tile_px: halve(y.tile_px, h.subsampling_x),
        intra,
        chroma: true,
        quarters: false,
        modes,
        skip: b.skip,
        coefs,
        lossless: h.lossless,
        bit_depth: h.bit_depth,
    }
}

/// A frame behind the reconstruction of an intra block.
pub open spec fn intra_block_spec(
    fb: FbView,
    b: BlockView,
    h: FrameHeader,
    tile_col_start: int,
) -> FrameDone {
    jobs_spec(
        fb,
        luma_job(b, h, fb.y_stride as usize, tile_col_start, true),
        chroma_job(b, h, fb.uv_stride as usize, tile_col_start, true, b.coefs_u),
        chroma_job(b, h, fb.uv_stride as usize, tile_col_start, true, b.coefs_v),
    )
}

/// Reconstructs an intra block: each transform block is predicted from the pixels around
/// it, and its residual added. A chroma block that reaches out of the frame is passed
/// over. Where a transform block lies outside of the luma plane, or has no coefficients,
/// the data is invalid.
pub fn reconstruct_intra_block(
    fb: &mut FrameBuffer,
    block: &BlockInfo,
    header: &FrameHeader,
    tile_col_start: usize,
) -> (r: Result<(), Error>)
    requires
        old(fb).wf(),
        recon_wf(block@, *header),
        tile_col_start <= 16384,
    ensures
        ({
            let d = intra_block_spec(old(fb)@, block@, *header, tile_col_start as int);
            &&& final(fb)@ == d.fb
            &&& r is Ok <==> d.ok
            &&& r matches Err(e) ==> e == Error::InvalidData
        }),
        same_shape(final(fb)@, old(fb)@),
{
    let y: Job = make_luma_job(block, header, fb.y_stride, tile_col_start, true);
    let u: Job = make_chroma_job(block, header, fb.uv_stride, tile_col_start, true, &block.coefs_u);
    let v: Job = make_chroma_job(block, header, fb.uv_stride, tile_col_start, true, &block.coefs_v);
    if run_jobs(fb, &y, &u, &v) {
        Ok(())
    } else {
        Err(Error::InvalidData)
    }
}

/// A frame behind the reconstruction of an inter block.
pub open spec fn inter_block_spec(
    fb: FbView,
    b: BlockView,
    h: FrameHeader,
    slots: Seq<Option<Arc<RefFrame>>>,
    subpel: [[[i16; 8]; 16]; 4],
) -> FrameDone {
    if !crate::vp9::inter_pred::predictable(
        fb,
        b,
        slots,
        h.ref_idx@,
        h.subsampling_x,
        h.subsampling_y,
    ) {
        FrameDone { fb, ok: false }
    } else {
        let p = crate::vp9::inter_pred::inter_pred_spec(
            fb,
            b,
            slots,
            h.ref_idx@,
            h.subsampling_x,
            h.subsampling_y,
            subpel,
        );
        if b.skip {
            FrameDone { fb: p, ok: true }
        } else {
            jobs_spec(
                p,
                luma_job(b, h, fb.y_stride as usize, 0, false),
                chroma_job(b, h, fb.uv_stride as usize, 0, false, b.coefs_u),
                chroma_job(b, h, fb.uv_stride as usize, 0, false, b.coefs_v),
            )
        }
    }
}

/// Reconstructs an inter block: it is predicted from its references, and the residual is
/// added. Where it or a reference lies outside of a plane, or coefficients are missing,
/// the data is invalid.
pub fn reconstruct_inter_block(
    fb: &mut FrameBuffer,
    block: &BlockInfo,
    header: &FrameHeader,
    ref_slots: &[Option<Arc<RefFrame>>; 8],
    subpel: &[[[i16; 8]; 16]; 4],
) -> (r: Result<(), Error>)
    requires
        old(fb).wf(),
        recon_wf(block@, *header),
        block.is_inter,
        forall|i: int| 0 <= i < 3 ==> #[trigger] header.ref_idx@[i] < 8,
    ensures
        ({
            let d = inter_block_spec(old(fb)@, block@, *header, ref_slots@, *subpel);
            &&& final(fb)@ == d.fb
            &&& r is Ok <==> d.ok
            &&& r matches Err(e) ==> e == Error::InvalidData
        }),
        same_shape(final(fb)@, old(fb)@),
{
    proof {
        assert(block@.ref_frame == block.ref_frame@);
    }
    if !can_predict(
        fb,
        block,
        ref_slots,
        &header.ref_idx,
        header.subsampling_x,
        header.subsampling_y,
    ) {
        return Err(Error::InvalidData);
    }
    inter_pred(
        fb,
        block,
        ref_slots,
        &header.ref_idx,
        header.subsampling_x,
        header.subsampling_y,
        subpel,
    );
    if block.skip {
        return Ok(());
    }
    let y: Job = make_luma_job(block, header, fb.y_stride, 0, false);
    let u: Job = make_chroma_job(block, header, fb.uv_stride, 0, false, &block.coefs_u);
    let v: Job = make_chroma_job(block, header, fb.uv_stride, 0, false, &block.coefs_v);
    if run_jobs(fb, &y, &u, &v) {
        Ok(())
    } else {
        Err(Error::InvalidData)
    }
}

impl JobView {
    /// How many coefficients the transform blocks from `x` on in a row have.
    pub open spec fn line_coefs(self, x: int) -> int
        decreases (if x < self.end_x {
            self.end_x - x
        } else {
            0
        }),
    {
        if x >= self.end_x || self.n < 4 {
            0
        } else {
            self.n * self.n + self.line_coefs(x + self.n as int / 4)
        }
    }

    /// How many coefficients the transform blocks from the row at `y` on have.
    pub open spec fn lines_coefs(self, y: int) -> int
        decreases (if y < self.end_y {
            self.end_y - y
        } else {
            0
        }),
    {
        if y >= self.end_y || self.n < 4 {
            0
        } else {
            self.line_coefs(0) + self.lines_coefs(y + self.n as int / 4)
        }
    }

    /// Whether the coefficients of every transform block are there, and are all zero.
    pub open spec fn is_empty(self) -> bool {
        &&& self.lines_coefs(0) <= self.coefs.len()
        &&& forall|i: int| 0 <= i < self.coefs.len() ==> #[trigger] self.coefs[i] == 0
    }

    proof fn lemma_empty_line(self, s: PlaneDone, other_len: int, x: int, y: int)
        requires
            !self.intra,
            s.ok,
            0 <= s.used,
            s.used + self.line_coefs(x) <= self.coefs.len(),
            forall|i: int| 0 <= i < self.coefs.len() ==> #[trigger] self.coefs[i] == 0,
        ensures
            self.line(s, other_len, x, y) == (PlaneDone {
                used: s.used + self.line_coefs(x),
                ..s
            }),
            self.line_coefs(x) >= 0,
        decreases (if x < self.end_x {
            self.end_x - x
        } else {
            0
        }),
    {
        if x < self.end_x && self.n >= 4 {
            let next = s.used + self.n * self.n;
            assert(self.n * self.n >= 0) by (nonlinear_arith);
            self.lemma_line_coefs(x + self.n as int / 4);
            lemma_eob_of_zeros(self.coefs.subrange(s.used, next));
            let t = self.step(s, other_len, x, y);
            assert(t == (PlaneDone { used: next, ..s }));
            self.lemma_empty_line(t, other_len, x + self.n as int / 4, y);
        }
    }

    proof fn lemma_line_coefs(self, x: int)
        ensures
            self.line_coefs(x) >= 0,
        decreases (if x < self.end_x {
            self.end_x - x
        } else {
            0
        }),
    {
        if x < self.end_x && self.n >= 4 {
            assert(self.n * self.n >= 0) by (nonlinear_arith);
            self.lemma_line_coefs(x + self.n as int / 4);
        }
    }

    proof fn lemma_lines_coefs(self, y: int)
        ensures
            self.lines_coefs(y) >= 0,
        decreases (if y < self.end_y {
            self.end_y - y
        } else {
            0
        }),
    {
        if y < self.end_y && self.n >= 4 {
            self.lemma_line_coefs(0);
            self.lemma_lines_coefs(y + self.n as int / 4);
        }
    }

    proof fn lemma_empty_lines(self, s: PlaneDone, other_len: int, y: int)
        requires
            !self.intra,
            s.ok,
            0 <= s.used,
            s.used + self.lines_coefs(y) <= self.coefs.len(),
            forall|i: int| 0 <= i < self.coefs.len() ==> #[trigger] self.coefs[i] == 0,
        ensures
            self.lines(s, other_len, y).ok,
            self.lines(s, other_len, y).buf == s.buf,
        decreases (if y < self.end_y {
            self.end_y - y
        } else {
            0
        }),
    {
        if y < self.end_y && self.n >= 4 {
            self.lemma_lines_coefs(y + self.n as int / 4);
            self.lemma_empty_line(s, other_len, 0, y);
            self.lemma_empty_lines(
                self.line(s, other_len, 0, y),
                other_len,
                y + self.n as int / 4,
            );
        }
    }
}

proof fn lemma_eob_of_zeros(c: Seq<i32>)
    requires
        forall|i: int| 0 <= i < c.len() ==> #[trigger] c[i] == 0,
    ensures
        eob_spec(c) == 0,
    decreases c.len(),
{
    if c.len() > 0 {
        lemma_eob_of_zeros(c.drop_last());
    }
}

/// A skipped inter block becomes what the same block becomes where its residual is coded and all zero:
/// its prediction.
pub proof fn law_skipped_block_has_no_residual(
    fb: FbView,
    skipped: BlockView,
    b: BlockView,
    h: FrameHeader,
    slots: Seq<Option<Arc<RefFrame>>>,
    subpel: [[[i16; 8]; 16]; 4],
)
    requires
        !b.skip,
        skipped == (BlockView {
            skip: true,
            coefs_y: skipped.coefs_y,
            coefs_u: skipped.coefs_u,
            coefs_v: skipped.coefs_v,
            ..b
        }),
        luma_job(b, h, fb.y_stride as usize, 0, false).is_empty(),
        chroma_job(b, h, fb.uv_stride as usize, 0, false, b.coefs_u).is_empty(),
        chroma_job(b, h, fb.uv_stride as usize, 0, false, b.coefs_v).is_empty(),
    ensures
        inter_block_spec(fb, skipped, h, slots, subpel) == inter_block_spec(fb, b, h, slots, subpel),
        crate::vp9::inter_pred::predictable(
            fb,
            b,
            slots,
            h.ref_idx@,
            h.subsampling_x,
            h.subsampling_y,
        ) ==> inter_block_spec(fb, b, h, slots, subpel) == (FrameDone {
            fb: crate::vp9::inter_pred::inter_pred_spec(
                fb,
                b,
                slots,
                h.ref_idx@,
                h.subsampling_x,
                h.subsampling_y,
                subpel,
            ),
            ok: true,
        }),
{
    reveal(crate::vp9::mc::first_spec);
    reveal(crate::vp9::mc::second_spec);
    reveal(JobView::done);
    let p = crate::vp9::inter_pred::inter_pred_spec(
        fb,
        b,
        slots,
        h.ref_idx@,
        h.subsampling_x,
        h.subsampling_y,
        subpel,
    );
    let y = luma_job(b, h, fb.y_stride as usize, 0, false);
    let u = chroma_job(b, h, fb.uv_stride as usize, 0, false, b.coefs_u);
    let v = chroma_job(b, h, fb.uv_stride as usize, 0, false, b.coefs_v);
    y.lemma_empty_lines(PlaneDone { buf: p.y, used: 0, ok: true }, 0, 0);
    u.lemma_empty_lines(PlaneDone { buf: p.u, used: 0, ok: true }, p.v.len() as int, 0);
    v.lemma_empty_lines(PlaneDone { buf: p.v, used: 0, ok: true }, p.u.len() as int, 0);
}

} // verus!

//! Reading of transform coefficients.
use vstd::prelude::*;

use crate::vp9::bool_decoder::{BoolDecoder, Rac};
use crate::vp9::context::fill_range;
use crate::vp9::data::{Scan, Tables, INTRA_TXFM_TYPE};
use crate::vp9::prob::bump3;
use crate::vp9::types::{IntraMode, TxSize};

verus! {

/// Probabilities of the extra bits of the tokens that have some, from the highest bit.
pub const CAT1: [u8; 1] = [159];

pub const CAT2: [u8; 2] = [165, 145];

pub const CAT3: [u8; 3] = [173, 148, 140];

pub const CAT4: [u8; 4] = [176, 155, 140, 135];

pub const CAT5: [u8; 5] = [180, 157, 141, 134, 130];

pub const CAT6: [u8; 14] = [254, 254, 254, 252, 249, 243, 230, 196, 177, 153, 140, 133, 130, 129];

/// Side of a transform in units of 4 pixels.
pub open spec fn step_spec(tx: TxSize) -> int {
    match tx {
        TxSize::Tx4x4 => 1,
        TxSize::Tx8x8 => 2,
        TxSize::Tx16x16 => 4,
        TxSize::Tx32x32 => 8,
    }
}

/// Side of a transform in units of 4 pixels.
pub fn tx_step(tx: TxSize) -> (r: usize)
    ensures
        r == step_spec(tx),
        1 <= r <= 8,
{
    match tx {
        TxSize::Tx4x4 => 1,
        TxSize::Tx8x8 => 2,
        TxSize::Tx16x16 => 4,
        TxSize::Tx32x32 => 8,
    }
}

/// Number of coefficients of a transform.
pub open spec fn n_coef_spec(tx: TxSize) -> int {
    match tx {
        TxSize::Tx4x4 => 16,
        TxSize::Tx8x8 => 64,
        TxSize::Tx16x16 => 256,
        TxSize::Tx32x32 => 1024,
    }
}

/// Number of coefficients of a transform.
pub fn n_coef(tx: TxSize) -> (r: usize)
    ensures
        r == n_coef_spec(tx),
        16 <= r <= 1024,
{
    match tx {
        TxSize::Tx4x4 => 16,
        TxSize::Tx8x8 => 64,
        TxSize::Tx16x16 => 256,
        TxSize::Tx32x32 => 1024,
    }
}

/// The band of the coefficient number `i` in the order of a transform: 1, 2, 3 and 4
/// coefficients, then 3 in the smallest transform and 11 in the others, then the rest.
pub open spec fn band_spec(tx: TxSize, i: int) -> int {
    if i < 1 {
        0
    } else if i < 3 {
        1
    } else if i < 6 {
        2
    } else if i < 10 {
        3
    } else if i < (if tx == TxSize::Tx4x4 {
        13int
    } else {
        21int
    }) {
        4
    } else {
        5
    }
}

fn band_of(tx: TxSize, i: usize) -> (r: usize)
    ensures
        r == band_spec(tx, i as int),
        r <= 5,
{
    let end: usize = if tx == TxSize::Tx4x4 { 13 } else { 21 };
    if i < 1 {
        0
    } else if i < 3 {
        1
    } else if i < 6 {
        2
    } else if i < 10 {
        3
    } else if i < end {
        4
    } else {
        5
    }
}

/// The eleven probabilities of a token: the three that are coded, and those that
/// follow from the third.
pub open spec fn expanded(p3: Seq<u8>, pareto8: Seq<[u8; 8]>) -> Seq<u8> {
    Seq::new(11, |k: int| if k < 3 { p3[k] } else { pareto8[p3[2] as int]@[k - 3] })
}

/// Completes the probabilities of a token.
fn expand_coef_prob(p3: &[u8; 3], pareto8: &[[u8; 8]; 256]) -> (r: [u8; 11])
    ensures
        r@ == expanded(p3@, pareto8@),
{
    let q: &[u8; 8] = &pareto8[p3[2] as usize];
    let r: [u8; 11] = [p3[0], p3[1], p3[2], q[0], q[1], q[2], q[3], q[4], q[5], q[6], q[7]];
    assert(r@ =~= expanded(p3@, pareto8@));
    r
}

/// The number that the next `k` bits give, and the decoder behind them.
pub open spec fn extra_spec(rac: Rac, probs: Seq<u8>, k: int) -> (int, Rac)
    decreases k,
{
    if k <= 0 {
        (0, rac)
    } else {
        let (v, r) = extra_spec(rac, probs, k - 1);
        (2 * v + if r.bit(probs[k - 1]) {
            1int
        } else {
            0
        }, r.after(probs[k - 1]))
    }
}

fn read_extra(bd: &mut BoolDecoder, probs: &[u8]) -> (r: i32)
    requires
        old(bd)@.wf(),
        probs@.len() <= 14,
    ensures
        final(bd)@.wf(),
        final(bd)@.data == old(bd)@.data,
        (r as int, final(bd)@) == extra_spec(old(bd)@, probs@, probs@.len() as int),
        0 <= r < 16384,
{
    proof {
        reveal_with_fuel(crate::vp9::mvs::weight, 15);
    }
    let ghost rac = bd@;
    let mut v: i32 = 0;
    let mut k: usize = 0;
    while k < probs.len()
        invariant
            k <= probs@.len() <= 14,
            rac == old(bd)@,
            bd@.wf(),
            bd@.data == rac.data,
            (v as int, bd@) == extra_spec(rac, probs@, k as int),
            0 <= v < crate::vp9::mvs::weight(k as int) <= 16384,
        decreases probs@.len() - k,
    {
        proof {
            reveal_with_fuel(crate::vp9::mvs::weight, 16);
        }
        let b = bd.get_prob(probs[k]);
        v = 2 * v + if b { 1 } else { 0 };
        k += 1;
        assert(crate::vp9::mvs::weight(k as int) == 2 * crate::vp9::mvs::weight(k - 1));
    }
    v
}

/// A coefficient's magnitude, its class for the contexts behind it, and the decoder
/// behind it.
pub struct Token {
    pub value: int,
    pub class: u8,
    pub rac: Rac,
}

/// A token with extra bits.
pub open spec fn cat_spec(rac: Rac, probs: Seq<u8>, base: int, class: u8) -> Token {
    let (v, r) = extra_spec(rac, probs, probs.len() as int);
    Token { value: base + v, class, rac: r }
}

/// The magnitude of a coefficient that is not zero.
#[verifier::opaque]
pub open spec fn token_spec(rac: Rac, tp: Seq<u8>) -> Token {
    let r1 = rac.after(tp[2]);
    let r2 = r1.after(tp[3]);
    if !rac.bit(tp[2]) {
        Token { value: 1, class: 1, rac: r1 }
    } else if !r1.bit(tp[3]) {
        let r3 = r2.after(tp[4]);
        if !r2.bit(tp[4]) {
            Token { value: 2, class: 2, rac: r3 }
        } else {
            Token {
                value: if r3.bit(tp[5]) {
                    4
                } else {
                    3
                },
                class: 3,
                rac: r3.after(tp[5]),
            }
        }
    } else {
        let r3 = r2.after(tp[6]);
        if !r2.bit(tp[6]) {
            let r4 = r3.after(tp[7]);
            if !r3.bit(tp[7]) {
                cat_spec(r4, CAT1@, 5, 4)
            } else {
                cat_spec(r4, CAT2@, 7, 4)
            }
        } else {
            let r4 = r3.after(tp[8]);
            if !r3.bit(tp[8]) {
                let r5 = r4.after(tp[9]);
                if !r4.bit(tp[9]) {
                    cat_spec(r5, CAT3@, 11, 5)
                } else {
                    cat_spec(r5, CAT4@, 19, 5)
                }
            } else {
                let r5 = r4.after(tp[10]);
                if !r4.bit(tp[10]) {
                    cat_spec(r5, CAT5@, 35, 5)
                } else {
                    cat_spec(r5, CAT6@, 67, 5)
                }
            }
        }
    }
}

/// Reads the magnitude of a coefficient that is not zero, and its class.
fn read_token(bd: &mut BoolDecoder, tp: &[u8; 11]) -> (r: (i32, u8))
    requires
        old(bd)@.wf(),
    ensures
        final(bd)@.wf(),
        final(bd)@.data == old(bd)@.data,
        r.0 == token_spec(old(bd)@, tp@).value,
        r.1 == token_spec(old(bd)@, tp@).class,
        final(bd)@ == token_spec(old(bd)@, tp@).rac,
        1 <= r.0 <= 16450,
        1 <= r.1 <= 5,
{
    proof {
        reveal(token_spec);
    }
    if !bd.get_prob(tp[2]) {
        (1, 1)
    } else if !bd.get_prob(tp[3]) {
        if !bd.get_prob(tp[4]) {
            (2, 2)
        } else if bd.get_prob(tp[5]) {
            (4, 3)
        } else {
            (3, 3)
        }
    } else if !bd.get_prob(tp[6]) {
        if !bd.get_prob(tp[7]) {
            (5 + read_extra(bd, &CAT1), 4)
        } else {
            (7 + read_extra(bd, &CAT2), 4)
        }
    } else if !bd.get_prob(tp[8]) {
        if !bd.get_prob(tp[9]) {
            (11 + read_extra(bd, &CAT3), 5)
        } else {
            (19 + read_extra(bd, &CAT4), 5)
        }
    } else if !bd.get_prob(tp[10]) {
        (35 + read_extra(bd, &CAT5), 5)
    } else {
        (67 + read_extra(bd, &CAT6), 5)
    }
}

/// Half of `v`, towards zero.
pub open spec fn half_spec(v: int) -> int {
    if v < 0 {
        -((-v) / 2)
    } else {
        v / 2
    }
}

fn half(v: i32) -> (r: i32)
    requires
        v > i32::MIN,
    ensures
        r == half_spec(v as int),
{
    if v < 0 {
        -((-v) / 2)
    } else {
        v / 2
    }
}

/// How a transform block is coded.
pub struct BlockCoding {
    pub tx: TxSize,
    /// Whether the coefficients count half.
    pub tx32: bool,
    /// Probabilities by band and context.
    pub probs: [[[u8; 3]; 6]; 6],
    pub scan: Scan,
    pub pareto8: [[u8; 8]; 256],
    /// Quantizer step of the first coefficient.
    pub dc: i16,
    /// Quantizer step of the others.
    pub ac: i16,
}

/// A step in reading a transform block.
pub struct BlockRead {
    pub rac: Rac,
    pub coef: Seq<i32>,
    /// Class of each coefficient.
    pub cache: Seq<u8>,
    pub cnt: Seq<Seq<Seq<u32>>>,
    pub eob: Seq<Seq<Seq<u32>>>,
    /// Context of the next coefficient.
    pub nnz: int,
    /// Coefficients so far.
    pub i: int,
}

/// `v`, but not above 5.
pub open spec fn min5(v: int) -> int {
    if v > 5 {
        5
    } else {
        v
    }
}

/// The class of a coefficient, where it exists.
pub open spec fn class_at(cache: Seq<u8>, k: int) -> int {
    if 0 <= k < cache.len() {
        cache[k] as int
    } else {
        0
    }
}

/// The context behind the coefficient number `i`: the rounded mean of the classes of
/// its two neighbours.
pub open spec fn next_nnz(cache: Seq<u8>, scan: Scan, i: int) -> int {
    let nb = scan.neighbors@;
    let n0 = if i < nb.len() {
        nb[i]@[0] as int
    } else {
        0
    };
    let n1 = if i < nb.len() {
        nb[i]@[1] as int
    } else {
        0
    };
    min5((1 + class_at(cache, n0) + class_at(cache, n1)) / 2)
}

impl BlockCoding {
    /// The probabilities at a step.
    pub open spec fn tp(self, s: BlockRead) -> Seq<u8> {
        expanded(self.probs@[band_spec(self.tx, s.i)]@[s.nnz]@, self.pareto8@)
    }

    /// Whether the block goes on at a step.
    pub open spec fn goes_on(self, s: BlockRead) -> bool {
        s.rac.bit(self.tp(s)[0])
    }

    /// The step behind the question whether the block goes on.
    pub open spec fn after_eob(self, s: BlockRead) -> BlockRead {
        BlockRead {
            rac: s.rac.after(self.tp(s)[0]),
            eob: crate::vp9::prob::bump3_spec(
                s.eob,
                band_spec(self.tx, s.i),
                s.nnz,
                if self.goes_on(s) {
                    1
                } else {
                    0
                },
            ),
            ..s
        }
    }

    /// Whether the next coefficient is zero.
    pub open spec fn is_zero(self, s: BlockRead) -> bool {
        !s.rac.bit(self.tp(s)[1])
    }

    /// The step behind a coefficient that is zero.
    pub open spec fn after_zero(self, s: BlockRead) -> BlockRead {
        let cache = s.cache.update(self.scan.order@[s.i] as int, 0);
        BlockRead {
            rac: s.rac.after(self.tp(s)[1]),
            cnt: crate::vp9::prob::bump3_spec(s.cnt, band_spec(self.tx, s.i), s.nnz, 0),
            cache,
            nnz: next_nnz(cache, self.scan, s.i),
            i: s.i + 1,
            ..s
        }
    }

    /// A coefficient times its quantizer step, in 16 bits.
    pub open spec fn dequantized(self, value: int, negative: bool, i: int) -> i32 {
        let v = (if negative {
            -value
        } else {
            value
        }) * (if i == 0 {
            self.dc
        } else {
            self.ac
        });
        let w = if self.tx32 {
            half_spec(v)
        } else {
            v
        };
        ((w as i32) as i16) as i32
    }

    /// The step behind a coefficient that is not zero.
    pub open spec fn after_value(self, s: BlockRead) -> BlockRead {
        let rc = self.scan.order@[s.i] as int;
        let t = token_spec(s.rac.after(self.tp(s)[1]), self.tp(s));
        let cache = s.cache.update(rc, t.class);
        BlockRead {
            rac: t.rac.after(128),
            cnt: crate::vp9::prob::bump3_spec(
                s.cnt,
                band_spec(self.tx, s.i),
                s.nnz,
                if t.class == 1 {
                    1
                } else {
                    2
                },
            ),
            cache,
            coef: s.coef.update(rc, self.dequantized(t.value, t.rac.bit(128), s.i)),
            nnz: next_nnz(cache, self.scan, s.i),
            i: s.i + 1,
            ..s
        }
    }

    /// A transform block is read to its end. The question whether it goes on is asked
    /// at its start and behind each coefficient that is not zero.
    pub open spec fn run(self, s: BlockRead, ask: bool) -> BlockRead
        decreases n_coef_spec(self.tx) - s.i,
    {
        if s.i >= n_coef_spec(self.tx) {
            s
        } else if ask && !self.goes_on(s) {
            self.after_eob(s)
        } else {
            let t = if ask {
                self.after_eob(s)
            } else {
                s
            };
            if self.is_zero(t) {
                self.run(self.after_zero(t), false)
            } else {
                self.run(self.after_value(t), true)
            }
        }
    }

    /// The start of a transform block.
    pub open spec fn start(
        self,
        rac: Rac,
        nnz: int,
        cnt: Seq<Seq<Seq<u32>>>,
        eob: Seq<Seq<Seq<u32>>>,
    ) -> BlockRead {
        BlockRead {
            rac,
            coef: Seq::new(n_coef_spec(self.tx) as nat, |i: int| 0i32),
            cache: Seq::new(1024, |i: int| 0u8),
            cnt,
            eob,
            nnz: min5(nnz),
            i: 0,
        }
    }
}

fn cached(cache: &[u8; 1024], k: i16) -> (r: u32)
    ensures
        r == class_at(cache@, k as int),
        r <= 255,
{
    if k >= 0 && (k as usize) < 1024 {
        cache[k as usize] as u32
    } else {
        0
    }
}

fn neighbor_context(cache: &[u8; 1024], scan: &Scan, i: usize) -> (r: usize)
    ensures
        r == next_nnz(cache@, *scan, i as int),
        r <= 5,
{
    let n0: i16 = if i < scan.neighbors.len() { scan.neighbors[i][0] } else { 0 };
    let n1: i16 = if i < scan.neighbors.len() { scan.neighbors[i][1] } else { 0 };
    let v: u32 = (1 + cached(cache, n0) + cached(cache, n1)) / 2;
    if v > 5 {
        5
    } else {
        v as usize
    }
}

/// Reads a transform block. Returns its coefficients and how many were coded.
fn decode_coeffs_block(
    bd: &mut BoolDecoder,
    tx: TxSize,
    is_tx32x32: bool,
    p: &[[[u8; 3]; 6]; 6],
    nnz: usize,
    scan: &Scan,
    pareto8: &[[u8; 8]; 256],
    qmul_dc: i16,
    qmul_ac: i16,
    cnt: &mut [[[u32; 3]; 6]; 6],
    eob_cnt: &mut [[[u32; 2]; 6]; 6],
    Ghost(e): Ghost<BlockCoding>,
) -> (r: (Vec<i32>, usize))
    requires
        old(bd)@.wf(),
        scan.wf(n_coef_spec(tx)),
        e == (BlockCoding {
            tx,
            tx32: is_tx32x32,
            probs: *p,
            scan: *scan,
            pareto8: *pareto8,
            dc: qmul_dc,
            ac: qmul_ac,
        }),
    ensures
        final(bd)@.wf(),
        final(bd)@.data == old(bd)@.data,
        ({
            let t = e.run(
                e.start(old(bd)@, nnz as int, old(cnt).deep_view(), old(eob_cnt).deep_view()),
                true,
            );
            &&& final(bd)@ == t.rac
            &&& final(cnt).deep_view() == t.cnt
            &&& final(eob_cnt).deep_view() == t.eob
            &&& r.0@ == t.coef
            &&& r.1 == t.i
        }),
        r.0@.len() == n_coef_spec(tx),
{
    let n: usize = n_coef(tx);
    let mut coef: Vec<i32> = vec![0i32; n];
    let mut cache: [u8; 1024] = [0u8; 1024];
    let mut ctx: usize = if nnz > 5 { 5 } else { nnz };
    let mut i: usize = 0;
    let mut ask = true;
    let mut done = false;
    let ghost s0 = e.start(bd@, nnz as int, cnt.deep_view(), eob_cnt.deep_view());
    let ghost data = bd@.data;
    let ghost mut s = s0;
    proof {
        assert(coef@ =~= s0.coef);
        assert(cache@ =~= s0.cache);
    }
    while i < n && !done
        invariant
            n == n_coef_spec(tx),
            16 <= n <= 1024,
            i <= n,
            ctx <= 5,
            bd@.wf(),
            bd@.data == data,
            coef@.len() == n,
            scan.wf(n_coef_spec(tx)),
            e == (BlockCoding {
                tx,
                tx32: is_tx32x32,
                probs: *p,
                scan: *scan,
                pareto8: *pareto8,
                dc: qmul_dc,
                ac: qmul_ac,
            }),
            s == (BlockRead {
                rac: bd@,
                coef: coef@,
                cache: cache@,
                cnt: cnt.deep_view(),
                eob: eob_cnt.deep_view(),
                nnz: ctx as int,
                i: i as int,
            }),
            (if done {
                s
            } else {
                e.run(s, ask)
            }) == e.run(s0, true),
        decreases n - i, (if done {
            0int
        } else {
            1int
        }),
    {
        let band: usize = band_of(tx, i);
        let tp: [u8; 11] = expand_coef_prob(&p[band][ctx], pareto8);
        assert(tp@ == e.tp(s));
        let mut more = true;
        let ghost before = s;
        if ask {
            more = bd.get_prob(tp[0]);
            bump3(eob_cnt, band, ctx, if more { 1 } else { 0 });
            proof {
                s = e.after_eob(before);
                assert(e.tp(s) == e.tp(before));
            }
        }
        if !more {
            done = true;
        } else if !bd.get_prob(tp[1]) {
            let rc: usize = scan.order[i] as usize;
            bump3(cnt, band, ctx, 0);
            cache[rc] = 0;
            ctx = neighbor_context(&cache, scan, i);
            i += 1;
            ask = false;
            proof {
                s = e.after_zero(s);
            }
        } else {
            let rc: usize = scan.order[i] as usize;
            let ghost r1 = bd@;
            let (val, class) = read_token(bd, &tp);
            bump3(cnt, band, ctx, if class == 1 { 1 } else { 2 });
            cache[rc] = class;
            let sign = bd.get();
            let signed: i32 = if sign { -val } else { val };
            let q: i32 = (if i == 0 { qmul_dc } else { qmul_ac }) as i32;
            proof {
                assert(-536_870_912 * 2 < signed * q < 536_870_912 * 2) by (nonlinear_arith)
                    requires
                        -16450 <= signed <= 16450,
                        -32768 <= q <= 32767,
                ;
            }
            let prod: i32 = signed * q;
            let deq: i32 = if is_tx32x32 { half(prod) } else { prod };
            coef[rc] = deq as i16 as i32;
            ctx = neighbor_context(&cache, scan, i);
            i += 1;
            ask = true;
            proof {
                s = e.after_value(s);
                assert(coef@ == s.coef);
            }
        }
    }
    (coef, i)
}

/// The scan of a transform: by columns or rows where only one direction has the sine
/// transform. The largest transform, and the lossless one (4), have a single scan.
pub open spec fn scan_spec(t: Tables, tx_idx: int, txtp: int) -> Scan {
    if tx_idx == 4 {
        t.default_4x4
    } else if tx_idx == 0 {
        if txtp == 1 {
            t.col_4x4
        } else if txtp == 2 {
            t.row_4x4
        } else {
            t.default_4x4
        }
    } else if tx_idx == 1 {
        if txtp == 1 {
            t.col_8x8
        } else if txtp == 2 {
            t.row_8x8
        } else {
            t.default_8x8
        }
    } else if tx_idx == 2 {
        if txtp == 1 {
            t.col_16x16
        } else if txtp == 2 {
            t.row_16x16
        } else {
            t.default_16x16
        }
    } else {
        t.default_32x32
    }
}

fn select_scan_y(t: &Tables, tx_idx: usize, txtp: usize) -> (r: &Scan)
    ensures
        *r == scan_spec(*t, tx_idx as int, txtp as int),
{
    match tx_idx {
        4 => &t.default_4x4,
        0 => match txtp {
            1 => &t.col_4x4,
            2 => &t.row_4x4,
            _ => &t.default_4x4,
        },
        1 => match txtp {
            1 => &t.col_8x8,
            2 => &t.row_8x8,
            _ => &t.default_8x8,
        },
        2 => match txtp {
            1 => &t.col_16x16,
            2 => &t.row_16x16,
            _ => &t.default_16x16,
        },
        _ => &t.default_32x32,
    }
}

/// Whether one of the entries from `from` up to `to` is set.
pub open spec fn any_set(ctx: Seq<u8>, from: int, to: int) -> bool {
    exists|j: int| from <= j < to && #[trigger] ctx[j] != 0
}

/// Contexts for transforms of `step` entries: the first entry of each group, as far
/// as it lies before `end`, tells whether any of the group is set.
pub open spec fn merged(ctx: Seq<u8>, end: int, step: int) -> Seq<u8> {
    Seq::new(
        ctx.len(),
        |i: int|
            if step >= 2 && i < end && i % step == 0 && i + step <= ctx.len() {
                if any_set(ctx, i, i + step) {
                    1u8
                } else {
                    0u8
                }
            } else {
                ctx[i]
            },
    )
}

/// Merges the contexts of groups of `step` entries.
fn merge_ctx(ctx: &mut Vec<u8>, end: usize, step: usize)
    requires
        step <= 8,
        old(ctx)@.len() + 8 <= usize::MAX,
    ensures
        final(ctx)@ == merged(old(ctx)@, end as int, step as int),
{
    let ghost c0 = ctx@;
    if step < 2 {
        assert(ctx@ =~= merged(c0, end as int, step as int));
        return ;
    }
    let len: usize = ctx.len();
    let last: usize = if end < len { end } else { len };
    let mut n: usize = 0;
    while n < last
        invariant
            2 <= step <= 8,
            c0 == old(ctx)@,
            len == ctx@.len() == c0.len(),
            len + 8 <= usize::MAX,
            last <= len,
            last == end || last == len,
            last <= end,
            n % step == 0,
            n <= last + 8,
            forall|i: int| n <= i < len ==> ctx@[i] == c0[i],
            forall|i: int|
                0 <= i < n && i < len ==> ctx@[i] == merged(c0, end as int, step as int)[i],
        decreases last + 8 - n,
    {
        if n + step <= len {
            let mut any = false;
            let mut j: usize = n;
            while j < n + step
                invariant
                    n <= j <= n + step <= len,
                    len == ctx@.len() == c0.len(),
                    forall|i: int| n <= i < len ==> ctx@[i] == c0[i],
                    any == any_set(c0, n as int, j as int),
                decreases n + step - j,
            {
                if ctx[j] != 0 {
                    any = true;
                    assert(c0[j as int] != 0);
                }
                j += 1;
            }
            ctx[n] = if any { 1 } else { 0 };
        }
        let ghost m = n as int;
        n += step;
        proof {
            assert(n % step == 0) by {
                vstd::arithmetic::div_mod::lemma_mod_add_multiples_vanish(m, step as int);
            }
            assert forall|i: int| m <= i < n && i < len implies ctx@[i] == merged(
                c0,
                end as int,
                step as int,
            )[i] by {
                if i > m {
                    lemma_between_multiples(m, i, step as int);
                }
            }
        }
    }
    proof {
        assert forall|i: int| 0 <= i < len implies ctx@[i] == merged(
            c0,
            end as int,
            step as int,
        )[i] by {
        }
        assert(ctx@ =~= merged(c0, end as int, step as int));
    }
}

/// There is no multiple of `d` strictly between two that follow each other.
proof fn lemma_between_multiples(m: int, i: int, d: int)
    requires
        d > 0,
        m % d == 0,
        m < i < m + d,
    ensures
        i % d != 0,
{
    vstd::arithmetic::div_mod::lemma_fundamental_div_mod(m, d);
    vstd::arithmetic::mul::lemma_mul_is_commutative(d, m / d);
    vstd::arithmetic::div_mod::lemma_fundamental_div_mod_converse(i, d, m / d, i - m);
}

/// How the transform blocks of a plane are coded.
pub struct PlaneCoding {
    pub tx: TxSize,
    pub lossless: bool,
    pub probs: [[[u8; 3]; 6]; 6],
    pub tables: Tables,
    pub dc: i16,
    pub ac: i16,
    /// Size in units of 4 pixels, as far as it lies in the frame.
    pub end_x: int,
    pub end_y: int,
    /// Whether the cosine transform is used throughout.
    pub dct_only: bool,
    /// Whether each quarter has a mode of its own.
    pub quarters: bool,
    pub modes: Seq<IntraMode>,
}

/// A step in reading the transform blocks of a plane.
pub struct PlaneRead {
    pub rac: Rac,
    pub cnt: Seq<Seq<Seq<u32>>>,
    pub eob: Seq<Seq<Seq<u32>>>,
    /// Whether there are coefficients above, by column, and on the left, by row.
    pub a: Seq<u8>,
    pub l: Seq<u8>,
    pub coefs: Seq<i32>,
}

/// The entry of a context, or `d` where it does not exist.
pub open spec fn at_or(s: Seq<u8>, i: int, d: u8) -> u8 {
    if 0 <= i < s.len() {
        s[i]
    } else {
        d
    }
}

/// The entry of a context, or `d` where it does not exist.
pub fn get_or(s: &[u8], i: usize, d: u8) -> (r: u8)
    ensures
        r == at_or(s@, i as int, d),
{
    if i < s.len() {
        s[i]
    } else {
        d
    }
}

impl PlaneCoding {
    /// Whether the scans of the tables belong to the transform.
    pub open spec fn wf(self) -> bool {
        &&& self.tables.wf()
        &&& self.lossless ==> self.tx == TxSize::Tx4x4
        &&& self.modes.len() == 4
    }

    /// The transform type at a position.
    pub open spec fn txtp(self, x: int, y: int) -> int {
        if self.dct_only {
            0
        } else {
            let step = step_spec(self.tx);
            let n = (y / step) * (self.end_x / step) + x / step;
            let k = if !self.quarters {
                0
            } else if n > 3 {
                3
            } else {
                n
            };
            let c = self.modes[k].code_spec();
            if c < 14 {
                INTRA_TXFM_TYPE@[c as int] as int
            } else {
                0
            }
        }
    }

    /// The coding of the transform block at a position.
    pub open spec fn block(self, x: int, y: int) -> BlockCoding {
        BlockCoding {
            tx: self.tx,
            tx32: self.tx == TxSize::Tx32x32 && !self.lossless,
            probs: self.probs,
            scan: scan_spec(
                self.tables,
                if self.lossless {
                    4
                } else {
                    self.tx.code_spec() as int
                },
                self.txtp(x, y),
            ),
            pareto8: self.tables.pareto8,
            dc: self.dc,
            ac: self.ac,
        }
    }

    /// The step behind the transform block at a position.
    pub open spec fn after_block(self, s: PlaneRead, x: int, y: int) -> PlaneRead {
        let e = self.block(x, y);
        let t = e.run(e.start(s.rac, at_or(s.a, x, 0) + at_or(s.l, y, 0), s.cnt, s.eob), true);
        let coded: u8 = if t.i > 0 {
            1
        } else {
            0
        };
        let step = step_spec(self.tx);
        PlaneRead {
            rac: t.rac,
            cnt: t.cnt,
            eob: t.eob,
            a: crate::vp9::context::splat(s.a, x, x + step, coded),
            l: crate::vp9::context::splat(s.l, y, y + step, coded),
            coefs: s.coefs + t.coef,
        }
    }

    /// The transform blocks from `x` on in the row at `y`.
    pub open spec fn row(self, s: PlaneRead, x: int, y: int) -> PlaneRead
        decreases (if x < self.end_x {
            self.end_x - x
        } else {
            0
        }),
    {
        if x >= self.end_x {
            s
        } else {
            self.row(self.after_block(s, x, y), x + step_spec(self.tx), y)
        }
    }

    /// The transform blocks from the row at `y` on.
    pub open spec fn rows(self, s: PlaneRead, y: int) -> PlaneRead
        decreases (if y < self.end_y {
            self.end_y - y
        } else {
            0
        }),
    {
        if y >= self.end_y {
            s
        } else {
            self.rows(self.row(s, 0, y), y + step_spec(self.tx))
        }
    }

    /// All the transform blocks of a plane.
    #[verifier::opaque]
    pub open spec fn all(self, s: PlaneRead) -> PlaneRead {
        let step = step_spec(self.tx);
        self.rows(
            PlaneRead {
                a: merged(s.a, self.end_x, step),
                l: merged(s.l, self.end_y, step),
                ..s
            },
            0,
        )
    }
}

/// Whether every entry is zero or one.
pub open spec fn flags(s: Seq<u8>) -> bool {
    forall|i: int| 0 <= i < s.len() ==> #[trigger] s[i] <= 1
}

fn splat_val(ctx: &mut Vec<u8>, off: usize, val: u8, step: usize)
    requires
        step <= 8,
        off + 8 <= usize::MAX,
    ensures
        final(ctx)@ == crate::vp9::context::splat(old(ctx)@, off as int, off + step, val),
{
    let len: usize = ctx.len();
    let end: usize = if off + step < len { off + step } else { len };
    let ghost c0 = ctx@;
    fill_range(ctx.as_mut_slice(), off, end, val);
    assert(ctx@ =~= crate::vp9::context::splat(c0, off as int, off + step, val));
}

/// Reads the transform block at a position of a plane.
fn decode_plane_block(
    bd: &mut BoolDecoder,
    tx: TxSize,
    lossless: bool,
    p: &[[[u8; 3]; 6]; 6],
    tables: &Tables,
    dc: i16,
    ac: i16,
    end_x: usize,
    dct_only: bool,
    quarters: bool,
    modes: &[IntraMode; 4],
    x: usize,
    y: usize,
    a: &mut Vec<u8>,
    l: &mut Vec<u8>,
    cnt: &mut [[[u32; 3]; 6]; 6],
    eob: &mut [[[u32; 2]; 6]; 6],
    coefs: &mut Vec<i32>,
    Ghost(e): Ghost<PlaneCoding>,
)
    requires
        old(bd)@.wf(),
        x < 16,
        y < 16,
        end_x <= 16,
        flags(old(a)@),
        flags(old(l)@),
        e.wf(),
        e.tx == tx,
        e.lossless == lossless,
        e.probs == *p,
        e.tables == *tables,
        e.dc == dc,
        e.ac == ac,
        e.end_x == end_x,
        e.dct_only == dct_only,
        e.quarters == quarters,
        e.modes == modes@,
    ensures
        final(bd)@.wf(),
        final(bd)@.data == old(bd)@.data,
        flags(final(a)@),
        flags(final(l)@),
        final(a)@.len() == old(a)@.len(),
        final(l)@.len() == old(l)@.len(),
        (PlaneRead {
            rac: final(bd)@,
            cnt: final(cnt).deep_view(),
            eob: final(eob).deep_view(),
            a: final(a)@,
            l: final(l)@,
            coefs: final(coefs)@,
        }) == e.after_block(
            PlaneRead {
                rac: old(bd)@,
                cnt: old(cnt).deep_view(),
                eob: old(eob).deep_view(),
                a: old(a)@,
                l: old(l)@,
                coefs: old(coefs)@,
            },
            x as int,
            y as int,
        ),
{
    let step: usize = tx_step(tx);
    let txtp: usize = if dct_only {
        0
    } else {
        proof {
            assert(0 <= y / step <= 15 && 0 <= end_x / step <= 16 && 0 <= x / step <= 15)
                by (nonlinear_arith)
                requires
                    step >= 1,
                    x < 16,
                    y < 16,
                    end_x <= 16,
            ;
            assert(0 <= (y / step) * (end_x / step) <= 240) by (nonlinear_arith)
                requires
                    0 <= y / step <= 15,
                    0 <= end_x / step <= 16,
            ;
        }
        let n: usize = (y / step) * (end_x / step) + x / step;
        let k: usize = if !quarters {
            0
        } else if n > 3 {
            3
        } else {
            n
        };
        let c: u8 = modes[k].code();
        if c < 14 {
            INTRA_TXFM_TYPE[c as usize] as usize
        } else {
            0
        }
    };
    assert(txtp == e.txtp(x as int, y as int));
    let tx_idx: usize = if lossless { 4 } else { tx.code() as usize };
    let scan: &Scan = select_scan_y(tables, tx_idx, txtp);
    let nnz: usize = get_or(a.as_slice(), x, 0) as usize + get_or(l.as_slice(), y, 0) as usize;
    let ghost b = e.block(x as int, y as int);
    let (mut txb, got) = decode_coeffs_block(
        bd,
        tx,
        tx == TxSize::Tx32x32 && !lossless,
        p,
        nnz,
        scan,
        &tables.pareto8,
        dc,
        ac,
        cnt,
        eob,
        Ghost(b),
    );
    let coded: u8 = if got > 0 { 1 } else { 0 };
    splat_val(a, x, coded, step);
    splat_val(l, y, coded, step);
    coefs.append(&mut txb);
}

/// Reads the transform blocks of a plane. `a` and `l` hold the contexts above and on
/// the left.
pub fn decode_plane(
    bd: &mut BoolDecoder,
    tx: TxSize,
    lossless: bool,
    p: &[[[u8; 3]; 6]; 6],
    tables: &Tables,
    dc: i16,
    ac: i16,
    end_x: usize,
    end_y: usize,
    dct_only: bool,
    quarters: bool,
    modes: &[IntraMode; 4],
    a: &mut Vec<u8>,
    l: &mut Vec<u8>,
    cnt: &mut [[[u32; 3]; 6]; 6],
    eob: &mut [[[u32; 2]; 6]; 6],
) -> (coefs: Vec<i32>)
    requires
        old(bd)@.wf(),
        end_x <= 16,
        end_y <= 16,
        old(a)@.len() <= 16,
        old(l)@.len() <= 16,
        flags(old(a)@),
        flags(old(l)@),
        tables.wf(),
        lossless ==> tx == TxSize::Tx4x4,
    ensures
        final(bd)@.wf(),
        final(bd)@.data == old(bd)@.data,
        flags(final(a)@),
        flags(final(l)@),
        final(a)@.len() == old(a)@.len(),
        final(l)@.len() == old(l)@.len(),
        (PlaneRead {
            rac: final(bd)@,
            cnt: final(cnt).deep_view(),
            eob: final(eob).deep_view(),
            a: final(a)@,
            l: final(l)@,
            coefs: coefs@,
        }) == (PlaneCoding {
            tx,
            lossless,
            probs: *p,
            tables: *tables,
            dc,
            ac,
            end_x: end_x as int,
            end_y: end_y as int,
            dct_only,
            quarters,
            modes: modes@,
        }).all(
            PlaneRead {
                rac: old(bd)@,
                cnt: old(cnt).deep_view(),
                eob: old(eob).deep_view(),
                a: old(a)@,
                l: old(l)@,
                coefs: Seq::empty(),
            },
        ),
{
    let ghost e = PlaneCoding {
        tx,
        lossless,
        probs: *p,
        tables: *tables,
        dc,
        ac,
        end_x: end_x as int,
        end_y: end_y as int,
        dct_only,
        quarters,
        modes: modes@,
    };
    let step: usize = tx_step(tx);
    let ghost start = PlaneRead {
        rac: bd@,
        cnt: cnt.deep_view(),
        eob: eob.deep_view(),
        a: a@,
        l: l@,
        coefs: Seq::empty(),
    };
    merge_ctx(a, end_x, step);
    merge_ctx(l, end_y, step);
    let mut coefs: Vec<i32> = Vec::new();
    let ghost s0 = PlaneRead { a: a@, l: l@, ..start };
    proof {
        reveal(PlaneCoding::all);
        assert(e.all(start) == e.rows(s0, 0));
        assert(coefs@ =~= Seq::<i32>::empty());
    }
    let ghost mut s = s0;
    let ghost data = bd@.data;
    let ghost na = a@.len();
    let ghost nl = l@.len();
    let mut y: usize = 0;
    while y < end_y
        invariant
            y <= 16 + 8,
            end_x <= 16,
            end_y <= 16,
            step == step_spec(tx),
            1 <= step <= 8,
            bd@.wf(),
            bd@.data == data,
            flags(a@),
            flags(l@),
            a@.len() == na,
            l@.len() == nl,
            e.wf(),
            e == (PlaneCoding {
                tx,
                lossless,
                probs: *p,
                tables: *tables,
                dc,
                ac,
                end_x: end_x as int,
                end_y: end_y as int,
                dct_only,
                quarters,
                modes: modes@,
            }),
            s == (PlaneRead {
                rac: bd@,
                cnt: cnt.deep_view(),
                eob: eob.deep_view(),
                a: a@,
                l: l@,
                coefs: coefs@,
            }),
            e.rows(s, y as int) == e.rows(s0, 0),
        decreases 24 - y,
    {
        let ghost row0 = s;
        let mut x: usize = 0;
        while x < end_x
            invariant
                x <= 16 + 8,
                y < 16,
                end_x <= 16,
                end_y <= 16,
                step == step_spec(tx),
                1 <= step <= 8,
                bd@.wf(),
                bd@.data == data,
                flags(a@),
                flags(l@),
                a@.len() == na,
                l@.len() == nl,
                e.wf(),
                e == (PlaneCoding {
                    tx,
                    lossless,
                    probs: *p,
                    tables: *tables,
                    dc,
                    ac,
                    end_x: end_x as int,
                    end_y: end_y as int,
                    dct_only,
                    quarters,
                    modes: modes@,
                }),
                s == (PlaneRead {
                    rac: bd@,
                    cnt: cnt.deep_view(),
                    eob: eob.deep_view(),
                    a: a@,
                    l: l@,
                    coefs: coefs@,
                }),
                e.row(s, x as int, y as int) == e.row(row0, 0, y as int),
            decreases 24 - x,
        {
            decode_plane_block(
                bd,
                tx,
                lossless,
                p,
                tables,
                dc,
                ac,
                end_x,
                dct_only,
                quarters,
                modes,
                x,
                y,
                a,
                l,
                cnt,
                eob,
                &mut coefs,
                Ghost(e),
            );
            proof {
                s = e.after_block(s, x as int, y as int);
            }
            x += step;
        }
        y += step;
    }
    coefs
}

} // verus!

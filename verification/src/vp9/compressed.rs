//! The compressed part of a frame header: updates of the probabilities.
use vstd::prelude::*;

use crate::vp9::bool_decoder::{BoolDecoder, Rac};
use crate::vp9::header::TxMode;
use crate::vp9::prob::CoefProbArray;
use crate::vp9::types::{MvCompProbs, ProbContext};

verus! {

/// The probabilities of a motion vector component, as values.
#[verifier::ext_equal]
pub struct MvCompView {
    pub sign: u8,
    pub classes: Seq<u8>,
    pub class0: u8,
    pub bits: Seq<u8>,
    pub class0_fp: Seq<Seq<u8>>,
    pub fp: Seq<u8>,
    pub class0_hp: u8,
    pub hp: u8,
}

impl View for MvCompProbs {
    type V = MvCompView;

    open spec fn view(&self) -> MvCompView {
        MvCompView {
            sign: self.sign,
            classes: self.classes@,
            class0: self.class0,
            bits: self.bits@,
            class0_fp: self.class0_fp.deep_view(),
            fp: self.fp@,
            class0_hp: self.class0_hp,
            hp: self.hp,
        }
    }
}

/// The probabilities of a frame, as values.
#[verifier::ext_equal]
pub struct ProbView {
    pub y_mode: Seq<Seq<u8>>,
    pub uv_mode: Seq<Seq<u8>>,
    pub filter: Seq<Seq<u8>>,
    pub mv_mode: Seq<Seq<u8>>,
    pub intra: Seq<u8>,
    pub comp: Seq<u8>,
    pub single_ref: Seq<Seq<u8>>,
    pub comp_ref: Seq<u8>,
    pub tx32p: Seq<Seq<u8>>,
    pub tx16p: Seq<Seq<u8>>,
    pub tx8p: Seq<u8>,
    pub skip: Seq<u8>,
    pub mv_joint: Seq<u8>,
    pub mv_comp: Seq<MvCompView>,
    pub partition: Seq<Seq<Seq<Seq<u8>>>>,
}

impl View for ProbContext {
    type V = ProbView;

    open spec fn view(&self) -> ProbView {
        ProbView {
            y_mode: self.y_mode.deep_view(),
            uv_mode: self.uv_mode.deep_view(),
            filter: self.filter.deep_view(),
            mv_mode: self.mv_mode.deep_view(),
            intra: self.intra@,
            comp: self.comp@,
            single_ref: self.single_ref.deep_view(),
            comp_ref: self.comp_ref@,
            tx32p: self.tx32p.deep_view(),
            tx16p: self.tx16p.deep_view(),
            tx8p: self.tx8p@,
            skip: self.skip@,
            mv_joint: self.mv_joint@,
            mv_comp: Seq::new(2, |i: int| self.mv_comp@[i]@),
            partition: self.partition.deep_view(),
        }
    }
}

/// Applies `f` to the first `k` values of `xs`, each with the state that the one
/// before left.
pub open spec fn sweep<T>(
    s: Rac,
    xs: Seq<T>,
    k: int,
    f: spec_fn(int, Rac, T) -> (T, Rac),
) -> (Seq<T>, Rac)
    decreases k,
{
    if k <= 0 {
        (xs, s)
    } else {
        let (ys, t) = sweep(s, xs, k - 1, f);
        let (y, u) = f(k - 1, t, ys[k - 1]);
        (ys.update(k - 1, y), u)
    }
}

/// Order in which the coded difference of a probability stands for its value.
pub const INV_MAP_TABLE: [u8; 255] = [
    7, 20, 33, 46, 59, 72, 85, 98, 111, 124, 137, 150, 163, 176, 189, 202, 215, 228, 241, 254, 1,
    2, 3, 4, 5, 6, 8, 9, 10, 11, 12, 13, 14, 15, 16, 17, 18, 19, 21, 22, 23, 24, 25, 26, 27, 28,
    29, 30, 31, 32, 34, 35, 36, 37, 38, 39, 40, 41, 42, 43, 44, 45, 47, 48, 49, 50, 51, 52, 53, 54,
    55, 56, 57, 58, 60, 61, 62, 63, 64, 65, 66, 67, 68, 69, 70, 71, 73, 74, 75, 76, 77, 78, 79, 80,
    81, 82, 83, 84, 86, 87, 88, 89, 90, 91, 92, 93, 94, 95, 96, 97, 99, 100, 101, 102, 103, 104,
    105, 106, 107, 108, 109, 110, 112, 113, 114, 115, 116, 117, 118, 119, 120, 121, 122, 123, 125,
    126, 127, 128, 129, 130, 131, 132, 133, 134, 135, 136, 138, 139, 140, 141, 142, 143, 144, 145,
    146, 147, 148, 149, 151, 152, 153, 154, 155, 156, 157, 158, 159, 160, 161, 162, 164, 165, 166,
    167, 168, 169, 170, 171, 172, 173, 174, 175, 177, 178, 179, 180, 181, 182, 183, 184, 185, 186,
    187, 188, 190, 191, 192, 193, 194, 195, 196, 197, 198, 199, 200, 201, 203, 204, 205, 206, 207,
    208, 209, 210, 211, 212, 213, 214, 216, 217, 218, 219, 220, 221, 222, 223, 224, 225, 226, 227,
    229, 230, 231, 232, 233, 234, 235, 236, 237, 238, 239, 240, 242, 243, 244, 245, 246, 247, 248,
    249, 250, 251, 252, 253, 253,
];

/// `v` moved back to where it stood before it was folded around `m`.
pub open spec fn inv_recenter_spec(v: int, m: int) -> int {
    if v > 2 * m {
        v
    } else if v % 2 == 1 {
        m - (v + 1) / 2
    } else {
        m + v / 2
    }
}

fn inv_recenter_nonneg(v: i32, m: i32) -> (r: i32)
    requires
        0 <= v <= 255,
        -1 <= m <= 127,
    ensures
        r == inv_recenter_spec(v as int, m as int),
        -300 <= r <= 300,
{
    if v > 2 * m {
        v
    } else if v % 2 == 1 {
        m - (v + 1) / 2
    } else {
        m + v / 2
    }
}

/// The index of a coded difference, and the state behind it.
pub open spec fn diff_index(s: Rac) -> (int, Rac) {
    let s1 = s.after(128);
    let s2 = s1.after(128);
    let s3 = s2.after(128);
    if !s.bit(128) {
        (s1.uint(4) as int, s1.after_uint(4))
    } else if !s1.bit(128) {
        (s2.uint(4) + 16, s2.after_uint(4))
    } else if !s2.bit(128) {
        (s3.uint(5) + 32, s3.after_uint(5))
    } else {
        let v = s3.uint(7);
        let s4 = s3.after_uint(7);
        if v >= 65 {
            (2 * v - 65 + (if s4.bit(128) { 1int } else { 0int }) + 64, s4.after(128))
        } else {
            (v + 64, s4)
        }
    }
}

/// The new value of the probability `p`, and the state behind it.
pub open spec fn update_prob_spec(s: Rac, p: u8) -> (u8, Rac) {
    let (d, t) = diff_index(s);
    let mapped = INV_MAP_TABLE@[d] as int;
    let v = if p <= 128 {
        1 + inv_recenter_spec(mapped, p - 1)
    } else {
        255 - inv_recenter_spec(mapped, 255 - p)
    };
    (v as u8, t)
}

/// Reads a new value for the probability `p`.
fn update_prob(bd: &mut BoolDecoder<'_>, p: u8) -> (r: u8)
    requires
        old(bd)@.wf(),
    ensures
        final(bd)@.wf(),
        final(bd)@.data == old(bd)@.data,
        (r, final(bd)@) == update_prob_spec(old(bd)@, p),
{
    assert(1u32 << 4u32 == 16 && 1u32 << 5u32 == 32 && 1u32 << 7u32 == 128) by (bit_vector);
    let d: u32 = if !bd.get() {
        bd.get_uint(4)
    } else if !bd.get() {
        bd.get_uint(4) + 16
    } else if !bd.get() {
        bd.get_uint(5) + 32
    } else {
        let mut v: u32 = bd.get_uint(7);
        if v >= 65 {
            let b = bd.get();
            v = 2 * v - 65 + (if b { 1u32 } else { 0u32 });
        }
        v + 64
    };
    let mapped: i32 = INV_MAP_TABLE[d as usize] as i32;
    let pi: i32 = p as i32;
    let v: i32 = if pi <= 128 {
        1 + inv_recenter_nonneg(mapped, pi - 1)
    } else {
        255 - inv_recenter_nonneg(mapped, 255 - pi)
    };
    v as u8
}

/// A probability that is updated where a flag says so.
pub open spec fn diff_one(s: Rac, p: u8) -> (u8, Rac) {
    if s.bit(252) {
        update_prob_spec(s.after(252), p)
    } else {
        (p, s.after(252))
    }
}

/// Probabilities that are updated in order.
pub open spec fn diff_seq(s: Rac, xs: Seq<u8>) -> (Seq<u8>, Rac) {
    sweep(s, xs, xs.len() as int, |i: int, s: Rac, p: u8| diff_one(s, p))
}

/// Rows of probabilities that are updated in order.
pub open spec fn diff_rows(s: Rac, xs: Seq<Seq<u8>>) -> (Seq<Seq<u8>>, Rac) {
    sweep(s, xs, xs.len() as int, |i: int, s: Rac, row: Seq<u8>| diff_seq(s, row))
}

/// Updates probabilities in order.
fn update_probs(bd: &mut BoolDecoder<'_>, xs: &mut [u8])
    requires
        old(bd)@.wf(),
    ensures
        final(bd)@.wf(),
        final(bd)@.data == old(bd)@.data,
        (final(xs)@, final(bd)@) == diff_seq(old(bd)@, old(xs)@),
        final(xs)@.len() == old(xs)@.len(),
{
    let ghost f = |i: int, s: Rac, p: u8| diff_one(s, p);
    let ghost s0 = bd@;
    let ghost x0 = xs@;
    let mut i: usize = 0;
    while i < xs.len()
        invariant
            i <= xs@.len(),
            xs@.len() == x0.len(),
            bd@.wf(),
            bd@.data == s0.data,
            f == (|i: int, s: Rac, p: u8| diff_one(s, p)),
            (xs@, bd@) == sweep(s0, x0, i as int, f),
        decreases xs@.len() - i,
    {
        let ghost before = xs@;
        let p: u8 = xs[i];
        if bd.get_prob(252) {
            xs[i] = update_prob(bd, p);
        } else {
            assert(before.update(i as int, p) =~= before);
        }
        i += 1;
    }
}

/// Updates rows of probabilities in order.
fn update_rows<const N: usize, const M: usize>(bd: &mut BoolDecoder<'_>, xs: &mut [[u8; N]; M])
    requires
        old(bd)@.wf(),
    ensures
        final(bd)@.wf(),
        final(bd)@.data == old(bd)@.data,
        (final(xs).deep_view(), final(bd)@) == diff_rows(old(bd)@, old(xs).deep_view()),
{
    let ghost f = |i: int, s: Rac, row: Seq<u8>| diff_seq(s, row);
    let ghost s0 = bd@;
    let ghost x0 = xs.deep_view();
    let mut i: usize = 0;
    while i < M
        invariant
            i <= M,
            bd@.wf(),
            bd@.data == s0.data,
            f == (|i: int, s: Rac, row: Seq<u8>| diff_seq(s, row)),
            (xs.deep_view(), bd@) == sweep(s0, x0, i as int, f),
        decreases M - i,
    {
        let ghost before = xs.deep_view();
        assert(xs@[i as int].deep_view() =~= xs@[i as int]@);
        update_probs(bd, &mut xs[i]);
        assert(xs@[i as int].deep_view() =~= xs@[i as int]@);
        assert(xs.deep_view() =~= before.update(i as int, xs@[i as int].deep_view()));
        i += 1;
    }
}

/// A motion vector probability that is replaced where a flag says so.
pub open spec fn mv_one(s: Rac, p: u8) -> (u8, Rac) {
    let t = s.after(252);
    if s.bit(252) {
        ((t.uint(7) << 1) as u8 | 1, t.after_uint(7))
    } else {
        (p, t)
    }
}

/// Motion vector probabilities that are replaced in order.
pub open spec fn mv_seq(s: Rac, xs: Seq<u8>) -> (Seq<u8>, Rac) {
    sweep(s, xs, xs.len() as int, |i: int, s: Rac, p: u8| mv_one(s, p))
}

/// Rows of motion vector probabilities that are replaced in order.
pub open spec fn mv_rows(s: Rac, xs: Seq<Seq<u8>>) -> (Seq<Seq<u8>>, Rac) {
    sweep(s, xs, xs.len() as int, |i: int, s: Rac, row: Seq<u8>| mv_seq(s, row))
}

fn update_mv_prob(bd: &mut BoolDecoder<'_>, p: u8) -> (r: u8)
    requires
        old(bd)@.wf(),
    ensures
        final(bd)@.wf(),
        final(bd)@.data == old(bd)@.data,
        (r, final(bd)@) == mv_one(old(bd)@, p),
{
    if bd.get_prob(252) {
        let v: u32 = bd.get_uint(7);
        (v << 1) as u8 | 1
    } else {
        p
    }
}

fn update_mv_probs(bd: &mut BoolDecoder<'_>, xs: &mut [u8])
    requires
        old(bd)@.wf(),
    ensures
        final(bd)@.wf(),
        final(bd)@.data == old(bd)@.data,
        (final(xs)@, final(bd)@) == mv_seq(old(bd)@, old(xs)@),
        final(xs)@.len() == old(xs)@.len(),
{
    let ghost f = |i: int, s: Rac, p: u8| mv_one(s, p);
    let ghost s0 = bd@;
    let ghost x0 = xs@;
    let mut i: usize = 0;
    while i < xs.len()
        invariant
            i <= xs@.len(),
            xs@.len() == x0.len(),
            bd@.wf(),
            bd@.data == s0.data,
            f == (|i: int, s: Rac, p: u8| mv_one(s, p)),
            (xs@, bd@) == sweep(s0, x0, i as int, f),
        decreases xs@.len() - i,
    {
        let p: u8 = xs[i];
        xs[i] = update_mv_prob(bd, p);
        i += 1;
    }
}

fn update_mv_rows<const N: usize, const M: usize>(bd: &mut BoolDecoder<'_>, xs: &mut [[u8; N]; M])
    requires
        old(bd)@.wf(),
    ensures
        final(bd)@.wf(),
        final(bd)@.data == old(bd)@.data,
        (final(xs).deep_view(), final(bd)@) == mv_rows(old(bd)@, old(xs).deep_view()),
{
    let ghost f = |i: int, s: Rac, row: Seq<u8>| mv_seq(s, row);
    let ghost s0 = bd@;
    let ghost x0 = xs.deep_view();
    let mut i: usize = 0;
    while i < M
        invariant
            i <= M,
            bd@.wf(),
            bd@.data == s0.data,
            f == (|i: int, s: Rac, row: Seq<u8>| mv_seq(s, row)),
            (xs.deep_view(), bd@) == sweep(s0, x0, i as int, f),
        decreases M - i,
    {
        let ghost before = xs.deep_view();
        assert(xs@[i as int].deep_view() =~= xs@[i as int]@);
        update_mv_probs(bd, &mut xs[i]);
        assert(xs@[i as int].deep_view() =~= xs@[i as int]@);
        assert(xs.deep_view() =~= before.update(i as int, xs@[i as int].deep_view()));
        i += 1;
    }
}

/// Number of contexts of a coefficient band.
pub open spec fn band_contexts(l: int) -> int {
    if l == 0 {
        3
    } else {
        6
    }
}

/// The coefficient probabilities of one kind of block, updated in order.
pub open spec fn coef_block(s: Rac, xs: Seq<Seq<Seq<u8>>>) -> (Seq<Seq<Seq<u8>>>, Rac) {
    sweep(
        s,
        xs,
        6,
        |l: int, s: Rac, band: Seq<Seq<u8>>|
            sweep(s, band, band_contexts(l), |m: int, s: Rac, row: Seq<u8>| diff_seq(s, row)),
    )
}

/// The coefficient probabilities of one plane type, updated in order.
pub open spec fn coef_plane(s: Rac, xs: Seq<Seq<Seq<Seq<u8>>>>) -> (Seq<Seq<Seq<Seq<u8>>>>, Rac) {
    sweep(s, xs, 2, |k: int, s: Rac, x: Seq<Seq<Seq<u8>>>| coef_block(s, x))
}

/// The coefficient probabilities of one transform size, updated where a flag says so.
pub open spec fn coef_size(s: Rac, xs: Seq<Seq<Seq<Seq<Seq<u8>>>>>) -> (
    Seq<Seq<Seq<Seq<Seq<u8>>>>>,
    Rac,
) {
    if s.bit(128) {
        sweep(s.after(128), xs, 2, |j: int, s: Rac, x: Seq<Seq<Seq<Seq<u8>>>>| coef_plane(s, x))
    } else {
        (xs, s.after(128))
    }
}

/// The largest transform size of a mode.
pub open spec fn max_tx(mode: TxMode) -> int {
    match mode {
        TxMode::Only4x4 => 0,
        TxMode::Allow8x8 => 1,
        TxMode::Allow16x16 => 2,
        TxMode::Allow32x32 => 3,
        TxMode::TxModeSelect => 3,
    }
}

/// The coefficient probabilities of the transform sizes that a frame uses, updated
/// in order.
pub open spec fn coef_all(s: Rac, xs: Seq<Seq<Seq<Seq<Seq<Seq<u8>>>>>>, mode: TxMode) -> (
    Seq<Seq<Seq<Seq<Seq<Seq<u8>>>>>>,
    Rac,
) {
    sweep(
        s,
        xs,
        max_tx(mode) + 1,
        |i: int, s: Rac, x: Seq<Seq<Seq<Seq<Seq<u8>>>>>| coef_size(s, x),
    )
}

fn update_band(bd: &mut BoolDecoder<'_>, xs: &mut [[u8; 3]; 6], n: usize)
    requires
        old(bd)@.wf(),
        n <= 6,
    ensures
        final(bd)@.wf(),
        final(bd)@.data == old(bd)@.data,
        (final(xs).deep_view(), final(bd)@) == sweep(
            old(bd)@,
            old(xs).deep_view(),
            n as int,
            |m: int, s: Rac, row: Seq<u8>| diff_seq(s, row),
        ),
{
    let ghost f = |m: int, s: Rac, row: Seq<u8>| diff_seq(s, row);
    let ghost s0 = bd@;
    let ghost x0 = xs.deep_view();
    let mut i: usize = 0;
    while i < n
        invariant
            i <= n <= 6,
            bd@.wf(),
            bd@.data == s0.data,
            f == (|m: int, s: Rac, row: Seq<u8>| diff_seq(s, row)),
            (xs.deep_view(), bd@) == sweep(s0, x0, i as int, f),
        decreases n - i,
    {
        let ghost before = xs.deep_view();
        assert(xs@[i as int].deep_view() =~= xs@[i as int]@);
        update_probs(bd, &mut xs[i]);
        assert(xs@[i as int].deep_view() =~= xs@[i as int]@);
        assert(xs.deep_view() =~= before.update(i as int, xs@[i as int].deep_view()));
        i += 1;
    }
}

fn update_coef_block(bd: &mut BoolDecoder<'_>, xs: &mut [[[u8; 3]; 6]; 6])
    requires
        old(bd)@.wf(),
    ensures
        final(bd)@.wf(),
        final(bd)@.data == old(bd)@.data,
        (final(xs).deep_view(), final(bd)@) == coef_block(old(bd)@, old(xs).deep_view()),
{
    let ghost f = |l: int, s: Rac, band: Seq<Seq<u8>>|
        sweep(s, band, band_contexts(l), |m: int, s: Rac, row: Seq<u8>| diff_seq(s, row));
    let ghost s0 = bd@;
    let ghost x0 = xs.deep_view();
    let mut i: usize = 0;
    while i < 6
        invariant
            i <= 6,
            bd@.wf(),
            bd@.data == s0.data,
            f == (|l: int, s: Rac, band: Seq<Seq<u8>>|
                sweep(s, band, band_contexts(l), |m: int, s: Rac, row: Seq<u8>| diff_seq(s, row))),
            (xs.deep_view(), bd@) == sweep(s0, x0, i as int, f),
        decreases 6 - i,
    {
        let ghost before = xs.deep_view();
        let n: usize = if i == 0 { 3 } else { 6 };
        update_band(bd, &mut xs[i], n);
        assert(xs.deep_view() =~= before.update(i as int, xs@[i as int].deep_view()));
        i += 1;
    }
}

fn update_coef_plane(bd: &mut BoolDecoder<'_>, xs: &mut [[[[u8; 3]; 6]; 6]; 2])
    requires
        old(bd)@.wf(),
    ensures
        final(bd)@.wf(),
        final(bd)@.data == old(bd)@.data,
        (final(xs).deep_view(), final(bd)@) == coef_plane(old(bd)@, old(xs).deep_view()),
{
    let ghost f = |k: int, s: Rac, x: Seq<Seq<Seq<u8>>>| coef_block(s, x);
    let ghost s0 = bd@;
    let ghost x0 = xs.deep_view();
    let mut i: usize = 0;
    while i < 2
        invariant
            i <= 2,
            bd@.wf(),
            bd@.data == s0.data,
            f == (|k: int, s: Rac, x: Seq<Seq<Seq<u8>>>| coef_block(s, x)),
            (xs.deep_view(), bd@) == sweep(s0, x0, i as int, f),
        decreases 2 - i,
    {
        let ghost before = xs.deep_view();
        update_coef_block(bd, &mut xs[i]);
        assert(xs.deep_view() =~= before.update(i as int, xs@[i as int].deep_view()));
        i += 1;
    }
}

fn update_coef_size(bd: &mut BoolDecoder<'_>, xs: &mut [[[[[u8; 3]; 6]; 6]; 2]; 2])
    requires
        old(bd)@.wf(),
    ensures
        final(bd)@.wf(),
        final(bd)@.data == old(bd)@.data,
        (final(xs).deep_view(), final(bd)@) == coef_size(old(bd)@, old(xs).deep_view()),
{
    if !bd.get() {
        return ;
    }
    let ghost f = |j: int, s: Rac, x: Seq<Seq<Seq<Seq<u8>>>>| coef_plane(s, x);
    let ghost s0 = bd@;
    let ghost x0 = xs.deep_view();
    let mut i: usize = 0;
    while i < 2
        invariant
            i <= 2,
            bd@.wf(),
            bd@.data == s0.data,
            f == (|j: int, s: Rac, x: Seq<Seq<Seq<Seq<u8>>>>| coef_plane(s, x)),
            (xs.deep_view(), bd@) == sweep(s0, x0, i as int, f),
        decreases 2 - i,
    {
        let ghost before = xs.deep_view();
        update_coef_plane(bd, &mut xs[i]);
        assert(xs.deep_view() =~= before.update(i as int, xs@[i as int].deep_view()));
        i += 1;
    }
}

/// Updates the coefficient probabilities of the transform sizes that a mode uses.
fn update_coefs(bd: &mut BoolDecoder<'_>, xs: &mut CoefProbArray, mode: TxMode)
    requires
        old(bd)@.wf(),
    ensures
        final(bd)@.wf(),
        final(bd)@.data == old(bd)@.data,
        (final(xs).deep_view(), final(bd)@) == coef_all(old(bd)@, old(xs).deep_view(), mode),
{
    let n: usize = match mode {
        TxMode::Only4x4 => 1,
        TxMode::Allow8x8 => 2,
        TxMode::Allow16x16 => 3,
        TxMode::Allow32x32 => 4,
        TxMode::TxModeSelect => 4,
    };
    let ghost f = |i: int, s: Rac, x: Seq<Seq<Seq<Seq<Seq<u8>>>>>| coef_size(s, x);
    let ghost s0 = bd@;
    let ghost x0 = xs.deep_view();
    let mut i: usize = 0;
    while i < n
        invariant
            i <= n <= 4,
            bd@.wf(),
            bd@.data == s0.data,
            f == (|i: int, s: Rac, x: Seq<Seq<Seq<Seq<Seq<u8>>>>>| coef_size(s, x)),
            (xs.deep_view(), bd@) == sweep(s0, x0, i as int, f),
        decreases n - i,
    {
        let ghost before = xs.deep_view();
        update_coef_size(bd, &mut xs[i]);
        assert(xs.deep_view() =~= before.update(i as int, xs@[i as int].deep_view()));
        i += 1;
    }
}

/// The transform mode: two bits, and one more behind the highest value.
pub open spec fn tx_mode_spec(s: Rac, lossless: bool) -> (TxMode, Rac) {
    if lossless {
        (TxMode::Only4x4, s)
    } else {
        let v = s.uint(2);
        let t = s.after_uint(2);
        if v == 0 {
            (TxMode::Only4x4, t)
        } else if v == 1 {
            (TxMode::Allow8x8, t)
        } else if v == 2 {
            (TxMode::Allow16x16, t)
        } else if t.bit(128) {
            (TxMode::TxModeSelect, t.after(128))
        } else {
            (TxMode::Allow32x32, t.after(128))
        }
    }
}

fn read_tx_mode(bd: &mut BoolDecoder<'_>, lossless: bool) -> (r: TxMode)
    requires
        old(bd)@.wf(),
    ensures
        final(bd)@.wf(),
        final(bd)@.data == old(bd)@.data,
        (r, final(bd)@) == tx_mode_spec(old(bd)@, lossless),
{
    if lossless {
        return TxMode::Only4x4;
    }
    let v: u32 = bd.get_uint(2);
    if v == 0 {
        TxMode::Only4x4
    } else if v == 1 {
        TxMode::Allow8x8
    } else if v == 2 {
        TxMode::Allow16x16
    } else if bd.get() {
        TxMode::TxModeSelect
    } else {
        TxMode::Allow32x32
    }
}

/// Updates of the transform size probabilities.
pub open spec fn step_tx(x: (ProbView, Rac)) -> (ProbView, Rac) {
    let (a, s1) = diff_seq(x.1, x.0.tx8p);
    let (b, s2) = diff_rows(s1, x.0.tx16p);
    let (c, s3) = diff_rows(s2, x.0.tx32p);
    (ProbView { tx8p: a, tx16p: b, tx32p: c, ..x.0 }, s3)
}

fn update_tx(bd: &mut BoolDecoder<'_>, prob: &mut ProbContext)
    requires
        old(bd)@.wf(),
    ensures
        final(bd)@.wf(),
        final(bd)@.data == old(bd)@.data,
        (final(prob)@, final(bd)@) == step_tx((old(prob)@, old(bd)@)),
{
    update_probs(bd, &mut prob.tx8p);
    update_rows(bd, &mut prob.tx16p);
    update_rows(bd, &mut prob.tx32p);
    assert(prob@ =~= step_tx((old(prob)@, old(bd)@)).0);
}

/// Updates of the skip probabilities.
pub open spec fn step_skip(x: (ProbView, Rac)) -> (ProbView, Rac) {
    let (a, s1) = diff_seq(x.1, x.0.skip);
    (ProbView { skip: a, ..x.0 }, s1)
}

fn update_skip(bd: &mut BoolDecoder<'_>, prob: &mut ProbContext)
    requires
        old(bd)@.wf(),
    ensures
        final(bd)@.wf(),
        final(bd)@.data == old(bd)@.data,
        (final(prob)@, final(bd)@) == step_skip((old(prob)@, old(bd)@)),
{
    update_probs(bd, &mut prob.skip);
    assert(prob@ =~= step_skip((old(prob)@, old(bd)@)).0);
}

/// Updates of the inter mode, filter and intra probabilities.
pub open spec fn step_modes(x: (ProbView, Rac), switchable_filter: bool) -> (ProbView, Rac) {
    let (a, s1) = diff_rows(x.1, x.0.mv_mode);
    let (b, s2) = if switchable_filter {
        diff_rows(s1, x.0.filter)
    } else {
        (x.0.filter, s1)
    };
    let (c, s3) = diff_seq(s2, x.0.intra);
    (ProbView { mv_mode: a, filter: b, intra: c, ..x.0 }, s3)
}

fn update_modes(bd: &mut BoolDecoder<'_>, prob: &mut ProbContext, switchable_filter: bool)
    requires
        old(bd)@.wf(),
    ensures
        final(bd)@.wf(),
        final(bd)@.data == old(bd)@.data,
        (final(prob)@, final(bd)@) == step_modes((old(prob)@, old(bd)@), switchable_filter),
{
    update_rows(bd, &mut prob.mv_mode);
    if switchable_filter {
        update_rows(bd, &mut prob.filter);
    }
    update_probs(bd, &mut prob.intra);
    assert(prob@ =~= step_modes((old(prob)@, old(bd)@), switchable_filter).0);
}

/// The compound prediction mode: single (0), compound (1) or switchable (2).
pub open spec fn comp_mode_spec(s: Rac, allowed: bool) -> (u8, Rac) {
    if !allowed {
        (0u8, s)
    } else if !s.bit(128) {
        (0u8, s.after(128))
    } else {
        let t = s.after(128);
        (if t.bit(128) { 2u8 } else { 1u8 }, t.after(128))
    }
}

fn read_comp_mode(bd: &mut BoolDecoder<'_>, allowed: bool) -> (r: u8)
    requires
        old(bd)@.wf(),
    ensures
        final(bd)@.wf(),
        final(bd)@.data == old(bd)@.data,
        (r, final(bd)@) == comp_mode_spec(old(bd)@, allowed),
        r <= 2,
{
    if !allowed {
        return 0;
    }
    if !bd.get() {
        return 0;
    }
    if bd.get() {
        2
    } else {
        1
    }
}

/// Updates of the reference probabilities that a compound prediction mode uses.
pub open spec fn step_refs(x: (ProbView, Rac), mode: u8) -> (ProbView, Rac) {
    let (a, s1) = if mode == 2 { diff_seq(x.1, x.0.comp) } else { (x.0.comp, x.1) };
    let (b, s2) = if mode != 1 {
        diff_rows(s1, x.0.single_ref)
    } else {
        (x.0.single_ref, s1)
    };
    let (c, s3) = if mode != 0 { diff_seq(s2, x.0.comp_ref) } else { (x.0.comp_ref, s2) };
    (ProbView { comp: a, single_ref: b, comp_ref: c, ..x.0 }, s3)
}

fn update_refs(bd: &mut BoolDecoder<'_>, prob: &mut ProbContext, mode: u8)
    requires
        old(bd)@.wf(),
    ensures
        final(bd)@.wf(),
        final(bd)@.data == old(bd)@.data,
        (final(prob)@, final(bd)@) == step_refs((old(prob)@, old(bd)@), mode),
{
    if mode == 2 {
        update_probs(bd, &mut prob.comp);
    }
    if mode != 1 {
        update_rows(bd, &mut prob.single_ref);
    }
    if mode != 0 {
        update_probs(bd, &mut prob.comp_ref);
    }
    assert(prob@ =~= step_refs((old(prob)@, old(bd)@), mode).0);
}

/// One cell of the partition probabilities of a level, updated.
pub open spec fn partition_cell(
    x: (Seq<Seq<Seq<u8>>>, Rac),
    above: int,
    left: int,
) -> (Seq<Seq<Seq<u8>>>, Rac) {
    let (row, s) = diff_seq(x.1, x.0[above][left]);
    (x.0.update(above, x.0[above].update(left, row)), s)
}

/// The partition probabilities of a level, updated: the bit of the block above
/// changes before that of the block on the left.
pub open spec fn partition_level(s: Rac, level: Seq<Seq<Seq<u8>>>) -> (Seq<Seq<Seq<u8>>>, Rac) {
    partition_cell(
        partition_cell(partition_cell(partition_cell((level, s), 0, 0), 1, 0), 0, 1),
        1,
        1,
    )
}

/// The partition probabilities of the `k` smallest levels, updated in order.
pub open spec fn partition_levels(s: Rac, xs: Seq<Seq<Seq<Seq<u8>>>>, k: int) -> (
    Seq<Seq<Seq<Seq<u8>>>>,
    Rac,
)
    decreases k,
{
    if k <= 0 {
        (xs, s)
    } else {
        let (ys, t) = partition_levels(s, xs, k - 1);
        let (y, u) = partition_level(t, ys[4 - k]);
        (ys.update(4 - k, y), u)
    }
}

fn update_partition_cell(
    bd: &mut BoolDecoder<'_>,
    xs: &mut [[[u8; 3]; 4]; 4],
    above: usize,
    left: usize,
)
    requires
        old(bd)@.wf(),
        above < 4,
        left < 4,
    ensures
        final(bd)@.wf(),
        final(bd)@.data == old(bd)@.data,
        (final(xs).deep_view(), final(bd)@) == partition_cell(
            (old(xs).deep_view(), old(bd)@),
            above as int,
            left as int,
        ),
{
    let ghost before = xs.deep_view();
    assert(xs@[above as int]@[left as int].deep_view() =~= xs@[above as int]@[left as int]@);
    update_probs(bd, &mut xs[above][left]);
    assert(xs@[above as int]@[left as int].deep_view() =~= xs@[above as int]@[left as int]@);
    assert(xs@[above as int].deep_view() =~= before[above as int].update(
        left as int,
        xs@[above as int]@[left as int].deep_view(),
    ));
    assert(xs.deep_view() =~= before.update(above as int, xs@[above as int].deep_view()));
}

fn update_partition(bd: &mut BoolDecoder<'_>, xs: &mut [[[[u8; 3]; 4]; 4]; 4])
    requires
        old(bd)@.wf(),
    ensures
        final(bd)@.wf(),
        final(bd)@.data == old(bd)@.data,
        (final(xs).deep_view(), final(bd)@) == partition_levels(
            old(bd)@,
            old(xs).deep_view(),
            4,
        ),
{
    let ghost s0 = bd@;
    let ghost x0 = xs.deep_view();
    let mut i: usize = 0;
    while i < 4
        invariant
            i <= 4,
            bd@.wf(),
            bd@.data == s0.data,
            (xs.deep_view(), bd@) == partition_levels(s0, x0, i as int),
        decreases 4 - i,
    {
        let ghost before = xs.deep_view();
        let k: usize = 3 - i;
        update_partition_cell(bd, &mut xs[k], 0, 0);
        update_partition_cell(bd, &mut xs[k], 1, 0);
        update_partition_cell(bd, &mut xs[k], 0, 1);
        update_partition_cell(bd, &mut xs[k], 1, 1);
        assert(xs.deep_view() =~= before.update(k as int, xs@[k as int].deep_view()));
        i += 1;
    }
}

/// Updates of the luma mode and partition probabilities.
pub open spec fn step_blocks(x: (ProbView, Rac)) -> (ProbView, Rac) {
    let (a, s1) = diff_rows(x.1, x.0.y_mode);
    let (b, s2) = partition_levels(s1, x.0.partition, 4);
    (ProbView { y_mode: a, partition: b, ..x.0 }, s2)
}

fn update_blocks(bd: &mut BoolDecoder<'_>, prob: &mut ProbContext)
    requires
        old(bd)@.wf(),
    ensures
        final(bd)@.wf(),
        final(bd)@.data == old(bd)@.data,
        (final(prob)@, final(bd)@) == step_blocks((old(prob)@, old(bd)@)),
{
    update_rows(bd, &mut prob.y_mode);
    update_partition(bd, &mut prob.partition);
    assert(prob@ =~= step_blocks((old(prob)@, old(bd)@)).0);
}

/// Updates of the sign, class and integer probabilities of a component.
#[verifier::opaque]
pub open spec fn mv_whole(x: (MvCompView, Rac)) -> (MvCompView, Rac) {
    let (a, s1) = mv_one(x.1, x.0.sign);
    let (b, s2) = mv_seq(s1, x.0.classes);
    let (c, s3) = mv_one(s2, x.0.class0);
    let (d, s4) = mv_seq(s3, x.0.bits);
    (MvCompView { sign: a, classes: b, class0: c, bits: d, ..x.0 }, s4)
}

/// Updates of the fraction probabilities of a component.
#[verifier::opaque]
pub open spec fn mv_fraction(x: (MvCompView, Rac)) -> (MvCompView, Rac) {
    let (a, s1) = mv_rows(x.1, x.0.class0_fp);
    let (b, s2) = mv_seq(s1, x.0.fp);
    (MvCompView { class0_fp: a, fp: b, ..x.0 }, s2)
}

/// Updates of the high precision probabilities of a component.
#[verifier::opaque]
pub open spec fn mv_precision(x: (MvCompView, Rac)) -> (MvCompView, Rac) {
    let (a, s1) = mv_one(x.1, x.0.class0_hp);
    let (b, s2) = mv_one(s1, x.0.hp);
    (MvCompView { class0_hp: a, hp: b, ..x.0 }, s2)
}

fn update_mv_whole(bd: &mut BoolDecoder<'_>, c: &mut MvCompProbs)
    requires
        old(bd)@.wf(),
    ensures
        final(bd)@.wf(),
        final(bd)@.data == old(bd)@.data,
        (final(c)@, final(bd)@) == mv_whole((old(c)@, old(bd)@)),
{
    proof {
        reveal(mv_whole);
    }
    c.sign = update_mv_prob(bd, c.sign);
    update_mv_probs(bd, &mut c.classes);
    c.class0 = update_mv_prob(bd, c.class0);
    update_mv_probs(bd, &mut c.bits);
    assert(c@ =~= mv_whole((old(c)@, old(bd)@)).0);
}

fn update_mv_fraction(bd: &mut BoolDecoder<'_>, c: &mut MvCompProbs)
    requires
        old(bd)@.wf(),
    ensures
        final(bd)@.wf(),
        final(bd)@.data == old(bd)@.data,
        (final(c)@, final(bd)@) == mv_fraction((old(c)@, old(bd)@)),
{
    proof {
        reveal(mv_fraction);
    }
    update_mv_rows(bd, &mut c.class0_fp);
    update_mv_probs(bd, &mut c.fp);
    assert(c@ =~= mv_fraction((old(c)@, old(bd)@)).0);
}

fn update_mv_precision(bd: &mut BoolDecoder<'_>, c: &mut MvCompProbs)
    requires
        old(bd)@.wf(),
    ensures
        final(bd)@.wf(),
        final(bd)@.data == old(bd)@.data,
        (final(c)@, final(bd)@) == mv_precision((old(c)@, old(bd)@)),
{
    proof {
        reveal(mv_precision);
    }
    c.class0_hp = update_mv_prob(bd, c.class0_hp);
    c.hp = update_mv_prob(bd, c.hp);
    assert(c@ =~= mv_precision((old(c)@, old(bd)@)).0);
}

/// Updates of the motion vector probabilities: the joints, then each part of the
/// two components in turn.
pub open spec fn step_mv(x: (ProbView, Rac), high_precision: bool) -> (ProbView, Rac) {
    let (joint, s0) = mv_seq(x.1, x.0.mv_joint);
    let (a1, s1) = mv_whole((x.0.mv_comp[0], s0));
    let (b1, s2) = mv_whole((x.0.mv_comp[1], s1));
    let (a2, s3) = mv_fraction((a1, s2));
    let (b2, s4) = mv_fraction((b1, s3));
    let (a3, s5) = if high_precision { mv_precision((a2, s4)) } else { (a2, s4) };
    let (b3, s6) = if high_precision { mv_precision((b2, s5)) } else { (b2, s5) };
    (ProbView { mv_joint: joint, mv_comp: seq![a3, b3], ..x.0 }, s6)
}

fn update_mv(bd: &mut BoolDecoder<'_>, prob: &mut ProbContext, high_precision: bool)
    requires
        old(bd)@.wf(),
    ensures
        final(bd)@.wf(),
        final(bd)@.data == old(bd)@.data,
        (final(prob)@, final(bd)@) == step_mv((old(prob)@, old(bd)@), high_precision),
{
    let mut a: MvCompProbs = prob.mv_comp[0];
    let mut b: MvCompProbs = prob.mv_comp[1];
    update_mv_probs(bd, &mut prob.mv_joint);
    update_mv_whole(bd, &mut a);
    update_mv_whole(bd, &mut b);
    update_mv_fraction(bd, &mut a);
    update_mv_fraction(bd, &mut b);
    if high_precision {
        update_mv_precision(bd, &mut a);
        update_mv_precision(bd, &mut b);
    }
    prob.mv_comp = [a, b];
    assert(prob@.mv_comp =~= seq![a@, b@]);
    assert(prob@ =~= step_mv((old(prob)@, old(bd)@), high_precision).0);
}

/// What the compressed header depends on.
pub struct CompressedInput {
    pub lossless: bool,
    pub intra: bool,
    pub switchable_filter: bool,
    pub allow_comp_inter: bool,
    pub high_precision: bool,
}

/// What the compressed header gives.
#[verifier::ext_equal]
pub struct CompressedView {
    pub tx_mode: TxMode,
    pub comp_pred_mode: u8,
    pub prob: ProbView,
    pub coef: Seq<Seq<Seq<Seq<Seq<Seq<u8>>>>>>,
}

/// The compressed header, from the state behind its marker bit.
#[verifier::opaque]
pub open spec fn compressed_spec(
    s: Rac,
    input: CompressedInput,
    prob: ProbView,
    coef: Seq<Seq<Seq<Seq<Seq<Seq<u8>>>>>>,
) -> CompressedView {
    let (tx_mode, s1) = tx_mode_spec(s, input.lossless);
    let x1 = if tx_mode == TxMode::TxModeSelect { step_tx((prob, s1)) } else { (prob, s1) };
    let (coef2, s2) = coef_all(x1.1, coef, tx_mode);
    let x2 = step_skip((x1.0, s2));
    if input.intra {
        CompressedView { tx_mode, comp_pred_mode: 0, prob: x2.0, coef: coef2 }
    } else {
        let x3 = step_modes(x2, input.switchable_filter);
        let (mode, s4) = comp_mode_spec(x3.1, input.allow_comp_inter);
        let x4 = step_refs((x3.0, s4), mode);
        let x5 = step_mv(step_blocks(x4), input.high_precision);
        CompressedView { tx_mode, comp_pred_mode: mode, prob: x5.0, coef: coef2 }
    }
}

/// Reads the compressed header behind its marker bit, and updates the
/// probabilities by it. Returns the transform mode and the compound prediction mode.
pub fn read_compressed(
    bd: &mut BoolDecoder<'_>,
    input: &CompressedInput,
    prob: &mut ProbContext,
    coef: &mut CoefProbArray,
) -> (r: (TxMode, u8))
    requires
        old(bd)@.wf(),
    ensures
        final(bd)@.wf(),
        r.1 <= 2,
        input.lossless ==> r.0 == TxMode::Only4x4,
        (CompressedView {
            tx_mode: r.0,
            comp_pred_mode: r.1,
            prob: final(prob)@,
            coef: final(coef).deep_view(),
        }) == compressed_spec(old(bd)@, *input, old(prob)@, old(coef).deep_view()),
{
    proof {
        reveal(compressed_spec);
    }
    let tx_mode = read_tx_mode(bd, input.lossless);
    if matches!(tx_mode, TxMode::TxModeSelect) {
        update_tx(bd, prob);
    }
    update_coefs(bd, coef, tx_mode);
    update_skip(bd, prob);
    if input.intra {
        return (tx_mode, 0);
    }
    update_modes(bd, prob, input.switchable_filter);
    let mode: u8 = read_comp_mode(bd, input.allow_comp_inter);
    update_refs(bd, prob, mode);
    update_blocks(bd, prob);
    update_mv(bd, prob, input.high_precision);
    (tx_mode, mode)
}

} // verus!

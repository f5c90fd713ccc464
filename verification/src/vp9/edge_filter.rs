//! Filters over the edges of blocks.
use vstd::prelude::*;

verus! {

/// How far two values are apart.
pub open spec fn apart(a: int, b: int) -> int {
    if a < b {
        b - a
    } else {
        a - b
    }
}

fn distance(a: u8, b: u8) -> (r: i32)
    ensures
        r == apart(a as int, b as int),
        0 <= r <= 255,
{
    if a < b {
        b as i32 - a as i32
    } else {
        a as i32 - b as i32
    }
}

/// The pixel `k` steps of `step` behind `base`.
pub open spec fn tap(dst: Seq<u8>, base: int, step: int, k: int) -> u8 {
    dst[base + k * step]
}

/// The `2 * r + 2` pixels around an edge at `base`.
pub open spec fn taps(dst: Seq<u8>, base: int, step: int, r: int) -> Seq<u8> {
    Seq::new((2 * r + 2) as nat, |k: int| tap(dst, base, step, k - r - 1))
}

/// Whether an edge is filtered: the pixels on each side are near each other, and so are
/// the two sides.
pub open spec fn needs_filter_spec(t: Seq<u8>, inner: int, outer: int) -> bool {
    &&& apart(t[0] as int, t[1] as int) <= inner
    &&& apart(t[1] as int, t[2] as int) <= inner
    &&& apart(t[2] as int, t[3] as int) <= inner
    &&& apart(t[5] as int, t[4] as int) <= inner
    &&& apart(t[6] as int, t[5] as int) <= inner
    &&& apart(t[7] as int, t[6] as int) <= inner
    &&& 2 * apart(t[3] as int, t[4] as int) + apart(t[2] as int, t[5] as int) / 2 <= outer
}

fn needs_filter(t: &[u8; 8], inner: i32, outer: i32) -> (r: bool)
    ensures
        r == needs_filter_spec(t@, inner as int, outer as int),
{
    distance(t[0], t[1]) <= inner && distance(t[1], t[2]) <= inner && distance(t[2], t[3]) <= inner
        && distance(t[5], t[4]) <= inner && distance(t[6], t[5]) <= inner && distance(t[7], t[6])
        <= inner && 2 * distance(t[3], t[4]) + distance(t[2], t[5]) / 2 <= outer
}

/// Whether three pixels on each side are as good as equal to the one at the edge.
pub open spec fn flat_inside(t: Seq<u8>) -> bool {
    &&& apart(t[2] as int, t[3] as int) <= 1
    &&& apart(t[5] as int, t[4] as int) <= 1
    &&& apart(t[1] as int, t[3] as int) <= 1
    &&& apart(t[6] as int, t[4] as int) <= 1
    &&& apart(t[0] as int, t[3] as int) <= 1
    &&& apart(t[7] as int, t[4] as int) <= 1
}

fn is_flat8in(t: &[u8; 8]) -> (r: bool)
    ensures
        r == flat_inside(t@),
{
    distance(t[2], t[3]) <= 1 && distance(t[5], t[4]) <= 1 && distance(t[1], t[3]) <= 1
        && distance(t[6], t[4]) <= 1 && distance(t[0], t[3]) <= 1 && distance(t[7], t[4]) <= 1
}

/// Whether the four pixels behind those are as good as equal to the one at the edge.
pub open spec fn flat_outside(t: Seq<u8>) -> bool {
    &&& apart(t[0] as int, t[7] as int) <= 1
    &&& apart(t[1] as int, t[7] as int) <= 1
    &&& apart(t[2] as int, t[7] as int) <= 1
    &&& apart(t[3] as int, t[7] as int) <= 1
    &&& apart(t[12] as int, t[8] as int) <= 1
    &&& apart(t[13] as int, t[8] as int) <= 1
    &&& apart(t[14] as int, t[8] as int) <= 1
    &&& apart(t[15] as int, t[8] as int) <= 1
}

fn is_flat8out(t: &[u8; 16]) -> (r: bool)
    ensures
        r == flat_outside(t@),
{
    distance(t[0], t[7]) <= 1 && distance(t[1], t[7]) <= 1 && distance(t[2], t[7]) <= 1
        && distance(t[3], t[7]) <= 1 && distance(t[12], t[8]) <= 1 && distance(t[13], t[8]) <= 1
        && distance(t[14], t[8]) <= 1 && distance(t[15], t[8]) <= 1
}

/// The sum of the pixels `j - r` to `j - r + n - 1`, those at the ends repeated.
pub open spec fn window_sum(t: Seq<u8>, r: int, j: int, n: int) -> int
    decreases n,
{
    if n <= 0 {
        0
    } else {
        let k = j - r + n - 1;
        let i = if k < 0 {
            0
        } else if k > 2 * r + 1 {
            2 * r + 1
        } else {
            k
        };
        window_sum(t, r, j, n - 1) + t[i]
    }
}

/// The pixel number `j` of `2 * r + 2` smoothed: the rounded mean of the `r` pixels on
/// each side of it, those at the ends repeated, and itself twice.
pub open spec fn smooth(t: Seq<u8>, r: int, j: int) -> u8 {
    ((window_sum(t, r, j, 2 * r + 1) + t[j] + r + 1) / (2 * r + 2)) as u8
}

fn smoothed(t: &[u8], r: usize, j: usize) -> (v: u8)
    requires
        r == 3 || r == 7,
        t@.len() == 2 * r + 2,
        j < 2 * r + 2,
    ensures
        v == smooth(t@, r as int, j as int),
{
    let mut s: u32 = 0;
    let mut n: usize = 0;
    while n < 2 * r + 1
        invariant
            n <= 2 * r + 1,
            r == 3 || r == 7,
            t@.len() == 2 * r + 2,
            j < 2 * r + 2,
            s == window_sum(t@, r as int, j as int, n as int),
            s <= 255 * n,
        decreases 2 * r + 1 - n,
    {
        let k: usize = j + n;
        let i: usize = if k < r {
            0
        } else if k - r > 2 * r + 1 {
            2 * r + 1
        } else {
            k - r
        };
        s = s + t[i] as u32;
        n += 1;
    }
    let d: u32 = 2 * r as u32 + 2;
    let total: u32 = s + t[j] as u32 + r as u32 + 1;
    proof {
        assert(total / d <= 255) by (nonlinear_arith)
            requires
                total <= 255 * d + r + 1,
                d == 2 * r + 2,
                r <= 7,
        ;
    }
    (total / d) as u8
}

/// `v` brought into a signed byte.
pub open spec fn clamp8(v: int) -> int {
    if v < -128 {
        -128
    } else if v > 127 {
        127
    } else {
        v
    }
}

fn to_i8(v: i32) -> (r: i32)
    ensures
        r == clamp8(v as int),
        -128 <= r <= 127,
{
    if v < -128 {
        -128
    } else if v > 127 {
        127
    } else {
        v
    }
}

/// `v` brought down to 127, and an eighth of it, rounded down.
pub open spec fn eighth(v: int) -> int {
    (if v > 127 {
        127
    } else {
        v
    }) / 8
}

fn eighth_of(v: i32) -> (r: i32)
    requires
        -128 <= v <= 200,
    ensures
        r == eighth(v as int),
        -16 <= r <= 15,
{
    let w: i32 = if v > 127 { 127 } else { v };
    (w + 128) / 8 - 16
}

fn to_u8(v: i32) -> (r: u8)
    ensures
        r == crate::vp9::mc::clip255(v as int),
{
    if v < 0 {
        0
    } else if v > 255 {
        255
    } else {
        v as u8
    }
}

/// The four pixels at an edge, filtered. Where there is a real edge on a side, only the two
/// in the middle move.
pub open spec fn filter4_spec(p1: u8, p0: u8, q0: u8, q1: u8, thresh: int) -> Seq<u8> {
    let hev = apart(p1 as int, p0 as int) > thresh || apart(q1 as int, q0 as int) > thresh;
    let f = if hev {
        clamp8(3 * (q0 - p0) + clamp8(p1 - q1))
    } else {
        clamp8(3 * (q0 - p0))
    };
    let f1 = eighth(f + 4);
    let f2 = eighth(f + 3);
    let f3 = (f1 + 1) / 2;
    let a = crate::vp9::mc::clip255(p0 + f2);
    let b = crate::vp9::mc::clip255(q0 - f1);
    if hev {
        seq![p1, a, b, q1]
    } else {
        seq![crate::vp9::mc::clip255(p1 + f3), a, b, crate::vp9::mc::clip255(q1 - f3)]
    }
}

fn filter4(p1: u8, p0: u8, q0: u8, q1: u8, thresh: i32) -> (r: [u8; 4])
    ensures
        r@ == filter4_spec(p1, p0, q0, q1, thresh as int),
{
    let hev = distance(p1, p0) > thresh || distance(q1, q0) > thresh;
    let base: i32 = 3 * (q0 as i32 - p0 as i32);
    let f: i32 = if hev { to_i8(base + to_i8(p1 as i32 - q1 as i32)) } else { to_i8(base) };
    let f1: i32 = eighth_of(f + 4);
    let f2: i32 = eighth_of(f + 3);
    let f3: i32 = (f1 + 1 + 16) / 2 - 8;
    let a: u8 = to_u8(p0 as i32 + f2);
    let b: u8 = to_u8(q0 as i32 - f1);
    let r: [u8; 4] = if hev {
        [p1, a, b, q1]
    } else {
        [to_u8(p1 as i32 + f3), a, b, to_u8(q1 as i32 - f3)]
    };
    assert(r@ =~= filter4_spec(p1, p0, q0, q1, thresh as int));
    r
}

/// `n` pixels written from `from` steps behind `base` on.
pub open spec fn put(dst: Seq<u8>, base: int, step: int, from: int, vals: Seq<u8>, n: int) -> Seq<
    u8,
>
    decreases n,
{
    if n <= 0 {
        dst
    } else {
        put(dst, base, step, from, vals, n - 1).update(base + (from + n - 1) * step, vals[n - 1])
    }
}

/// Whether `r + 1` pixels before an edge and as many behind it lie in the plane.
pub open spec fn reaches(len: int, base: int, step: int, r: int) -> bool {
    (r + 1) * step <= base && base + r * step < len
}

/// One line across an edge, filtered: over 16 pixels where they are flat, over 8 where the
/// inner ones are, else over the four at the edge.
#[verifier::opaque]
pub open spec fn line_spec(
    dst: Seq<u8>,
    base: int,
    step: int,
    outer: int,
    inner: int,
    thresh: int,
    wd: int,
) -> Seq<u8> {
    let len = dst.len() as int;
    let t = taps(dst, base, step, 3);
    let w = taps(dst, base, step, 7);
    if !reaches(len, base, step, 3) || !needs_filter_spec(t, inner, outer) {
        dst
    } else if wd >= 16 && flat_inside(t) && reaches(len, base, step, 7) && flat_outside(w) {
        put(dst, base, step, -7, Seq::new(14, |k: int| smooth(w, 7, k + 1)), 14)
    } else if wd >= 8 && flat_inside(t) {
        put(dst, base, step, -3, Seq::new(6, |k: int| smooth(t, 3, k + 1)), 6)
    } else {
        put(dst, base, step, -2, filter4_spec(t[2], t[3], t[4], t[5], thresh), 4)
    }
}

/// The lines across an edge of 8 pixels from the number `k` on, `along` apart.
pub open spec fn edge_spec(
    dst: Seq<u8>,
    offset: int,
    along: int,
    step: int,
    outer: int,
    inner: int,
    thresh: int,
    wd: int,
    k: int,
) -> Seq<u8>
    decreases 8 - k,
{
    if k >= 8 {
        dst
    } else {
        edge_spec(
            line_spec(dst, offset + k * along, step, outer, inner, thresh, wd),
            offset,
            along,
            step,
            outer,
            inner,
            thresh,
            wd,
            k + 1,
        )
    }
}

proof fn lemma_tap(len: int, base: int, step: int, r: int, k: int)
    requires
        reaches(len, base, step, r),
        0 < step,
        -(r + 1) <= k <= r,
    ensures
        0 <= base + k * step < len,
{
    assert(-((r + 1) * step) <= k * step && k * step <= r * step) by (nonlinear_arith)
        requires
            -(r + 1) <= k <= r,
            0 < step,
    ;
}

fn write_taps(
    dst: &mut [u8],
    base: u64,
    step: u64,
    before: u64,
    vals: &[u8],
    Ghost(r): Ghost<int>,
)
    requires
        reaches(old(dst)@.len() as int, base as int, step as int, r),
        0 < step <= 0x1_0000_0000,
        base <= 0x1_0000_0000_0000,
        1 <= before <= r + 1 <= 8,
        vals@.len() <= before + r + 1,
        vals@.len() <= 16,
    ensures
        final(dst)@ == put(
            old(dst)@,
            base as int,
            step as int,
            -(before as int),
            vals@,
            vals@.len() as int,
        ),
        final(dst)@.len() == old(dst)@.len(),
{
    let ghost d0 = dst@;
    let mut n: usize = 0;
    while n < vals.len()
        invariant
            n <= vals@.len(),
            dst@.len() == d0.len(),
            reaches(d0.len() as int, base as int, step as int, r),
            0 < step <= 0x1_0000_0000,
            base <= 0x1_0000_0000_0000,
            1 <= before <= r + 1 <= 8,
            vals@.len() <= before + r + 1,
            vals@.len() <= 16,
            dst@ == put(d0, base as int, step as int, -(before as int), vals@, n as int),
        decreases vals@.len() - n,
    {
        proof {
            lemma_tap(d0.len() as int, base as int, step as int, r, n - before);
            assert(base + (n - before) * step == base - before * step + n * step)
                by (nonlinear_arith);
            lemma_tap(d0.len() as int, base as int, step as int, r, -(before as int));
            assert(base + (-(before as int)) * step == base - before * step) by (nonlinear_arith);
            assert(0 <= n * step <= 16 * 0x1_0000_0000int && 0 <= before * step <= 8
                * 0x1_0000_0000int) by (nonlinear_arith)
                requires
                    0 <= n <= 16,
                    0 <= before <= 8,
                    0 < step <= 0x1_0000_0000,
            ;
            assert(dst.len() == dst@.len());
        }
        let at: usize = (base - before * step + n as u64 * step) as usize;
        dst[at] = vals[n];
        n += 1;
        assert(-(before as int) + n - 1 == n - 1 - before);
    }
}

fn read_tap(dst: &[u8], base: u64, step: u64, r: u64, k: u64) -> (v: u8)
    requires
        reaches(dst@.len() as int, base as int, step as int, r as int),
        0 < step <= 0x1_0000_0000,
        base <= 0x1_0000_0000_0000,
        r <= 7,
        k < 2 * r + 2,
    ensures
        v == taps(dst@, base as int, step as int, r as int)[k as int],
{
    proof {
        lemma_tap(dst@.len() as int, base as int, step as int, r as int, k - r - 1);
        lemma_tap(dst@.len() as int, base as int, step as int, r as int, -(r as int) - 1);
        assert(base + (k - r - 1) * step == base - (r + 1) * step + k * step) by (nonlinear_arith);
        assert(base + (-(r as int) - 1) * step == base - (r + 1) * step) by (nonlinear_arith);
        assert(0 <= k * step <= 16 * 0x1_0000_0000int && 0 <= (r + 1) * step <= 8
            * 0x1_0000_0000int) by (nonlinear_arith)
            requires
                0 <= k <= 16,
                0 <= r <= 7,
                0 < step <= 0x1_0000_0000,
        ;
        assert(dst.len() == dst@.len());
    }
    dst[(base - (r + 1) * step + k * step) as usize]
}

fn read_8(dst: &[u8], base: u64, step: u64) -> (t: [u8; 8])
    requires
        reaches(dst@.len() as int, base as int, step as int, 3),
        0 < step <= 0x1_0000_0000,
        base <= 0x1_0000_0000_0000,
    ensures
        t@ == taps(dst@, base as int, step as int, 3),
{
    let t: [u8; 8] = [
        read_tap(dst, base, step, 3, 0),
        read_tap(dst, base, step, 3, 1),
        read_tap(dst, base, step, 3, 2),
        read_tap(dst, base, step, 3, 3),
        read_tap(dst, base, step, 3, 4),
        read_tap(dst, base, step, 3, 5),
        read_tap(dst, base, step, 3, 6),
        read_tap(dst, base, step, 3, 7),
    ];
    assert(t@ =~= taps(dst@, base as int, step as int, 3));
    t
}

fn read_16(dst: &[u8], base: u64, step: u64) -> (t: [u8; 16])
    requires
        reaches(dst@.len() as int, base as int, step as int, 7),
        0 < step <= 0x1_0000_0000,
        base <= 0x1_0000_0000_0000,
    ensures
        t@ == taps(dst@, base as int, step as int, 7),
{
    let mut t: [u8; 16] = [0u8; 16];
    let mut k: usize = 0;
    while k < 16
        invariant
            k <= 16,
            reaches(dst@.len() as int, base as int, step as int, 7),
            0 < step <= 0x1_0000_0000,
            base <= 0x1_0000_0000_0000,
            forall|i: int|
                0 <= i < k ==> #[trigger] t@[i] == taps(dst@, base as int, step as int, 7)[i],
        decreases 16 - k,
    {
        t[k] = read_tap(dst, base, step, 7, k as u64);
        k += 1;
    }
    assert(t@ =~= taps(dst@, base as int, step as int, 7));
    t
}

fn in_reach(len: usize, base: u64, step: u64, r: u64) -> (ok: bool)
    requires
        0 < step <= 0x1_0000_0000,
        base <= 0x1_0000_0000_0000,
        r <= 7,
    ensures
        ok == reaches(len as int, base as int, step as int, r as int),
{
    proof {
        assert(0 <= r * step <= 8 * 0x1_0000_0000int && 0 <= (r + 1) * step <= 8
            * 0x1_0000_0000int) by (nonlinear_arith)
            requires
                0 <= r <= 7,
                0 < step <= 0x1_0000_0000,
        ;
    }
    (r + 1) * step <= base && base + r * step < len as u64
}

/// Filters one line across an edge.
pub fn filter_line(dst: &mut [u8], base: u64, step: u64, outer: i32, inner: i32, thresh: i32, wd: u32)
    requires
        0 < step <= 0x1_0000_0000,
        base <= 0x1_0000_0000_0000,
    ensures
        final(dst)@ == line_spec(
            old(dst)@,
            base as int,
            step as int,
            outer as int,
            inner as int,
            thresh as int,
            wd as int,
        ),
        final(dst)@.len() == old(dst)@.len(),
{
    proof {
        reveal(line_spec);
    }
    let ghost d0 = dst@;
    let len: usize = dst.len();
    if !in_reach(len, base, step, 3) {
        return ;
    }
    let t: [u8; 8] = read_8(dst, base, step);
    if !needs_filter(&t, inner, outer) {
        return ;
    }
    let flat = is_flat8in(&t);
    if wd >= 16 && flat && in_reach(len, base, step, 7) {
        let w: [u8; 16] = read_16(dst, base, step);
        if is_flat8out(&w) {
            let mut vals: [u8; 14] = [0u8; 14];
            let mut k: usize = 0;
            while k < 14
                invariant
                    k <= 14,
                    forall|i: int| 0 <= i < k ==> #[trigger] vals@[i] == smooth(w@, 7, i + 1),
                decreases 14 - k,
            {
                vals[k] = smoothed(&w, 7, k + 1);
                k += 1;
            }
            assert(vals@ =~= Seq::new(14, |k: int| smooth(w@, 7, k + 1)));
            write_taps(dst, base, step, 7, &vals, Ghost(7));
            return ;
        }
    }
    if wd >= 8 && flat {
        let vals: [u8; 6] = [
            smoothed(&t, 3, 1),
            smoothed(&t, 3, 2),
            smoothed(&t, 3, 3),
            smoothed(&t, 3, 4),
            smoothed(&t, 3, 5),
            smoothed(&t, 3, 6),
        ];
        assert(vals@ =~= Seq::new(6, |k: int| smooth(t@, 3, k + 1)));
        write_taps(dst, base, step, 3, &vals, Ghost(3));
    } else {
        let vals: [u8; 4] = filter4(t[2], t[3], t[4], t[5], thresh);
        write_taps(dst, base, step, 2, &vals, Ghost(3));
    }
}

/// Filters an edge of 8 pixels. `along` leads from line to line, `step` across the edge.
pub fn loop_filter_edge(
    dst: &mut [u8],
    offset: u64,
    along: u64,
    step: u64,
    outer: i32,
    inner: i32,
    thresh: i32,
    wd: u32,
)
    requires
        0 < step <= 65536,
        along <= 65536,
        offset <= 0x8000_0000_0000,
    ensures
        final(dst)@ == edge_spec(
            old(dst)@,
            offset as int,
            along as int,
            step as int,
            outer as int,
            inner as int,
            thresh as int,
            wd as int,
            0,
        ),
        final(dst)@.len() == old(dst)@.len(),
{
    let ghost d0 = dst@;
    let mut k: u64 = 0;
    while k < 8
        invariant
            k <= 8,
            0 < step <= 65536,
            along <= 65536,
            offset <= 0x8000_0000_0000,
            dst@.len() == d0.len(),
            edge_spec(
                dst@,
                offset as int,
                along as int,
                step as int,
                outer as int,
                inner as int,
                thresh as int,
                wd as int,
                k as int,
            ) == edge_spec(
                d0,
                offset as int,
                along as int,
                step as int,
                outer as int,
                inner as int,
                thresh as int,
                wd as int,
                0,
            ),
        decreases 8 - k,
    {
        proof {
            assert(0 <= k * along <= 8 * 65536) by (nonlinear_arith)
                requires
                    0 <= k <= 8,
                    0 <= along <= 65536,
            ;
        }
        filter_line(dst, offset + k * along, step, outer, inner, thresh, wd);
        k += 1;
    }
}

/// Whether all pixels of a plane are `v`.
pub open spec fn is_flat(dst: Seq<u8>, v: u8) -> bool {
    forall|i: int| 0 <= i < dst.len() ==> #[trigger] dst[i] == v
}

/// A line between equal pixels is left as it is, however wide the filter.
pub proof fn law_flat_edge_is_left(
    dst: Seq<u8>,
    base: int,
    step: int,
    outer: int,
    inner: int,
    thresh: int,
    wd: int,
    v: u8,
)
    requires
        0 < step,
        0 <= thresh,
        is_flat(dst, v),
    ensures
        line_spec(dst, base, step, outer, inner, thresh, wd) == dst,
{
    reveal(line_spec);
    let len = dst.len() as int;
    let t = taps(dst, base, step, 3);
    let w = taps(dst, base, step, 7);
    if reaches(len, base, step, 3) {
        assert forall|k: int| -4 <= k < 4 implies 0 <= base + #[trigger] (k * step) < len by {
            lemma_tap(len, base, step, 3, k);
        }
        assert(is_flat(t, v));
        if reaches(len, base, step, 7) {
            assert forall|k: int| -8 <= k < 8 implies 0 <= base + #[trigger] (k * step) < len by {
                lemma_tap(len, base, step, 7, k);
            }
            assert(is_flat(w, v));
            let vals = Seq::new(14, |k: int| smooth(w, 7, k + 1));
            assert forall|k: int| 0 <= k < 14 implies #[trigger] vals[k] == v by {
                lemma_smooth_flat(w, 7, k + 1, v);
            }
            lemma_put_same(dst, base, step, -7, vals, 14, v);
        }
        let vals = Seq::new(6, |k: int| smooth(t, 3, k + 1));
        assert forall|k: int| 0 <= k < 6 implies #[trigger] vals[k] == v by {
            lemma_smooth_flat(t, 3, k + 1, v);
        }
        lemma_put_same(dst, base, step, -3, vals, 6, v);
        let f = filter4_spec(t[2], t[3], t[4], t[5], thresh);
        assert(f =~= seq![v, v, v, v]);
        lemma_put_same(dst, base, step, -2, f, 4, v);
    }
}

/// An edge of 8 lines between equal pixels is left as it is.
pub proof fn lemma_flat_lines(
    dst: Seq<u8>,
    offset: int,
    along: int,
    step: int,
    outer: int,
    inner: int,
    thresh: int,
    wd: int,
    k: int,
    v: u8,
)
    requires
        0 < step,
        0 <= thresh,
        is_flat(dst, v),
    ensures
        edge_spec(dst, offset, along, step, outer, inner, thresh, wd, k) == dst,
    decreases 8 - k,
{
    if k < 8 {
        law_flat_edge_is_left(dst, offset + k * along, step, outer, inner, thresh, wd, v);
        lemma_flat_lines(dst, offset, along, step, outer, inner, thresh, wd, k + 1, v);
    }
}

/// Equal pixels smoothed stay as they are.
proof fn lemma_smooth_flat(t: Seq<u8>, r: int, j: int, v: u8)
    requires
        r == 3 || r == 7,
        t.len() == 2 * r + 2,
        0 <= j < 2 * r + 2,
        is_flat(t, v),
    ensures
        smooth(t, r, j) == v,
{
    lemma_window_flat(t, r, j, 2 * r + 1, v);
    assert(t[j] == v);
    if r == 3 {
        assert(window_sum(t, r, j, 7) == 7 * v);
        assert((8 * v + 4) / 8 == v as int);
    } else {
        assert(window_sum(t, r, j, 15) == 15 * v);
        assert((16 * v + 8) / 16 == v as int);
    }
}

proof fn lemma_window_flat(t: Seq<u8>, r: int, j: int, n: int, v: u8)
    requires
        r == 3 || r == 7,
        t.len() == 2 * r + 2,
        0 <= n,
        is_flat(t, v),
    ensures
        window_sum(t, r, j, n) == n * v,
    decreases n,
{
    if n > 0 {
        lemma_window_flat(t, r, j, n - 1, v);
        assert((n - 1) * v + v == n * v) by (nonlinear_arith);
    } else {
        assert(0 * v == 0);
    }
}

/// Writing the value that all pixels have changes nothing.
proof fn lemma_put_same(
    dst: Seq<u8>,
    base: int,
    step: int,
    from: int,
    vals: Seq<u8>,
    n: int,
    v: u8,
)
    requires
        is_flat(dst, v),
        forall|k: int| 0 <= k < n ==> #[trigger] vals[k] == v,
        forall|k: int| from <= k < from + n ==> 0 <= base + #[trigger] (k * step) < dst.len(),
    ensures
        put(dst, base, step, from, vals, n) == dst,
    decreases n,
{
    if n > 0 {
        lemma_put_same(dst, base, step, from, vals, n - 1, v);
        let k = from + n - 1;
        assert(0 <= base + k * step < dst.len());
        assert(vals[n - 1] == v);
        assert(dst.update(base + k * step, v) =~= dst);
    }
}

/// Writing pixels leaves all others alone.
proof fn lemma_put_keeps(
    dst: Seq<u8>,
    base: int,
    step: int,
    from: int,
    vals: Seq<u8>,
    n: int,
    i: int,
)
    requires
        0 <= i < dst.len(),
        forall|k: int|
            from <= k < from + n ==> i != base + #[trigger] (k * step) && 0 <= base + k * step
                < dst.len(),
    ensures
        put(dst, base, step, from, vals, n).len() == dst.len(),
        put(dst, base, step, from, vals, n)[i] == dst[i],
    decreases n,
{
    if n > 0 {
        lemma_put_keeps(dst, base, step, from, vals, n - 1, i);
        let k = from + n - 1;
        assert(i != base + k * step);
    }
}

/// Filtering a line changes at most seven pixels on each side of the edge, three where the filter is
/// no wider than 8, and two where it is narrower still.
pub proof fn law_filter_stays_near_edge(
    dst: Seq<u8>,
    base: int,
    step: int,
    outer: int,
    inner: int,
    thresh: int,
    wd: int,
    i: int,
)
    requires
        0 < step,
        0 <= i < dst.len(),
        forall|k: int|
            (if wd >= 16 {
                -7
            } else if wd >= 8 {
                -3
            } else {
                -2int
            }) <= k < (if wd >= 16 {
                7
            } else if wd >= 8 {
                3
            } else {
                2int
            }) ==> i != base + #[trigger] (k * step),
    ensures
        line_spec(dst, base, step, outer, inner, thresh, wd).len() == dst.len(),
        line_spec(dst, base, step, outer, inner, thresh, wd)[i] == dst[i],
{
    reveal(line_spec);
    let t = taps(dst, base, step, 3);
    let w = taps(dst, base, step, 7);
    let len = dst.len() as int;
    if reaches(len, base, step, 3) {
        assert forall|k: int| -4 <= k < 4 implies 0 <= base + #[trigger] (k * step) < len by {
            lemma_tap(len, base, step, 3, k);
        }
        if wd >= 16 && reaches(len, base, step, 7) {
            assert forall|k: int| -8 <= k < 8 implies 0 <= base + #[trigger] (k * step) < len by {
                lemma_tap(len, base, step, 7, k);
            }
            let v = Seq::new(14, |k: int| smooth(w, 7, k + 1));
            lemma_put_keeps(dst, base, step, -7, v, 14, i);
        }
        if wd >= 8 {
            let v = Seq::new(6, |k: int| smooth(t, 3, k + 1));
            lemma_put_keeps(dst, base, step, -3, v, 6, i);
        }
        lemma_put_keeps(dst, base, step, -2, filter4_spec(t[2], t[3], t[4], t[5], thresh), 4, i);
    }
}

/// Writing pixels where they are already changes nothing.
proof fn lemma_put_again(
    dst: Seq<u8>,
    base: int,
    step: int,
    from: int,
    vals: Seq<u8>,
    n: int,
)
    requires
        forall|k: int|
            from <= k < from + n ==> 0 <= base + #[trigger] (k * step) < dst.len() && dst[base + k
                * step] == vals[k - from],
    ensures
        put(dst, base, step, from, vals, n) == dst,
    decreases n,
{
    if n > 0 {
        lemma_put_again(dst, base, step, from, vals, n - 1);
        let k = from + n - 1;
        assert(0 <= base + k * step < dst.len() && dst[base + k * step] == vals[k - from]);
        assert(dst.update(base + k * step, vals[n - 1]) =~= dst);
    }
}

/// Writing pixels puts each where it belongs.
proof fn lemma_put_there(
    dst: Seq<u8>,
    base: int,
    step: int,
    from: int,
    vals: Seq<u8>,
    n: int,
    j: int,
    at: int,
)
    requires
        0 < step,
        from <= j < from + n,
        at == base + j * step,
        forall|k: int| from <= k < from + n ==> 0 <= base + #[trigger] (k * step) < dst.len(),
    ensures
        put(dst, base, step, from, vals, n).len() == dst.len(),
        put(dst, base, step, from, vals, n)[at] == vals[j - from],
    decreases n,
{
    let k = from + n - 1;
    assert(0 <= base + k * step < dst.len());
    assert(0 <= base + j * step < dst.len());
    if j < k {
        lemma_put_there(dst, base, step, from, vals, n - 1, j, at);
        assert(j * step < k * step) by (nonlinear_arith)
            requires
                j < k,
                0 < step,
        ;
    } else {
        lemma_put_len(dst, base, step, from, vals, n - 1);
    }
}

proof fn lemma_put_len(dst: Seq<u8>, base: int, step: int, from: int, vals: Seq<u8>, n: int)
    requires
        forall|k: int| from <= k < from + n ==> 0 <= base + #[trigger] (k * step) < dst.len(),
    ensures
        put(dst, base, step, from, vals, n).len() == dst.len(),
    decreases n,
{
    if n > 0 {
        lemma_put_len(dst, base, step, from, vals, n - 1);
        let k = from + n - 1;
        assert(0 <= base + k * step < dst.len());
    }
}

/// A line is left as it is where the four pixels on each side of the edge are equal, if the filter is no
/// wider than 8.
pub proof fn law_even_line_is_left(
    dst: Seq<u8>,
    base: int,
    step: int,
    outer: int,
    inner: int,
    thresh: int,
    wd: int,
    v: u8,
)
    requires
        0 < step,
        0 <= thresh,
        wd < 16,
        forall|k: int|
            -4 <= k < 4 ==> (0 <= base + #[trigger] (k * step) < dst.len() ==> dst[base + k * step]
                == v),
    ensures
        line_spec(dst, base, step, outer, inner, thresh, wd) == dst,
{
    reveal(line_spec);
    let len = dst.len() as int;
    let t = taps(dst, base, step, 3);
    if reaches(len, base, step, 3) {
        assert forall|k: int| -4 <= k < 4 implies 0 <= base + #[trigger] (k * step) < len by {
            lemma_tap(len, base, step, 3, k);
        }
        assert(is_flat(t, v)) by {
            assert forall|i: int| 0 <= i < t.len() implies #[trigger] t[i] == v by {
                let k = i - 4;
                assert(0 <= base + k * step < len);
            }
        }
        let vals = Seq::new(6, |k: int| smooth(t, 3, k + 1));
        assert forall|k: int| 0 <= k < 6 implies #[trigger] vals[k] == v by {
            lemma_smooth_flat(t, 3, k + 1, v);
        }
        lemma_put_again(dst, base, step, -3, vals, 6);
        let f = filter4_spec(t[2], t[3], t[4], t[5], thresh);
        assert(f =~= seq![v, v, v, v]);
        lemma_put_again(dst, base, step, -2, f, 4);
    }
}

/// Where a line is `a` on four pixels before the edge and `b` on four behind it, and the step between
/// them is small enough, the filter over 8 pixels spreads the step evenly over six.
pub proof fn law_step_is_spread(
    dst: Seq<u8>,
    base: int,
    step: int,
    outer: int,
    inner: int,
    thresh: int,
    a: u8,
    b: u8,
)
    requires
        0 < step,
        reaches(dst.len() as int, base, step, 3),
        0 <= inner,
        2 * apart(a as int, b as int) + apart(a as int, b as int) / 2 <= outer,
        forall|k: int| -4 <= k < 0 ==> dst[base + #[trigger] (k * step)] == a,
        forall|k: int| 0 <= k < 4 ==> dst[base + #[trigger] (k * step)] == b,
    ensures
        ({
            let d = line_spec(dst, base, step, outer, inner, thresh, 8);
            &&& d.len() == dst.len()
            &&& d[base - 3 * step] == (7 * a + b + 4) / 8
            &&& d[base - 2 * step] == (6 * a + 2 * b + 4) / 8
            &&& d[base - step] == (5 * a + 3 * b + 4) / 8
            &&& d[base] == (3 * a + 5 * b + 4) / 8
            &&& d[base + step] == (2 * a + 6 * b + 4) / 8
            &&& d[base + 2 * step] == (a + 7 * b + 4) / 8
        }),
{
    reveal(line_spec);
    let len = dst.len() as int;
    let t = taps(dst, base, step, 3);
    assert forall|k: int| -4 <= k < 4 implies 0 <= base + #[trigger] (k * step) < len by {
        lemma_tap(len, base, step, 3, k);
    }
    assert forall|i: int| 0 <= i < 8 implies #[trigger] t[i] == (if i < 4 {
        a
    } else {
        b
    }) by {
        let k = i - 4;
        assert(0 <= base + k * step < len);
    }
    assert(t.len() == 8);
    let vals = Seq::new(6, |k: int| smooth(t, 3, k + 1));
    reveal_with_fuel(window_sum, 8);
    assert(vals[0] == (7 * a + b + 4) / 8);
    assert(vals[1] == (6 * a + 2 * b + 4) / 8);
    assert(vals[2] == (5 * a + 3 * b + 4) / 8);
    assert(vals[3] == (3 * a + 5 * b + 4) / 8);
    assert(vals[4] == (2 * a + 6 * b + 4) / 8);
    assert(vals[5] == (a + 7 * b + 4) / 8);
    assert(base + (-3) * step == base - 3 * step) by (nonlinear_arith);
    assert(base + (-2) * step == base - 2 * step) by (nonlinear_arith);
    assert(base + (-1) * step == base - step) by (nonlinear_arith);
    assert(base + 0 * step == base) by (nonlinear_arith);
    assert(base + 1 * step == base + step) by (nonlinear_arith);
    lemma_put_there(dst, base, step, -3, vals, 6, -3, base - 3 * step);
    lemma_put_there(dst, base, step, -3, vals, 6, -2, base - 2 * step);
    lemma_put_there(dst, base, step, -3, vals, 6, -1, base - step);
    lemma_put_there(dst, base, step, -3, vals, 6, 0, base);
    lemma_put_there(dst, base, step, -3, vals, 6, 1, base + step);
    lemma_put_there(dst, base, step, -3, vals, 6, 2, base + 2 * step);
    assert(needs_filter_spec(t, inner, outer));
    assert(flat_inside(t));
}

/// The sum of a window over a step.
proof fn lemma_step_window(t: Seq<u8>, a: u8, b: u8, j: int, n: int)
    requires
        1 <= j <= 14,
        0 <= n <= 15,
        forall|i: int| 0 <= i < 16 ==> #[trigger] t[i] == (if i < 8 {
            a
        } else {
            b
        }),
    ensures
        window_sum(t, 7, j, n) == (if n <= 15 - j {
            n * a
        } else {
            (15 - j) * a + (n - 15 + j) * b
        }),
    decreases n,
{
    if n > 0 {
        lemma_step_window(t, a, b, j, n - 1);
        let m: int = n - 1;
        let c: int = 15 - j;
        let e: int = n - 15 + j;
        assert(m * a + a == n * a) by (nonlinear_arith)
            requires
                m == n - 1,
        ;
        assert((e - 1) * b + b == e * b) by (nonlinear_arith);
        assert(n == c + 1 ==> n * a == c * a + a) by (nonlinear_arith);
        assert(e == 1 ==> e * b == b) by (nonlinear_arith);
    } else {
        assert(0 * a == 0) by (nonlinear_arith);
    }
}

/// Where a line is `a` on eight pixels before the edge and `b` on eight behind it, and the step between
/// them is small enough, the filter over 16 pixels spreads the step evenly over fourteen.
pub proof fn law_step_is_spread_widely(
    dst: Seq<u8>,
    base: int,
    step: int,
    outer: int,
    inner: int,
    thresh: int,
    a: u8,
    b: u8,
    k: int,
)
    requires
        0 < step,
        reaches(dst.len() as int, base, step, 7),
        0 <= inner,
        2 * apart(a as int, b as int) + apart(a as int, b as int) / 2 <= outer,
        forall|i: int| -8 <= i < 0 ==> dst[base + #[trigger] (i * step)] == a,
        forall|i: int| 0 <= i < 8 ==> dst[base + #[trigger] (i * step)] == b,
        1 <= k <= 7,
    ensures
        ({
            let d = line_spec(dst, base, step, outer, inner, thresh, 16);
            &&& d.len() == dst.len()
            &&& d[base + (-k) * step] == ((8 + k) * a + (8 - k) * b + 8) / 16
            &&& d[base + (k - 1) * step] == ((8 - k) * a + (8 + k) * b + 8) / 16
        }),
{
    reveal(line_spec);
    let len = dst.len() as int;
    let t = taps(dst, base, step, 3);
    let w = taps(dst, base, step, 7);
    assert(4 * step <= 8 * step && 3 * step <= 7 * step);
    assert forall|i: int| -8 <= i < 8 implies 0 <= base + #[trigger] (i * step) < len by {
        lemma_tap(len, base, step, 7, i);
    }
    assert forall|i: int| 0 <= i < 8 implies #[trigger] t[i] == (if i < 4 {
        a
    } else {
        b
    }) by {
        let m = i - 4;
        assert(0 <= base + m * step < len);
    }
    assert forall|i: int| 0 <= i < 16 implies #[trigger] w[i] == (if i < 8 {
        a
    } else {
        b
    }) by {
        let m = i - 8;
        assert(0 <= base + m * step < len);
    }
    let vals = Seq::new(14, |i: int| smooth(w, 7, i + 1));
    lemma_step_window(w, a, b, 8 - k, 15);
    lemma_step_window(w, a, b, 7 + k, 15);
    assert((15 - (8 - k)) * a + a == (8 + k) * a) by (nonlinear_arith);
    assert((15 - 15 + (7 + k)) * b + b == (8 + k) * b) by (nonlinear_arith);
    assert((15 - (7 + k)) * a == (8 - k) * a) by (nonlinear_arith);
    assert((15 - 15 + (8 - k)) * b == (8 - k) * b) by (nonlinear_arith);
    lemma_step_bound(a as int, b as int, k);
    assert(vals[7 - k] == ((8 + k) * a + (8 - k) * b + 8) / 16);
    assert(vals[6 + k] == ((8 - k) * a + (8 + k) * b + 8) / 16);
    assert(needs_filter_spec(t, inner, outer));
    assert(flat_inside(t));
    assert(flat_outside(w));
    lemma_put_there(dst, base, step, -7, vals, 14, -k, base + (-k) * step);
    lemma_put_there(dst, base, step, -7, vals, 14, k - 1, base + (k - 1) * step);
}

proof fn lemma_step_bound(a: int, b: int, k: int)
    requires
        0 <= a <= 255,
        0 <= b <= 255,
        1 <= k <= 7,
    ensures
        0 <= (8 + k) * a + (8 - k) * b <= 255 * 16,
        0 <= (8 - k) * a + (8 + k) * b <= 255 * 16,
{
    let x: int = (8 + k) * a;
    let y: int = (8 - k) * b;
    let z: int = (8 - k) * a;
    let v: int = (8 + k) * b;
    assert(0 <= x <= 255 * (8 + k) && 0 <= y <= 255 * (8 - k) && 0 <= z <= 255 * (8 - k) && 0 <= v
        <= 255 * (8 + k)) by (nonlinear_arith)
        requires
            x == (8 + k) * a,
            y == (8 - k) * b,
            z == (8 - k) * a,
            v == (8 + k) * b,
            0 <= a <= 255,
            0 <= b <= 255,
            1 <= k <= 7,
    ;
}

/// The filter over 4 pixels closes a step from both sides without going past the other one, by three
/// eighths of it each; where the sides are calm the pixels behind go half as far.
pub proof fn law_narrow_filter_closes_the_step(p1: u8, p0: u8, q0: u8, q1: u8, thresh: int)
    requires
        apart(p1 as int, p0 as int) <= thresh,
        apart(q1 as int, q0 as int) <= thresh,
    ensures
        ({
            let r = filter4_spec(p1, p0, q0, q1, thresh);
            let gap = q0 - p0;
            &&& p0 <= q0 ==> p0 <= r[1] <= r[2] <= q0 && p1 <= r[0] && r[3] <= q1
            &&& q0 <= p0 ==> q0 <= r[2] <= r[1] <= p0 && r[0] <= p1 && q1 <= r[3]
            &&& -40 <= gap <= 40 ==> -5 < 8 * (r[1] - p0) - 3 * gap <= 3
            &&& -40 <= gap <= 40 ==> -4 < 8 * (q0 - r[2]) - 3 * gap <= 4
            &&& 0 < r[0] < 255 ==> 0 <= 2 * (r[0] - p1) - (q0 - r[2]) <= 1
            &&& 0 < r[3] < 255 ==> 0 <= 2 * (q1 - r[3]) - (q0 - r[2]) <= 1
        }),
{
}

/// Where one of the sides is not calm, the filter over 4 pixels leaves the pixels behind and takes the
/// step between these into account.
pub proof fn law_narrow_filter_keeps_texture(p1: u8, p0: u8, q0: u8, q1: u8, thresh: int)
    requires
        apart(p1 as int, p0 as int) > thresh || apart(q1 as int, q0 as int) > thresh,
        -100 <= p1 - q1 <= 100,
        -120 <= 3 * (q0 - p0) + (p1 - q1) <= 120,
    ensures
        ({
            let r = filter4_spec(p1, p0, q0, q1, thresh);
            let gap = 3 * (q0 - p0) + (p1 - q1);
            &&& r[0] == p1 && r[3] == q1
            &&& 0 < r[1] < 255 ==> -5 < 8 * (r[1] - p0) - gap <= 3
            &&& 0 < r[2] < 255 ==> -4 < 8 * (q0 - r[2]) - gap <= 4
        }),
{
}

/// A line is left as it is where the pixels on either side vary by more than the inner limit, or the
/// step at the edge is over the outer one.
pub proof fn law_real_edges_are_left(
    dst: Seq<u8>,
    base: int,
    step: int,
    outer: int,
    inner: int,
    thresh: int,
    wd: int,
    k: int,
)
    requires
        -4 <= k < 3,
        k != -1,
        apart(
            tap(dst, base, step, k) as int,
            tap(dst, base, step, k + 1) as int,
        ) > inner || 2 * apart(
            tap(dst, base, step, -1) as int,
            tap(dst, base, step, 0) as int,
        ) > outer,
    ensures
        line_spec(dst, base, step, outer, inner, thresh, wd) == dst,
{
    reveal(line_spec);
    let t = taps(dst, base, step, 3);
    assert(t[k + 4] == tap(dst, base, step, k));
    assert(t[k + 5] == tap(dst, base, step, k + 1));
    assert(t[3] == tap(dst, base, step, -1));
    assert(t[4] == tap(dst, base, step, 0));
}

} // verus!

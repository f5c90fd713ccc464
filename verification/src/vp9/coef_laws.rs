//! What is written of a transform block is read back.
use vstd::prelude::*;

use crate::vp9::bool_decoder::Rac;
use crate::vp9::coefs::{n_coef_spec, token_spec, BlockCoding, BlockRead};
use crate::vp9::types::TxSize;

verus! {

/// A decision in a stream: the probability by which it is coded, and what it is.
pub type Decision = (u8, bool);

/// Whether a decoder reads given decisions next.
pub open spec fn reads(rac: Rac, d: Seq<Decision>) -> bool
    decreases d.len(),
{
    d.len() == 0 || (rac.bit(d[0].0) == d[0].1 && reads(rac.after(d[0].0), d.drop_first()))
}

/// The decoder behind given decisions.
pub open spec fn behind(rac: Rac, d: Seq<Decision>) -> Rac
    decreases d.len(),
{
    if d.len() == 0 {
        rac
    } else {
        behind(rac.after(d[0].0), d.drop_first())
    }
}

/// Decisions are read one part behind the other.
pub proof fn lemma_reads_parts(rac: Rac, a: Seq<Decision>, b: Seq<Decision>)
    ensures
        reads(rac, a + b) <==> reads(rac, a) && reads(behind(rac, a), b),
        behind(rac, a + b) == behind(behind(rac, a), b),
    decreases a.len(),
{
    if a.len() == 0 {
        assert(a + b =~= b);
    } else {
        assert((a + b).drop_first() =~= a.drop_first() + b);
        lemma_reads_parts(rac.after(a[0].0), a.drop_first(), b);
    }
}

/// What a single decision reads.
pub proof fn lemma_reads_one(rac: Rac, p: u8, b: bool)
    ensures
        reads(rac, seq![(p, b)]) <==> rac.bit(p) == b,
        behind(rac, seq![(p, b)]) == rac.after(p),
{
    let d = seq![(p, b)];
    assert(d.drop_first().len() == 0);
    assert(behind(rac.after(p), d.drop_first()) == rac.after(p));
    assert(reads(rac.after(p), d.drop_first()));
}

/// A number in binary, the highest digit first, each digit coded by its own probability.
pub open spec fn number_code(v: int, probs: Seq<u8>) -> Seq<Decision>
    decreases probs.len(),
{
    if probs.len() == 0 {
        Seq::empty()
    } else {
        number_code(v / 2, probs.drop_last()).push((probs.last(), v % 2 == 1))
    }
}

/// `2` to the power of `n`.
pub open spec fn two_to(n: nat) -> int
    decreases n,
{
    if n == 0 {
        1
    } else {
        2 * two_to((n - 1) as nat)
    }
}

proof fn lemma_number(rac: Rac, v: int, probs: Seq<u8>, all: Seq<u8>)
    requires
        0 <= v < two_to(probs.len()),
        reads(rac, number_code(v, probs)),
        probs.len() <= all.len(),
        all.take(probs.len() as int) == probs,
    ensures
        crate::vp9::coefs::extra_spec(rac, all, probs.len() as int) == (
            v,
            behind(rac, number_code(v, probs)),
        ),
    decreases probs.len(),
{
    if probs.len() > 0 {
        let head = probs.drop_last();
        let d = number_code(v / 2, head);
        let last = (probs.last(), v % 2 == 1);
        assert(number_code(v, probs) =~= d + seq![last]);
        lemma_reads_parts(rac, d, seq![last]);
        lemma_reads_one(behind(rac, d), last.0, last.1);
        assert(all.take(head.len() as int) =~= head) by {
            assert(all.take(probs.len() as int).take(head.len() as int) =~= all.take(
                head.len() as int,
            ));
        }
        assert(all[probs.len() - 1] == probs.last()) by {
            assert(all.take(probs.len() as int)[probs.len() - 1] == probs.last());
        }
        lemma_number(rac, v / 2, head, all);
    }
}

/// The probabilities of the digits of the numbers that the long codes end with.
pub open spec fn digits_1() -> Seq<u8> {
    seq![159u8]
}

pub open spec fn digits_2() -> Seq<u8> {
    seq![165u8, 145]
}

pub open spec fn digits_3() -> Seq<u8> {
    seq![173u8, 148, 140]
}

pub open spec fn digits_4() -> Seq<u8> {
    seq![176u8, 155, 140, 135]
}

pub open spec fn digits_5() -> Seq<u8> {
    seq![180u8, 157, 141, 134, 130]
}

pub open spec fn digits_6() -> Seq<u8> {
    seq![254u8, 254, 254, 252, 249, 243, 230, 196, 177, 153, 140, 133, 130, 129]
}

/// The code of a magnitude of at least 1, by eleven probabilities: the small ones have a code each, and
/// the others are coded by the range that they lie in and their place in it.
pub open spec fn magnitude_code(v: int, p: Seq<u8>) -> Seq<Decision> {
    if v == 1 {
        seq![(p[2], false)]
    } else if v == 2 {
        seq![(p[2], true), (p[3], false), (p[4], false)]
    } else if v <= 4 {
        seq![(p[2], true), (p[3], false), (p[4], true), (p[5], v == 4)]
    } else if v <= 6 {
        seq![(p[2], true), (p[3], true), (p[6], false), (p[7], false)] + number_code(
            v - 5,
            digits_1(),
        )
    } else if v <= 10 {
        seq![(p[2], true), (p[3], true), (p[6], false), (p[7], true)] + number_code(
            v - 7,
            digits_2(),
        )
    } else if v <= 18 {
        seq![(p[2], true), (p[3], true), (p[6], true), (p[8], false), (p[9], false)] + number_code(
            v - 11,
            digits_3(),
        )
    } else if v <= 34 {
        seq![(p[2], true), (p[3], true), (p[6], true), (p[8], false), (p[9], true)] + number_code(
            v - 19,
            digits_4(),
        )
    } else if v <= 66 {
        seq![(p[2], true), (p[3], true), (p[6], true), (p[8], true), (p[10], false)] + number_code(
            v - 35,
            digits_5(),
        )
    } else {
        seq![(p[2], true), (p[3], true), (p[6], true), (p[8], true), (p[10], true)] + number_code(
            v - 67,
            digits_6(),
        )
    }
}

/// By how much a magnitude counts for the contexts of later coefficients.
pub open spec fn energy(v: int) -> u8 {
    if v <= 2 {
        v as u8
    } else if v <= 4 {
        3
    } else if v <= 10 {
        4
    } else {
        5
    }
}

/// The four or five decisions that a long code begins with.
proof fn lemma_head(rac: Rac, h: Seq<Decision>, t: Seq<Decision>)
    requires
        reads(rac, h + t),
        4 <= h.len() <= 5,
    ensures
        ({
            let r1 = rac.after(h[0].0);
            let r2 = r1.after(h[1].0);
            let r3 = r2.after(h[2].0);
            let r4 = r3.after(h[3].0);
            let r5 = r4.after(h[4].0);
            &&& rac.bit(h[0].0) == h[0].1
            &&& r1.bit(h[1].0) == h[1].1
            &&& r2.bit(h[2].0) == h[2].1
            &&& r3.bit(h[3].0) == h[3].1
            &&& h.len() == 5 ==> r4.bit(h[4].0) == h[4].1
            &&& behind(rac, h) == (if h.len() == 5 {
                r5
            } else {
                r4
            })
            &&& reads(behind(rac, h), t)
            &&& behind(rac, h + t) == behind(behind(rac, h), t)
        }),
{
    lemma_reads_parts(rac, h, t);
    reveal_with_fuel(reads, 6);
    reveal_with_fuel(behind, 6);
}

/// What is written of a magnitude is read back, with its weight for the contexts.
pub proof fn law_magnitude_is_read_back(rac: Rac, v: int, p: Seq<u8>)
    requires
        1 <= v < 67 + 16384,
        reads(rac, magnitude_code(v, p)),
    ensures
        token_spec(rac, p).value == v,
        token_spec(rac, p).class == energy(v),
        token_spec(rac, p).rac == behind(rac, magnitude_code(v, p)),
{
    reveal(token_spec);
    reveal_with_fuel(two_to, 15);
    if v <= 4 {
        reveal_with_fuel(reads, 5);
        reveal_with_fuel(behind, 5);
    } else if v <= 6 {
        let h = seq![(p[2], true), (p[3], true), (p[6], false), (p[7], false)];
        let d = digits_1();
        lemma_head(rac, h, number_code(v - 5, d));
        assert(d =~= crate::vp9::coefs::CAT1@);
        assert(d.take(d.len() as int) =~= d);
        lemma_number(behind(rac, h), v - 5, d, d);
    } else if v <= 10 {
        let h = seq![(p[2], true), (p[3], true), (p[6], false), (p[7], true)];
        let d = digits_2();
        lemma_head(rac, h, number_code(v - 7, d));
        assert(d =~= crate::vp9::coefs::CAT2@);
        assert(d.take(d.len() as int) =~= d);
        lemma_number(behind(rac, h), v - 7, d, d);
    } else if v <= 18 {
        let h = seq![(p[2], true), (p[3], true), (p[6], true), (p[8], false), (p[9], false)];
        let d = digits_3();
        lemma_head(rac, h, number_code(v - 11, d));
        assert(d =~= crate::vp9::coefs::CAT3@);
        assert(d.take(d.len() as int) =~= d);
        lemma_number(behind(rac, h), v - 11, d, d);
    } else if v <= 34 {
        let h = seq![(p[2], true), (p[3], true), (p[6], true), (p[8], false), (p[9], true)];
        let d = digits_4();
        lemma_head(rac, h, number_code(v - 19, d));
        assert(d =~= crate::vp9::coefs::CAT4@);
        assert(d.take(d.len() as int) =~= d);
        lemma_number(behind(rac, h), v - 19, d, d);
    } else if v <= 66 {
        let h = seq![(p[2], true), (p[3], true), (p[6], true), (p[8], true), (p[10], false)];
        let d = digits_5();
        lemma_head(rac, h, number_code(v - 35, d));
        assert(d =~= crate::vp9::coefs::CAT5@);
        assert(d.take(d.len() as int) =~= d);
        lemma_number(behind(rac, h), v - 35, d, d);
    } else {
        let h = seq![(p[2], true), (p[3], true), (p[6], true), (p[8], true), (p[10], true)];
        let d = digits_6();
        lemma_head(rac, h, number_code(v - 67, d));
        assert(d =~= crate::vp9::coefs::CAT6@);
        assert(d.take(d.len() as int) =~= d);
        lemma_number(behind(rac, h), v - 67, d, d);
    }
}

/// The absolute value of a number.
pub open spec fn size_of(v: int) -> int {
    if v < 0 {
        -v
    } else {
        v
    }
}

/// The band of the coefficient number `i`, by which its probabilities are chosen.
pub open spec fn band(tx: TxSize, i: int) -> int {
    if i == 0 {
        0
    } else if i <= 2 {
        1
    } else if i <= 5 {
        2
    } else if i <= 9 {
        3
    } else if i <= (if tx == TxSize::Tx4x4 {
        12int
    } else {
        20int
    }) {
        4
    } else {
        5
    }
}

/// The eleven probabilities of a coefficient.
pub open spec fn chances(e: BlockCoding, i: int, ctx: int) -> Seq<u8> {
    let p = e.probs@[band(e.tx, i)]@[ctx]@;
    let q = e.pareto8@[p[2] as int]@;
    seq![p[0], p[1], p[2], q[0], q[1], q[2], q[3], q[4], q[5], q[6], q[7]]
}

/// The context behind the coefficient number `i`: the rounded mean of what its two neighbours count.
pub open spec fn context_behind(e: BlockCoding, seen: Seq<u8>, i: int) -> int {
    let n = e.scan.neighbors@[i]@;
    (seen[n[0] as int] + seen[n[1] as int] + 1) / 2
}

/// How quantized coefficients, in the order of the scan, are written from the number `i` on: before the
/// first one and behind each that is not zero a decision says whether another follows that is not
/// zero; each coefficient says whether it is zero, else its magnitude and whether it is negative.
/// `seen` is what the coefficients so far count, by their places.
pub open spec fn block_code(
    e: BlockCoding,
    q: Seq<int>,
    i: int,
    seen: Seq<u8>,
    ctx: int,
    asked: bool,
) -> Seq<Decision>
    decreases q.len() - i,
{
    if i >= q.len() {
        Seq::empty()
    } else {
        let p = chances(e, i, ctx);
        let more = exists|k: int| i <= k < q.len() && #[trigger] q[k] != 0;
        let at = e.scan.order@[i] as int;
        let head: Seq<Decision> = if asked {
            seq![(p[0], more)]
        } else {
            Seq::empty()
        };
        if asked && !more {
            head
        } else if q[i] == 0 {
            let now = seen.update(at, 0u8);
            head + (seq![(p[1], false)] + block_code(
                e,
                q,
                i + 1,
                now,
                context_behind(e, now, i),
                false,
            ))
        } else {
            let now = seen.update(at, energy(size_of(q[i])));
            head + (seq![(p[1], true)] + (magnitude_code(size_of(q[i]), p) + (seq![(128u8, q[i] < 0)]
                + block_code(e, q, i + 1, now, context_behind(e, now, i), true))))
        }
    }
}

/// A quantized coefficient times its step; the largest transform counts it half, towards zero.
pub open spec fn scaled(e: BlockCoding, v: int, i: int) -> int {
    let step = if i == 0 {
        e.dc as int
    } else {
        e.ac as int
    };
    if !e.tx32 {
        v * step
    } else if v < 0 {
        -(((-v) * step) / 2)
    } else {
        (v * step) / 2
    }
}

/// Whether quantized coefficients can be written by a coding.
pub open spec fn writable(e: BlockCoding, q: Seq<int>) -> bool {
    &&& q.len() == n_coef_spec(e.tx)
    &&& e.scan.order@.len() == q.len()
    &&& e.scan.neighbors@.len() >= q.len()
    &&& e.dc > 0
    &&& e.ac > 0
    &&& forall|i: int|
        0 <= i < q.len() ==> 0 <= #[trigger] e.scan.order@[i] < q.len()
    &&& forall|i: int, j: int|
        0 <= i < j < q.len() ==> #[trigger] e.scan.order@[i] != #[trigger] e.scan.order@[j]
    &&& forall|i: int|
        0 <= i < q.len() ==> 0 <= (#[trigger] e.scan.neighbors@[i])@[0] < 1024 && 0
            <= e.scan.neighbors@[i]@[1] < 1024
    &&& forall|i: int|
        0 <= i < q.len() ==> size_of(#[trigger] q[i]) < 67 + 16384 && -32768 <= scaled(e, q[i], i)
            <= 32767
}

/// A list of quantized coefficients that is written is read back: each coefficient of the block is its
/// quantized one times the quantizer step, with its sign, at the place that the scan gives it; and the
/// decoder stands behind what was written.
pub proof fn law_coefficients_are_read_back(
    e: BlockCoding,
    q: Seq<int>,
    rac: Rac,
    nnz: int,
    cnt: Seq<Seq<Seq<u32>>>,
    eob: Seq<Seq<Seq<u32>>>,
)
    requires
        writable(e, q),
        0 <= nnz <= 2,
        reads(rac, block_code(e, q, 0, Seq::new(1024, |k: int| 0u8), nnz, true)),
    ensures
        ({
            let t = e.run(e.start(rac, nnz, cnt, eob), true);
            &&& t.rac == behind(
                rac,
                block_code(e, q, 0, Seq::new(1024, |k: int| 0u8), nnz, true),
            )
            &&& t.coef.len() == q.len()
            &&& forall|i: int|
                0 <= i < q.len() ==> t.coef[#[trigger] e.scan.order@[i] as int] == scaled(e, q[i], i)
            &&& 0 <= t.i <= q.len()
            &&& forall|i: int| t.i <= i < q.len() ==> #[trigger] q[i] == 0
            &&& t.i > 0 ==> t.i == q.len() || q[t.i - 1] != 0
        }),
{
    let s = e.start(rac, nnz, cnt, eob);
    assert(s.cache =~= Seq::new(1024, |k: int| 0u8));
    lemma_block_read(e, q, s, true);
}

proof fn lemma_block_read(e: BlockCoding, q: Seq<int>, s: BlockRead, asked: bool)
    requires
        writable(e, q),
        0 <= s.i <= q.len(),
        0 <= s.nnz <= 5,
        s.cache.len() == 1024,
        s.coef.len() == q.len(),
        forall|k: int| 0 <= k < 1024 ==> #[trigger] s.cache[k] <= 5,
        forall|i: int|
            0 <= i < s.i ==> s.coef[#[trigger] e.scan.order@[i] as int] == scaled(e, q[i], i),
        forall|i: int|
            s.i <= i < q.len() ==> s.coef[#[trigger] e.scan.order@[i] as int] == 0,
        reads(s.rac, block_code(e, q, s.i, s.cache, s.nnz, asked)),
        asked && s.i > 0 ==> q[s.i - 1] != 0,
        !asked ==> s.i == q.len() || exists|k: int| s.i <= k < q.len() && #[trigger] q[k] != 0,
    ensures
        ({
            let t = e.run(s, asked);
            &&& t.rac == behind(s.rac, block_code(e, q, s.i, s.cache, s.nnz, asked))
            &&& t.coef.len() == q.len()
            &&& forall|i: int|
                0 <= i < q.len() ==> t.coef[#[trigger] e.scan.order@[i] as int] == scaled(e, q[i], i)
            &&& s.i <= t.i <= q.len()
            &&& forall|i: int| t.i <= i < q.len() ==> #[trigger] q[i] == 0
            &&& t.i > 0 ==> t.i == q.len() || q[t.i - 1] != 0
        }),
    decreases q.len() - s.i,
{
    if s.i < q.len() {
        let i = s.i;
        let p = chances(e, i, s.nnz);
        assert(e.tp(s) =~= p);
        let more = exists|k: int| i <= k < q.len() && #[trigger] q[k] != 0;
        let at = e.scan.order@[i] as int;
        let head: Seq<Decision> = if asked {
            seq![(p[0], more)]
        } else {
            Seq::empty()
        };
        let t = if asked {
            e.after_eob(s)
        } else {
            s
        };
        lemma_reads_one(s.rac, p[0], more);
        assert(e.tp(t) == e.tp(s));
        assert forall|k: int| i <= k < q.len() && !more implies #[trigger] q[k] == 0 by {}
        if asked && !more {
            assert forall|k: int| 0 <= k < q.len() implies s.coef[#[trigger] e.scan.order@[k] as int]
                == scaled(e, q[k], k) by {
                if k >= i {
                    assert(q[k] == 0);
                }
            }
        } else if q[i] == 0 {
            let now = s.cache.update(at, 0u8);
            let c = context_behind(e, now, i);
            let rest = block_code(e, q, i + 1, now, c, false);
            let one = seq![(p[1], false)];
            lemma_reads_parts(s.rac, head, one + rest);
            assert(behind(s.rac, head) == t.rac);
            lemma_reads_parts(t.rac, one, rest);
            lemma_reads_one(t.rac, p[1], false);
            let u = e.after_zero(t);
            assert(0 <= e.scan.neighbors@[i]@[0] < 1024);
            assert(u.nnz == c);
            assert forall|k: int| 0 <= k < u.i implies u.coef[#[trigger] e.scan.order@[k] as int]
                == scaled(e, q[k], k) by {
                if k == i {
                    assert(s.coef[e.scan.order@[i] as int] == 0);
                }
            }
            let k = choose|k: int| i <= k < q.len() && #[trigger] q[k] != 0;
            assert(k > i);
            lemma_block_read(e, q, u, false);
        } else {
            let v = size_of(q[i]);
            let now = s.cache.update(at, energy(v));
            let c = context_behind(e, now, i);
            let rest = block_code(e, q, i + 1, now, c, true);
            let one = seq![(p[1], true)];
            let m = magnitude_code(v, p);
            let sign = seq![(128u8, q[i] < 0)];
            assert(more) by {
                assert(q[i] != 0);
            }
            lemma_reads_parts(s.rac, head, one + (m + (sign + rest)));
            assert(behind(s.rac, head) == t.rac);
            lemma_reads_parts(t.rac, one, m + (sign + rest));
            lemma_reads_one(t.rac, p[1], true);
            let r1 = t.rac.after(p[1]);
            lemma_reads_parts(r1, m, sign + rest);
            law_magnitude_is_read_back(r1, v, p);
            let r2 = behind(r1, m);
            lemma_reads_parts(r2, sign, rest);
            lemma_reads_one(r2, 128, q[i] < 0);
            let u = e.after_value(t);
            assert(0 <= e.scan.neighbors@[i]@[0] < 1024);
            assert(u.nnz == c);
            assert(u.coef[at] == scaled(e, q[i], i)) by {
                lemma_dequantized(e, q[i], i);
            }
            assert forall|k: int| 0 <= k < u.i implies u.coef[#[trigger] e.scan.order@[k] as int]
                == scaled(e, q[k], k) by {
                if k < i {
                    assert(e.scan.order@[k] != e.scan.order@[i]);
                }
            }
            assert forall|k: int| u.i <= k < q.len() implies u.coef[#[trigger] e.scan.order@[k] as int]
                == 0 by {
                assert(e.scan.order@[i] != e.scan.order@[k]);
            }
            lemma_block_read(e, q, u, true);
        }
    }
}

proof fn lemma_dequantized(e: BlockCoding, v: int, i: int)
    requires
        e.dc > 0,
        e.ac > 0,
        size_of(v) < 67 + 16384,
        -32768 <= scaled(e, v, i) <= 32767,
    ensures
        e.dequantized(size_of(v), v < 0, i) == scaled(e, v, i),
{
    let step = if i == 0 {
        e.dc as int
    } else {
        e.ac as int
    };
    assert(-536_870_912 * 2 < v * step < 536_870_912 * 2) by (nonlinear_arith)
        requires
            -16451 <= v <= 16451,
            1 <= step <= 32767,
    ;
    assert((-v) * step == -(v * step)) by (nonlinear_arith);
    assert(v < 0 ==> v * step < 0) by (nonlinear_arith)
        requires
            1 <= step,
    ;
    assert(v >= 0 ==> v * step >= 0) by (nonlinear_arith)
        requires
            1 <= step,
    ;
}

} // verus!

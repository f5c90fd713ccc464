//! Counts of coefficients, by transform size, kind of plane and prediction.
use vstd::prelude::*;

use crate::vp9::prob::{CountContext, CountView};

verus! {

/// The counts with those of the coefficients of one kind replaced.
pub open spec fn with_coef_counts(
    c: CountView,
    tx: int,
    kind: int,
    inter: int,
    cnt: Seq<Seq<Seq<u32>>>,
    eob: Seq<Seq<Seq<u32>>>,
) -> CountView {
    CountView {
        coef: c.coef.update(
            tx,
            c.coef[tx].update(kind, c.coef[tx][kind].update(inter, cnt)),
        ),
        eob: c.eob.update(tx, c.eob[tx].update(kind, c.eob[tx][kind].update(inter, eob))),
        ..c
    }
}

fn put4<const A: usize, const B: usize, const C: usize, const D: usize>(
    a: &mut [[[[u32; A]; B]; C]; D],
    k: usize,
    v: [[[u32; A]; B]; C],
)
    requires
        k < D,
    ensures
        final(a).deep_view() == old(a).deep_view().update(k as int, v.deep_view()),
{
    let ghost before = a.deep_view();
    a[k] = v;
    assert(a.deep_view() =~= before.update(k as int, v.deep_view()));
}

fn put5<const A: usize, const B: usize, const C: usize, const D: usize, const E: usize>(
    a: &mut [[[[[u32; A]; B]; C]; D]; E],
    j: usize,
    k: usize,
    v: [[[u32; A]; B]; C],
)
    requires
        j < E,
        k < D,
    ensures
        final(a).deep_view() == old(a).deep_view().update(
            j as int,
            old(a).deep_view()[j as int].update(k as int, v.deep_view()),
        ),
{
    let ghost before = a.deep_view();
    assert(before[j as int] == a@[j as int].deep_view());
    put4(&mut a[j], k, v);
    assert(a.deep_view() =~= before.update(j as int, a@[j as int].deep_view()));
}

fn put6<
    const A: usize,
    const B: usize,
    const C: usize,
    const D: usize,
    const E: usize,
    const F: usize,
>(a: &mut [[[[[[u32; A]; B]; C]; D]; E]; F], i: usize, j: usize, k: usize, v: [[[u32; A]; B]; C])
    requires
        i < F,
        j < E,
        k < D,
    ensures
        final(a).deep_view() == old(a).deep_view().update(
            i as int,
            old(a).deep_view()[i as int].update(
                j as int,
                old(a).deep_view()[i as int][j as int].update(k as int, v.deep_view()),
            ),
        ),
{
    let ghost before = a.deep_view();
    assert(before[i as int] == a@[i as int].deep_view());
    put5(&mut a[i], j, k, v);
    assert(a.deep_view() =~= before.update(i as int, a@[i as int].deep_view()));
}

/// The counts of the coefficients of one kind.
pub fn coef_counts(c: &CountContext, tx: usize, kind: usize, inter: usize) -> (r: (
    [[[u32; 3]; 6]; 6],
    [[[u32; 2]; 6]; 6],
))
    requires
        tx < 4,
        kind < 2,
        inter < 2,
    ensures
        r.0.deep_view() == c@.coef[tx as int][kind as int][inter as int],
        r.1.deep_view() == c@.eob[tx as int][kind as int][inter as int],
{
    (c.coef[tx][kind][inter], c.eob[tx][kind][inter])
}

/// Replaces the counts of the coefficients of one kind.
pub fn set_coef_counts(
    c: &mut CountContext,
    tx: usize,
    kind: usize,
    inter: usize,
    cnt: [[[u32; 3]; 6]; 6],
    eob: [[[u32; 2]; 6]; 6],
)
    requires
        tx < 4,
        kind < 2,
        inter < 2,
    ensures
        final(c)@ == with_coef_counts(
            old(c)@,
            tx as int,
            kind as int,
            inter as int,
            cnt.deep_view(),
            eob.deep_view(),
        ),
{
    let ghost before = c@;
    put6(&mut c.coef, tx, kind, inter, cnt);
    put6(&mut c.eob, tx, kind, inter, eob);
    assert(c@ == (CountView { coef: c@.coef, eob: c@.eob, ..before }));
}

} // verus!

//! Symbol counts and backward adaptation of probabilities.
//!
//! Counts are 32-bit and wrap.
use vstd::prelude::*;

use crate::vp9::compressed::{MvCompView, ProbView};
use crate::vp9::types::{CompPredMode, MvCompProbs, ProbContext};

verus! {

/// Coefficient probabilities by transform size, plane type, intra or inter, band
/// and context.
pub type CoefProbArray = [[[[[[u8; 3]; 6]; 6]; 2]; 2]; 4];

/// Coefficient counts, in the order of the probabilities.
pub type CoefCountArray = [[[[[[u32; 3]; 6]; 6]; 2]; 2]; 4];

/// Counts of whether a block goes on, in the order of the coefficient probabilities.
pub type EobCountArray = [[[[[[u32; 2]; 6]; 6]; 2]; 2]; 4];

/// Symbol counts of a motion vector component.
#[derive(Clone, Copy, Debug)]
pub struct MvCompCounts {
    pub sign: [u32; 2],
    pub classes: [u32; 11],
    pub class0: [u32; 2],
    pub bits: [[u32; 2]; 10],
    pub class0_fp: [[u32; 4]; 2],
    pub fp: [u32; 4],
    pub class0_hp: [u32; 2],
    pub hp: [u32; 2],
}

/// Symbol counts of a frame or a tile.
#[derive(Clone, Copy, Debug)]
pub struct CountContext {
    pub y_mode: [[u32; 10]; 4],
    pub uv_mode: [[u32; 10]; 10],
    pub filter: [[u32; 3]; 4],
    pub mv_mode: [[u32; 4]; 7],
    pub intra: [[u32; 2]; 4],
    pub comp: [[u32; 2]; 5],
    pub single_ref: [[[u32; 2]; 2]; 5],
    pub comp_ref: [[u32; 2]; 5],
    pub tx32p: [[u32; 4]; 2],
    pub tx16p: [[u32; 3]; 2],
    pub tx8p: [[u32; 2]; 2],
    pub skip: [[u32; 2]; 3],
    pub mv_joint: [u32; 4],
    pub mv_comp: [MvCompCounts; 2],
    pub partition: [[[[u32; 4]; 4]; 4]; 1],
    pub coef: CoefCountArray,
    pub eob: EobCountArray,
}

/// Symbol counts of a motion vector component, as values.
#[verifier::ext_equal]
pub struct MvCountView {
    pub sign: Seq<u32>,
    pub classes: Seq<u32>,
    pub class0: Seq<u32>,
    pub bits: Seq<Seq<u32>>,
    pub class0_fp: Seq<Seq<u32>>,
    pub fp: Seq<u32>,
    pub class0_hp: Seq<u32>,
    pub hp: Seq<u32>,
}

impl View for MvCompCounts {
    type V = MvCountView;

    open spec fn view(&self) -> MvCountView {
        MvCountView {
            sign: self.sign@,
            classes: self.classes@,
            class0: self.class0@,
            bits: self.bits.deep_view(),
            class0_fp: self.class0_fp.deep_view(),
            fp: self.fp@,
            class0_hp: self.class0_hp@,
            hp: self.hp@,
        }
    }
}

/// Symbol counts, as values.
#[verifier::ext_equal]
pub struct CountView {
    pub y_mode: Seq<Seq<u32>>,
    pub uv_mode: Seq<Seq<u32>>,
    pub filter: Seq<Seq<u32>>,
    pub mv_mode: Seq<Seq<u32>>,
    pub intra: Seq<Seq<u32>>,
    pub comp: Seq<Seq<u32>>,
    pub single_ref: Seq<Seq<Seq<u32>>>,
    pub comp_ref: Seq<Seq<u32>>,
    pub tx32p: Seq<Seq<u32>>,
    pub tx16p: Seq<Seq<u32>>,
    pub tx8p: Seq<Seq<u32>>,
    pub skip: Seq<Seq<u32>>,
    pub mv_joint: Seq<u32>,
    pub mv_comp: Seq<MvCountView>,
    pub partition: Seq<Seq<Seq<Seq<u32>>>>,
    pub coef: Seq<Seq<Seq<Seq<Seq<Seq<u32>>>>>>,
    pub eob: Seq<Seq<Seq<Seq<Seq<Seq<u32>>>>>>,
}

impl View for CountContext {
    type V = CountView;

    open spec fn view(&self) -> CountView {
        CountView {
            y_mode: self.y_mode.deep_view(),
            uv_mode: self.uv_mode.deep_view(),
            filter: self.filter.deep_view(),
            mv_mode: self.mv_mode.deep_view(),
            intra: self.intra.deep_view(),
            comp: self.comp.deep_view(),
            single_ref: self.single_ref.deep_view(),
            comp_ref: self.comp_ref.deep_view(),
            tx32p: self.tx32p.deep_view(),
            tx16p: self.tx16p.deep_view(),
            tx8p: self.tx8p.deep_view(),
            skip: self.skip.deep_view(),
            mv_joint: self.mv_joint@,
            mv_comp: Seq::new(2, |i: int| self.mv_comp@[i]@),
            partition: self.partition.deep_view(),
            coef: self.coef.deep_view(),
            eob: self.eob.deep_view(),
        }
    }
}

/// Counts added entry by entry.
pub open spec fn sum1(a: Seq<u32>, b: Seq<u32>) -> Seq<u32> {
    Seq::new(a.len(), |i: int| a[i].wrapping_add(b[i]))
}

/// Counts added entry by entry, 2 levels deep.
pub open spec fn sum2(a: Seq<Seq<u32>>, b: Seq<Seq<u32>>) -> Seq<Seq<u32>> {
    Seq::new(a.len(), |i: int| sum1(a[i], b[i]))
}

/// Counts added entry by entry, 3 levels deep.
pub open spec fn sum3(a: Seq<Seq<Seq<u32>>>, b: Seq<Seq<Seq<u32>>>) -> Seq<Seq<Seq<u32>>> {
    Seq::new(a.len(), |i: int| sum2(a[i], b[i]))
}

/// Counts added entry by entry, 4 levels deep.
pub open spec fn sum4(a: Seq<Seq<Seq<Seq<u32>>>>, b: Seq<Seq<Seq<Seq<u32>>>>) -> Seq<Seq<Seq<Seq<u32>>>> {
    Seq::new(a.len(), |i: int| sum3(a[i], b[i]))
}

/// Counts added entry by entry, 5 levels deep.
pub open spec fn sum5(a: Seq<Seq<Seq<Seq<Seq<u32>>>>>, b: Seq<Seq<Seq<Seq<Seq<u32>>>>>) -> Seq<Seq<Seq<Seq<Seq<u32>>>>> {
    Seq::new(a.len(), |i: int| sum4(a[i], b[i]))
}

/// Counts added entry by entry, 6 levels deep.
pub open spec fn sum6(a: Seq<Seq<Seq<Seq<Seq<Seq<u32>>>>>>, b: Seq<Seq<Seq<Seq<Seq<Seq<u32>>>>>>) -> Seq<Seq<Seq<Seq<Seq<Seq<u32>>>>>> {
    Seq::new(a.len(), |i: int| sum5(a[i], b[i]))
}

fn merge1(a: &mut [u32], b: &[u32])
    requires
        old(a)@.len() == b@.len(),
    ensures
        final(a)@ == sum1(old(a)@, b@),
{
    let ghost a0 = a@;
    let mut i: usize = 0;
    while i < b.len()
        invariant
            i <= b@.len(),
            a@.len() == b@.len(),
            a0.len() == b@.len(),
            forall|j: int|
                0 <= j < a@.len() ==> #[trigger] a@[j] == (if j < i {
                    a0[j].wrapping_add(b@[j])
                } else {
                    a0[j]
                }),
        decreases b@.len() - i,
    {
        a[i] = a[i].wrapping_add(b[i]);
        i += 1;
    }
    assert(a@ =~= sum1(a0, b@));
}

fn merge2<const A: usize, const B: usize>(a: &mut [[u32; A]; B], b: &[[u32; A]; B])
    ensures
        final(a).deep_view() == sum2(old(a).deep_view(), b.deep_view()),
{
    let ghost a0 = a.deep_view();
    let mut i: usize = 0;
    while i < B
        invariant
            i <= B,
            a0.len() == B,
            forall|j: int|
                0 <= j < B ==> #[trigger] a.deep_view()[j] == (if j < i {
                    sum1(a0[j], b.deep_view()[j])
                } else {
                    a0[j]
                }),
        decreases B - i,
    {
        let ghost before = a.deep_view();
        assert(before[i as int] == a@[i as int].deep_view());
        assert(b.deep_view()[i as int] == b@[i as int].deep_view());
        assert(a@[i as int].deep_view() =~= a@[i as int]@);
        assert(b@[i as int].deep_view() =~= b@[i as int]@);
        merge1(&mut a[i], &b[i]);
        assert(a@[i as int].deep_view() =~= a@[i as int]@);
        assert(a.deep_view() =~= before.update(i as int, a@[i as int].deep_view()));
        i += 1;
    }
    assert(a.deep_view() =~= sum2(a0, b.deep_view()));
}

fn merge3<const A: usize, const B: usize, const C: usize>(a: &mut [[[u32; A]; B]; C], b: &[[[u32; A]; B]; C])
    ensures
        final(a).deep_view() == sum3(old(a).deep_view(), b.deep_view()),
{
    let ghost a0 = a.deep_view();
    let mut i: usize = 0;
    while i < C
        invariant
            i <= C,
            a0.len() == C,
            forall|j: int|
                0 <= j < C ==> #[trigger] a.deep_view()[j] == (if j < i {
                    sum2(a0[j], b.deep_view()[j])
                } else {
                    a0[j]
                }),
        decreases C - i,
    {
        let ghost before = a.deep_view();
        assert(before[i as int] == a@[i as int].deep_view());
        assert(b.deep_view()[i as int] == b@[i as int].deep_view());
        merge2(&mut a[i], &b[i]);
        assert(a.deep_view() =~= before.update(i as int, a@[i as int].deep_view()));
        i += 1;
    }
    assert(a.deep_view() =~= sum3(a0, b.deep_view()));
}

fn merge4<const A: usize, const B: usize, const C: usize, const D: usize>(a: &mut [[[[u32; A]; B]; C]; D], b: &[[[[u32; A]; B]; C]; D])
    ensures
        final(a).deep_view() == sum4(old(a).deep_view(), b.deep_view()),
{
    let ghost a0 = a.deep_view();
    let mut i: usize = 0;
    while i < D
        invariant
            i <= D,
            a0.len() == D,
            forall|j: int|
                0 <= j < D ==> #[trigger] a.deep_view()[j] == (if j < i {
                    sum3(a0[j], b.deep_view()[j])
                } else {
                    a0[j]
                }),
        decreases D - i,
    {
        let ghost before = a.deep_view();
        assert(before[i as int] == a@[i as int].deep_view());
        assert(b.deep_view()[i as int] == b@[i as int].deep_view());
        merge3(&mut a[i], &b[i]);
        assert(a.deep_view() =~= before.update(i as int, a@[i as int].deep_view()));
        i += 1;
    }
    assert(a.deep_view() =~= sum4(a0, b.deep_view()));
}

fn merge5<const A: usize, const B: usize, const C: usize, const D: usize, const E: usize>(a: &mut [[[[[u32; A]; B]; C]; D]; E], b: &[[[[[u32; A]; B]; C]; D]; E])
    ensures
        final(a).deep_view() == sum5(old(a).deep_view(), b.deep_view()),
{
    let ghost a0 = a.deep_view();
    let mut i: usize = 0;
    while i < E
        invariant
            i <= E,
            a0.len() == E,
            forall|j: int|
                0 <= j < E ==> #[trigger] a.deep_view()[j] == (if j < i {
                    sum4(a0[j], b.deep_view()[j])
                } else {
                    a0[j]
                }),
        decreases E - i,
    {
        let ghost before = a.deep_view();
        assert(before[i as int] == a@[i as int].deep_view());
        assert(b.deep_view()[i as int] == b@[i as int].deep_view());
        merge4(&mut a[i], &b[i]);
        assert(a.deep_view() =~= before.update(i as int, a@[i as int].deep_view()));
        i += 1;
    }
    assert(a.deep_view() =~= sum5(a0, b.deep_view()));
}

fn merge6<const A: usize, const B: usize, const C: usize, const D: usize, const E: usize, const F: usize>(a: &mut [[[[[[u32; A]; B]; C]; D]; E]; F], b: &[[[[[[u32; A]; B]; C]; D]; E]; F])
    ensures
        final(a).deep_view() == sum6(old(a).deep_view(), b.deep_view()),
{
    let ghost a0 = a.deep_view();
    let mut i: usize = 0;
    while i < F
        invariant
            i <= F,
            a0.len() == F,
            forall|j: int|
                0 <= j < F ==> #[trigger] a.deep_view()[j] == (if j < i {
                    sum5(a0[j], b.deep_view()[j])
                } else {
                    a0[j]
                }),
        decreases F - i,
    {
        let ghost before = a.deep_view();
        assert(before[i as int] == a@[i as int].deep_view());
        assert(b.deep_view()[i as int] == b@[i as int].deep_view());
        merge5(&mut a[i], &b[i]);
        assert(a.deep_view() =~= before.update(i as int, a@[i as int].deep_view()));
        i += 1;
    }
    assert(a.deep_view() =~= sum6(a0, b.deep_view()));
}

/// Counts of a component added entry by entry.
pub open spec fn sum_mv(a: MvCountView, b: MvCountView) -> MvCountView {
    MvCountView {
        sign: sum1(a.sign, b.sign),
        classes: sum1(a.classes, b.classes),
        class0: sum1(a.class0, b.class0),
        bits: sum2(a.bits, b.bits),
        class0_fp: sum2(a.class0_fp, b.class0_fp),
        fp: sum1(a.fp, b.fp),
        class0_hp: sum1(a.class0_hp, b.class0_hp),
        hp: sum1(a.hp, b.hp),
    }
}

/// Counts added entry by entry.
pub open spec fn sum_counts(a: CountView, b: CountView) -> CountView {
    CountView {
        y_mode: sum2(a.y_mode, b.y_mode),
        uv_mode: sum2(a.uv_mode, b.uv_mode),
        filter: sum2(a.filter, b.filter),
        mv_mode: sum2(a.mv_mode, b.mv_mode),
        intra: sum2(a.intra, b.intra),
        comp: sum2(a.comp, b.comp),
        single_ref: sum3(a.single_ref, b.single_ref),
        comp_ref: sum2(a.comp_ref, b.comp_ref),
        tx32p: sum2(a.tx32p, b.tx32p),
        tx16p: sum2(a.tx16p, b.tx16p),
        tx8p: sum2(a.tx8p, b.tx8p),
        skip: sum2(a.skip, b.skip),
        mv_joint: sum1(a.mv_joint, b.mv_joint),
        mv_comp: Seq::new(2, |i: int| sum_mv(a.mv_comp[i], b.mv_comp[i])),
        partition: sum4(a.partition, b.partition),
        coef: sum6(a.coef, b.coef),
        eob: sum6(a.eob, b.eob),
    }
}

fn merge_mv(a: &mut MvCompCounts, b: &MvCompCounts)
    ensures
        final(a)@ == sum_mv(old(a)@, b@),
{
    merge1(&mut a.sign, &b.sign);
    merge1(&mut a.classes, &b.classes);
    merge1(&mut a.class0, &b.class0);
    merge2(&mut a.bits, &b.bits);
    merge2(&mut a.class0_fp, &b.class0_fp);
    merge1(&mut a.fp, &b.fp);
    merge1(&mut a.class0_hp, &b.class0_hp);
    merge1(&mut a.hp, &b.hp);
    assert(a@ =~= sum_mv(old(a)@, b@));
}

impl CountContext {
    /// Adds the counts of `other` entry by entry.
    pub fn merge(&mut self, other: &CountContext)
        ensures
            final(self)@ == sum_counts(old(self)@, other@),
    {
        merge2(&mut self.y_mode, &other.y_mode);
        merge2(&mut self.uv_mode, &other.uv_mode);
        merge2(&mut self.filter, &other.filter);
        merge2(&mut self.mv_mode, &other.mv_mode);
        merge2(&mut self.intra, &other.intra);
        merge2(&mut self.comp, &other.comp);
        merge3(&mut self.single_ref, &other.single_ref);
        merge2(&mut self.comp_ref, &other.comp_ref);
        merge2(&mut self.tx32p, &other.tx32p);
        merge2(&mut self.tx16p, &other.tx16p);
        merge2(&mut self.tx8p, &other.tx8p);
        merge2(&mut self.skip, &other.skip);
        merge1(&mut self.mv_joint, &other.mv_joint);
        let mut a: MvCompCounts = self.mv_comp[0];
        let mut b: MvCompCounts = self.mv_comp[1];
        merge_mv(&mut a, &other.mv_comp[0]);
        merge_mv(&mut b, &other.mv_comp[1]);
        self.mv_comp = [a, b];
        merge4(&mut self.partition, &other.partition);
        merge6(&mut self.coef, &other.coef);
        merge6(&mut self.eob, &other.eob);
        assert(self@.mv_comp =~= sum_counts(old(self)@, other@).mv_comp);
        assert(self@ =~= sum_counts(old(self)@, other@));
    }
}

/// `n` zero counts.
pub open spec fn zero1(n: nat) -> Seq<u32> {
    Seq::new(n, |i: int| 0u32)
}

/// Zero counts, 2 levels deep.
pub open spec fn zero2(n: nat, m: nat) -> Seq<Seq<u32>> {
    Seq::new(n, |x: int| zero1(m))
}

/// Zero counts, 3 levels deep.
pub open spec fn zero3(n: nat, m: nat, k: nat) -> Seq<Seq<Seq<u32>>> {
    Seq::new(n, |x: int| zero2(m, k))
}

/// Zero counts, 4 levels deep.
pub open spec fn zero4(n: nat, m: nat, k: nat, j: nat) -> Seq<Seq<Seq<Seq<u32>>>> {
    Seq::new(n, |x: int| zero3(m, k, j))
}

/// Zero counts, 5 levels deep.
pub open spec fn zero5(n: nat, m: nat, k: nat, j: nat, i: nat) -> Seq<Seq<Seq<Seq<Seq<u32>>>>> {
    Seq::new(n, |x: int| zero4(m, k, j, i))
}

/// Zero counts, 6 levels deep.
pub open spec fn zero6(n: nat, m: nat, k: nat, j: nat, i: nat, h: nat) -> Seq<Seq<Seq<Seq<Seq<Seq<u32>>>>>> {
    Seq::new(n, |x: int| zero5(m, k, j, i, h))
}

/// A component without any counts.
pub open spec fn zero_mv() -> MvCountView {
    MvCountView {
        sign: zero1(2),
        classes: zero1(11),
        class0: zero1(2),
        bits: zero2(10, 2),
        class0_fp: zero2(2, 4),
        fp: zero1(4),
        class0_hp: zero1(2),
        hp: zero1(2),
    }
}

/// No counts at all.
pub open spec fn zero_counts() -> CountView {
    CountView {
        y_mode: zero2(4, 10),
        uv_mode: zero2(10, 10),
        filter: zero2(4, 3),
        mv_mode: zero2(7, 4),
        intra: zero2(4, 2),
        comp: zero2(5, 2),
        single_ref: zero3(5, 2, 2),
        comp_ref: zero2(5, 2),
        tx32p: zero2(2, 4),
        tx16p: zero2(2, 3),
        tx8p: zero2(2, 2),
        skip: zero2(3, 2),
        mv_joint: zero1(4),
        mv_comp: seq![zero_mv(), zero_mv()],
        partition: zero4(1, 4, 4, 4),
        coef: zero6(4, 2, 2, 6, 6, 3),
        eob: zero6(4, 2, 2, 6, 6, 2),
    }
}

fn zero_mv_counts() -> (r: MvCompCounts)
    ensures
        r@ == zero_mv(),
{
    let r = MvCompCounts {
        sign: [0u32; 2],
        classes: [0u32; 11],
        class0: [0u32; 2],
        bits: [[0u32; 2]; 10],
        class0_fp: [[0u32; 4]; 2],
        fp: [0u32; 4],
        class0_hp: [0u32; 2],
        hp: [0u32; 2],
    };
    assert(r@ =~~= zero_mv());
    r
}

impl Default for CountContext {
    fn default() -> (r: Self)
        ensures
            r@ == zero_counts(),
    {
        let m: MvCompCounts = zero_mv_counts();
        let r = CountContext {
            y_mode: [[0u32; 10]; 4],
            uv_mode: [[0u32; 10]; 10],
            filter: [[0u32; 3]; 4],
            mv_mode: [[0u32; 4]; 7],
            intra: [[0u32; 2]; 4],
            comp: [[0u32; 2]; 5],
            single_ref: [[[0u32; 2]; 2]; 5],
            comp_ref: [[0u32; 2]; 5],
            tx32p: [[0u32; 4]; 2],
            tx16p: [[0u32; 3]; 2],
            tx8p: [[0u32; 2]; 2],
            skip: [[0u32; 2]; 3],
            mv_joint: [0u32; 4],
            mv_comp: [m, m],
            partition: [[[[0u32; 4]; 4]; 4]; 1],
            coef: [[[[[[0u32; 3]; 6]; 6]; 2]; 2]; 4],
            eob: [[[[[[0u32; 2]; 6]; 6]; 2]; 2]; 4],
        };
        assert(r@.mv_comp =~= seq![zero_mv(), zero_mv()]);
        assert(r@ =~~= zero_counts());
        r
    }
}

/// Counts with the entry `i` one higher.
pub open spec fn bump1_spec(c: Seq<u32>, i: int) -> Seq<u32> {
    c.update(i, c[i].wrapping_add(1))
}

/// Counts one symbol more.
pub fn bump1(c: &mut [u32], i: usize)
    requires
        i < old(c)@.len(),
    ensures
        final(c)@ == bump1_spec(old(c)@, i as int),
{
    c[i] = c[i].wrapping_add(1);
}

/// Counts with one entry, 2 levels deep, one higher.
pub open spec fn bump2_spec(c: Seq<Seq<u32>>, i: int, j: int) -> Seq<Seq<u32>> {
    c.update(i, bump1_spec(c[i], j))
}

/// Counts one symbol more, 2 levels deep.
pub fn bump2<const A: usize, const B: usize>(c: &mut [[u32; A]; B], i: usize, j: usize)
    requires
        i < B,
        j < A,
    ensures
        final(c).deep_view() == bump2_spec(old(c).deep_view(), i as int, j as int),
{
    let ghost before = c.deep_view();
    assert(before[i as int] == c@[i as int].deep_view());
    assert(c@[i as int].deep_view() =~= c@[i as int]@);
    bump1(&mut c[i], j);
    assert(c@[i as int].deep_view() =~= c@[i as int]@);
    assert(c.deep_view() =~= before.update(i as int, c@[i as int].deep_view()));
}

/// Counts with one entry, 3 levels deep, one higher.
pub open spec fn bump3_spec(c: Seq<Seq<Seq<u32>>>, i: int, j: int, k: int) -> Seq<Seq<Seq<u32>>> {
    c.update(i, bump2_spec(c[i], j, k))
}

/// Counts one symbol more, 3 levels deep.
pub fn bump3<const A: usize, const B: usize, const C: usize>(c: &mut [[[u32; A]; B]; C], i: usize, j: usize, k: usize)
    requires
        i < C,
        j < B,
        k < A,
    ensures
        final(c).deep_view() == bump3_spec(old(c).deep_view(), i as int, j as int, k as int),
{
    let ghost before = c.deep_view();
    assert(before[i as int] == c@[i as int].deep_view());
    bump2(&mut c[i], j, k);
    assert(c.deep_view() =~= before.update(i as int, c@[i as int].deep_view()));
}

/// Counts with one entry, 4 levels deep, one higher.
pub open spec fn bump4_spec(c: Seq<Seq<Seq<Seq<u32>>>>, i: int, j: int, k: int, l: int) -> Seq<Seq<Seq<Seq<u32>>>> {
    c.update(i, bump3_spec(c[i], j, k, l))
}

/// Counts one symbol more, 4 levels deep.
pub fn bump4<const A: usize, const B: usize, const C: usize, const D: usize>(c: &mut [[[[u32; A]; B]; C]; D], i: usize, j: usize, k: usize, l: usize)
    requires
        i < D,
        j < C,
        k < B,
        l < A,
    ensures
        final(c).deep_view() == bump4_spec(old(c).deep_view(), i as int, j as int, k as int, l as int),
{
    let ghost before = c.deep_view();
    assert(before[i as int] == c@[i as int].deep_view());
    bump3(&mut c[i], j, k, l);
    assert(c.deep_view() =~= before.update(i as int, c@[i as int].deep_view()));
}

/// Whether `a` and `b` have the same shape.
pub open spec fn like1(a: Seq<u32>, b: Seq<u32>) -> bool {
    a.len() == b.len()
}

/// Whether `a` and `b` have the same shape, 2 levels deep.
pub open spec fn like2(a: Seq<Seq<u32>>, b: Seq<Seq<u32>>) -> bool {
    a.len() == b.len() && forall|i: int| 0 <= i < a.len() ==> like1(#[trigger] a[i], b[i])
}

/// Whether `a` and `b` have the same shape, 3 levels deep.
pub open spec fn like3(a: Seq<Seq<Seq<u32>>>, b: Seq<Seq<Seq<u32>>>) -> bool {
    a.len() == b.len() && forall|i: int| 0 <= i < a.len() ==> like2(#[trigger] a[i], b[i])
}

/// Whether `a` and `b` have the same shape, 4 levels deep.
pub open spec fn like4(a: Seq<Seq<Seq<Seq<u32>>>>, b: Seq<Seq<Seq<Seq<u32>>>>) -> bool {
    a.len() == b.len() && forall|i: int| 0 <= i < a.len() ==> like3(#[trigger] a[i], b[i])
}

/// Whether `a` and `b` have the same shape, 5 levels deep.
pub open spec fn like5(a: Seq<Seq<Seq<Seq<Seq<u32>>>>>, b: Seq<Seq<Seq<Seq<Seq<u32>>>>>) -> bool {
    a.len() == b.len() && forall|i: int| 0 <= i < a.len() ==> like4(#[trigger] a[i], b[i])
}

/// Whether `a` and `b` have the same shape, 6 levels deep.
pub open spec fn like6(a: Seq<Seq<Seq<Seq<Seq<Seq<u32>>>>>>, b: Seq<Seq<Seq<Seq<Seq<Seq<u32>>>>>>) -> bool {
    a.len() == b.len() && forall|i: int| 0 <= i < a.len() ==> like5(#[trigger] a[i], b[i])
}

proof fn lemma_sum1(a: Seq<u32>, b: Seq<u32>, c: Seq<u32>)
    requires
        like1(a, b),
        like1(b, c),
    ensures
        sum1(a, b) == sum1(b, a),
        sum1(sum1(a, b), c) == sum1(a, sum1(b, c)),
{
    assert(sum1(a, b) =~= sum1(b, a));
    assert(sum1(sum1(a, b), c) =~= sum1(a, sum1(b, c)));
}

proof fn lemma_sum2(a: Seq<Seq<u32>>, b: Seq<Seq<u32>>, c: Seq<Seq<u32>>)
    requires
        like2(a, b),
        like2(b, c),
    ensures
        sum2(a, b) == sum2(b, a),
        sum2(sum2(a, b), c) == sum2(a, sum2(b, c)),
{
    assert forall|i: int| 0 <= i < a.len() implies sum1(#[trigger] a[i], b[i]) == sum1(b[i], a[i]) by {
        lemma_sum1(a[i], b[i], c[i]);
    }
    assert(sum2(a, b) =~= sum2(b, a));
    assert forall|i: int| 0 <= i < a.len() implies sum1(sum1(#[trigger] a[i], b[i]), c[i]) == sum1(a[i], sum1(b[i], c[i])) by {
        lemma_sum1(a[i], b[i], c[i]);
    }
    assert(sum2(sum2(a, b), c) =~= sum2(a, sum2(b, c)));
}

proof fn lemma_sum3(a: Seq<Seq<Seq<u32>>>, b: Seq<Seq<Seq<u32>>>, c: Seq<Seq<Seq<u32>>>)
    requires
        like3(a, b),
        like3(b, c),
    ensures
        sum3(a, b) == sum3(b, a),
        sum3(sum3(a, b), c) == sum3(a, sum3(b, c)),
{
    assert forall|i: int| 0 <= i < a.len() implies sum2(#[trigger] a[i], b[i]) == sum2(b[i], a[i]) by {
        lemma_sum2(a[i], b[i], c[i]);
    }
    assert(sum3(a, b) =~= sum3(b, a));
    assert forall|i: int| 0 <= i < a.len() implies sum2(sum2(#[trigger] a[i], b[i]), c[i]) == sum2(a[i], sum2(b[i], c[i])) by {
        lemma_sum2(a[i], b[i], c[i]);
    }
    assert(sum3(sum3(a, b), c) =~= sum3(a, sum3(b, c)));
}

proof fn lemma_sum4(a: Seq<Seq<Seq<Seq<u32>>>>, b: Seq<Seq<Seq<Seq<u32>>>>, c: Seq<Seq<Seq<Seq<u32>>>>)
    requires
        like4(a, b),
        like4(b, c),
    ensures
        sum4(a, b) == sum4(b, a),
        sum4(sum4(a, b), c) == sum4(a, sum4(b, c)),
{
    assert forall|i: int| 0 <= i < a.len() implies sum3(#[trigger] a[i], b[i]) == sum3(b[i], a[i]) by {
        lemma_sum3(a[i], b[i], c[i]);
    }
    assert(sum4(a, b) =~= sum4(b, a));
    assert forall|i: int| 0 <= i < a.len() implies sum3(sum3(#[trigger] a[i], b[i]), c[i]) == sum3(a[i], sum3(b[i], c[i])) by {
        lemma_sum3(a[i], b[i], c[i]);
    }
    assert(sum4(sum4(a, b), c) =~= sum4(a, sum4(b, c)));
}

proof fn lemma_sum5(a: Seq<Seq<Seq<Seq<Seq<u32>>>>>, b: Seq<Seq<Seq<Seq<Seq<u32>>>>>, c: Seq<Seq<Seq<Seq<Seq<u32>>>>>)
    requires
        like5(a, b),
        like5(b, c),
    ensures
        sum5(a, b) == sum5(b, a),
        sum5(sum5(a, b), c) == sum5(a, sum5(b, c)),
{
    assert forall|i: int| 0 <= i < a.len() implies sum4(#[trigger] a[i], b[i]) == sum4(b[i], a[i]) by {
        lemma_sum4(a[i], b[i], c[i]);
    }
    assert(sum5(a, b) =~= sum5(b, a));
    assert forall|i: int| 0 <= i < a.len() implies sum4(sum4(#[trigger] a[i], b[i]), c[i]) == sum4(a[i], sum4(b[i], c[i])) by {
        lemma_sum4(a[i], b[i], c[i]);
    }
    assert(sum5(sum5(a, b), c) =~= sum5(a, sum5(b, c)));
}

proof fn lemma_sum6(a: Seq<Seq<Seq<Seq<Seq<Seq<u32>>>>>>, b: Seq<Seq<Seq<Seq<Seq<Seq<u32>>>>>>, c: Seq<Seq<Seq<Seq<Seq<Seq<u32>>>>>>)
    requires
        like6(a, b),
        like6(b, c),
    ensures
        sum6(a, b) == sum6(b, a),
        sum6(sum6(a, b), c) == sum6(a, sum6(b, c)),
{
    assert forall|i: int| 0 <= i < a.len() implies sum5(#[trigger] a[i], b[i]) == sum5(b[i], a[i]) by {
        lemma_sum5(a[i], b[i], c[i]);
    }
    assert(sum6(a, b) =~= sum6(b, a));
    assert forall|i: int| 0 <= i < a.len() implies sum5(sum5(#[trigger] a[i], b[i]), c[i]) == sum5(a[i], sum5(b[i], c[i])) by {
        lemma_sum5(a[i], b[i], c[i]);
    }
    assert(sum6(sum6(a, b), c) =~= sum6(a, sum6(b, c)));
}

/// Whether the counts of two components have the same shape.
pub open spec fn like_mv(a: MvCountView, b: MvCountView) -> bool {
    &&& like1(a.sign, b.sign)
    &&& like1(a.classes, b.classes)
    &&& like1(a.class0, b.class0)
    &&& like2(a.bits, b.bits)
    &&& like2(a.class0_fp, b.class0_fp)
    &&& like1(a.fp, b.fp)
    &&& like1(a.class0_hp, b.class0_hp)
    &&& like1(a.hp, b.hp)
}

/// Whether two counts have the same shape.
pub open spec fn like_counts(a: CountView, b: CountView) -> bool {
    &&& like2(a.y_mode, b.y_mode)
    &&& like2(a.uv_mode, b.uv_mode)
    &&& like2(a.filter, b.filter)
    &&& like2(a.mv_mode, b.mv_mode)
    &&& like2(a.intra, b.intra)
    &&& like2(a.comp, b.comp)
    &&& like2(a.comp_ref, b.comp_ref)
    &&& like2(a.tx32p, b.tx32p)
    &&& like2(a.tx16p, b.tx16p)
    &&& like2(a.tx8p, b.tx8p)
    &&& like2(a.skip, b.skip)
    &&& like3(a.single_ref, b.single_ref)
    &&& like1(a.mv_joint, b.mv_joint)
    &&& like4(a.partition, b.partition)
    &&& like6(a.coef, b.coef)
    &&& like6(a.eob, b.eob)
    &&& a.mv_comp.len() == 2
    &&& b.mv_comp.len() == 2
    &&& like_mv(a.mv_comp[0], b.mv_comp[0])
    &&& like_mv(a.mv_comp[1], b.mv_comp[1])
}

proof fn lemma_sum_mv(a: MvCountView, b: MvCountView, c: MvCountView)
    requires
        like_mv(a, b),
        like_mv(b, c),
    ensures
        sum_mv(a, b) == sum_mv(b, a),
        sum_mv(sum_mv(a, b), c) == sum_mv(a, sum_mv(b, c)),
{
    lemma_sum1(a.sign, b.sign, c.sign);
    lemma_sum1(a.classes, b.classes, c.classes);
    lemma_sum1(a.class0, b.class0, c.class0);
    lemma_sum2(a.bits, b.bits, c.bits);
    lemma_sum2(a.class0_fp, b.class0_fp, c.class0_fp);
    lemma_sum1(a.fp, b.fp, c.fp);
    lemma_sum1(a.class0_hp, b.class0_hp, c.class0_hp);
    lemma_sum1(a.hp, b.hp, c.hp);
}

/// Counts can be merged in any order.
pub proof fn law_merge_order(a: CountView, b: CountView, c: CountView)
    requires
        like_counts(a, b),
        like_counts(b, c),
    ensures
        sum_counts(a, b) == sum_counts(b, a),
        sum_counts(sum_counts(a, b), c) == sum_counts(a, sum_counts(b, c)),
{
    lemma_sum2(a.y_mode, b.y_mode, c.y_mode);
    lemma_sum2(a.uv_mode, b.uv_mode, c.uv_mode);
    lemma_sum2(a.filter, b.filter, c.filter);
    lemma_sum2(a.mv_mode, b.mv_mode, c.mv_mode);
    lemma_sum2(a.intra, b.intra, c.intra);
    lemma_sum2(a.comp, b.comp, c.comp);
    lemma_sum2(a.comp_ref, b.comp_ref, c.comp_ref);
    lemma_sum2(a.tx32p, b.tx32p, c.tx32p);
    lemma_sum2(a.tx16p, b.tx16p, c.tx16p);
    lemma_sum2(a.tx8p, b.tx8p, c.tx8p);
    lemma_sum2(a.skip, b.skip, c.skip);
    lemma_sum3(a.single_ref, b.single_ref, c.single_ref);
    lemma_sum1(a.mv_joint, b.mv_joint, c.mv_joint);
    lemma_sum4(a.partition, b.partition, c.partition);
    lemma_sum6(a.coef, b.coef, c.coef);
    lemma_sum6(a.eob, b.eob, c.eob);
    lemma_sum_mv(a.mv_comp[0], b.mv_comp[0], c.mv_comp[0]);
    lemma_sum_mv(a.mv_comp[1], b.mv_comp[1], c.mv_comp[1]);
    assert(sum_counts(a, b).mv_comp =~= sum_counts(b, a).mv_comp);
    assert(sum_counts(sum_counts(a, b), c).mv_comp =~= sum_counts(a, sum_counts(b, c)).mv_comp);
}

/// `v` brought into `1..=255`.
pub open spec fn clamp_prob(v: int) -> u8 {
    if v < 1 {
        1
    } else if v > 255 {
        255
    } else {
        v as u8
    }
}

/// The probability `p` moved towards the share of zeros among `ct0` zeros and `ct1`
/// ones. The more symbols there are, up to `max_count`, the further it moves; at
/// most by `update_factor` out of 256.
#[verifier::opaque]
pub open spec fn adapt_spec(p: u8, ct0: u32, ct1: u32, max_count: int, update_factor: int) -> u8 {
    let ct = ct0.wrapping_add(ct1);
    if ct == 0 {
        p
    } else {
        let few = if ct < max_count { ct as int } else { max_count };
        let uf = update_factor * few / max_count;
        let share = clamp_prob(((ct0 * 256 + ct / 2) / (ct as int)) as u32 as int);
        clamp_prob(p + ((share - p) * uf + 128) / 256)
    }
}

/// `v / 256`, rounded down.
proof fn lemma_shift8(v: i32)
    ensures
        v >> 8 == v as int / 256,
{
    assert(v >> 8 == v / 256i32) by (bit_vector);
}

fn adapt_prob(p: u8, ct0: u32, ct1: u32, max_count: u32, update_factor: u32) -> (r: u8)
    requires
        0 < max_count <= 24,
        update_factor <= 128,
    ensures
        r == adapt_spec(p, ct0, ct1, max_count as int, update_factor as int),
{
    proof {
        reveal(adapt_spec);
    }
    let ct: u32 = ct0.wrapping_add(ct1);
    if ct == 0 {
        return p;
    }
    let few: u32 = if ct < max_count { ct } else { max_count };
    proof {
        assert(0 <= update_factor * few <= 128 * 24) by (nonlinear_arith)
            requires
                0 <= update_factor <= 128,
                0 <= few <= 24,
        ;
        assert(update_factor * few / (max_count as int) <= update_factor * few)
            by (nonlinear_arith)
            requires
                0 < max_count,
                0 <= update_factor * few,
        ;
        assert(0 <= update_factor * few / (max_count as int)) by (nonlinear_arith)
            requires
                0 < max_count,
                0 <= update_factor * few,
        ;
    }
    let uf: u32 = update_factor * few / max_count;
    let wide: u64 = ct0 as u64 * 256 + ct as u64 / 2;
    let share: u32 = (wide / ct as u64) as u32;
    let share: i32 = if share < 1 {
        1
    } else if share > 255 {
        255
    } else {
        share as i32
    };
    proof {
        assert(-(255 * 3072) <= (share - p) * uf <= 255 * 3072) by (nonlinear_arith)
            requires
                0 <= uf <= 3072,
                1 <= share <= 255,
                0 <= p <= 255,
        ;
    }
    let delta: i32 = (share - p as i32) * uf as i32;
    proof {
        lemma_shift8((delta + 128) as i32);
    }
    let v: i32 = p as i32 + ((delta + 128) >> 8);
    if v < 1 {
        1
    } else if v > 255 {
        255
    } else {
        v as u8
    }
}

/// A probability stays a probability when it is adapted.
pub proof fn law_adapted_prob_is_valid(p: u8, ct0: u32, ct1: u32, max_count: int, update_factor: int)
    requires
        p >= 1,
    ensures
        adapt_spec(p, ct0, ct1, max_count, update_factor) >= 1,
{
    reveal(adapt_spec);
}

/// Without symbols a probability stays as it is.
pub proof fn law_no_counts_no_change(p: u8, max_count: int, update_factor: int)
    ensures
        adapt_spec(p, 0, 0, max_count, update_factor) == p,
{
    reveal(adapt_spec);
}

/// A probability adapted at the usual rate.
pub open spec fn adapt20(p: u8, ct0: u32, ct1: u32) -> u8 {
    adapt_spec(p, ct0, ct1, 20, 128)
}

fn usual(p: u8, ct0: u32, ct1: u32) -> (r: u8)
    ensures
        r == adapt20(p, ct0, ct1),
{
    adapt_prob(p, ct0, ct1, 20, 128)
}

/// Sum of three counts.
pub open spec fn add3(a: u32, b: u32, c: u32) -> u32 {
    a.wrapping_add(b).wrapping_add(c)
}

fn plus3(a: u32, b: u32, c: u32) -> (r: u32)
    ensures
        r == add3(a, b, c),
{
    a.wrapping_add(b).wrapping_add(c)
}

/// Flags adapted by their pairs of counts.
pub open spec fn adapt_flags_spec(p: Seq<u8>, c: Seq<Seq<u32>>) -> Seq<u8> {
    Seq::new(p.len(), |i: int| adapt20(p[i], c[i][0], c[i][1]))
}

fn adapt_flags<const N: usize>(p: &mut [u8; N], c: &[[u32; 2]; N])
    ensures
        final(p)@ == adapt_flags_spec(old(p)@, c.deep_view()),
{
    let ghost p0 = p@;
    let mut i: usize = 0;
    while i < N
        invariant
            i <= N,
            p0.len() == N,
            forall|j: int|
                0 <= j < N ==> #[trigger] p@[j] == (if j < i {
                    adapt20(p0[j], c.deep_view()[j][0], c.deep_view()[j][1])
                } else {
                    p0[j]
                }),
        decreases N - i,
    {
        assert(c.deep_view()[i as int] == c@[i as int].deep_view());
        assert(c@[i as int].deep_view() =~= c@[i as int]@);
        p[i] = usual(p[i], c[i][0], c[i][1]);
        i += 1;
    }
    assert(p@ =~= adapt_flags_spec(p0, c.deep_view()));
}

/// Three symbols, told apart one by one.
pub open spec fn adapt_three_spec(p: Seq<u8>, c: Seq<u32>) -> Seq<u8> {
    seq![
        adapt20(p[0], c[0], c[1].wrapping_add(c[2])),
        adapt20(p[1], c[1], c[2]),
    ]
}

fn adapt_three(p: &[u8; 2], c: &[u32; 3]) -> (r: [u8; 2])
    ensures
        r@ == adapt_three_spec(p@, c@),
{
    let r: [u8; 2] = [
        usual(p[0], c[0], c[1].wrapping_add(c[2])),
        usual(p[1], c[1], c[2]),
    ];
    assert(r@ =~= adapt_three_spec(p@, c@));
    r
}

/// Four symbols, told apart one by one.
pub open spec fn adapt_four_spec(p: Seq<u8>, c: Seq<u32>) -> Seq<u8> {
    seq![
        adapt20(p[0], c[0], add3(c[1], c[2], c[3])),
        adapt20(p[1], c[1], c[2].wrapping_add(c[3])),
        adapt20(p[2], c[2], c[3]),
    ]
}

fn adapt_four(p: &[u8; 3], c: &[u32; 4]) -> (r: [u8; 3])
    ensures
        r@ == adapt_four_spec(p@, c@),
{
    let r: [u8; 3] = [
        usual(p[0], c[0], plus3(c[1], c[2], c[3])),
        usual(p[1], c[1], c[2].wrapping_add(c[3])),
        usual(p[2], c[2], c[3]),
    ];
    assert(r@ =~= adapt_four_spec(p@, c@));
    r
}

/// Inter modes: no motion first, then the nearest vector, then the next.
pub open spec fn adapt_inter_mode_spec(p: Seq<u8>, c: Seq<u32>) -> Seq<u8> {
    seq![
        adapt20(p[0], c[2], add3(c[1], c[0], c[3])),
        adapt20(p[1], c[0], c[1].wrapping_add(c[3])),
        adapt20(p[2], c[1], c[3]),
    ]
}

fn adapt_inter_mode(p: &[u8; 3], c: &[u32; 4]) -> (r: [u8; 3])
    ensures
        r@ == adapt_inter_mode_spec(p@, c@),
{
    let r: [u8; 3] = [
        usual(p[0], c[2], plus3(c[1], c[0], c[3])),
        usual(p[1], c[0], c[1].wrapping_add(c[3])),
        usual(p[2], c[1], c[3]),
    ];
    assert(r@ =~= adapt_inter_mode_spec(p@, c@));
    r
}

/// Motion vector classes.
pub open spec fn adapt_mv_class_spec(p: Seq<u8>, c: Seq<u32>) -> Seq<u8> {
    seq![
        adapt20(p[0], c[0], add3(add3(add3(c[7], c[8], c[9]), c[10], c[6]), add3(c[5], c[4], c[3]), add3(c[2], c[1], 0))),
        adapt20(p[1], c[1], add3(add3(add3(c[7], c[8], c[9]), c[10], c[6]), add3(c[5], c[4], c[3]), c[2])),
        adapt20(p[2], c[2].wrapping_add(c[3]), add3(add3(c[7], c[8], c[9]), c[10], add3(c[6], c[5], c[4]))),
        adapt20(p[3], c[2], c[3]),
        adapt20(p[4], c[4].wrapping_add(c[5]), add3(add3(c[7], c[8], c[9]), c[10], c[6])),
        adapt20(p[5], c[4], c[5]),
        adapt20(p[6], c[6], add3(c[7], c[8], c[9]).wrapping_add(c[10])),
        adapt20(p[7], c[7].wrapping_add(c[8]), c[9].wrapping_add(c[10])),
        adapt20(p[8], c[7], c[8]),
        adapt20(p[9], c[9], c[10]),
    ]
}

fn adapt_mv_class(p: &[u8; 10], c: &[u32; 11]) -> (r: [u8; 10])
    ensures
        r@ == adapt_mv_class_spec(p@, c@),
{
    let r: [u8; 10] = [
        usual(p[0], c[0], plus3(plus3(plus3(c[7], c[8], c[9]), c[10], c[6]), plus3(c[5], c[4], c[3]), plus3(c[2], c[1], 0))),
        usual(p[1], c[1], plus3(plus3(plus3(c[7], c[8], c[9]), c[10], c[6]), plus3(c[5], c[4], c[3]), c[2])),
        usual(p[2], c[2].wrapping_add(c[3]), plus3(plus3(c[7], c[8], c[9]), c[10], plus3(c[6], c[5], c[4]))),
        usual(p[3], c[2], c[3]),
        usual(p[4], c[4].wrapping_add(c[5]), plus3(plus3(c[7], c[8], c[9]), c[10], c[6])),
        usual(p[5], c[4], c[5]),
        usual(p[6], c[6], plus3(c[7], c[8], c[9]).wrapping_add(c[10])),
        usual(p[7], c[7].wrapping_add(c[8]), c[9].wrapping_add(c[10])),
        usual(p[8], c[7], c[8]),
        usual(p[9], c[9], c[10]),
    ];
    assert(r@ =~= adapt_mv_class_spec(p@, c@));
    r
}

/// Intra modes: DC, true motion, vertical, then the other directions in two groups.
pub open spec fn adapt_y_mode_spec(p: Seq<u8>, c: Seq<u32>) -> Seq<u8> {
    seq![
        adapt20(p[0], c[2], add3(add3(add3(c[8], c[6], c[7]), c[3], add3(c[1], c[4], c[5])), c[0], c[9])),
        adapt20(p[1], c[9], add3(add3(c[8], c[6], c[7]), c[3], add3(c[1], c[4], c[5])).wrapping_add(c[0])),
        adapt20(p[2], c[0], add3(add3(c[8], c[6], c[7]), c[3], add3(c[1], c[4], c[5]))),
        adapt20(p[3], add3(c[1], c[4], c[5]), add3(c[8], c[6], c[7]).wrapping_add(c[3])),
        adapt20(p[4], c[1], c[4].wrapping_add(c[5])),
        adapt20(p[5], c[4], c[5]),
        adapt20(p[6], c[3], add3(c[8], c[6], c[7])),
        adapt20(p[7], c[7], c[8].wrapping_add(c[6])),
        adapt20(p[8], c[6], c[8]),
    ]
}

fn adapt_y_mode(p: &[u8; 9], c: &[u32; 10]) -> (r: [u8; 9])
    ensures
        r@ == adapt_y_mode_spec(p@, c@),
{
    let r: [u8; 9] = [
        usual(p[0], c[2], plus3(plus3(plus3(c[8], c[6], c[7]), c[3], plus3(c[1], c[4], c[5])), c[0], c[9])),
        usual(p[1], c[9], plus3(plus3(c[8], c[6], c[7]), c[3], plus3(c[1], c[4], c[5])).wrapping_add(c[0])),
        usual(p[2], c[0], plus3(plus3(c[8], c[6], c[7]), c[3], plus3(c[1], c[4], c[5]))),
        usual(p[3], plus3(c[1], c[4], c[5]), plus3(c[8], c[6], c[7]).wrapping_add(c[3])),
        usual(p[4], c[1], c[4].wrapping_add(c[5])),
        usual(p[5], c[4], c[5]),
        usual(p[6], c[3], plus3(c[8], c[6], c[7])),
        usual(p[7], c[7], c[8].wrapping_add(c[6])),
        usual(p[8], c[6], c[8]),
    ];
    assert(r@ =~= adapt_y_mode_spec(p@, c@));
    r
}

/// Rows of probabilities adapted one by one.
pub open spec fn adapt_threes_spec(p: Seq<Seq<u8>>, c: Seq<Seq<u32>>) -> Seq<Seq<u8>> {
    Seq::new(p.len(), |i: int| adapt_three_spec(p[i], c[i]))
}

fn adapt_threes<const N: usize>(p: &mut [[u8; 2]; N], c: &[[u32; 3]; N])
    ensures
        final(p).deep_view() == adapt_threes_spec(old(p).deep_view(), c.deep_view()),
{
    let ghost p0 = p.deep_view();
    let mut i: usize = 0;
    while i < N
        invariant
            i <= N,
            p0.len() == N,
            forall|j: int|
                0 <= j < N ==> #[trigger] p.deep_view()[j] == (if j < i {
                    adapt_three_spec(p0[j], c.deep_view()[j])
                } else {
                    p0[j]
                }),
        decreases N - i,
    {
        let ghost before = p.deep_view();
        assert(before[i as int] == p@[i as int].deep_view());
        assert(p@[i as int].deep_view() =~= p@[i as int]@);
        assert(c.deep_view()[i as int] == c@[i as int].deep_view());
        assert(c@[i as int].deep_view() =~= c@[i as int]@);
        let row: [u8; 2] = adapt_three(&p[i], &c[i]);
        p[i] = row;
        assert(row.deep_view() =~= row@);
        assert(p.deep_view() =~= before.update(i as int, row.deep_view()));
        i += 1;
    }
    assert(p.deep_view() =~= adapt_threes_spec(p0, c.deep_view()));
}

/// Rows of probabilities adapted one by one.
pub open spec fn adapt_fours_spec(p: Seq<Seq<u8>>, c: Seq<Seq<u32>>) -> Seq<Seq<u8>> {
    Seq::new(p.len(), |i: int| adapt_four_spec(p[i], c[i]))
}

fn adapt_fours<const N: usize>(p: &mut [[u8; 3]; N], c: &[[u32; 4]; N])
    ensures
        final(p).deep_view() == adapt_fours_spec(old(p).deep_view(), c.deep_view()),
{
    let ghost p0 = p.deep_view();
    let mut i: usize = 0;
    while i < N
        invariant
            i <= N,
            p0.len() == N,
            forall|j: int|
                0 <= j < N ==> #[trigger] p.deep_view()[j] == (if j < i {
                    adapt_four_spec(p0[j], c.deep_view()[j])
                } else {
                    p0[j]
                }),
        decreases N - i,
    {
        let ghost before = p.deep_view();
        assert(before[i as int] == p@[i as int].deep_view());
        assert(p@[i as int].deep_view() =~= p@[i as int]@);
        assert(c.deep_view()[i as int] == c@[i as int].deep_view());
        assert(c@[i as int].deep_view() =~= c@[i as int]@);
        let row: [u8; 3] = adapt_four(&p[i], &c[i]);
        p[i] = row;
        assert(row.deep_view() =~= row@);
        assert(p.deep_view() =~= before.update(i as int, row.deep_view()));
        i += 1;
    }
    assert(p.deep_view() =~= adapt_fours_spec(p0, c.deep_view()));
}

/// Rows of probabilities adapted one by one.
pub open spec fn adapt_inter_modes_spec(p: Seq<Seq<u8>>, c: Seq<Seq<u32>>) -> Seq<Seq<u8>> {
    Seq::new(p.len(), |i: int| adapt_inter_mode_spec(p[i], c[i]))
}

fn adapt_inter_modes<const N: usize>(p: &mut [[u8; 3]; N], c: &[[u32; 4]; N])
    ensures
        final(p).deep_view() == adapt_inter_modes_spec(old(p).deep_view(), c.deep_view()),
{
    let ghost p0 = p.deep_view();
    let mut i: usize = 0;
    while i < N
        invariant
            i <= N,
            p0.len() == N,
            forall|j: int|
                0 <= j < N ==> #[trigger] p.deep_view()[j] == (if j < i {
                    adapt_inter_mode_spec(p0[j], c.deep_view()[j])
                } else {
                    p0[j]
                }),
        decreases N - i,
    {
        let ghost before = p.deep_view();
        assert(before[i as int] == p@[i as int].deep_view());
        assert(p@[i as int].deep_view() =~= p@[i as int]@);
        assert(c.deep_view()[i as int] == c@[i as int].deep_view());
        assert(c@[i as int].deep_view() =~= c@[i as int]@);
        let row: [u8; 3] = adapt_inter_mode(&p[i], &c[i]);
        p[i] = row;
        assert(row.deep_view() =~= row@);
        assert(p.deep_view() =~= before.update(i as int, row.deep_view()));
        i += 1;
    }
    assert(p.deep_view() =~= adapt_inter_modes_spec(p0, c.deep_view()));
}

/// Rows of probabilities adapted one by one.
pub open spec fn adapt_y_modes_spec(p: Seq<Seq<u8>>, c: Seq<Seq<u32>>) -> Seq<Seq<u8>> {
    Seq::new(p.len(), |i: int| adapt_y_mode_spec(p[i], c[i]))
}

fn adapt_y_modes<const N: usize>(p: &mut [[u8; 9]; N], c: &[[u32; 10]; N])
    ensures
        final(p).deep_view() == adapt_y_modes_spec(old(p).deep_view(), c.deep_view()),
{
    let ghost p0 = p.deep_view();
    let mut i: usize = 0;
    while i < N
        invariant
            i <= N,
            p0.len() == N,
            forall|j: int|
                0 <= j < N ==> #[trigger] p.deep_view()[j] == (if j < i {
                    adapt_y_mode_spec(p0[j], c.deep_view()[j])
                } else {
                    p0[j]
                }),
        decreases N - i,
    {
        let ghost before = p.deep_view();
        assert(before[i as int] == p@[i as int].deep_view());
        assert(p@[i as int].deep_view() =~= p@[i as int]@);
        assert(c.deep_view()[i as int] == c@[i as int].deep_view());
        assert(c@[i as int].deep_view() =~= c@[i as int]@);
        let row: [u8; 9] = adapt_y_mode(&p[i], &c[i]);
        p[i] = row;
        assert(row.deep_view() =~= row@);
        assert(p.deep_view() =~= before.update(i as int, row.deep_view()));
        i += 1;
    }
    assert(p.deep_view() =~= adapt_y_modes_spec(p0, c.deep_view()));
}

/// Single references adapted: two flags by context.
pub open spec fn adapt_refs_spec(p: Seq<Seq<u8>>, c: Seq<Seq<Seq<u32>>>) -> Seq<Seq<u8>> {
    Seq::new(p.len(), |i: int| adapt_flags_spec(p[i], c[i]))
}

fn adapt_refs(p: &mut [[u8; 2]; 5], c: &[[[u32; 2]; 2]; 5])
    ensures
        final(p).deep_view() == adapt_refs_spec(old(p).deep_view(), c.deep_view()),
{
    let ghost p0 = p.deep_view();
    let mut i: usize = 0;
    while i < 5
        invariant
            i <= 5,
            p0.len() == 5,
            forall|j: int|
                0 <= j < 5 ==> #[trigger] p.deep_view()[j] == (if j < i {
                    adapt_flags_spec(p0[j], c.deep_view()[j])
                } else {
                    p0[j]
                }),
        decreases 5 - i,
    {
        let ghost before = p.deep_view();
        assert(before[i as int] == p@[i as int].deep_view());
        assert(p@[i as int].deep_view() =~= p@[i as int]@);
        assert(c.deep_view()[i as int] == c@[i as int].deep_view());
        let mut row: [u8; 2] = p[i];
        adapt_flags(&mut row, &c[i]);
        p[i] = row;
        assert(row.deep_view() =~= row@);
        assert(p.deep_view() =~= before.update(i as int, row.deep_view()));
        i += 1;
    }
    assert(p.deep_view() =~= adapt_refs_spec(p0, c.deep_view()));
}

/// Partitions adapted. The counts have one index for the above and left bits
/// together; entries beyond the first two of either bit are not in use.
pub open spec fn adapt_partition_spec(
    p: Seq<Seq<Seq<Seq<u8>>>>,
    c: Seq<Seq<Seq<Seq<u32>>>>,
) -> Seq<Seq<Seq<Seq<u8>>>> {
    Seq::new(4, |i: int| adapt_level_spec(p[i], c[0][i]))
}

/// The partitions of one level adapted.
pub open spec fn adapt_level_spec(p: Seq<Seq<Seq<u8>>>, c: Seq<Seq<u32>>) -> Seq<Seq<Seq<u8>>> {
    Seq::new(
        4,
        |a: int|
            if a < 2 {
                Seq::new(
                    4,
                    |l: int| if l < 2 { adapt_four_spec(p[a][l], c[a + 2 * l]) } else { p[a][l] },
                )
            } else {
                p[a]
            },
    )
}

#[verifier::rlimit(100)]
fn adapt_level(p: &mut [[[u8; 3]; 4]; 4], c: &[[u32; 4]; 4])
    ensures
        final(p).deep_view() == adapt_level_spec(old(p).deep_view(), c.deep_view()),
{
    let ghost p0 = p.deep_view();
    let ghost cv = c.deep_view();
    let ghost q0 = p@;
    let r00: [u8; 3] = adapt_four(&p[0][0], &c[0]);
    let r10: [u8; 3] = adapt_four(&p[1][0], &c[1]);
    let r01: [u8; 3] = adapt_four(&p[0][1], &c[2]);
    let r11: [u8; 3] = adapt_four(&p[1][1], &c[3]);
    proof {
        assert(q0[0]@[0].deep_view() =~= q0[0]@[0]@);
        assert(q0[1]@[0].deep_view() =~= q0[1]@[0]@);
        assert(q0[0]@[1].deep_view() =~= q0[0]@[1]@);
        assert(q0[1]@[1].deep_view() =~= q0[1]@[1]@);
        assert(c@[0].deep_view() =~= c@[0]@);
        assert(c@[1].deep_view() =~= c@[1]@);
        assert(c@[2].deep_view() =~= c@[2]@);
        assert(c@[3].deep_view() =~= c@[3]@);
        assert(p0[0][0] == q0[0]@[0].deep_view());
        assert(p0[1][0] == q0[1]@[0].deep_view());
        assert(p0[0][1] == q0[0]@[1].deep_view());
        assert(p0[1][1] == q0[1]@[1].deep_view());
        assert(r00.deep_view() =~= r00@);
        assert(r10.deep_view() =~= r10@);
        assert(r01.deep_view() =~= r01@);
        assert(r11.deep_view() =~= r11@);
    }
    p[0] = [r00, r01, p[0][2], p[0][3]];
    p[1] = [r10, r11, p[1][2], p[1][3]];
    proof {
        let want = adapt_level_spec(p0, cv);
        assert(p@[0].deep_view() =~= want[0]);
        assert(p@[1].deep_view() =~= want[1]);
        assert(p@[2].deep_view() =~= want[2]);
        assert(p@[3].deep_view() =~= want[3]);
        assert(p.deep_view() =~= want);
    }
}

fn adapt_partition(p: &mut [[[[u8; 3]; 4]; 4]; 4], c: &[[[[u32; 4]; 4]; 4]; 1])
    ensures
        final(p).deep_view() == adapt_partition_spec(old(p).deep_view(), c.deep_view()),
{
    let ghost p0 = p.deep_view();
    let mut i: usize = 0;
    while i < 4
        invariant
            i <= 4,
            p0.len() == 4,
            forall|j: int|
                0 <= j < 4 ==> #[trigger] p.deep_view()[j] == (if j < i {
                    adapt_level_spec(p0[j], c.deep_view()[0][j])
                } else {
                    p0[j]
                }),
        decreases 4 - i,
    {
        let ghost before = p.deep_view();
        assert(before[i as int] == p@[i as int].deep_view());
        assert(c.deep_view()[0] == c@[0].deep_view());
        assert(c.deep_view()[0][i as int] == c@[0]@[i as int].deep_view());
        let mut level: [[[u8; 3]; 4]; 4] = p[i];
        adapt_level(&mut level, &c[0][i]);
        p[i] = level;
        assert(p.deep_view() =~= before.update(i as int, level.deep_view()));
        i += 1;
    }
    assert(p.deep_view() =~= adapt_partition_spec(p0, c.deep_view()));
}

/// A motion vector component adapted.
pub open spec fn adapt_mv_spec(p: MvCompView, c: MvCountView, high_precision: bool) -> MvCompView {
    MvCompView {
        sign: adapt20(p.sign, c.sign[0], c.sign[1]),
        classes: adapt_mv_class_spec(p.classes, c.classes),
        class0: adapt20(p.class0, c.class0[0], c.class0[1]),
        bits: adapt_flags_spec(p.bits, c.bits),
        class0_fp: adapt_fours_spec(p.class0_fp, c.class0_fp),
        fp: adapt_four_spec(p.fp, c.fp),
        class0_hp: if high_precision {
            adapt20(p.class0_hp, c.class0_hp[0], c.class0_hp[1])
        } else {
            p.class0_hp
        },
        hp: if high_precision { adapt20(p.hp, c.hp[0], c.hp[1]) } else { p.hp },
    }
}

fn adapt_mv_comp(p: &mut MvCompProbs, c: &MvCompCounts, highprecisionmvs: bool)
    ensures
        final(p)@ == adapt_mv_spec(old(p)@, c@, highprecisionmvs),
{
    p.sign = usual(p.sign, c.sign[0], c.sign[1]);
    p.classes = adapt_mv_class(&p.classes, &c.classes);
    p.class0 = usual(p.class0, c.class0[0], c.class0[1]);
    adapt_flags(&mut p.bits, &c.bits);
    adapt_fours(&mut p.class0_fp, &c.class0_fp);
    p.fp = adapt_four(&p.fp, &c.fp);
    if highprecisionmvs {
        p.class0_hp = usual(p.class0_hp, c.class0_hp[0], c.class0_hp[1]);
        p.hp = usual(p.hp, c.hp[0], c.hp[1]);
    }
    assert(p@ =~= adapt_mv_spec(old(p)@, c@, highprecisionmvs));
}

/// The coefficient probabilities of one context adapted: whether the block goes on,
/// then no token, one or more.
pub open spec fn adapt_coef_row_spec(p: Seq<u8>, c: Seq<u32>, e: Seq<u32>, uf: int) -> Seq<u8> {
    seq![
        adapt_spec(p[0], e[0], e[1], 24, uf),
        adapt_spec(p[1], c[0], c[1].wrapping_add(c[2]), 24, uf),
        adapt_spec(p[2], c[1], c[2], 24, uf),
    ]
}

fn adapt_coef_row(p: &[u8; 3], c: &[u32; 3], e: &[u32; 2], uf: u32) -> (r: [u8; 3])
    requires
        uf <= 128,
    ensures
        r@ == adapt_coef_row_spec(p@, c@, e@, uf as int),
{
    let r: [u8; 3] = [
        adapt_prob(p[0], e[0], e[1], 24, uf),
        adapt_prob(p[1], c[0], c[1].wrapping_add(c[2]), 24, uf),
        adapt_prob(p[2], c[1], c[2], 24, uf),
    ];
    assert(r@ =~= adapt_coef_row_spec(p@, c@, e@, uf as int));
    r
}

/// The first `n` contexts of a band adapted.
pub open spec fn adapt_band_spec(
    p: Seq<Seq<u8>>,
    c: Seq<Seq<u32>>,
    e: Seq<Seq<u32>>,
    n: int,
    uf: int,
) -> Seq<Seq<u8>> {
    Seq::new(
        p.len(),
        |m: int| if m < n { adapt_coef_row_spec(p[m], c[m], e[m], uf) } else { p[m] },
    )
}

fn adapt_band(p: &mut [[u8; 3]; 6], c: &[[u32; 3]; 6], e: &[[u32; 2]; 6], n: usize, uf: u32)
    requires
        n <= 6,
        uf <= 128,
    ensures
        final(p).deep_view() == adapt_band_spec(
            old(p).deep_view(),
            c.deep_view(),
            e.deep_view(),
            n as int,
            uf as int,
        ),
{
    let ghost p0 = p.deep_view();
    let mut i: usize = 0;
    while i < n
        invariant
            i <= n <= 6,
            uf <= 128,
            p0.len() == 6,
            forall|j: int|
                0 <= j < 6 ==> #[trigger] p.deep_view()[j] == (if j < i {
                    adapt_coef_row_spec(p0[j], c.deep_view()[j], e.deep_view()[j], uf as int)
                } else {
                    p0[j]
                }),
        decreases n - i,
    {
        let ghost before = p.deep_view();
        assert(before[i as int] == p@[i as int].deep_view());
        assert(p@[i as int].deep_view() =~= p@[i as int]@);
        assert(c.deep_view()[i as int] == c@[i as int].deep_view());
        assert(c@[i as int].deep_view() =~= c@[i as int]@);
        assert(e.deep_view()[i as int] == e@[i as int].deep_view());
        assert(e@[i as int].deep_view() =~= e@[i as int]@);
        let row: [u8; 3] = adapt_coef_row(&p[i], &c[i], &e[i], uf);
        p[i] = row;
        assert(row.deep_view() =~= row@);
        assert(p.deep_view() =~= before.update(i as int, row.deep_view()));
        i += 1;
    }
    assert(p.deep_view() =~= adapt_band_spec(p0, c.deep_view(), e.deep_view(), n as int, uf as int));
}

/// The bands of one kind of block adapted. The first band has three contexts.
pub open spec fn adapt_coef_block_spec(
    p: Seq<Seq<Seq<u8>>>,
    c: Seq<Seq<Seq<u32>>>,
    e: Seq<Seq<Seq<u32>>>,
    uf: int,
) -> Seq<Seq<Seq<u8>>> {
    Seq::new(p.len(), |i: int| adapt_band_spec(p[i], c[i], e[i], crate::vp9::compressed::band_contexts(i), uf))
}

fn adapt_coef_block(
    p: &mut [[[u8; 3]; 6]; 6],
    c: &[[[u32; 3]; 6]; 6],
    e: &[[[u32; 2]; 6]; 6],
    uf: u32,
)
    requires
        uf <= 128,
    ensures
        final(p).deep_view() == adapt_coef_block_spec(
            old(p).deep_view(),
            c.deep_view(),
            e.deep_view(),
            uf as int,
        ),
{
    let ghost p0 = p.deep_view();
    let mut i: usize = 0;
    while i < 6
        invariant
            i <= 6,
            uf <= 128,
            p0.len() == 6,
            forall|j: int|
                0 <= j < 6 ==> #[trigger] p.deep_view()[j] == (if j < i {
                    adapt_band_spec(
                        p0[j],
                        c.deep_view()[j],
                        e.deep_view()[j],
                        crate::vp9::compressed::band_contexts(j),
                        uf as int,
                    )
                } else {
                    p0[j]
                }),
        decreases 6 - i,
    {
        let ghost before = p.deep_view();
        assert(before[i as int] == p@[i as int].deep_view());
        assert(c.deep_view()[i as int] == c@[i as int].deep_view());
        assert(e.deep_view()[i as int] == e@[i as int].deep_view());
        let k: usize = if i == 0 { 3 } else { 6 };
        adapt_band(&mut p[i], &c[i], &e[i], k, uf);
        assert(p.deep_view() =~= before.update(i as int, p@[i as int].deep_view()));
        i += 1;
    }
    assert(p.deep_view() =~= adapt_coef_block_spec(p0, c.deep_view(), e.deep_view(), uf as int));
}

/// One plane type adapted.
pub open spec fn adapt_coef_plane_spec(
    p: Seq<Seq<Seq<Seq<u8>>>>,
    c: Seq<Seq<Seq<Seq<u32>>>>,
    e: Seq<Seq<Seq<Seq<u32>>>>,
    uf: int,
) -> Seq<Seq<Seq<Seq<u8>>>> {
    Seq::new(p.len(), |i: int| adapt_coef_block_spec(p[i], c[i], e[i], uf))
}

fn adapt_coef_plane(
    p: &mut [[[[u8; 3]; 6]; 6]; 2],
    c: &[[[[u32; 3]; 6]; 6]; 2],
    e: &[[[[u32; 2]; 6]; 6]; 2],
    uf: u32,
)
    requires
        uf <= 128,
    ensures
        final(p).deep_view() == adapt_coef_plane_spec(
            old(p).deep_view(),
            c.deep_view(),
            e.deep_view(),
            uf as int,
        ),
{
    let ghost p0 = p.deep_view();
    let mut i: usize = 0;
    while i < 2
        invariant
            i <= 2,
            uf <= 128,
            p0.len() == 2,
            forall|j: int|
                0 <= j < 2 ==> #[trigger] p.deep_view()[j] == (if j < i {
                    adapt_coef_block_spec(p0[j], c.deep_view()[j], e.deep_view()[j], uf as int)
                } else {
                    p0[j]
                }),
        decreases 2 - i,
    {
        let ghost before = p.deep_view();
        assert(before[i as int] == p@[i as int].deep_view());
        assert(c.deep_view()[i as int] == c@[i as int].deep_view());
        assert(e.deep_view()[i as int] == e@[i as int].deep_view());
        adapt_coef_block(&mut p[i], &c[i], &e[i], uf);
        assert(p.deep_view() =~= before.update(i as int, p@[i as int].deep_view()));
        i += 1;
    }
    assert(p.deep_view() =~= adapt_coef_plane_spec(p0, c.deep_view(), e.deep_view(), uf as int));
}

/// One transform size adapted.
pub open spec fn adapt_coef_size_spec(
    p: Seq<Seq<Seq<Seq<Seq<u8>>>>>,
    c: Seq<Seq<Seq<Seq<Seq<u32>>>>>,
    e: Seq<Seq<Seq<Seq<Seq<u32>>>>>,
    uf: int,
) -> Seq<Seq<Seq<Seq<Seq<u8>>>>> {
    Seq::new(p.len(), |i: int| adapt_coef_plane_spec(p[i], c[i], e[i], uf))
}

fn adapt_coef_size(
    p: &mut [[[[[u8; 3]; 6]; 6]; 2]; 2],
    c: &[[[[[u32; 3]; 6]; 6]; 2]; 2],
    e: &[[[[[u32; 2]; 6]; 6]; 2]; 2],
    uf: u32,
)
    requires
        uf <= 128,
    ensures
        final(p).deep_view() == adapt_coef_size_spec(
            old(p).deep_view(),
            c.deep_view(),
            e.deep_view(),
            uf as int,
        ),
{
    let ghost p0 = p.deep_view();
    let mut i: usize = 0;
    while i < 2
        invariant
            i <= 2,
            uf <= 128,
            p0.len() == 2,
            forall|j: int|
                0 <= j < 2 ==> #[trigger] p.deep_view()[j] == (if j < i {
                    adapt_coef_plane_spec(p0[j], c.deep_view()[j], e.deep_view()[j], uf as int)
                } else {
                    p0[j]
                }),
        decreases 2 - i,
    {
        let ghost before = p.deep_view();
        assert(before[i as int] == p@[i as int].deep_view());
        assert(c.deep_view()[i as int] == c@[i as int].deep_view());
        assert(e.deep_view()[i as int] == e@[i as int].deep_view());
        adapt_coef_plane(&mut p[i], &c[i], &e[i], uf);
        assert(p.deep_view() =~= before.update(i as int, p@[i as int].deep_view()));
        i += 1;
    }
    assert(p.deep_view() =~= adapt_coef_size_spec(p0, c.deep_view(), e.deep_view(), uf as int));
}

/// All coefficient probabilities adapted.
pub open spec fn adapt_coefs_spec(
    p: Seq<Seq<Seq<Seq<Seq<Seq<u8>>>>>>,
    c: Seq<Seq<Seq<Seq<Seq<Seq<u32>>>>>>,
    e: Seq<Seq<Seq<Seq<Seq<Seq<u32>>>>>>,
    uf: int,
) -> Seq<Seq<Seq<Seq<Seq<Seq<u8>>>>>> {
    Seq::new(p.len(), |i: int| adapt_coef_size_spec(p[i], c[i], e[i], uf))
}

fn adapt_coefs(
    p: &mut [[[[[[u8; 3]; 6]; 6]; 2]; 2]; 4],
    c: &[[[[[[u32; 3]; 6]; 6]; 2]; 2]; 4],
    e: &[[[[[[u32; 2]; 6]; 6]; 2]; 2]; 4],
    uf: u32,
)
    requires
        uf <= 128,
    ensures
        final(p).deep_view() == adapt_coefs_spec(
            old(p).deep_view(),
            c.deep_view(),
            e.deep_view(),
            uf as int,
        ),
{
    let ghost p0 = p.deep_view();
    let mut i: usize = 0;
    while i < 4
        invariant
            i <= 4,
            uf <= 128,
            p0.len() == 4,
            forall|j: int|
                0 <= j < 4 ==> #[trigger] p.deep_view()[j] == (if j < i {
                    adapt_coef_size_spec(p0[j], c.deep_view()[j], e.deep_view()[j], uf as int)
                } else {
                    p0[j]
                }),
        decreases 4 - i,
    {
        let ghost before = p.deep_view();
        assert(before[i as int] == p@[i as int].deep_view());
        assert(c.deep_view()[i as int] == c@[i as int].deep_view());
        assert(e.deep_view()[i as int] == e@[i as int].deep_view());
        adapt_coef_size(&mut p[i], &c[i], &e[i], uf);
        assert(p.deep_view() =~= before.update(i as int, p@[i as int].deep_view()));
        i += 1;
    }
    assert(p.deep_view() =~= adapt_coefs_spec(p0, c.deep_view(), e.deep_view(), uf as int));
}

/// The probabilities of a frame with references adapted.
pub open spec fn adapt_inter_spec(
    p: ProbView,
    c: CountView,
    high_precision: bool,
    switchable_filter: bool,
    switchable_tx: bool,
    comp: CompPredMode,
) -> ProbView {
    ProbView {
        y_mode: adapt_y_modes_spec(p.y_mode, c.y_mode),
        uv_mode: adapt_y_modes_spec(p.uv_mode, c.uv_mode),
        filter: if switchable_filter { adapt_threes_spec(p.filter, c.filter) } else { p.filter },
        mv_mode: adapt_inter_modes_spec(p.mv_mode, c.mv_mode),
        intra: adapt_flags_spec(p.intra, c.intra),
        comp: if comp == CompPredMode::Switchable {
            adapt_flags_spec(p.comp, c.comp)
        } else {
            p.comp
        },
        single_ref: if comp != CompPredMode::CompRef {
            adapt_refs_spec(p.single_ref, c.single_ref)
        } else {
            p.single_ref
        },
        comp_ref: if comp != CompPredMode::SingleRef {
            adapt_flags_spec(p.comp_ref, c.comp_ref)
        } else {
            p.comp_ref
        },
        tx32p: if switchable_tx { adapt_fours_spec(p.tx32p, c.tx32p) } else { p.tx32p },
        tx16p: if switchable_tx { adapt_threes_spec(p.tx16p, c.tx16p) } else { p.tx16p },
        tx8p: if switchable_tx { adapt_flags_spec(p.tx8p, c.tx8p) } else { p.tx8p },
        skip: adapt_flags_spec(p.skip, c.skip),
        mv_joint: adapt_four_spec(p.mv_joint, c.mv_joint),
        mv_comp: seq![
            adapt_mv_spec(p.mv_comp[0], c.mv_comp[0], high_precision),
            adapt_mv_spec(p.mv_comp[1], c.mv_comp[1], high_precision),
        ],
        partition: adapt_partition_spec(p.partition, c.partition),
    }
}

/// The rate at which the coefficient probabilities are adapted.
pub open spec fn coef_update_factor(intra: bool, last_was_keyframe: bool) -> int {
    if intra || !last_was_keyframe {
        112
    } else {
        128
    }
}

/// Adapts the probabilities of a frame by the symbols that were counted in it.
///
/// The coefficient probabilities are always adapted, the others only in a frame
/// with references: the filter and transform size probabilities where these are
/// coded for each block, the reference probabilities as the compound prediction
/// mode uses them.
#[verifier::rlimit(100)]
pub fn adapt_probs(
    prob: &mut ProbContext,
    coef: &mut CoefProbArray,
    counts: &CountContext,
    keyframe_or_intraonly: bool,
    last_was_keyframe: bool,
    highprecisionmvs: bool,
    filtermode_switchable: bool,
    txfm_switchable: bool,
    comppredmode: CompPredMode,
)
    ensures
        final(coef).deep_view() == adapt_coefs_spec(
            old(coef).deep_view(),
            counts@.coef,
            counts@.eob,
            coef_update_factor(keyframe_or_intraonly, last_was_keyframe),
        ),
        keyframe_or_intraonly ==> *final(prob) == *old(prob),
        !keyframe_or_intraonly ==> final(prob)@ == adapt_inter_spec(
            old(prob)@,
            counts@,
            highprecisionmvs,
            filtermode_switchable,
            txfm_switchable,
            comppredmode,
        ),
{
    let uf: u32 = if keyframe_or_intraonly || !last_was_keyframe { 112 } else { 128 };
    adapt_coefs(coef, &counts.coef, &counts.eob, uf);
    if keyframe_or_intraonly {
        return ;
    }
    adapt_flags(&mut prob.skip, &counts.skip);
    adapt_flags(&mut prob.intra, &counts.intra);
    if matches!(comppredmode, CompPredMode::Switchable) {
        adapt_flags(&mut prob.comp, &counts.comp);
    }
    if !matches!(comppredmode, CompPredMode::SingleRef) {
        adapt_flags(&mut prob.comp_ref, &counts.comp_ref);
    }
    if !matches!(comppredmode, CompPredMode::CompRef) {
        adapt_refs(&mut prob.single_ref, &counts.single_ref);
    }
    adapt_partition(&mut prob.partition, &counts.partition);
    if txfm_switchable {
        adapt_flags(&mut prob.tx8p, &counts.tx8p);
        adapt_threes(&mut prob.tx16p, &counts.tx16p);
        adapt_fours(&mut prob.tx32p, &counts.tx32p);
    }
    if filtermode_switchable {
        adapt_threes(&mut prob.filter, &counts.filter);
    }
    adapt_inter_modes(&mut prob.mv_mode, &counts.mv_mode);
    prob.mv_joint = adapt_four(&prob.mv_joint, &counts.mv_joint);
    let mut a: MvCompProbs = prob.mv_comp[0];
    let mut b: MvCompProbs = prob.mv_comp[1];
    adapt_mv_comp(&mut a, &counts.mv_comp[0], highprecisionmvs);
    adapt_mv_comp(&mut b, &counts.mv_comp[1], highprecisionmvs);
    prob.mv_comp = [a, b];
    assert(prob@.mv_comp =~= seq![a@, b@]);
    adapt_y_modes(&mut prob.y_mode, &counts.y_mode);
    adapt_y_modes(&mut prob.uv_mode, &counts.uv_mode);
    assert(prob@ =~= adapt_inter_spec(
        old(prob)@,
        counts@,
        highprecisionmvs,
        filtermode_switchable,
        txfm_switchable,
        comppredmode,
    ));
}

} // verus!

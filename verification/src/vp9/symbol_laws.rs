//! Symbols and motion vectors that are written are read back.
use vstd::prelude::*;

use crate::vp9::block::partition_of;
use crate::vp9::bool_decoder::Rac;
use crate::vp9::coef_laws::{behind, lemma_reads_one, lemma_reads_parts, reads, two_to, Decision};
use crate::vp9::data::{
    FILTER_TREE, INTER_MODE_TREE, INTRAMODE_TREE, MV_CLASS_TREE, MV_FP_TREE, MV_JOINT_TREE,
    PARTITION_TREE, SEGMENTATION_TREE,
};
use crate::vp9::mvs::{add_difference_spec, mv_component_spec};
use crate::vp9::prob::{CountView, MvCountView};
use crate::vp9::types::{BlockPartition, IntraMode, MvCompProbs, ProbContext};

verus! {

/// The code of one of four symbols: as many decisions for going on as its number, then one for stopping
/// but for the last.
pub open spec fn unary_code(v: int, p: Seq<u8>) -> Seq<Decision> {
    if v == 0 {
        seq![(p[0], false)]
    } else if v == 1 {
        seq![(p[0], true), (p[1], false)]
    } else if v == 2 {
        seq![(p[0], true), (p[1], true), (p[2], false)]
    } else {
        seq![(p[0], true), (p[1], true), (p[2], true)]
    }
}

/// How a block is divided is read back.
pub proof fn law_partition_is_read_back(rac: Rac, v: int, p: Seq<u8>)
    requires
        0 <= v < 4,
        reads(rac, unary_code(v, p)),
    ensures
        rac.symbol(PARTITION_TREE@, p) == v,
        rac.after_symbol(PARTITION_TREE@, p) == behind(rac, unary_code(v, p)),
        partition_of(v) == (if v == 0 {
            BlockPartition::Whole
        } else if v == 1 {
            BlockPartition::H
        } else if v == 2 {
            BlockPartition::V
        } else {
            BlockPartition::Split
        }),
{
    reveal_with_fuel(reads, 4);
    reveal_with_fuel(behind, 4);
    reveal_with_fuel(Rac::walk, 4);
}

/// Which components a motion vector's difference has, and its quarter pixels, are read back.
pub proof fn law_joint_is_read_back(rac: Rac, v: int, p: Seq<u8>)
    requires
        0 <= v < 4,
        reads(rac, unary_code(v, p)),
    ensures
        rac.symbol(MV_JOINT_TREE@, p) == v,
        rac.after_symbol(MV_JOINT_TREE@, p) == behind(rac, unary_code(v, p)),
        rac.symbol(MV_FP_TREE@, p) == v,
        rac.after_symbol(MV_FP_TREE@, p) == behind(rac, unary_code(v, p)),
{
    reveal_with_fuel(reads, 4);
    reveal_with_fuel(behind, 4);
    reveal_with_fuel(Rac::walk, 4);
}

/// The mode of an inter block is read back: no motion has the shortest code, then come the nearest
/// vector, the next one and a coded one.
pub proof fn law_inter_mode_is_read_back(rac: Rac, v: int, p: Seq<u8>)
    requires
        0 <= v < 4,
        reads(rac, unary_code(v, p)),
    ensures
        rac.symbol(INTER_MODE_TREE@, p) == (if v == 0 {
            12
        } else if v == 1 {
            10
        } else if v == 2 {
            11
        } else {
            13int
        }),
        rac.after_symbol(INTER_MODE_TREE@, p) == behind(rac, unary_code(v, p)),
{
    reveal_with_fuel(reads, 4);
    reveal_with_fuel(behind, 4);
    reveal_with_fuel(Rac::walk, 4);
}

/// The number of a filter is read back.
pub proof fn law_filter_is_read_back(rac: Rac, v: int, p: Seq<u8>)
    requires
        0 <= v < 3,
        reads(rac, if v == 0 {
            seq![(p[0], false)]
        } else {
            seq![(p[0], true), (p[1], v == 2)]
        }),
    ensures
        rac.symbol(FILTER_TREE@, p) == v,
{
    reveal_with_fuel(reads, 4);
    reveal_with_fuel(Rac::walk, 4);
}

/// The number of a segment is read back: three digits, the highest first, the probability of a digit
/// chosen by those before it.
pub proof fn law_segment_is_read_back(rac: Rac, v: int, p: Seq<u8>)
    requires
        0 <= v < 8,
        reads(rac, seq![(p[0], v >= 4), (p[1 + v / 4], (v / 2) % 2 == 1), (p[3 + v / 2], v % 2 == 1)]),
    ensures
        rac.symbol(SEGMENTATION_TREE@, p) == v,
{
    reveal_with_fuel(reads, 4);
    reveal_with_fuel(Rac::walk, 4);
}

/// The code of an intra mode.
pub open spec fn intra_mode_code(m: IntraMode, p: Seq<u8>) -> Seq<Decision> {
    match m {
        IntraMode::DcPred => seq![(p[0], false)],
        IntraMode::TmVp8Pred => seq![(p[0], true), (p[1], false)],
        IntraMode::VertPred => seq![(p[0], true), (p[1], true), (p[2], false)],
        IntraMode::HorPred => seq![
            (p[0], true),
            (p[1], true),
            (p[2], true),
            (p[3], false),
            (p[4], false),
        ],
        IntraMode::DiagDownRightPred => seq![
            (p[0], true),
            (p[1], true),
            (p[2], true),
            (p[3], false),
            (p[4], true),
            (p[5], false),
        ],
        IntraMode::VertRightPred => seq![
            (p[0], true),
            (p[1], true),
            (p[2], true),
            (p[3], false),
            (p[4], true),
            (p[5], true),
        ],
        IntraMode::DiagDownLeftPred => seq![
            (p[0], true),
            (p[1], true),
            (p[2], true),
            (p[3], true),
            (p[6], false),
        ],
        IntraMode::VertLeftPred => seq![
            (p[0], true),
            (p[1], true),
            (p[2], true),
            (p[3], true),
            (p[6], true),
            (p[7], false),
        ],
        IntraMode::HorDownPred => seq![
            (p[0], true),
            (p[1], true),
            (p[2], true),
            (p[3], true),
            (p[6], true),
            (p[7], true),
            (p[8], false),
        ],
        _ => seq![
            (p[0], true),
            (p[1], true),
            (p[2], true),
            (p[3], true),
            (p[6], true),
            (p[7], true),
            (p[8], true),
        ],
    }
}

/// An intra mode is read back.
pub proof fn law_intra_mode_is_read_back(rac: Rac, m: IntraMode, p: Seq<u8>)
    requires
        m.code_spec() <= 9,
        reads(rac, intra_mode_code(m, p)),
    ensures
        crate::vp9::modes::mode_spec(rac, p) == (m, behind(rac, intra_mode_code(m, p))),
{
    reveal_with_fuel(reads, 8);
    reveal_with_fuel(behind, 8);
    reveal_with_fuel(Rac::walk, 8);
    assert(INTRAMODE_TREE@.len() == 9);
}

/// The code of the class of a component of a motion vector.
pub open spec fn class_code(c: int, p: Seq<u8>) -> Seq<Decision> {
    if c == 0 {
        seq![(p[0], false)]
    } else if c == 1 {
        seq![(p[0], true), (p[1], false)]
    } else if c <= 3 {
        seq![(p[0], true), (p[1], true), (p[2], false), (p[3], c == 3)]
    } else if c <= 5 {
        seq![(p[0], true), (p[1], true), (p[2], true), (p[4], false), (p[5], c == 5)]
    } else if c == 6 {
        seq![(p[0], true), (p[1], true), (p[2], true), (p[4], true), (p[6], false)]
    } else if c <= 8 {
        seq![
            (p[0], true),
            (p[1], true),
            (p[2], true),
            (p[4], true),
            (p[6], true),
            (p[7], false),
            (p[8], c == 8),
        ]
    } else {
        seq![
            (p[0], true),
            (p[1], true),
            (p[2], true),
            (p[4], true),
            (p[6], true),
            (p[7], true),
            (p[9], c == 10),
        ]
    }
}

/// The class of a component is read back.
pub proof fn law_class_is_read_back(rac: Rac, c: int, p: Seq<u8>)
    requires
        0 <= c <= 10,
        reads(rac, class_code(c, p)),
    ensures
        rac.symbol(MV_CLASS_TREE@, p) == c,
        rac.after_symbol(MV_CLASS_TREE@, p) == behind(rac, class_code(c, p)),
{
    reveal_with_fuel(reads, 8);
    reveal_with_fuel(behind, 8);
    reveal_with_fuel(Rac::walk, 8);
    assert(MV_CLASS_TREE@.len() == 10);
}

/// A number in binary, the lowest digit first.
pub open spec fn low_code(n: int, p: Seq<u8>, digits: nat) -> Seq<Decision>
    decreases digits,
{
    if digits == 0 {
        Seq::empty()
    } else {
        let top = n >= two_to((digits - 1) as nat);
        low_code(
            if top {
                n - two_to((digits - 1) as nat)
            } else {
                n
            },
            p,
            (digits - 1) as nat,
        ).push((p[digits - 1], top))
    }
}

proof fn lemma_weight_is_power(m: nat)
    ensures
        crate::vp9::mvs::weight(m as int) == two_to(m),
        two_to(m) >= 1,
    decreases m,
{
    if m > 0 {
        lemma_weight_is_power((m - 1) as nat);
    }
}

proof fn lemma_low(rac: Rac, probs: MvCompProbs, counts: MvCountView, n: int, digits: nat)
    requires
        0 <= n < two_to(digits),
        reads(rac, low_code(n, probs.bits@, digits)),
    ensures
        crate::vp9::mvs::mv_bits_spec(rac, probs, counts, digits as int).value == n,
        crate::vp9::mvs::mv_bits_spec(rac, probs, counts, digits as int).rac == behind(
            rac,
            low_code(n, probs.bits@, digits),
        ),
    decreases digits,
{
    if digits > 0 {
        let d = (digits - 1) as nat;
        lemma_weight_is_power(d);
        let top = n >= two_to(d);
        let rest = if top {
            n - two_to(d)
        } else {
            n
        };
        let head = low_code(rest, probs.bits@, d);
        let last = (probs.bits@[digits - 1], top);
        assert(low_code(n, probs.bits@, digits) =~= head + seq![last]);
        lemma_reads_parts(rac, head, seq![last]);
        lemma_reads_one(behind(rac, head), last.0, last.1);
        lemma_low(rac, probs, counts, rest, d);
    }
}

/// A component of a motion vector's difference, in parts: whether it is negative, its class, its whole
/// pixels within the class, its quarters, and its last eighth.
pub struct Component {
    pub negative: bool,
    pub class: nat,
    pub whole: int,
    pub quarters: int,
    pub last: int,
}

impl Component {
    /// Whether the parts are in their ranges. Where eighths are not coded, the last one is set.
    pub open spec fn wf(self, eighths: bool) -> bool {
        &&& self.class <= 10
        &&& 0 <= self.whole < (if self.class == 0 {
            2
        } else {
            two_to(self.class)
        })
        &&& 0 <= self.quarters < 4
        &&& 0 <= self.last < 2
        &&& !eighths ==> self.last == 1
    }

    /// The component in eighths of a pixel. The first class has the two shortest whole distances; each
    /// other one begins at twice the distance of the one before.
    pub open spec fn value(self) -> int {
        let start = if self.class == 0 {
            0
        } else {
            two_to(self.class)
        };
        let v = 8 * (start + self.whole) + 2 * self.quarters + self.last + 1;
        if self.negative {
            -v
        } else {
            v
        }
    }

    /// How the component is written: the sign, the class, the whole pixels, the quarters and the last
    /// eighth.
    pub open spec fn code(self, p: MvCompProbs, eighths: bool) -> Seq<Decision> {
        seq![(p.sign, self.negative)] + (class_code(self.class as int, p.classes@) + (
        self.whole_code(p) + self.fraction_code(p, eighths)))
    }

    pub open spec fn whole_code(self, p: MvCompProbs) -> Seq<Decision> {
        if self.class == 0 {
            seq![(p.class0, self.whole == 1)]
        } else {
            low_code(self.whole, p.bits@, self.class)
        }
    }

    pub open spec fn fraction_code(self, p: MvCompProbs, eighths: bool) -> Seq<Decision> {
        let tree = if self.class == 0 {
            p.class0_fp@[self.whole]@
        } else {
            p.fp@
        };
        let hp = if self.class == 0 {
            p.class0_hp
        } else {
            p.hp
        };
        unary_code(self.quarters, tree) + if eighths {
            seq![(hp, self.last == 1)]
        } else {
            Seq::empty()
        }
    }
}

/// A component of a motion vector's difference is read back.
pub proof fn law_component_is_read_back(
    rac: Rac,
    c: Component,
    p: MvCompProbs,
    counts: MvCountView,
    eighths: bool,
)
    requires
        c.wf(eighths),
        reads(rac, c.code(p, eighths)),
    ensures
        mv_component_spec(rac, p, counts, eighths).value == c.value(),
        mv_component_spec(rac, p, counts, eighths).rac == behind(rac, c.code(p, eighths)),
{
    reveal(mv_component_spec);
    let sign = seq![(p.sign, c.negative)];
    let class = class_code(c.class as int, p.classes@);
    let whole = c.whole_code(p);
    let fraction = c.fraction_code(p, eighths);
    lemma_reads_parts(rac, sign, class + (whole + fraction));
    lemma_reads_one(rac, p.sign, c.negative);
    let r1 = rac.after(p.sign);
    lemma_reads_parts(r1, class, whole + fraction);
    law_class_is_read_back(r1, c.class as int, p.classes@);
    let r2 = behind(r1, class);
    lemma_reads_parts(r2, whole, fraction);
    let r3 = behind(r2, whole);
    let tree = if c.class == 0 {
        p.class0_fp@[c.whole]@
    } else {
        p.fp@
    };
    let hp = if c.class == 0 {
        p.class0_hp
    } else {
        p.hp
    };
    let q = unary_code(c.quarters, tree);
    let e: Seq<Decision> = if eighths {
        seq![(hp, c.last == 1)]
    } else {
        Seq::empty()
    };
    lemma_reads_parts(r3, q, e);
    law_joint_is_read_back(r3, c.quarters, tree);
    let r4 = behind(r3, q);
    if eighths {
        lemma_reads_one(r4, hp, c.last == 1);
    }
    let k1 = MvCountView {
        sign: crate::vp9::prob::bump1_spec(counts.sign, if c.negative {
            1
        } else {
            0
        }),
        classes: crate::vp9::prob::bump1_spec(counts.classes, c.class as int),
        ..counts
    };
    if c.class == 0 {
        lemma_reads_one(r2, p.class0, c.whole == 1);
    } else {
        lemma_low(r2, p, k1, c.whole, c.class);
        lemma_weight_is_power(c.class);
    }
}

/// A motion vector's difference is read back and added: the joint says which components there are, the
/// rows come first, and each is added to its own component of the vector.
pub proof fn law_difference_is_added(
    mv: (i16, i16),
    rac: Rac,
    rows: Option<Component>,
    cols: Option<Component>,
    prob: ProbContext,
    counts: CountView,
    eighths: bool,
)
    requires
        rows matches Some(c) ==> c.wf(eighths) && -32768 <= mv.1 + c.value() <= 32767,
        cols matches Some(c) ==> c.wf(eighths) && -32768 <= mv.0 + c.value() <= 32767,
        reads(rac, difference_code(rows, cols, prob, eighths)),
    ensures
        ({
            let r = add_difference_spec(mv, rac, prob, counts, eighths);
            &&& r.mv.0 == mv.0 + component_value(cols)
            &&& r.mv.1 == mv.1 + component_value(rows)
            &&& r.rac == behind(rac, difference_code(rows, cols, prob, eighths))
        }),
{
    reveal(add_difference_spec);
    let j = joint_of(rows, cols);
    let a = unary_code(j, prob.mv_joint@);
    let b = component_code(rows, prob.mv_comp@[0], eighths);
    let c = component_code(cols, prob.mv_comp@[1], eighths);
    lemma_reads_parts(rac, a, b + c);
    law_joint_is_read_back(rac, j, prob.mv_joint@);
    let r1 = behind(rac, a);
    lemma_reads_parts(r1, b, c);
    let counts1 = CountView {
        mv_joint: crate::vp9::prob::bump1_spec(counts.mv_joint, j),
        ..counts
    };
    let mut after = counts1;
    if let Some(x) = rows {
        lemma_component_bound(x, eighths);
        law_component_is_read_back(r1, x, prob.mv_comp@[0], counts1.mv_comp[0], eighths);
        after = crate::vp9::mvs::with_mv_comp(
            counts1,
            0,
            mv_component_spec(r1, prob.mv_comp@[0], counts1.mv_comp[0], eighths).counts,
        );
    }
    let r2 = behind(r1, b);
    if let Some(x) = cols {
        lemma_component_bound(x, eighths);
        law_component_is_read_back(r2, x, prob.mv_comp@[1], after.mv_comp[1], eighths);
    }
}

proof fn lemma_component_bound(c: Component, eighths: bool)
    requires
        c.wf(eighths),
    ensures
        -16384 <= c.value() <= 16384,
{
    reveal_with_fuel(two_to, 11);
}

/// The value of a component that there may be.
pub open spec fn component_value(c: Option<Component>) -> int {
    match c {
        Some(x) => x.value(),
        None => 0,
    }
}

/// The code of a component that there may be.
pub open spec fn component_code(c: Option<Component>, p: MvCompProbs, eighths: bool) -> Seq<Decision> {
    match c {
        Some(x) => x.code(p, eighths),
        None => Seq::empty(),
    }
}

/// Which components there are: one more for columns, two more for rows.
pub open spec fn joint_of(rows: Option<Component>, cols: Option<Component>) -> int {
    (if rows is Some {
        2int
    } else {
        0
    }) + (if cols is Some {
        1int
    } else {
        0
    })
}

/// How a motion vector's difference is written.
pub open spec fn difference_code(
    rows: Option<Component>,
    cols: Option<Component>,
    prob: ProbContext,
    eighths: bool,
) -> Seq<Decision> {
    unary_code(joint_of(rows, cols), prob.mv_joint@) + (component_code(
        rows,
        prob.mv_comp@[0],
        eighths,
    ) + component_code(cols, prob.mv_comp@[1], eighths))
}

} // verus!

//! What the compressed header changes, and what it leaves.
use vstd::prelude::*;

use crate::vp9::adapt_laws::{even_code, law_number_is_read_back};
use crate::vp9::bool_decoder::Rac;
use crate::vp9::coef_laws::{behind, lemma_reads_one, lemma_reads_parts, reads, two_to};
use crate::vp9::compressed::{
    comp_mode_spec, compressed_spec, diff_one, mv_one, step_blocks, step_modes, step_mv, step_refs,
    step_skip, step_tx, tx_mode_spec, CompressedInput, ProbView,
};
use crate::vp9::header::TxMode;

verus! {

/// The sizes of transforms that a frame has are read back: a number of two digits, and for the last one
/// whether each block chooses. A lossless frame has none written.
pub proof fn law_transform_mode_is_read_back(s: Rac, v: int, choose_each: bool)
    requires
        0 <= v < 4,
        reads(
            s,
            if v == 3 {
                even_code(v, 2) + seq![(128u8, choose_each)]
            } else {
                even_code(v, 2)
            },
        ),
    ensures
        tx_mode_spec(s, false).0 == (if v == 0 {
            TxMode::Only4x4
        } else if v == 1 {
            TxMode::Allow8x8
        } else if v == 2 {
            TxMode::Allow16x16
        } else if choose_each {
            TxMode::TxModeSelect
        } else {
            TxMode::Allow32x32
        }),
        tx_mode_spec(s, true) == (TxMode::Only4x4, s),
{
    assert(two_to(2) == 4) by {
        reveal_with_fuel(two_to, 3);
    }
    if v == 3 {
        lemma_reads_parts(s, even_code(v, 2), seq![(128u8, choose_each)]);
        lemma_reads_one(behind(s, even_code(v, 2)), 128, choose_each);
    }
    law_number_is_read_back(s, v, 2);
}

/// Whether blocks have one reference, two, or either is read back; where two are not possible, nothing
/// is read.
pub proof fn law_reference_mode_is_read_back(s: Rac, v: u8)
    requires
        v <= 2,
        s.bit(128) == (v > 0),
        v > 0 ==> s.after(128).bit(128) == (v == 2),
    ensures
        comp_mode_spec(s, true).0 == v,
        comp_mode_spec(s, false) == (0u8, s),
{
}

/// A new probability of motion vectors is odd, with the seven digits that were written above its last;
/// where none is written, the old one stays.
pub proof fn law_vector_probability_is_read_back(s: Rac, p: u8, v: int)
    requires
        0 <= v < 128,
        s.bit(252) ==> reads(s.after(252), even_code(v, 7)),
    ensures
        s.bit(252) ==> mv_one(s, p).0 == 2 * v + 1,
        !s.bit(252) ==> mv_one(s, p) == (p, s.after(252)),
        !s.bit(252) ==> diff_one(s, p) == (p, s.after(252)),
{
    assert(two_to(7) == 128) by {
        reveal_with_fuel(two_to, 8);
    }
    if s.bit(252) {
        law_number_is_read_back(s.after(252), v, 7);
        let x: u32 = s.after(252).uint(7);
        assert((x << 1) as u8 | 1 == 2 * x + 1) by (bit_vector)
            requires
                x < 128,
        ;
    }
}

/// Whether two sets of probabilities differ in transforms and skipping at most.
pub open spec fn same_modes(a: ProbView, b: ProbView) -> bool {
    &&& a.y_mode == b.y_mode
    &&& a.uv_mode == b.uv_mode
    &&& a.filter == b.filter
    &&& a.mv_mode == b.mv_mode
    &&& a.intra == b.intra
    &&& a.comp == b.comp
    &&& a.single_ref == b.single_ref
    &&& a.comp_ref == b.comp_ref
    &&& a.mv_joint == b.mv_joint
    &&& a.mv_comp == b.mv_comp
    &&& a.partition == b.partition
}

/// The header of a frame without references changes nothing that only blocks with references have; the
/// sizes of transforms are changed only where each block chooses.
pub proof fn law_header_without_references_changes_little(
    s: Rac,
    input: CompressedInput,
    prob: ProbView,
    coef: Seq<Seq<Seq<Seq<Seq<Seq<u8>>>>>>,
)
    requires
        input.intra,
    ensures
        ({
            let c = compressed_spec(s, input, prob, coef);
            &&& same_modes(c.prob, prob)
            &&& c.comp_pred_mode == 0
            &&& c.tx_mode != TxMode::TxModeSelect ==> c.prob.tx8p == prob.tx8p && c.prob.tx16p
                == prob.tx16p && c.prob.tx32p == prob.tx32p
        }),
{
    reveal(compressed_spec);
}

/// In a frame with references: filters are changed only where each block has its own, the modes of chroma
/// never, and what belongs to blocks of one or of two references only where there are such blocks.
pub proof fn law_header_changes_what_is_used(
    s: Rac,
    input: CompressedInput,
    prob: ProbView,
    coef: Seq<Seq<Seq<Seq<Seq<Seq<u8>>>>>>,
)
    requires
        !input.intra,
    ensures
        ({
            let c = compressed_spec(s, input, prob, coef);
            &&& c.prob.uv_mode == prob.uv_mode
            &&& !input.switchable_filter ==> c.prob.filter == prob.filter
            &&& !input.allow_comp_inter ==> c.comp_pred_mode == 0
            &&& c.comp_pred_mode == 0 ==> c.prob.comp_ref == prob.comp_ref
            &&& c.comp_pred_mode == 1 ==> c.prob.single_ref == prob.single_ref
            &&& c.comp_pred_mode != 2 ==> c.prob.comp == prob.comp
            &&& c.tx_mode != TxMode::TxModeSelect ==> c.prob.tx8p == prob.tx8p && c.prob.tx16p
                == prob.tx16p && c.prob.tx32p == prob.tx32p
        }),
{
    reveal(compressed_spec);
}

} // verus!

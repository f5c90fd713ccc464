//! Reading of the references, modes and motion vectors of inter blocks.
use vstd::prelude::*;

use crate::vp9::bool_decoder::{BoolDecoder, Rac};
use crate::vp9::coefs::get_or;
use crate::vp9::context::{AboveContext, CtxView, LeftContext};
use crate::vp9::data::{
    BWH_TAB, FILTER_LUT, FILTER_TREE, INTER_MODE_CTX_LUT, INTER_MODE_CTX_OFF, INTER_MODE_TREE,
};
use crate::vp9::header::FrameHeader;
use crate::vp9::modes::{is_sub8x8, least_of, one_if, Taken};
use crate::vp9::mvs::{fill_mv, MvSearchCtx, Query, ZEROMV};
use crate::vp9::prob::{bump2, bump3, CountContext, CountView};
use crate::vp9::refs::MvRefPair;
use crate::vp9::types::BlockSize;

verus! {

// ---- references ----

/// What the contexts of references look at in a neighbour.
#[derive(Clone, Copy)]
pub struct Neighbor {
    pub intra: bool,
    pub comp: bool,
    pub ref_frame: u8,
}

/// The neighbour above, where there is one.
pub open spec fn above_spec(c: CtxView, col: int, have: bool) -> Option<Neighbor> {
    if have {
        Some(
            Neighbor {
                intra: crate::vp9::coefs::at_or(c.intra, col, 1) != 0,
                comp: crate::vp9::coefs::at_or(c.comp, col, 0) != 0,
                ref_frame: crate::vp9::coefs::at_or(c.ref_frame, col, 0),
            },
        )
    } else {
        None
    }
}

/// The neighbour on the left, where there is one.
pub open spec fn left_spec(c: CtxView, row7: int, have: bool) -> Option<Neighbor> {
    if have {
        Some(
            Neighbor {
                intra: c.intra[row7] != 0,
                comp: c.comp[row7] != 0,
                ref_frame: c.ref_frame[row7],
            },
        )
    } else {
        None
    }
}

fn neighbor_above(above: &AboveContext, col: usize, have: bool) -> (r: Option<Neighbor>)
    ensures
        r == above_spec(above@, col as int, have),
{
    if have {
        Some(
            Neighbor {
                intra: get_or(above.intra.as_slice(), col, 1) != 0,
                comp: get_or(above.comp.as_slice(), col, 0) != 0,
                ref_frame: get_or(above.ref_frame.as_slice(), col, 0),
            },
        )
    } else {
        None
    }
}

fn neighbor_left(left: &LeftContext, row7: usize, have: bool) -> (r: Option<Neighbor>)
    requires
        row7 < 8,
    ensures
        r == left_spec(left@, row7 as int, have),
{
    if have {
        Some(
            Neighbor {
                intra: left.intra[row7] != 0,
                comp: left.comp[row7] != 0,
                ref_frame: left.ref_frame[row7],
            },
        )
    } else {
        None
    }
}

/// Whether a neighbour moves by a given reference.
pub open spec fn moves_by(n: Neighbor, r: u8) -> bool {
    !n.intra && n.ref_frame == r
}

/// The context of the flag for two references.
pub open spec fn comp_pred_ctx_spec(a: Option<Neighbor>, l: Option<Neighbor>, fix: u8) -> int {
    match (a, l) {
        (Some(a), Some(l)) => if a.comp && l.comp {
            4
        } else if a.comp {
            2 + crate::vp9::modes::one(l.intra || l.ref_frame == fix)
        } else if l.comp {
            2 + crate::vp9::modes::one(a.intra || a.ref_frame == fix)
        } else {
            crate::vp9::modes::one(moves_by(a, fix) != moves_by(l, fix))
        },
        (Some(n), None) | (None, Some(n)) => if n.comp {
            3
        } else {
            crate::vp9::modes::one(moves_by(n, fix))
        },
        (None, None) => 1,
    }
}

fn comp_pred_ctx(a: Option<Neighbor>, l: Option<Neighbor>, fix: u8) -> (r: usize)
    ensures
        r == comp_pred_ctx_spec(a, l, fix),
        r <= 4,
{
    match (a, l) {
        (Some(a), Some(l)) => {
            if a.comp && l.comp {
                4
            } else if a.comp {
                2 + one_if(l.intra || l.ref_frame == fix)
            } else if l.comp {
                2 + one_if(a.intra || a.ref_frame == fix)
            } else {
                let am = !a.intra && a.ref_frame == fix;
                let lm = !l.intra && l.ref_frame == fix;
                one_if(am != lm)
            }
        },
        (Some(n), None) => {
            if n.comp {
                3
            } else {
                one_if(!n.intra && n.ref_frame == fix)
            }
        },
        (None, Some(n)) => {
            if n.comp {
                3
            } else {
                one_if(!n.intra && n.ref_frame == fix)
            }
        },
        (None, None) => 1,
    }
}

/// The part of [`comp_ref_ctx_spec`] with one neighbour of two references and one of
/// a single one.
pub open spec fn comp_ref_mixed(comp: u8, single: u8, v1: u8) -> int {
    if comp == v1 && single != v1 {
        1
    } else if single == v1 && comp != v1 {
        2
    } else {
        4
    }
}

/// The part of [`comp_ref_ctx_spec`] with two neighbours that move.
pub open spec fn comp_ref_both(a: Neighbor, l: Neighbor, fix: u8, v0: u8, v1: u8) -> int {
    let ra = a.ref_frame;
    let rl = l.ref_frame;
    if ra == v1 && rl == v1 {
        0
    } else if !l.comp && !a.comp {
        if (ra == fix && rl == v0) || (rl == fix && ra == v0) {
            4
        } else if ra == rl {
            3
        } else {
            1
        }
    } else if !l.comp {
        comp_ref_mixed(ra, rl, v1)
    } else if !a.comp {
        comp_ref_mixed(rl, ra, v1)
    } else if ra == rl {
        4
    } else {
        2
    }
}

/// The context of the variable one of two references.
pub open spec fn comp_ref_ctx_spec(
    a: Option<Neighbor>,
    l: Option<Neighbor>,
    fix: u8,
    v0: u8,
    v1: u8,
) -> int {
    match (a, l) {
        (Some(a), Some(l)) => if a.intra && l.intra {
            2
        } else if a.intra {
            1 + 2 * crate::vp9::modes::one(l.ref_frame != v1)
        } else if l.intra {
            1 + 2 * crate::vp9::modes::one(a.ref_frame != v1)
        } else {
            comp_ref_both(a, l, fix, v0, v1)
        },
        (Some(n), None) | (None, Some(n)) => if n.intra {
            2
        } else if n.comp {
            4 * crate::vp9::modes::one(n.ref_frame != v1)
        } else {
            3 * crate::vp9::modes::one(n.ref_frame != v1)
        },
        (None, None) => 2,
    }
}

fn comp_ref_of_mixed(comp: u8, single: u8, v1: u8) -> (r: usize)
    ensures
        r == comp_ref_mixed(comp, single, v1),
        r <= 4,
{
    if comp == v1 && single != v1 {
        1
    } else if single == v1 && comp != v1 {
        2
    } else {
        4
    }
}

fn comp_ref_of_one(n: Neighbor, v1: u8) -> (r: usize)
    ensures
        r == comp_ref_ctx_spec(Some(n), None, 0, 0, v1),
        r == comp_ref_ctx_spec(None, Some(n), 0, 0, v1),
        r <= 4,
{
    if n.intra {
        2
    } else if n.comp {
        4 * one_if(n.ref_frame != v1)
    } else {
        3 * one_if(n.ref_frame != v1)
    }
}

fn comp_ref_ctx(a: Option<Neighbor>, l: Option<Neighbor>, fix: u8, v0: u8, v1: u8) -> (r: usize)
    ensures
        r == comp_ref_ctx_spec(a, l, fix, v0, v1),
        r <= 4,
{
    match (a, l) {
        (Some(a), Some(l)) => {
            let ra: u8 = a.ref_frame;
            let rl: u8 = l.ref_frame;
            if a.intra && l.intra {
                2
            } else if a.intra {
                1 + 2 * one_if(rl != v1)
            } else if l.intra {
                1 + 2 * one_if(ra != v1)
            } else if ra == v1 && rl == v1 {
                0
            } else if !l.comp && !a.comp {
                if (ra == fix && rl == v0) || (rl == fix && ra == v0) {
                    4
                } else if ra == rl {
                    3
                } else {
                    1
                }
            } else if !l.comp {
                comp_ref_of_mixed(ra, rl, v1)
            } else if !a.comp {
                comp_ref_of_mixed(rl, ra, v1)
            } else if ra == rl {
                4
            } else {
                2
            }
        },
        (Some(n), None) => comp_ref_of_one(n, v1),
        (None, Some(n)) => comp_ref_of_one(n, v1),
        (None, None) => 2,
    }
}

/// A neighbour that moves.
pub open spec fn moving(n: Option<Neighbor>) -> Option<Neighbor> {
    match n {
        Some(x) => if x.intra {
            None
        } else {
            n
        },
        None => None,
    }
}

/// The context of the first flag of a single reference. Only neighbours that move
/// count.
pub open spec fn single_ref_ctx_0_spec(
    a: Option<Neighbor>,
    l: Option<Neighbor>,
    fix: u8,
) -> int {
    match (moving(a), moving(l)) {
        (Some(a), Some(l)) => {
            let a0 = a.ref_frame == 0;
            let l0 = l.ref_frame == 0;
            if a.comp && l.comp {
                1 + crate::vp9::modes::one(fix == 0 || l0 || a0)
            } else if l.comp {
                3 * crate::vp9::modes::one(a0) + crate::vp9::modes::one(fix == 0 || l0)
            } else if a.comp {
                3 * crate::vp9::modes::one(l0) + crate::vp9::modes::one(fix == 0 || a0)
            } else {
                2 * crate::vp9::modes::one(l0) + 2 * crate::vp9::modes::one(a0)
            }
        },
        (Some(n), None) | (None, Some(n)) => if n.comp {
            1 + crate::vp9::modes::one(fix == 0 || n.ref_frame == 0)
        } else {
            4 * crate::vp9::modes::one(n.ref_frame == 0)
        },
        (None, None) => 2,
    }
}

fn keep_moving(n: Option<Neighbor>) -> (r: Option<Neighbor>)
    ensures
        r == moving(n),
{
    match n {
        Some(x) => {
            if x.intra {
                None
            } else {
                n
            }
        },
        None => None,
    }
}

fn single_ref_0_of_one(n: Neighbor, fix: u8) -> (r: usize)
    ensures
        r == (if n.comp {
            1 + crate::vp9::modes::one(fix == 0 || n.ref_frame == 0)
        } else {
            4 * crate::vp9::modes::one(n.ref_frame == 0)
        }),
        r <= 4,
{
    if n.comp {
        1 + one_if(fix == 0 || n.ref_frame == 0)
    } else {
        4 * one_if(n.ref_frame == 0)
    }
}

fn single_ref_ctx_0(a: Option<Neighbor>, l: Option<Neighbor>, fix: u8) -> (r: usize)
    ensures
        r == single_ref_ctx_0_spec(a, l, fix),
        r <= 4,
{
    match (keep_moving(a), keep_moving(l)) {
        (Some(a), Some(l)) => {
            let a0 = a.ref_frame == 0;
            let l0 = l.ref_frame == 0;
            if a.comp && l.comp {
                1 + one_if(fix == 0 || l0 || a0)
            } else if l.comp {
                3 * one_if(a0) + one_if(fix == 0 || l0)
            } else if a.comp {
                3 * one_if(l0) + one_if(fix == 0 || a0)
            } else {
                2 * one_if(l0) + 2 * one_if(a0)
            }
        },
        (Some(n), None) => single_ref_0_of_one(n, fix),
        (None, Some(n)) => single_ref_0_of_one(n, fix),
        (None, None) => 2,
    }
}

/// The part of [`single_ref_ctx_1_spec`] with a neighbour that moves beside one that
/// does not.
pub open spec fn single_ref_1_beside_intra(n: Neighbor, fix: u8) -> int {
    if n.comp {
        1 + 2 * crate::vp9::modes::one(fix == 1 || n.ref_frame == 1)
    } else if n.ref_frame == 0 {
        3
    } else {
        4 * crate::vp9::modes::one(n.ref_frame == 1)
    }
}

/// The part of [`single_ref_ctx_1_spec`] with one neighbour of two references and one
/// of a single one.
pub open spec fn single_ref_1_mixed(comp: u8, single: u8, fix: u8) -> int {
    if single == 0 {
        1 + 2 * crate::vp9::modes::one(fix == 1 || comp == 1)
    } else {
        3 * crate::vp9::modes::one(single == 1) + crate::vp9::modes::one(fix == 1 || comp == 1)
    }
}

/// The context of the second flag of a single reference.
pub open spec fn single_ref_ctx_1_spec(
    a: Option<Neighbor>,
    l: Option<Neighbor>,
    fix: u8,
) -> int {
    match (a, l) {
        (Some(a), Some(l)) => {
            let ra = a.ref_frame;
            let rl = l.ref_frame;
            if a.intra && l.intra {
                2
            } else if l.intra {
                single_ref_1_beside_intra(a, fix)
            } else if a.intra {
                single_ref_1_beside_intra(l, fix)
            } else if a.comp && l.comp {
                if rl == ra {
                    3 * crate::vp9::modes::one(fix == 1 || rl == 1)
                } else {
                    2
                }
            } else if a.comp {
                single_ref_1_mixed(ra, rl, fix)
            } else if l.comp {
                single_ref_1_mixed(rl, ra, fix)
            } else if ra == 0 && rl == 0 {
                3
            } else if ra == 0 {
                4 * crate::vp9::modes::one(rl == 1)
            } else if rl == 0 {
                4 * crate::vp9::modes::one(ra == 1)
            } else {
                2 * crate::vp9::modes::one(rl == 1) + 2 * crate::vp9::modes::one(ra == 1)
            }
        },
        (Some(n), None) | (None, Some(n)) => if n.intra || (!n.comp && n.ref_frame == 0) {
            2
        } else if n.comp {
            3 * crate::vp9::modes::one(fix == 1 || n.ref_frame == 1)
        } else {
            4 * crate::vp9::modes::one(n.ref_frame == 1)
        },
        (None, None) => 2,
    }
}

fn single_ref_1_of_one(n: Neighbor, fix: u8) -> (r: usize)
    ensures
        r == single_ref_ctx_1_spec(Some(n), None, fix),
        r == single_ref_ctx_1_spec(None, Some(n), fix),
        r <= 4,
{
    if n.intra || (!n.comp && n.ref_frame == 0) {
        2
    } else if n.comp {
        3 * one_if(fix == 1 || n.ref_frame == 1)
    } else {
        4 * one_if(n.ref_frame == 1)
    }
}

fn single_ref_1_of_moving(n: Neighbor, fix: u8) -> (r: usize)
    ensures
        r == single_ref_1_beside_intra(n, fix),
        r <= 4,
{
    if n.comp {
        1 + 2 * one_if(fix == 1 || n.ref_frame == 1)
    } else if n.ref_frame == 0 {
        3
    } else {
        4 * one_if(n.ref_frame == 1)
    }
}

fn single_ref_1_of_mixed(comp: u8, single: u8, fix: u8) -> (r: usize)
    ensures
        r == single_ref_1_mixed(comp, single, fix),
        r <= 4,
{
    if single == 0 {
        1 + 2 * one_if(fix == 1 || comp == 1)
    } else {
        3 * one_if(single == 1) + one_if(fix == 1 || comp == 1)
    }
}

fn single_ref_ctx_1(a: Option<Neighbor>, l: Option<Neighbor>, fix: u8) -> (r: usize)
    ensures
        r == single_ref_ctx_1_spec(a, l, fix),
        r <= 4,
{
    match (a, l) {
        (Some(a), Some(l)) => {
            let ra: u8 = a.ref_frame;
            let rl: u8 = l.ref_frame;
            if a.intra && l.intra {
                2
            } else if l.intra {
                single_ref_1_of_moving(a, fix)
            } else if a.intra {
                single_ref_1_of_moving(l, fix)
            } else if a.comp && l.comp {
                if rl == ra {
                    3 * one_if(fix == 1 || rl == 1)
                } else {
                    2
                }
            } else if a.comp {
                single_ref_1_of_mixed(ra, rl, fix)
            } else if l.comp {
                single_ref_1_of_mixed(rl, ra, fix)
            } else if ra == 0 && rl == 0 {
                3
            } else if ra == 0 {
                4 * one_if(rl == 1)
            } else if rl == 0 {
                4 * one_if(ra == 1)
            } else {
                2 * one_if(rl == 1) + 2 * one_if(ra == 1)
            }
        },
        (Some(n), None) => single_ref_1_of_one(n, fix),
        (None, Some(n)) => single_ref_1_of_one(n, fix),
        (None, None) => 2,
    }
}

/// Whether a block has two references: the frame says so, or the flag that is read.
pub open spec fn comp_spec(
    rac: Rac,
    counts: CountView,
    h: FrameHeader,
    a: Option<Neighbor>,
    l: Option<Neighbor>,
) -> Taken<bool> {
    if h.comp_pred_mode != 2 {
        Taken { value: h.comp_pred_mode == 1, rac, counts }
    } else {
        let c = comp_pred_ctx_spec(a, l, h.fix_comp_ref);
        let b = rac.bit(h.prob.comp@[c]);
        Taken {
            value: b,
            rac: rac.after(h.prob.comp@[c]),
            counts: CountView {
                comp: crate::vp9::prob::bump2_spec(counts.comp, c, crate::vp9::modes::one(b)),
                ..counts
            },
        }
    }
}

/// The two references of a block: the fixed one of the frame in the place of its side,
/// and one of the two variable ones.
pub open spec fn two_refs_spec(
    rac: Rac,
    counts: CountView,
    h: FrameHeader,
    a: Option<Neighbor>,
    l: Option<Neighbor>,
) -> Taken<Seq<i8>> {
    let c = comp_ref_ctx_spec(
        a,
        l,
        h.fix_comp_ref,
        h.var_comp_ref@[0],
        h.var_comp_ref@[1],
    );
    let b = rac.bit(h.prob.comp_ref@[c]);
    let fix = h.fix_comp_ref as i8;
    let var = h.var_comp_ref@[crate::vp9::modes::one(b)] as i8;
    Taken {
        value: if h.sign_bias@[h.fix_comp_ref as int] {
            seq![var, fix]
        } else {
            seq![fix, var]
        },
        rac: rac.after(h.prob.comp_ref@[c]),
        counts: CountView {
            comp_ref: crate::vp9::prob::bump2_spec(
                counts.comp_ref,
                c,
                crate::vp9::modes::one(b),
            ),
            ..counts
        },
    }
}

/// The single reference of a block, coded by two flags.
pub open spec fn one_ref_spec(
    rac: Rac,
    counts: CountView,
    h: FrameHeader,
    a: Option<Neighbor>,
    l: Option<Neighbor>,
) -> Taken<Seq<i8>> {
    let c = single_ref_ctx_0_spec(a, l, h.fix_comp_ref);
    let b0 = rac.bit(h.prob.single_ref@[c]@[0]);
    let r1 = rac.after(h.prob.single_ref@[c]@[0]);
    let k1 = CountView {
        single_ref: crate::vp9::prob::bump3_spec(
            counts.single_ref,
            c,
            0,
            crate::vp9::modes::one(b0),
        ),
        ..counts
    };
    if !b0 {
        Taken { value: seq![0i8, -1i8], rac: r1, counts: k1 }
    } else {
        let d = single_ref_ctx_1_spec(a, l, h.fix_comp_ref);
        let b1 = r1.bit(h.prob.single_ref@[d]@[1]);
        Taken {
            value: if b1 {
                seq![2i8, -1i8]
            } else {
                seq![1i8, -1i8]
            },
            rac: r1.after(h.prob.single_ref@[d]@[1]),
            counts: CountView {
                single_ref: crate::vp9::prob::bump3_spec(
                    k1.single_ref,
                    d,
                    1,
                    crate::vp9::modes::one(b1),
                ),
                ..k1
            },
        }
    }
}

/// The references of a block, and whether there are two. A segment can fix a single
/// one.
#[verifier::opaque]
pub open spec fn refs_spec(
    rac: Rac,
    counts: CountView,
    h: FrameHeader,
    seg: int,
    a: Option<Neighbor>,
    l: Option<Neighbor>,
) -> Taken<(bool, Seq<i8>)> {
    let f = h.segmentation.feat@[seg];
    if h.segmentation.enabled && f.ref_enabled {
        Taken { value: (false, seq![(f.ref_val - 1) as i8, -1i8]), rac, counts }
    } else {
        let c = comp_spec(rac, counts, h, a, l);
        let t = if c.value {
            two_refs_spec(c.rac, c.counts, h, a, l)
        } else {
            one_ref_spec(c.rac, c.counts, h, a, l)
        };
        Taken { value: (c.value, t.value), rac: t.rac, counts: t.counts }
    }
}

fn read_comp(
    bd: &mut BoolDecoder,
    counts: &mut CountContext,
    h: &FrameHeader,
    a: Option<Neighbor>,
    l: Option<Neighbor>,
) -> (r: bool)
    requires
        old(bd)@.wf(),
    ensures
        final(bd)@.wf(),
        final(bd)@.data == old(bd)@.data,
        (Taken { value: r, rac: final(bd)@, counts: final(counts)@ }) == comp_spec(
            old(bd)@,
            old(counts)@,
            *h,
            a,
            l,
        ),
{
    if h.comp_pred_mode != 2 {
        h.comp_pred_mode == 1
    } else {
        let c: usize = comp_pred_ctx(a, l, h.fix_comp_ref);
        let ghost before = counts@;
        let b = bd.get_prob(h.prob.comp[c]);
        bump2(&mut counts.comp, c, one_if(b));
        assert(counts@ == (CountView { comp: counts@.comp, ..before }));
        b
    }
}

fn read_two_refs(
    bd: &mut BoolDecoder,
    counts: &mut CountContext,
    h: &FrameHeader,
    a: Option<Neighbor>,
    l: Option<Neighbor>,
) -> (r: [i8; 2])
    requires
        old(bd)@.wf(),
        crate::vp9::header::header_wf(*h),
    ensures
        final(bd)@.wf(),
        final(bd)@.data == old(bd)@.data,
        (Taken { value: r@, rac: final(bd)@, counts: final(counts)@ }) == two_refs_spec(
            old(bd)@,
            old(counts)@,
            *h,
            a,
            l,
        ),
        0 <= r@[0] <= 2,
        0 <= r@[1] <= 2,
{
    let c: usize = comp_ref_ctx(
        a,
        l,
        h.fix_comp_ref,
        h.var_comp_ref[0],
        h.var_comp_ref[1],
    );
    let ghost before = counts@;
    let b = bd.get_prob(h.prob.comp_ref[c]);
    bump2(&mut counts.comp_ref, c, one_if(b));
    assert(counts@ == (CountView { comp_ref: counts@.comp_ref, ..before }));
    let fix: i8 = h.fix_comp_ref as i8;
    let var: i8 = h.var_comp_ref[one_if(b)] as i8;
    proof {
        assert(h.var_comp_ref@[crate::vp9::modes::one(b)] <= 2);
    }
    let r: [i8; 2] = if h.sign_bias[h.fix_comp_ref as usize] { [var, fix] } else { [fix, var] };
    assert(r@ =~= two_refs_spec(old(bd)@, before, *h, a, l).value);
    r
}

fn read_one_ref(
    bd: &mut BoolDecoder,
    counts: &mut CountContext,
    h: &FrameHeader,
    a: Option<Neighbor>,
    l: Option<Neighbor>,
) -> (r: [i8; 2])
    requires
        old(bd)@.wf(),
    ensures
        final(bd)@.wf(),
        final(bd)@.data == old(bd)@.data,
        (Taken { value: r@, rac: final(bd)@, counts: final(counts)@ }) == one_ref_spec(
            old(bd)@,
            old(counts)@,
            *h,
            a,
            l,
        ),
        0 <= r@[0] <= 2,
        r@[1] == -1,
{
    let c: usize = single_ref_ctx_0(a, l, h.fix_comp_ref);
    let ghost before = counts@;
    let b0 = bd.get_prob(h.prob.single_ref[c][0]);
    bump3(&mut counts.single_ref, c, 0, one_if(b0));
    assert(counts@ == (CountView { single_ref: counts@.single_ref, ..before }));
    let r: [i8; 2] = if !b0 {
        [0, -1]
    } else {
        let d: usize = single_ref_ctx_1(a, l, h.fix_comp_ref);
        let ghost between = counts@;
        let b1 = bd.get_prob(h.prob.single_ref[d][1]);
        bump3(&mut counts.single_ref, d, 1, one_if(b1));
        assert(counts@ == (CountView { single_ref: counts@.single_ref, ..between }));
        if b1 {
            [2, -1]
        } else {
            [1, -1]
        }
    };
    assert(r@ =~= one_ref_spec(old(bd)@, before, *h, a, l).value);
    r
}

/// Reads the references of a block.
fn read_refs(
    bd: &mut BoolDecoder,
    counts: &mut CountContext,
    h: &FrameHeader,
    seg: u8,
    a: Option<Neighbor>,
    l: Option<Neighbor>,
) -> (r: (bool, [i8; 2]))
    requires
        old(bd)@.wf(),
        crate::vp9::header::header_wf(*h),
        seg < 8,
        h.segmentation.enabled && h.segmentation.feat@[seg as int].ref_enabled
            ==> h.segmentation.feat@[seg as int].ref_val > 0,
    ensures
        final(bd)@.wf(),
        final(bd)@.data == old(bd)@.data,
        (Taken { value: (r.0, r.1@), rac: final(bd)@, counts: final(counts)@ }) == refs_spec(
            old(bd)@,
            old(counts)@,
            *h,
            seg as int,
            a,
            l,
        ),
        0 <= r.1@[0] <= 2,
        r.0 ==> 0 <= r.1@[1] <= 2,
        -1 <= r.1@[1] <= 2,
{
    proof {
        reveal(refs_spec);
    }
    if h.segmentation.enabled && h.segmentation.feat[seg as usize].ref_enabled {
        assert(h.segmentation.feat@[seg as int].ref_val < 4);
        let r: [i8; 2] = [(h.segmentation.feat[seg as usize].ref_val - 1) as i8, -1];
        assert(r@ =~= seq![(h.segmentation.feat@[seg as int].ref_val - 1) as i8, -1i8]);
        (false, r)
    } else {
        let comp = read_comp(bd, counts, h, a, l);
        let r: [i8; 2] = if comp {
            read_two_refs(bd, counts, h, a, l)
        } else {
            read_one_ref(bd, counts, h, a, l)
        };
        (comp, r)
    }
}

// ---- modes and filters ----

proof fn lemma_inter_trees()
    ensures
        crate::vp9::bool_decoder::tree_wf(INTER_MODE_TREE@, 3),
        crate::vp9::bool_decoder::leaves_in(INTER_MODE_TREE@, 10, 13),
        crate::vp9::bool_decoder::tree_wf(FILTER_TREE@, 2),
        crate::vp9::bool_decoder::leaves_in(FILTER_TREE@, 0, 2),
{
}

/// Every context of an inter mode has probabilities.
proof fn lemma_mode_ctx(a: int, l: int)
    requires
        0 <= a < 14,
        0 <= l < 14,
    ensures
        INTER_MODE_CTX_LUT@[a]@[l] < 7,
{
}

/// An inter mode that is read and counted by a context.
pub open spec fn mv_mode_spec(
    rac: Rac,
    counts: CountView,
    h: FrameHeader,
    c: int,
) -> Taken<u8> {
    let m = rac.symbol(INTER_MODE_TREE@, h.prob.mv_mode@[c]@);
    Taken {
        value: m as u8,
        rac: rac.after_symbol(INTER_MODE_TREE@, h.prob.mv_mode@[c]@),
        counts: CountView {
            mv_mode: crate::vp9::prob::bump2_spec(counts.mv_mode, c, m - 10),
            ..counts
        },
    }
}

fn read_mv_mode(
    bd: &mut BoolDecoder,
    counts: &mut CountContext,
    h: &FrameHeader,
    c: usize,
) -> (r: u8)
    requires
        old(bd)@.wf(),
        c < 7,
    ensures
        final(bd)@.wf(),
        final(bd)@.data == old(bd)@.data,
        (Taken { value: r, rac: final(bd)@, counts: final(counts)@ }) == mv_mode_spec(
            old(bd)@,
            old(counts)@,
            *h,
            c as int,
        ),
        10 <= r <= 13,
{
    proof {
        lemma_inter_trees();
        crate::vp9::bool_decoder::law_symbol_is_leaf(
            bd@,
            INTER_MODE_TREE@,
            h.prob.mv_mode@[c as int]@,
            10,
            13,
        );
    }
    let ghost before = counts@;
    let m: u8 = bd.get_tree(&INTER_MODE_TREE, &h.prob.mv_mode[c]) as u8;
    bump2(&mut counts.mv_mode, c, (m - 10) as usize);
    assert(counts@ == (CountView { mv_mode: counts@.mv_mode, ..before }));
    m
}

/// The context of an inter mode, `off` units of 8 pixels into the block.
pub open spec fn mv_mode_ctx(above: CtxView, left: CtxView, col: int, row7: int, off: int) -> int {
    let a = crate::vp9::modes::least(
        crate::vp9::coefs::at_or(above.y_mode, col / 2 + off, 10) as int,
        13,
    );
    let l = crate::vp9::modes::least(
        crate::vp9::coefs::at_or(left.y_mode, row7 + off, 10) as int,
        13,
    );
    INTER_MODE_CTX_LUT@[a]@[l] as int
}

fn inter_mode_ctx(
    above: &AboveContext,
    left: &LeftContext,
    col: usize,
    row7: usize,
    off: usize,
) -> (r: usize)
    requires
        row7 < 8,
        off <= 3,
    ensures
        r == mv_mode_ctx(above@, left@, col as int, row7 as int, off as int),
        r < 7,
{
    let a: usize = least_of(get_or(above.y_mode.as_slice(), col / 2 + off, 10) as usize, 13);
    let l: usize = least_of(get_or(&left.y_mode, row7 + off, 10) as usize, 13);
    proof {
        lemma_mode_ctx(a as int, l as int);
    }
    INTER_MODE_CTX_LUT[a][l] as usize
}

/// The context of an interpolation filter: that of the neighbours that move, where
/// they agree.
pub open spec fn filter_ctx(
    above: CtxView,
    left: CtxView,
    col: int,
    row7: int,
    have_a: bool,
    have_l: bool,
) -> int {
    let am = have_a && crate::vp9::coefs::at_or(above.y_mode, col / 2, 0) >= 10;
    let lm = have_l && left.y_mode[row7] >= 10;
    let af = crate::vp9::coefs::at_or(above.filter, col, 3) as int;
    let lf = left.filter[row7] as int;
    let c = if am && lm {
        if af == lf {
            lf
        } else {
            3
        }
    } else if am {
        af
    } else if lm {
        lf
    } else {
        3
    };
    crate::vp9::modes::least(c, 3)
}

/// The interpolation filter of a block, and its code: read where the frame leaves it to
/// each block.
pub open spec fn filter_spec(
    rac: Rac,
    counts: CountView,
    h: FrameHeader,
    above: CtxView,
    left: CtxView,
    col: int,
    row7: int,
    have_a: bool,
    have_l: bool,
) -> Taken<(u8, u8)> {
    if h.filter_mode == 4 {
        let c = filter_ctx(above, left, col, row7, have_a, have_l);
        let f = rac.symbol(FILTER_TREE@, h.prob.filter@[c]@);
        Taken {
            value: (FILTER_LUT@[f], f as u8),
            rac: rac.after_symbol(FILTER_TREE@, h.prob.filter@[c]@),
            counts: CountView {
                filter: crate::vp9::prob::bump2_spec(counts.filter, c, f),
                ..counts
            },
        }
    } else {
        Taken { value: (h.filter_mode, 0), rac, counts }
    }
}

fn read_filter(
    bd: &mut BoolDecoder,
    counts: &mut CountContext,
    h: &FrameHeader,
    above: &AboveContext,
    left: &LeftContext,
    col: usize,
    row7: usize,
    have_a: bool,
    have_l: bool,
) -> (r: (u8, u8))
    requires
        old(bd)@.wf(),
        row7 < 8,
        h.filter_mode <= 4,
    ensures
        final(bd)@.wf(),
        final(bd)@.data == old(bd)@.data,
        (Taken { value: r, rac: final(bd)@, counts: final(counts)@ }) == filter_spec(
            old(bd)@,
            old(counts)@,
            *h,
            above@,
            left@,
            col as int,
            row7 as int,
            have_a,
            have_l,
        ),
        r.0 <= 3,
        r.1 <= 2,
{
    if h.filter_mode == 4 {
        let am = have_a && get_or(above.y_mode.as_slice(), col / 2, 0) >= 10;
        let lm = have_l && left.y_mode[row7] >= 10;
        let af: usize = get_or(above.filter.as_slice(), col, 3) as usize;
        let lf: usize = left.filter[row7] as usize;
        let c: usize = if am && lm {
            if af == lf {
                lf
            } else {
                3
            }
        } else if am {
            af
        } else if lm {
            lf
        } else {
            3
        };
        let c: usize = least_of(c, 3);
        proof {
            lemma_inter_trees();
            crate::vp9::bool_decoder::law_symbol_is_leaf(
                bd@,
                FILTER_TREE@,
                h.prob.filter@[c as int]@,
                0,
                2,
            );
        }
        let ghost before = counts@;
        let f: u8 = bd.get_tree(&FILTER_TREE, &h.prob.filter[c]) as u8;
        bump2(&mut counts.filter, c, f as usize);
        assert(counts@ == (CountView { filter: counts@.filter, ..before }));
        (FILTER_LUT[f as usize], f)
    } else {
        (h.filter_mode, 0)
    }
}

// ---- motion vectors ----

/// `v` brought into 16 bits.
pub open spec fn clamp_i16(v: int) -> i16 {
    if v < i16::MIN {
        i16::MIN
    } else if v > i16::MAX {
        i16::MAX
    } else {
        v as i16
    }
}

fn to_i16(v: i32) -> (r: i16)
    ensures
        r == clamp_i16(v as int),
{
    if v < i16::MIN as i32 {
        i16::MIN
    } else if v > i16::MAX as i32 {
        i16::MAX
    } else {
        v as i16
    }
}

/// Where blocks take motion vectors from.
pub struct MvSource {
    pub rows: int,
    pub cols: int,
    /// First column of the tile, in units of 4 pixels.
    pub tile_col_start: int,
    pub sign_bias: [bool; 3],
    /// Motion vectors of the frame so far.
    pub grid: Seq<MvRefPair>,
    /// Motion vectors of the last frame.
    pub prev: Option<Seq<MvRefPair>>,
    pub prev_cols: int,
}

/// How far the motion vectors of a block can reach: 16 pixels out of the frame, in
/// eighths of a pixel.
pub open spec fn limits_spec(m: MvSource, row: int, col: int, bs: BlockSize) -> MvSearchCtx {
    let w = BWH_TAB@[0]@[bs.code_spec() as int]@[0];
    let h = BWH_TAB@[0]@[bs.code_spec() as int]@[1];
    MvSearchCtx {
        min_mv: [clamp_i16(-(128 + 32 * col)), clamp_i16(-(128 + 32 * row))],
        max_mv: [
            clamp_i16(128 + 32 * (m.cols - col - w)),
            clamp_i16(128 + 32 * (m.rows - row - h)),
        ],
        tile_col_start: m.tile_col_start as usize,
        cols_4x4: m.cols as usize,
        rows_4x4: m.rows as usize,
        sign_bias: m.sign_bias,
    }
}

/// A pair of motion vectors.
pub open spec fn mv_pair(mv0: (i16, i16), mv1: (i16, i16)) -> [[i16; 2]; 2] {
    [[mv0.0, mv0.1], [mv1.0, mv1.1]]
}

proof fn lemma_mv_pair(a: [[i16; 2]; 2])
    ensures
        a == mv_pair(crate::vp9::mvs::mv2(a@[0]), crate::vp9::mvs::mv2(a@[1])),
{
    let b = mv_pair(crate::vp9::mvs::mv2(a@[0]), crate::vp9::mvs::mv2(a@[1]));
    assert(a@[0] =~= b@[0]);
    assert(a@[1] =~= b@[1]);
    assert(a =~= b);
}

/// Where an inter block lies, and what it has read so far.
pub struct InterBlock {
    pub src: MvSource,
    pub above: CtxView,
    pub left: CtxView,
    pub row: int,
    pub col: int,
    pub row7: int,
    pub bs: BlockSize,
    pub comp: bool,
    pub refs: Seq<i8>,
}

/// Modes and motion vectors of the quarters of a block.
pub struct Motion {
    pub mode: Seq<u8>,
    pub mv: Seq<[[i16; 2]; 2]>,
    pub rac: Rac,
    pub counts: CountView,
}

impl InterBlock {
    /// What the search for motion vectors looks at, for the quarter `sb`.
    pub open spec fn query(self, sb: int, mv: Seq<[[i16; 2]; 2]>, use_last: bool) -> Query {
        Query {
            ctx: limits_spec(self.src, self.row, self.col, self.bs),
            grid: self.src.grid,
            prev: self.src.prev,
            prev_cols: self.src.prev_cols,
            above: self.above.mv,
            left: self.left.mv,
            ref_idx: 0,
            z: 0,
            idx: 0,
            sb,
            row: self.row,
            col: self.col,
            row7: self.row7,
            bs: self.bs,
            sub_mvs: mv,
            use_last,
        }
    }

    /// The motion vectors of the quarter `k`, or of the block (`sb` is -1).
    pub open spec fn with_mv(self, s: Motion, h: FrameHeader, k: int, sb: int) -> Motion {
        let p = crate::vp9::mvs::fill_mv_spec(
            self.query(sb, s.mv, h.use_last_frame_mvs),
            crate::vp9::mvs::mv2(s.mv[k]@[1]),
            s.mode[k],
            self.comp,
            self.refs,
            s.rac,
            h.prob,
            s.counts,
            h.high_precision_mvs,
        );
        Motion { mv: s.mv.update(k, mv_pair(p.mv0, p.mv1)), rac: p.rac, counts: p.counts, ..s }
    }

    /// The mode and the motion vectors of the quarter `k`.
    pub open spec fn quarter(self, s: Motion, h: FrameHeader, c: int, k: int) -> Motion {
        let m = mv_mode_spec(s.rac, s.counts, h, c);
        self.with_mv(
            Motion { mode: s.mode.update(k, m.value), rac: m.rac, counts: m.counts, ..s },
            h,
            k,
            k,
        )
    }

    /// The quarter `k` as the quarter `of`.
    pub open spec fn same(self, s: Motion, k: int, of: int) -> Motion {
        Motion { mode: s.mode.update(k, s.mode[of]), mv: s.mv.update(k, s.mv[of]), ..s }
    }

    /// The quarters of a block of less than 8x8 pixels. Those that a half has in common
    /// are read once.
    pub open spec fn quarters(self, s: Motion, h: FrameHeader) -> Motion {
        let c = mv_mode_ctx(self.above, self.left, self.col, self.row7, 0);
        let s0 = self.quarter(s, h, c, 0);
        let s1 = if self.bs != BlockSize::Bs8x4 {
            self.quarter(s0, h, c, 1)
        } else {
            self.same(s0, 1, 0)
        };
        if self.bs != BlockSize::Bs4x8 {
            let s2 = self.quarter(s1, h, c, 2);
            if self.bs != BlockSize::Bs8x4 {
                self.quarter(s2, h, c, 3)
            } else {
                self.same(s2, 3, 2)
            }
        } else {
            self.same(self.same(s1, 2, 0), 3, 1)
        }
    }

    /// The mode of a block of at least 8x8 pixels. A segment can fix it to no motion.
    pub open spec fn whole_mode(
        self,
        rac: Rac,
        counts: CountView,
        h: FrameHeader,
        seg: int,
    ) -> Taken<u8> {
        if h.segmentation.enabled && h.segmentation.feat@[seg].skip_enabled {
            Taken { value: ZEROMV, rac, counts }
        } else {
            mv_mode_spec(
                rac,
                counts,
                h,
                mv_mode_ctx(
                    self.above,
                    self.left,
                    self.col,
                    self.row7,
                    INTER_MODE_CTX_OFF@[self.bs.code_spec() as int] as int,
                ),
            )
        }
    }
}

/// What is read for an inter block.
pub struct InterRead {
    pub comp: bool,
    pub refs: Seq<i8>,
    pub mode: Seq<u8>,
    pub mv: Seq<[[i16; 2]; 2]>,
    pub filter: u8,
    pub filter_id: u8,
    pub rac: Rac,
    pub counts: CountView,
}

/// What is read for an inter block: its references, then its mode, its filter and its
/// motion vectors; or its filter, then the modes and motion vectors of its quarters.
#[verifier::opaque]
pub open spec fn inter_spec(
    rac: Rac,
    counts: CountView,
    h: FrameHeader,
    seg: int,
    src: MvSource,
    above: CtxView,
    left: CtxView,
    row: int,
    col: int,
    row7: int,
    bs: BlockSize,
) -> InterRead {
    let have_a = row > 0;
    let have_l = col > src.tile_col_start;
    let r = refs_spec(
        rac,
        counts,
        h,
        seg,
        above_spec(above, col, have_a),
        left_spec(left, row7, have_l),
    );
    let b = InterBlock {
        src,
        above,
        left,
        row,
        col,
        row7,
        bs,
        comp: r.value.0,
        refs: r.value.1,
    };
    let zero = crate::vp9::context::fill(crate::vp9::context::zero_mvs(), 4);
    let m = if crate::vp9::modes::sub8x8(bs) {
        Taken { value: 0u8, rac: r.rac, counts: r.counts }
    } else {
        b.whole_mode(r.rac, r.counts, h, seg)
    };
    let f = filter_spec(m.rac, m.counts, h, above, left, col, row7, have_a, have_l);
    let s0 = Motion {
        mode: crate::vp9::context::fill(m.value, 4),
        mv: zero,
        rac: f.rac,
        counts: f.counts,
    };
    let s = if crate::vp9::modes::sub8x8(bs) {
        b.quarters(s0, h)
    } else {
        let t = b.with_mv(s0, h, 0, -1);
        Motion { mv: crate::vp9::context::fill(t.mv[0], 4), ..t }
    };
    InterRead {
        comp: b.comp,
        refs: b.refs,
        mode: s.mode,
        mv: s.mv,
        filter: f.value.0,
        filter_id: f.value.1,
        rac: s.rac,
        counts: s.counts,
    }
}

/// What is read for an inter block.
pub struct InterModeResult {
    pub comp: bool,
    /// References: 0 to 2, or -1 where there is none.
    pub ref_frame: [i8; 2],
    pub inter_mode: [u8; 4],
    pub mv: [[[i16; 2]; 2]; 4],
    pub filter: u8,
    pub filter_id: u8,
}

/// Reads the motion vectors of the quarter `k`, or of the block (`sb` is -1).
fn read_mv_pair(
    bd: &mut BoolDecoder,
    counts: &mut CountContext,
    h: &FrameHeader,
    ctx: &MvSearchCtx,
    grid: &[MvRefPair],
    prev: Option<&[MvRefPair]>,
    prev_cols: usize,
    above: &AboveContext,
    left: &LeftContext,
    row: usize,
    col: usize,
    row7: usize,
    bs: BlockSize,
    comp: bool,
    refs: &[i8; 2],
    mode: u8,
    sb: i32,
    k: usize,
    mv: &mut [[[i16; 2]; 2]; 4],
    Ghost(b): Ghost<InterBlock>,
    Ghost(s): Ghost<Motion>,
)
    requires
        old(bd)@.wf(),
        ctx.wf(),
        row < ctx.rows_4x4,
        col < ctx.cols_4x4,
        ctx.rows_4x4 * ctx.cols_4x4 <= grid@.len(),
        crate::vp9::mvs::grid_wf(grid@),
        prev matches Some(p) ==> crate::vp9::mvs::grid_wf(p@),
        row * prev_cols + col <= usize::MAX,
        row7 <= 7,
        -1 <= sb <= 3,
        k < 4,
        0 <= refs@[0] <= 2,
        comp ==> 0 <= refs@[1] <= 2,
        *ctx == limits_spec(b.src, b.row, b.col, b.bs),
        b.src.grid == grid@,
        b.src.prev == (match prev {
            Some(p) => Some(p@),
            None => None,
        }),
        b.src.prev_cols == prev_cols,
        b.above == above@,
        b.left == left@,
        b.row == row,
        b.col == col,
        b.row7 == row7,
        b.bs == bs,
        b.comp == comp,
        b.refs == refs@,
        s.rac == old(bd)@,
        s.counts == old(counts)@,
        s.mv == old(mv)@,
        s.mode[k as int] == mode,
    ensures
        final(bd)@.wf(),
        final(bd)@.data == old(bd)@.data,
        (Motion { mode: s.mode, mv: final(mv)@, rac: final(bd)@, counts: final(counts)@ })
            == b.with_mv(s, *h, k as int, sb as int),
{
    let before: [[[i16; 2]; 2]; 4] = *mv;
    let mut out: [[i16; 2]; 2] = before[k];
    assert(above@.mv == above.mv@);
    assert(left@.mv == left.mv@);
    fill_mv(
        bd,
        ctx,
        grid,
        prev,
        prev_cols,
        above.mv.as_slice(),
        &left.mv,
        &mut out,
        mode,
        sb,
        row,
        col,
        row7,
        bs,
        comp,
        refs,
        &before,
        &h.prob,
        counts,
        h.high_precision_mvs,
        h.use_last_frame_mvs,
    );
    mv[k] = out;
    proof {
        lemma_mv_pair(out);
    }
}

/// Whether an inter block and the vectors around it are in order.
pub open spec fn inter_block_wf(
    ctx: MvSearchCtx,
    grid: Seq<MvRefPair>,
    prev: Option<Seq<MvRefPair>>,
    prev_cols: int,
    row: int,
    col: int,
    row7: int,
    comp: bool,
    refs: Seq<i8>,
) -> bool {
    &&& ctx.wf()
    &&& 0 <= row < ctx.rows_4x4
    &&& 0 <= col < ctx.cols_4x4
    &&& ctx.rows_4x4 * ctx.cols_4x4 <= grid.len()
    &&& crate::vp9::mvs::grid_wf(grid)
    &&& prev matches Some(p) ==> crate::vp9::mvs::grid_wf(p)
    &&& row * prev_cols + col <= usize::MAX
    &&& 0 <= row7 <= 7
    &&& 0 <= refs[0] <= 2
    &&& comp ==> 0 <= refs[1] <= 2
}

/// Reads the mode and the motion vectors of the quarter `k`.
fn read_quarter(
    bd: &mut BoolDecoder,
    counts: &mut CountContext,
    h: &FrameHeader,
    ctx: &MvSearchCtx,
    grid: &[MvRefPair],
    prev: Option<&[MvRefPair]>,
    prev_cols: usize,
    above: &AboveContext,
    left: &LeftContext,
    row: usize,
    col: usize,
    row7: usize,
    bs: BlockSize,
    comp: bool,
    refs: &[i8; 2],
    c: usize,
    k: usize,
    mode: &mut [u8; 4],
    mv: &mut [[[i16; 2]; 2]; 4],
    Ghost(b): Ghost<InterBlock>,
)
    requires
        old(bd)@.wf(),
        c < 7,
        k < 4,
        inter_block_wf(
            *ctx,
            grid@,
            b.src.prev,
            prev_cols as int,
            row as int,
            col as int,
            row7 as int,
            comp,
            refs@,
        ),
        *ctx == limits_spec(b.src, b.row, b.col, b.bs),
        b.src.grid == grid@,
        b.src.prev == (match prev {
            Some(p) => Some(p@),
            None => None,
        }),
        b.src.prev_cols == prev_cols,
        b.above == above@,
        b.left == left@,
        b.row == row,
        b.col == col,
        b.row7 == row7,
        b.bs == bs,
        b.comp == comp,
        b.refs == refs@,
    ensures
        final(bd)@.wf(),
        final(bd)@.data == old(bd)@.data,
        (Motion {
            mode: final(mode)@,
            mv: final(mv)@,
            rac: final(bd)@,
            counts: final(counts)@,
        }) == b.quarter(
            Motion { mode: old(mode)@, mv: old(mv)@, rac: old(bd)@, counts: old(counts)@ },
            *h,
            c as int,
            k as int,
        ),
        10 <= final(mode)@[k as int] <= 13,
{
    let m: u8 = read_mv_mode(bd, counts, h, c);
    mode[k] = m;
    let ghost s = Motion { mode: mode@, mv: mv@, rac: bd@, counts: counts@ };
    read_mv_pair(
        bd,
        counts,
        h,
        ctx,
        grid,
        prev,
        prev_cols,
        above,
        left,
        row,
        col,
        row7,
        bs,
        comp,
        refs,
        m,
        k as i32,
        k,
        mv,
        Ghost(b),
        Ghost(s),
    );
}

/// Reads the modes and motion vectors of the quarters of a block.
fn read_quarters(
    bd: &mut BoolDecoder,
    counts: &mut CountContext,
    h: &FrameHeader,
    ctx: &MvSearchCtx,
    grid: &[MvRefPair],
    prev: Option<&[MvRefPair]>,
    prev_cols: usize,
    above: &AboveContext,
    left: &LeftContext,
    row: usize,
    col: usize,
    row7: usize,
    bs: BlockSize,
    comp: bool,
    refs: &[i8; 2],
    mode: &mut [u8; 4],
    mv: &mut [[[i16; 2]; 2]; 4],
    Ghost(b): Ghost<InterBlock>,
)
    requires
        old(bd)@.wf(),
        inter_block_wf(
            *ctx,
            grid@,
            b.src.prev,
            prev_cols as int,
            row as int,
            col as int,
            row7 as int,
            comp,
            refs@,
        ),
        *ctx == limits_spec(b.src, b.row, b.col, b.bs),
        b.src.grid == grid@,
        b.src.prev == (match prev {
            Some(p) => Some(p@),
            None => None,
        }),
        b.src.prev_cols == prev_cols,
        b.above == above@,
        b.left == left@,
        b.row == row,
        b.col == col,
        b.row7 == row7,
        b.bs == bs,
        b.comp == comp,
        b.refs == refs@,
    ensures
        final(bd)@.wf(),
        final(bd)@.data == old(bd)@.data,
        (Motion {
            mode: final(mode)@,
            mv: final(mv)@,
            rac: final(bd)@,
            counts: final(counts)@,
        }) == b.quarters(
            Motion { mode: old(mode)@, mv: old(mv)@, rac: old(bd)@, counts: old(counts)@ },
            *h,
        ),
        10 <= final(mode)@[3] <= 13,
{
    let c: usize = inter_mode_ctx(above, left, col, row7, 0);
    read_quarter(
        bd, counts, h, ctx, grid, prev, prev_cols, above, left, row, col, row7, bs, comp, refs, c,
        0, mode, mv, Ghost(b),
    );
    let ghost m0 = mode@[0];
    if bs != BlockSize::Bs8x4 {
        read_quarter(
            bd, counts, h, ctx, grid, prev, prev_cols, above, left, row, col, row7, bs, comp, refs,
            c, 1, mode, mv, Ghost(b),
        );
    } else {
        mode[1] = mode[0];
        mv[1] = mv[0];
    }
    if bs != BlockSize::Bs4x8 {
        read_quarter(
            bd, counts, h, ctx, grid, prev, prev_cols, above, left, row, col, row7, bs, comp, refs,
            c, 2, mode, mv, Ghost(b),
        );
        if bs != BlockSize::Bs8x4 {
            read_quarter(
                bd, counts, h, ctx, grid, prev, prev_cols, above, left, row, col, row7, bs, comp,
                refs, c, 3, mode, mv, Ghost(b),
            );
        } else {
            mode[3] = mode[2];
            mv[3] = mv[2];
        }
    } else {
        mode[2] = mode[0];
        mv[2] = mv[0];
        mode[3] = mode[1];
        mv[3] = mv[1];
    }
}

/// The limits of the motion vectors of a block.
fn search_ctx(
    rows: usize,
    cols: usize,
    tile_col_start: usize,
    sign_bias: [bool; 3],
    row: usize,
    col: usize,
    bs: BlockSize,
    Ghost(src): Ghost<MvSource>,
) -> (r: MvSearchCtx)
    requires
        rows <= 16384,
        cols <= 16384,
        row < rows,
        col < cols,
        row + BWH_TAB@[0]@[bs.code_spec() as int]@[1] <= rows + 7,
        col + BWH_TAB@[0]@[bs.code_spec() as int]@[0] <= cols + 7,
        src.rows == rows,
        src.cols == cols,
        src.tile_col_start == tile_col_start,
        src.sign_bias == sign_bias,
    ensures
        r == limits_spec(src, row as int, col as int, bs),
        r.wf(),
{
    let w: i32 = BWH_TAB[0][bs.code() as usize][0] as i32;
    let h: i32 = BWH_TAB[0][bs.code() as usize][1] as i32;
    let min_mv: [i16; 2] = [to_i16(-(128 + col as i32 * 32)), to_i16(-(128 + row as i32 * 32))];
    let max_mv: [i16; 2] = [
        to_i16(128 + (cols as i32 - col as i32 - w) * 32),
        to_i16(128 + (rows as i32 - row as i32 - h) * 32),
    ];
    let r = MvSearchCtx {
        min_mv,
        max_mv,
        tile_col_start,
        cols_4x4: cols,
        rows_4x4: rows,
        sign_bias,
    };
    proof {
        let e = limits_spec(src, row as int, col as int, bs);
        assert(min_mv =~= e.min_mv);
        assert(max_mv =~= e.max_mv);
    }
    r
}

/// Reads the references, modes, filter and motion vectors of an inter block.
#[verifier::rlimit(100)]
#[verifier::spinoff_prover]
pub fn decode_inter_mode(
    bd: &mut BoolDecoder,
    counts: &mut CountContext,
    h: &FrameHeader,
    seg: u8,
    rows: usize,
    cols: usize,
    tile_col_start: usize,
    sign_bias: [bool; 3],
    grid: &[MvRefPair],
    prev: Option<&[MvRefPair]>,
    prev_cols: usize,
    above: &AboveContext,
    left: &LeftContext,
    row: usize,
    col: usize,
    row7: usize,
    bs: BlockSize,
) -> (r: InterModeResult)
    requires
        old(bd)@.wf(),
        crate::vp9::header::header_wf(*h),
        seg < 8,
        h.segmentation.enabled && h.segmentation.feat@[seg as int].ref_enabled
            ==> h.segmentation.feat@[seg as int].ref_val > 0,
        rows <= 16384,
        cols <= 16384,
        row < rows,
        col < cols,
        row + BWH_TAB@[0]@[bs.code_spec() as int]@[1] <= rows + 7,
        col + BWH_TAB@[0]@[bs.code_spec() as int]@[0] <= cols + 7,
        rows * cols <= grid@.len(),
        crate::vp9::mvs::grid_wf(grid@),
        prev matches Some(p) ==> crate::vp9::mvs::grid_wf(p@),
        row * prev_cols + col <= usize::MAX,
        row7 <= 7,
    ensures
        final(bd)@.wf(),
        final(bd)@.data == old(bd)@.data,
        (InterRead {
            comp: r.comp,
            refs: r.ref_frame@,
            mode: r.inter_mode@,
            mv: r.mv@,
            filter: r.filter,
            filter_id: r.filter_id,
            rac: final(bd)@,
            counts: final(counts)@,
        }) == inter_spec(
            old(bd)@,
            old(counts)@,
            *h,
            seg as int,
            MvSource {
                rows: rows as int,
                cols: cols as int,
                tile_col_start: tile_col_start as int,
                sign_bias,
                grid: grid@,
                prev: match prev {
                    Some(p) => Some(p@),
                    None => None,
                },
                prev_cols: prev_cols as int,
            },
            above@,
            left@,
            row as int,
            col as int,
            row7 as int,
            bs,
        ),
        0 <= r.ref_frame@[0] <= 2,
        r.comp ==> 0 <= r.ref_frame@[1] <= 2,
        -1 <= r.ref_frame@[1] <= 2,
        10 <= r.inter_mode@[3] <= 13,
        r.filter <= 3,
        r.filter_id <= 2,
{
    let ghost src = MvSource {
        rows: rows as int,
        cols: cols as int,
        tile_col_start: tile_col_start as int,
        sign_bias,
        grid: grid@,
        prev: match prev {
            Some(p) => Some(p@),
            None => None,
        },
        prev_cols: prev_cols as int,
    };
    let have_a = row > 0;
    let have_l = col > tile_col_start;
    let a: Option<Neighbor> = neighbor_above(above, col, have_a);
    let l: Option<Neighbor> = neighbor_left(left, row7, have_l);
    let (comp, refs) = read_refs(bd, counts, h, seg, a, l);
    let ghost b = InterBlock {
        src,
        above: above@,
        left: left@,
        row: row as int,
        col: col as int,
        row7: row7 as int,
        bs,
        comp,
        refs: refs@,
    };
    let small = is_sub8x8(bs);
    let mut m: u8 = 0;
    if !small {
        if h.segmentation.enabled && h.segmentation.feat[seg as usize].skip_enabled {
            m = ZEROMV;
        } else {
            let off: usize = INTER_MODE_CTX_OFF[bs.code() as usize] as usize;
            let c: usize = inter_mode_ctx(above, left, col, row7, off);
            m = read_mv_mode(bd, counts, h, c);
        }
    }
    let (filter, filter_id) = read_filter(
        bd,
        counts,
        h,
        above,
        left,
        col,
        row7,
        have_a,
        have_l,
    );
    let mut mode: [u8; 4] = [m; 4];
    let mut mv: [[[i16; 2]; 2]; 4] = [crate::vp9::context::no_mvs(); 4];
    let ghost s0 = Motion { mode: mode@, mv: mv@, rac: bd@, counts: counts@ };
    proof {
        assert(mode@ =~= crate::vp9::context::fill(m, 4));
        assert(mv@ =~= crate::vp9::context::fill(crate::vp9::context::zero_mvs(), 4));
    }
    let ctx: MvSearchCtx = search_ctx(
        rows,
        cols,
        tile_col_start,
        sign_bias,
        row,
        col,
        bs,
        Ghost(src),
    );
    if small {
        read_quarters(
            bd,
            counts,
            h,
            &ctx,
            grid,
            prev,
            prev_cols,
            above,
            left,
            row,
            col,
            row7,
            bs,
            comp,
            &refs,
            &mut mode,
            &mut mv,
            Ghost(b),
        );
    } else {
        read_mv_pair(
            bd,
            counts,
            h,
            &ctx,
            grid,
            prev,
            prev_cols,
            above,
            left,
            row,
            col,
            row7,
            bs,
            comp,
            &refs,
            m,
            -1,
            0,
            &mut mv,
            Ghost(b),
            Ghost(s0),
        );
        let ghost t = b.with_mv(s0, *h, 0, -1);
        mv[1] = mv[0];
        mv[2] = mv[0];
        mv[3] = mv[0];
        assert(mv@ =~= crate::vp9::context::fill(t.mv[0], 4));
    }
    proof {
        reveal(inter_spec);
    }
    InterModeResult { comp, ref_frame: refs, inter_mode: mode, mv, filter, filter_id }
}

} // verus!

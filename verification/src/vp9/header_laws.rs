//! What is written into the header of a frame is read back.
use vstd::prelude::*;

use crate::vp9::bits::{flag, num};
use crate::vp9::header::SegmentFeature;
use crate::vp9::uncompressed::{
    base_level, delta_spec, feature_spec, inter_layout_spec, levels_spec, loop_filter_spec,
    max_tile_log2, min_tile_log2, narrow_log2, quant_spec, sbits_spec, size_spec, tile_cols_spec,
    LoopFilter, SegmentsView,
};

verus! {

/// A number and the bits that it takes.
pub type Field = (int, int);

/// Whether fields stand one behind the other from the bit `p` on.
pub open spec fn written(d: Seq<u8>, p: int, f: Seq<Field>) -> bool
    decreases f.len(),
{
    f.len() == 0 || (num(d, p, f[0].1) == f[0].0 && written(d, p + f[0].1, f.drop_first()))
}

/// The bits that fields take.
pub open spec fn width(f: Seq<Field>) -> int
    decreases f.len(),
{
    if f.len() == 0 {
        0
    } else {
        f[0].1 + width(f.drop_first())
    }
}

proof fn lemma_parts(d: Seq<u8>, p: int, a: Seq<Field>, b: Seq<Field>)
    ensures
        written(d, p, a + b) <==> written(d, p, a) && written(d, p + width(a), b),
        width(a + b) == width(a) + width(b),
    decreases a.len(),
{
    if a.len() == 0 {
        assert(a + b =~= b);
    } else {
        assert((a + b).drop_first() =~= a.drop_first() + b);
        lemma_parts(d, p + a[0].1, a.drop_first(), b);
    }
}

/// One for true.
pub open spec fn bit(b: bool) -> int {
    if b {
        1
    } else {
        0
    }
}

/// How far a number is from zero.
pub open spec fn size_of(v: int) -> int {
    if v < 0 {
        -v
    } else {
        v
    }
}

/// A number with its sign behind it.
pub open spec fn signed(v: int, n: int) -> Seq<Field> {
    seq![(size_of(v), n), (bit(v < 0), 1int)]
}

/// A number that may be left out.
pub open spec fn optional(v: Option<i8>, n: int) -> Seq<Field> {
    match v {
        Some(x) => seq![(1int, 1int), (size_of(x as int), n), (bit(x < 0), 1int)],
        None => seq![(0int, 1int)],
    }
}

/// A number with a sign is read back.
pub proof fn law_signed_number_is_read_back(d: Seq<u8>, p: int, v: int, n: int)
    requires
        -127 <= v <= 127,
        written(d, p, signed(v, n)),
    ensures
        sbits_spec(d, p, n) == v,
{
    reveal_with_fuel(written, 3);
}

/// A number that may be left out is read back, or what it was before stays.
pub proof fn law_optional_number_is_read_back(d: Seq<u8>, p: int, v: Option<i8>, n: int, before: i8)
    requires
        0 <= n,
        v matches Some(x) ==> -127 <= x,
        written(d, p, optional(v, n)),
    ensures
        delta_spec(d, p, n, before).value == (match v {
            Some(x) => x,
            None => before,
        }),
        delta_spec(d, p, n, before).end == p + width(optional(v, n)),
{
    reveal_with_fuel(written, 4);
    reveal_with_fuel(width, 4);
}

/// What an optional number is.
pub open spec fn or_else(v: Option<i8>, other: i8) -> i8 {
    match v {
        Some(x) => x,
        None => other,
    }
}

/// Whether the sign of an optional number can be told.
pub open spec fn proper(v: Option<i8>) -> bool {
    v matches Some(x) ==> -127 <= x
}

/// The quantizer is read back: its index, then the differences for the first coefficient of luma, for
/// the first of chroma and for the others of chroma.
pub proof fn law_quantizer_is_read_back(
    d: Seq<u8>,
    p: int,
    index: u8,
    y_dc: Option<i8>,
    uv_dc: Option<i8>,
    uv_ac: Option<i8>,
)
    requires
        proper(y_dc) && proper(uv_dc) && proper(uv_ac),
        written(
            d,
            p,
            seq![(index as int, 8int)] + optional(y_dc, 4) + optional(uv_dc, 4) + optional(uv_ac, 4),
        ),
    ensures
        ({
            let q = quant_spec(d, p);
            &&& q.value.base_q_idx == index
            &&& q.value.y_dc_delta_q == or_else(y_dc, 0)
            &&& q.value.uv_dc_delta_q == or_else(uv_dc, 0)
            &&& q.value.uv_ac_delta_q == or_else(uv_ac, 0)
            &&& q.end == p + 8 + width(optional(y_dc, 4)) + width(optional(uv_dc, 4)) + width(
                optional(uv_ac, 4),
            )
        }),
{
    let h = seq![(index as int, 8int)];
    let a = optional(y_dc, 4);
    let b = optional(uv_dc, 4);
    let c = optional(uv_ac, 4);
    lemma_parts(d, p, h + a + b, c);
    lemma_parts(d, p, h + a, b);
    lemma_parts(d, p, h, a);
    lemma_one(d, p, index as int, 8);
    law_optional_number_is_read_back(d, p + 8, y_dc, 4, 0);
    law_optional_number_is_read_back(d, p + 8 + width(a), uv_dc, 4, 0);
    law_optional_number_is_read_back(d, p + 8 + width(a) + width(b), uv_ac, 4, 0);
}

proof fn lemma_one(d: Seq<u8>, p: int, v: int, n: int)
    ensures
        written(d, p, seq![(v, n)]) <==> num(d, p, n) == v,
        width(seq![(v, n)]) == n,
{
    let f = seq![(v, n)];
    assert(f.drop_first().len() == 0);
    assert(written(d, p + n, f.drop_first()));
    assert(width(f.drop_first()) == 0);
}

/// The parameters of the loop filter are read back: the differences of the references come before
/// those of the modes, and what is left out has its standard value.
pub proof fn law_loop_filter_is_read_back(
    d: Seq<u8>,
    p: int,
    level: u8,
    sharpness: u8,
    refs: Seq<Option<i8>>,
    modes: Seq<Option<i8>>,
)
    requires
        refs.len() == 4,
        modes.len() == 2,
        forall|i: int| 0 <= i < 4 ==> proper(#[trigger] refs[i]),
        forall|i: int| 0 <= i < 2 ==> proper(#[trigger] modes[i]),
        written(d, p, filter_fields(level, sharpness, refs, modes)),
    ensures
        ({
            let f = loop_filter_spec(d, p).value;
            &&& f.level == level
            &&& f.sharpness == sharpness
            &&& f.ref_deltas@[0] == or_else(refs[0], 1)
            &&& f.ref_deltas@[1] == or_else(refs[1], 0)
            &&& f.ref_deltas@[2] == or_else(refs[2], -1i8)
            &&& f.ref_deltas@[3] == or_else(refs[3], -1i8)
            &&& f.mode_deltas@[0] == or_else(modes[0], 0)
            &&& f.mode_deltas@[1] == or_else(modes[1], 0)
            &&& loop_filter_spec(d, p).end == p + width(filter_fields(level, sharpness, refs, modes))
        }),
{
    let h = seq![(level as int, 6int), (sharpness as int, 3int), (1int, 1int), (1int, 1int)];
    let r0 = optional(refs[0], 6);
    let r1 = optional(refs[1], 6);
    let r2 = optional(refs[2], 6);
    let r3 = optional(refs[3], 6);
    let m0 = optional(modes[0], 6);
    let m1 = optional(modes[1], 6);
    lemma_parts(d, p, h + r0 + r1 + r2 + r3 + m0, m1);
    lemma_parts(d, p, h + r0 + r1 + r2 + r3, m0);
    lemma_parts(d, p, h + r0 + r1 + r2, r3);
    lemma_parts(d, p, h + r0 + r1, r2);
    lemma_parts(d, p, h + r0, r1);
    lemma_parts(d, p, h, r0);
    assert(written(d, p, h) ==> num(d, p, 6) == level && num(d, p + 6, 3) == sharpness && flag(d, p + 9)
        && flag(d, p + 10)) by {
        reveal_with_fuel(written, 5);
    }
    assert(width(h) == 11) by {
        reveal_with_fuel(width, 5);
    }
    let p0 = p + 11;
    let p1 = p0 + width(r0);
    let p2 = p1 + width(r1);
    let p3 = p2 + width(r2);
    let p4 = p3 + width(r3);
    let p5 = p4 + width(m0);
    law_optional_number_is_read_back(d, p0, refs[0], 6, 1);
    law_optional_number_is_read_back(d, p1, refs[1], 6, 0);
    law_optional_number_is_read_back(d, p2, refs[2], 6, -1i8);
    law_optional_number_is_read_back(d, p3, refs[3], 6, -1i8);
    law_optional_number_is_read_back(d, p4, modes[0], 6, 0);
    law_optional_number_is_read_back(d, p5, modes[1], 6, 0);
}

/// The fields of the loop filter, with differences.
pub open spec fn filter_fields(
    level: u8,
    sharpness: u8,
    refs: Seq<Option<i8>>,
    modes: Seq<Option<i8>>,
) -> Seq<Field> {
    seq![(level as int, 6int), (sharpness as int, 3int), (1int, 1int), (1int, 1int)] + optional(
        refs[0],
        6,
    ) + optional(refs[1], 6) + optional(refs[2], 6) + optional(refs[3], 6) + optional(modes[0], 6)
        + optional(modes[1], 6)
}

/// The size of a frame is read back, and the size that it is shown at, if that is another one.
pub proof fn law_size_is_read_back(d: Seq<u8>, p: int, w: int, h: int, shown: Option<(int, int)>)
    requires
        1 <= w <= 65536,
        1 <= h <= 65536,
        shown matches Some(s) ==> 1 <= s.0 <= 65536 && 1 <= s.1 <= 65536,
        written(
            d,
            p,
            match shown {
                None => seq![(w - 1, 16int), (h - 1, 16int), (0int, 1int)],
                Some(s) => seq![
                    (w - 1, 16int),
                    (h - 1, 16int),
                    (1int, 1int),
                    (s.0 - 1, 16int),
                    (s.1 - 1, 16int),
                ],
            },
        ),
    ensures
        ({
            let s = size_spec(d, p);
            &&& s.value.width == w
            &&& s.value.height == h
            &&& shown is None ==> s.value.render_width == w && s.value.render_height == h && s.end == p
                + 33
            &&& shown matches Some(r) ==> s.value.render_width == r.0 && s.value.render_height == r.1
                && s.end == p + 65
        }),
{
    reveal_with_fuel(written, 6);
}

/// Which frames are replaced, which ones are referred to and on which side they lie is read back.
pub proof fn law_references_are_read_back(
    d: Seq<u8>,
    p: int,
    reset: u8,
    mask: u8,
    slots: (u8, u8, u8),
    sides: (bool, bool, bool),
)
    requires
        written(
            d,
            p,
            seq![
                (mask as int, 8int),
                (slots.0 as int, 3int),
                (bit(sides.0), 1int),
                (slots.1 as int, 3int),
                (bit(sides.1), 1int),
                (slots.2 as int, 3int),
                (bit(sides.2), 1int),
            ],
        ),
    ensures
        ({
            let l = inter_layout_spec(d, p, reset, false).value;
            &&& l.refresh_ref_mask == mask
            &&& l.ref_idx@ == seq![slots.0, slots.1, slots.2]
            &&& l.sign_bias@ == seq![sides.0, sides.1, sides.2]
            &&& l.reset_context == reset
            &&& !l.intra_only
        }),
{
    reveal_with_fuel(written, 8);
    let l = inter_layout_spec(d, p, reset, false).value;
    assert(l.ref_idx@ =~= seq![slots.0, slots.1, slots.2]);
    assert(l.sign_bias@ =~= seq![sides.0, sides.1, sides.2]);
}

/// The fields of the features of a segment.
pub open spec fn feature_fields(f: SegmentFeature) -> Seq<Field> {
    let q = if f.q_enabled {
        seq![(1int, 1int), (size_of(f.q_val as int), 8int), (bit(f.q_val < 0), 1int)]
    } else {
        seq![(0int, 1int)]
    };
    let l = if f.lf_enabled {
        seq![(1int, 1int), (size_of(f.lf_val as int), 6int), (bit(f.lf_val < 0), 1int)]
    } else {
        seq![(0int, 1int)]
    };
    let r = if f.ref_enabled {
        seq![(1int, 1int), (f.ref_val as int, 2int)]
    } else {
        seq![(0int, 1int)]
    };
    q + l + r + seq![(bit(f.skip_enabled), 1int)]
}

/// The features of a segment are read back: quantizer, loop filter, reference and skipping.
pub proof fn law_features_are_read_back(d: Seq<u8>, p: int, f: SegmentFeature)
    requires
        -255 <= f.q_val <= 255,
        -63 <= f.lf_val <= 63,
        !f.q_enabled ==> f.q_val == 0,
        !f.lf_enabled ==> f.lf_val == 0,
        !f.ref_enabled ==> f.ref_val == 0,
        written(d, p, feature_fields(f)),
    ensures
        ({
            let r = feature_spec(d, p).value;
            &&& r.q_enabled == f.q_enabled && r.q_val == f.q_val
            &&& r.lf_enabled == f.lf_enabled && r.lf_val == f.lf_val
            &&& r.ref_enabled == f.ref_enabled && r.ref_val == f.ref_val
            &&& r.skip_enabled == f.skip_enabled
            &&& feature_spec(d, p).end == p + width(feature_fields(f))
        }),
{
    let q = if f.q_enabled {
        seq![(1int, 1int), (size_of(f.q_val as int), 8int), (bit(f.q_val < 0), 1int)]
    } else {
        seq![(0int, 1int)]
    };
    let l = if f.lf_enabled {
        seq![(1int, 1int), (size_of(f.lf_val as int), 6int), (bit(f.lf_val < 0), 1int)]
    } else {
        seq![(0int, 1int)]
    };
    let r = if f.ref_enabled {
        seq![(1int, 1int), (f.ref_val as int, 2int)]
    } else {
        seq![(0int, 1int)]
    };
    let s = seq![(bit(f.skip_enabled), 1int)];
    lemma_parts(d, p, q + l + r, s);
    lemma_parts(d, p, q + l, r);
    lemma_parts(d, p, q, l);
    let p1 = p + width(q);
    let p2 = p1 + width(l);
    lemma_switched(d, p, f.q_enabled, f.q_val as int, 8);
    lemma_switched(d, p1, f.lf_enabled, f.lf_val as int, 6);
    lemma_choice(d, p2, f.ref_enabled, f.ref_val as int);
    lemma_one(d, p2 + width(r), bit(f.skip_enabled), 1);
}

proof fn lemma_switched(d: Seq<u8>, p: int, on: bool, v: int, n: int)
    requires
        written(
            d,
            p,
            if on {
                seq![(1int, 1int), (size_of(v), n), (bit(v < 0), 1int)]
            } else {
                seq![(0int, 1int)]
            },
        ),
    ensures
        flag(d, p) == on,
        on ==> num(d, p + 1, n) == size_of(v) && flag(d, p + 1 + n) == (v < 0),
        width(
            if on {
                seq![(1int, 1int), (size_of(v), n), (bit(v < 0), 1int)]
            } else {
                seq![(0int, 1int)]
            },
        ) == (if on {
            n + 2
        } else {
            1
        }),
{
    reveal_with_fuel(written, 4);
    reveal_with_fuel(width, 4);
}

proof fn lemma_choice(d: Seq<u8>, p: int, on: bool, v: int)
    requires
        written(
            d,
            p,
            if on {
                seq![(1int, 1int), (v, 2int)]
            } else {
                seq![(0int, 1int)]
            },
        ),
    ensures
        flag(d, p) == on,
        on ==> num(d, p + 1, 2) == v,
        width(
            if on {
                seq![(1int, 1int), (v, 2int)]
            } else {
                seq![(0int, 1int)]
            },
        ) == (if on {
            3int
        } else {
            1
        }),
{
    reveal_with_fuel(written, 3);
    reveal_with_fuel(width, 3);
}

/// `v`, or the nearest level.
pub open spec fn as_level(v: int) -> int {
    if v < 0 {
        0
    } else if v > 63 {
        63
    } else {
        v
    }
}

/// The levels of a segment: with differences, each reference and mode adds its own, twice at high
/// levels; blocks without motion take that of the first reference alone.
pub proof fn law_levels_add_their_differences(
    s: SegmentsView,
    i: int,
    lf: LoopFilter,
    r: int,
    m: int,
)
    requires
        1 <= r < 4,
        0 <= m < 2,
        lf.level <= 63,
        -64 < lf.ref_deltas@[0] < 64,
        -64 < lf.ref_deltas@[r] < 64,
        -64 < lf.mode_deltas@[m] < 64,
    ensures
        ({
            let base = base_level(s, i, lf.level) as int;
            let times = if lf.level >= 32 {
                2int
            } else {
                1
            };
            let l = levels_spec(s, i, lf);
            &&& lf.delta_enabled ==> l@[r]@[m] == as_level(
                base + times * (lf.ref_deltas@[r] + lf.mode_deltas@[m]),
            )
            &&& lf.delta_enabled ==> l@[0]@[m] == as_level(base + times * lf.ref_deltas@[0])
            &&& !lf.delta_enabled ==> l@[r]@[m] == base && l@[0]@[m] == base
        }),
        !s.enabled ==> base_level(s, i, lf.level) == lf.level,
        s.enabled && s.feat[i].lf_enabled && s.absolute_vals ==> base_level(s, i, lf.level)
            == as_level(s.feat[i].lf_val as int),
        s.enabled && s.feat[i].lf_enabled && !s.absolute_vals ==> base_level(s, i, lf.level)
            == as_level(lf.level + s.feat[i].lf_val),
{
    assert(2 * (lf.ref_deltas@[r] + lf.mode_deltas@[m]) == 2 * lf.ref_deltas@[r] + 2
        * lf.mode_deltas@[m]);
}

proof fn lemma_tile_range(d: Seq<u8>, p: int, from: u8, max: u8)
    ensures
        from <= tile_cols_spec(d, p, from, max).0,
        from <= max ==> tile_cols_spec(d, p, from, max).0 <= max,
    decreases max - from,
{
    if from < max && flag(d, p) {
        lemma_tile_range(d, p + 1, (from + 1) as u8, max);
    }
}

/// As many ones as there are doublings of the columns of tiles, then a zero unless no more are allowed.
pub proof fn law_tile_columns_are_read_back(d: Seq<u8>, p: int, from: u8, max: u8, v: u8)
    requires
        from <= v <= max,
        forall|i: int| 0 <= i < v - from ==> flag(d, #[trigger] (p + i)),
        v < max ==> !flag(d, p + v - from),
    ensures
        tile_cols_spec(d, p, from, max).0 == v,
    decreases v - from,
{
    if from < v {
        assert(flag(d, p + 0));
        assert forall|i: int| 0 <= i < v - from - 1 implies flag(d, #[trigger] (p + 1 + i)) by {
            assert(flag(d, p + (i + 1)));
        }
        law_tile_columns_are_read_back(d, p + 1, (from + 1) as u8, max, v);
    }
}

proof fn lemma_not_too_wide(sb: u32, from: u8)
    requires
        sb <= 2048,
        from <= 5,
    ensures
        sb <= 64u32 << min_tile_log2(sb, from),
        from <= min_tile_log2(sb, from) <= 5,
    decreases 6 - from,
{
    assert(64u32 << 5u8 == 2048) by (bit_vector);
    if from < 5 && sb > 64u32 << from {
        lemma_not_too_wide(sb, (from + 1) as u8);
    }
}

proof fn lemma_not_too_narrow(sb: u32, from: u8)
    requires
        from <= 9,
    ensures
        from <= narrow_log2(sb, from) <= 9,
        narrow_log2(sb, from) > from ==> sb >> ((narrow_log2(sb, from) - 1) as u8) >= 4,
    decreases 10 - from,
{
    if from < 9 && sb >> from >= 4 {
        lemma_not_too_narrow(sb, (from + 1) as u8);
    }
}

/// However tiles are divided, none is wider than 64 superblocks, and none is narrower than four unless
/// the frame is.
pub proof fn law_tiles_are_neither_wide_nor_narrow(d: Seq<u8>, p: int, sb: u32)
    requires
        1 <= sb <= 2048,
    ensures
        ({
            let v = tile_cols_spec(d, p, min_tile_log2(sb, 0), max_tile_log2(sb)).0;
            let least = min_tile_log2(sb, 0);
            &&& sb <= 64u32 << least
            &&& least <= v
            &&& v > least ==> v <= max_tile_log2(sb)
            &&& max_tile_log2(sb) > 0 ==> sb >> max_tile_log2(sb) >= 4
        }),
{
    lemma_not_too_wide(sb, 0);
    lemma_not_too_narrow(sb, 0);
    lemma_tile_range(d, p, min_tile_log2(sb, 0), max_tile_log2(sb));
}

} // verus!

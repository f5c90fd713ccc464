//! The uncompressed part of a frame header, section by section.
//!
//! Each section has a specification that gives its value at a bit position, whether
//! the bits are valid there, and where the section ends. A reader returns the value,
//! or nothing where the bits are not valid or the data ends too early.
use vstd::prelude::*;

use crate::vp9::bits::{GetBits, Parsed};
use crate::vp9::header::{ColorRange, ColorSpace, SegmentFeature};
use crate::vp9::types::BitstreamProfile;

verus! {

/// First fields of a header.
pub struct Intro {
    pub profile: BitstreamProfile,
    pub show_existing: bool,
    pub show_ref: u8,
    pub key: bool,
    pub show: bool,
    pub resilient: bool,
}

/// The two bits of the profile, the lower one first.
pub open spec fn profile_code(d: Seq<u8>) -> u8 {
    (crate::vp9::bits::num(d, 2, 1) as u8) | ((crate::vp9::bits::num(d, 3, 1) as u8) << 1)
}

/// The profile with a code of two bits.
pub open spec fn profile_of(code: u8) -> BitstreamProfile {
    if code == 0 {
        BitstreamProfile::Profile0
    } else if code == 1 {
        BitstreamProfile::Profile1
    } else if code == 2 {
        BitstreamProfile::Profile2
    } else {
        BitstreamProfile::Profile3
    }
}

/// Marker, profile and frame flags at the start of a header.
pub open spec fn intro_spec(d: Seq<u8>) -> Parsed<Intro> {
    let code = profile_code(d);
    let p = if code == 3 { 5int } else { 4int };
    let ok = crate::vp9::bits::num(d, 0, 2) == 2 && (code == 3 ==> !crate::vp9::bits::flag(d, 4));
    if crate::vp9::bits::flag(d, p) {
        Parsed {
            value: Intro {
                profile: profile_of(code),
                show_existing: true,
                show_ref: crate::vp9::bits::num(d, p + 1, 3) as u8,
                key: true,
                show: true,
                resilient: false,
            },
            ok,
            end: p + 4,
        }
    } else {
        Parsed {
            value: Intro {
                profile: profile_of(code),
                show_existing: false,
                show_ref: 0,
                key: !crate::vp9::bits::flag(d, p + 1),
                show: crate::vp9::bits::flag(d, p + 2),
                resilient: crate::vp9::bits::flag(d, p + 3),
            },
            ok,
            end: p + 4,
        }
    }
}

/// Reads the first fields of a header.
pub fn read_intro(gb: &mut GetBits<'_>) -> (r: Option<Intro>)
    requires
        old(gb).wf(),
        old(gb).at() == 0,
    ensures
        final(gb).wf(),
        final(gb).data() == old(gb).data(),
        crate::vp9::bits::got(r, intro_spec(old(gb).data()), old(gb).bits(), final(gb).at()),
{
    let marker: u32 = gb.get_bits(2)?;
    if marker != 2 {
        return None;
    }
    let lo: u8 = gb.get_bits(1)? as u8;
    let hi: u8 = gb.get_bits(1)? as u8;
    let code: u8 = lo | (hi << 1);
    if code == 3 {
        let reserved = gb.get_bit()?;
        if reserved {
            return None;
        }
    }
    let profile = if code == 0 {
        BitstreamProfile::Profile0
    } else if code == 1 {
        BitstreamProfile::Profile1
    } else if code == 2 {
        BitstreamProfile::Profile2
    } else {
        BitstreamProfile::Profile3
    };
    let show_existing = gb.get_bit()?;
    if show_existing {
        let show_ref: u8 = gb.get_bits(3)? as u8;
        return Some(
            Intro { profile, show_existing, show_ref, key: true, show: true, resilient: false },
        );
    }
    let inter = gb.get_bit()?;
    let show = gb.get_bit()?;
    let resilient = gb.get_bit()?;
    Some(Intro { profile, show_existing, show_ref: 0, key: !inter, show, resilient })
}

/// Colour configuration of a frame.
pub struct Color {
    pub bit_depth: u8,
    pub color_space: ColorSpace,
    pub color_range: ColorRange,
    pub subsampling_x: bool,
    pub subsampling_y: bool,
}

/// Whether a profile has subsamplings other than 4:2:0.
pub open spec fn odd_profile(profile: BitstreamProfile) -> bool {
    profile == BitstreamProfile::Profile1 || profile == BitstreamProfile::Profile3
}

/// Whether a profile has 8 bits only.
pub open spec fn low_profile(profile: BitstreamProfile) -> bool {
    profile == BitstreamProfile::Profile0 || profile == BitstreamProfile::Profile1
}

/// Colour configuration at position `p`. RGB has no subsampling and only stands in
/// a profile that allows for that; such a profile in turn does not allow 4:2:0.
pub open spec fn color_spec(d: Seq<u8>, p: int, profile: BitstreamProfile) -> Parsed<Color> {
    let q = if low_profile(profile) { p } else { p + 1 };
    let bit_depth = if low_profile(profile) {
        8u8
    } else if crate::vp9::bits::flag(d, p) {
        12u8
    } else {
        10u8
    };
    let color_space = ColorSpace::of_code(crate::vp9::bits::num(d, q, 3) as u8);
    if color_space == ColorSpace::Rgb {
        Parsed {
            value: Color {
                bit_depth,
                color_space,
                color_range: ColorRange::Full,
                subsampling_x: false,
                subsampling_y: false,
            },
            ok: odd_profile(profile) && !crate::vp9::bits::flag(d, q + 3),
            end: q + 4,
        }
    } else {
        let color_range = if crate::vp9::bits::flag(d, q + 3) {
            ColorRange::Full
        } else {
            ColorRange::Limited
        };
        if odd_profile(profile) {
            let h = crate::vp9::bits::flag(d, q + 4);
            let v = crate::vp9::bits::flag(d, q + 5);
            Parsed {
                value: Color {
                    bit_depth,
                    color_space,
                    color_range,
                    subsampling_x: h,
                    subsampling_y: v,
                },
                ok: !(h && v) && !crate::vp9::bits::flag(d, q + 6),
                end: q + 7,
            }
        } else {
            Parsed {
                value: Color {
                    bit_depth,
                    color_space,
                    color_range,
                    subsampling_x: true,
                    subsampling_y: true,
                },
                ok: true,
                end: q + 4,
            }
        }
    }
}

/// Reads a colour configuration.
pub fn read_color_config(gb: &mut GetBits<'_>, profile: BitstreamProfile) -> (r: Option<Color>)
    requires
        old(gb).wf(),
    ensures
        final(gb).wf(),
        final(gb).data() == old(gb).data(),
        crate::vp9::bits::got(
            r,
            color_spec(old(gb).data(), old(gb).at(), profile),
            old(gb).bits(),
            final(gb).at(),
        ),
{
    let low = matches!(profile, BitstreamProfile::Profile0 | BitstreamProfile::Profile1);
    let odd = matches!(profile, BitstreamProfile::Profile1 | BitstreamProfile::Profile3);
    let mut bit_depth: u8 = 8;
    if !low {
        let deep = gb.get_bit()?;
        bit_depth = if deep { 12 } else { 10 };
    }
    let code: u8 = gb.get_bits(3)? as u8;
    let color_space = ColorSpace::from_code(code);
    if matches!(color_space, ColorSpace::Rgb) {
        if !odd {
            return None;
        }
        let reserved = gb.get_bit()?;
        if reserved {
            return None;
        }
        return Some(
            Color {
                bit_depth,
                color_space,
                color_range: ColorRange::Full,
                subsampling_x: false,
                subsampling_y: false,
            },
        );
    }
    let full = gb.get_bit()?;
    let color_range = if full { ColorRange::Full } else { ColorRange::Limited };
    if odd {
        let h = gb.get_bit()?;
        let v = gb.get_bit()?;
        if h && v {
            return None;
        }
        let reserved = gb.get_bit()?;
        if reserved {
            return None;
        }
        return Some(
            Color { bit_depth, color_space, color_range, subsampling_x: h, subsampling_y: v },
        );
    }
    Some(Color { bit_depth, color_space, color_range, subsampling_x: true, subsampling_y: true })
}

/// Size of a frame, and the size that it is shown at.
pub struct Size {
    pub width: u32,
    pub height: u32,
    pub render_width: u32,
    pub render_height: u32,
}

/// A dimension: 16 bits, one less than the number that they stand for.
pub open spec fn dim(d: Seq<u8>, p: int) -> u32 {
    (crate::vp9::bits::num(d, p, 16) + 1) as u32
}

/// The shown size at position `p`: the size itself unless it is given apart.
pub open spec fn render_spec(d: Seq<u8>, p: int, width: u32, height: u32) -> Parsed<Size> {
    if crate::vp9::bits::flag(d, p) {
        Parsed {
            value: Size {
                width,
                height,
                render_width: dim(d, p + 1),
                render_height: dim(d, p + 17),
            },
            ok: true,
            end: p + 33,
        }
    } else {
        Parsed {
            value: Size { width, height, render_width: width, render_height: height },
            ok: true,
            end: p + 1,
        }
    }
}

/// The size at position `p`.
pub open spec fn size_spec(d: Seq<u8>, p: int) -> Parsed<Size> {
    render_spec(d, p + 32, dim(d, p), dim(d, p + 16))
}

fn read_dim(gb: &mut GetBits<'_>) -> (r: Option<u32>)
    requires
        old(gb).wf(),
    ensures
        final(gb).wf(),
        final(gb).data() == old(gb).data(),
        crate::vp9::bits::got(
            r,
            Parsed {
                value: dim(old(gb).data(), old(gb).at()),
                ok: true,
                end: old(gb).at() + 16,
            },
            old(gb).bits(),
            final(gb).at(),
        ),
        r matches Some(v) ==> 1 <= v <= 65536,
{
    assert(1u32 << 16u32 == 65536) by (bit_vector);
    let v: u32 = gb.get_bits(16)?;
    Some(v + 1)
}

fn read_render(gb: &mut GetBits<'_>, width: u32, height: u32) -> (r: Option<Size>)
    requires
        old(gb).wf(),
    ensures
        final(gb).wf(),
        final(gb).data() == old(gb).data(),
        crate::vp9::bits::got(
            r,
            render_spec(old(gb).data(), old(gb).at(), width, height),
            old(gb).bits(),
            final(gb).at(),
        ),
{
    let apart = gb.get_bit()?;
    if apart {
        let render_width: u32 = read_dim(gb)?;
        let render_height: u32 = read_dim(gb)?;
        Some(Size { width, height, render_width, render_height })
    } else {
        Some(Size { width, height, render_width: width, render_height: height })
    }
}

fn read_size(gb: &mut GetBits<'_>) -> (r: Option<Size>)
    requires
        old(gb).wf(),
    ensures
        final(gb).wf(),
        final(gb).data() == old(gb).data(),
        crate::vp9::bits::got(
            r,
            size_spec(old(gb).data(), old(gb).at()),
            old(gb).bits(),
            final(gb).at(),
        ),
        r matches Some(v) ==> 1 <= v.width <= 65536 && 1 <= v.height <= 65536,
{
    let width: u32 = read_dim(gb)?;
    let height: u32 = read_dim(gb)?;
    read_render(gb, width, height)
}

/// Fields that depend on the type of a frame.
pub struct Layout {
    pub intra_only: bool,
    pub reset_context: u8,
    pub refresh_ref_mask: u8,
    pub ref_idx: [u8; 3],
    pub sign_bias: [bool; 3],
    pub color: Color,
    pub size: Size,
    pub size_from_ref: i8,
    pub high_precision_mvs: bool,
    pub filter_mode: u8,
}

/// Code in front of the size of a frame without references.
pub open spec fn sync_ok(d: Seq<u8>, p: int) -> bool {
    crate::vp9::bits::num(d, p, 24) == 0x498342
}

/// The fields of a key frame.
pub open spec fn key_layout_spec(d: Seq<u8>, p: int, profile: BitstreamProfile) -> Parsed<Layout> {
    let color = color_spec(d, p + 24, profile);
    let size = size_spec(d, color.end);
    Parsed {
        value: Layout {
            intra_only: false,
            reset_context: 0,
            refresh_ref_mask: 0xff,
            ref_idx: [0u8, 0u8, 0u8],
            sign_bias: [false, false, false],
            color: color.value,
            size: size.value,
            size_from_ref: -1i8,
            high_precision_mvs: false,
            filter_mode: 0,
        },
        ok: sync_ok(d, p) && color.ok,
        end: size.end,
    }
}

fn read_sync(gb: &mut GetBits<'_>) -> (r: Option<u32>)
    requires
        old(gb).wf(),
    ensures
        final(gb).wf(),
        final(gb).data() == old(gb).data(),
        crate::vp9::bits::got(
            r,
            Parsed {
                value: 0x498342u32,
                ok: sync_ok(old(gb).data(), old(gb).at()),
                end: old(gb).at() + 24,
            },
            old(gb).bits(),
            final(gb).at(),
        ),
{
    let sync: u32 = gb.get_bits(24)?;
    if sync != 0x498342 {
        return None;
    }
    Some(sync)
}

fn read_key_layout(gb: &mut GetBits<'_>, profile: BitstreamProfile) -> (r: Option<Layout>)
    requires
        old(gb).wf(),
    ensures
        final(gb).wf(),
        final(gb).data() == old(gb).data(),
        crate::vp9::bits::got(
            r,
            key_layout_spec(old(gb).data(), old(gb).at(), profile),
            old(gb).bits(),
            final(gb).at(),
        ),
        r matches Some(v) ==> v.size.width <= 65536 && v.size.height <= 65536,
{
    let ghost want = key_layout_spec(gb.data(), gb.at(), profile).value;
    let _sync: u32 = read_sync(gb)?;
    let color = read_color_config(gb, profile)?;
    let size = read_size(gb)?;
    let l = Layout {
        intra_only: false,
        reset_context: 0,
        refresh_ref_mask: 0xff,
        ref_idx: [0u8, 0u8, 0u8],
        sign_bias: [false, false, false],
        color,
        size,
        size_from_ref: -1,
        high_precision_mvs: false,
        filter_mode: 0,
    };
    assert(l.ref_idx =~= want.ref_idx);
    assert(l.sign_bias =~= want.sign_bias);
    Some(l)
}

/// Colours of a frame that does not give any.
pub open spec fn plain_color(color_space: ColorSpace) -> Color {
    Color {
        bit_depth: 8,
        color_space,
        color_range: ColorRange::Limited,
        subsampling_x: true,
        subsampling_y: true,
    }
}

/// The fields of a frame without references that is not a key frame.
pub open spec fn intra_layout_spec(
    d: Seq<u8>,
    p: int,
    profile: BitstreamProfile,
    reset_context: u8,
) -> Parsed<Layout> {
    let color = if profile == BitstreamProfile::Profile0 {
        Parsed { value: plain_color(ColorSpace::Bt601), ok: true, end: p + 24 }
    } else {
        color_spec(d, p + 24, profile)
    };
    let size = size_spec(d, color.end + 8);
    Parsed {
        value: Layout {
            intra_only: true,
            reset_context,
            refresh_ref_mask: crate::vp9::bits::num(d, color.end, 8) as u8,
            ref_idx: [0u8, 0u8, 0u8],
            sign_bias: [false, false, false],
            color: color.value,
            size: size.value,
            size_from_ref: -1i8,
            high_precision_mvs: false,
            filter_mode: 0,
        },
        ok: sync_ok(d, p) && color.ok,
        end: size.end,
    }
}

fn read_intra_layout(
    gb: &mut GetBits<'_>,
    profile: BitstreamProfile,
    reset_context: u8,
) -> (r: Option<Layout>)
    requires
        old(gb).wf(),
    ensures
        final(gb).wf(),
        final(gb).data() == old(gb).data(),
        crate::vp9::bits::got(
            r,
            intra_layout_spec(old(gb).data(), old(gb).at(), profile, reset_context),
            old(gb).bits(),
            final(gb).at(),
        ),
        r matches Some(v) ==> v.size.width <= 65536 && v.size.height <= 65536,
{
    let ghost want = intra_layout_spec(gb.data(), gb.at(), profile, reset_context).value;
    let _sync: u32 = read_sync(gb)?;
    let color = if matches!(profile, BitstreamProfile::Profile0) {
        Color {
            bit_depth: 8,
            color_space: ColorSpace::Bt601,
            color_range: ColorRange::Limited,
            subsampling_x: true,
            subsampling_y: true,
        }
    } else {
        read_color_config(gb, profile)?
    };
    let refresh_ref_mask: u8 = gb.get_bits(8)? as u8;
    let size = read_size(gb)?;
    let l = Layout {
        intra_only: true,
        reset_context,
        refresh_ref_mask,
        ref_idx: [0u8, 0u8, 0u8],
        sign_bias: [false, false, false],
        color,
        size,
        size_from_ref: -1,
        high_precision_mvs: false,
        filter_mode: 0,
    };
    assert(l.ref_idx =~= want.ref_idx);
    assert(l.sign_bias =~= want.sign_bias);
    Some(l)
}

/// The reference that a frame takes its size from, or -1, at position `p`: the
/// first of three flags that is set.
pub open spec fn size_ref_spec(d: Seq<u8>, p: int) -> Parsed<i8> {
    if crate::vp9::bits::flag(d, p) {
        Parsed { value: 0i8, ok: true, end: p + 1 }
    } else if crate::vp9::bits::flag(d, p + 1) {
        Parsed { value: 1i8, ok: true, end: p + 2 }
    } else if crate::vp9::bits::flag(d, p + 2) {
        Parsed { value: 2i8, ok: true, end: p + 3 }
    } else {
        Parsed { value: -1i8, ok: true, end: p + 3 }
    }
}

fn read_size_ref(gb: &mut GetBits<'_>) -> (r: Option<i8>)
    requires
        old(gb).wf(),
    ensures
        final(gb).wf(),
        final(gb).data() == old(gb).data(),
        crate::vp9::bits::got(
            r,
            size_ref_spec(old(gb).data(), old(gb).at()),
            old(gb).bits(),
            final(gb).at(),
        ),
{
    let first = gb.get_bit()?;
    if first {
        return Some(0);
    }
    let second = gb.get_bit()?;
    if second {
        return Some(1);
    }
    let third = gb.get_bit()?;
    if third {
        return Some(2);
    }
    Some(-1)
}

/// The size of a frame with references, at position `p` behind the flags that say
/// where it comes from. A size that comes from a reference is left zero.
pub open spec fn inter_size_spec(d: Seq<u8>, p: int, from: i8) -> Parsed<Size> {
    if from >= 0 {
        render_spec(d, p, 0, 0)
    } else {
        size_spec(d, p)
    }
}

/// The filter at position `p`: coded for each block, or one for the frame.
pub open spec fn filter_mode_spec(d: Seq<u8>, p: int) -> Parsed<u8> {
    if crate::vp9::bits::flag(d, p) {
        Parsed { value: 4u8, ok: true, end: p + 1 }
    } else {
        Parsed { value: crate::vp9::bits::num(d, p + 1, 2) as u8, ok: true, end: p + 3 }
    }
}

/// The fields of a frame with references.
pub open spec fn inter_layout_spec(
    d: Seq<u8>,
    p: int,
    reset_context: u8,
    resilient: bool,
) -> Parsed<Layout> {
    let from = size_ref_spec(d, p + 20);
    let size = inter_size_spec(d, from.end, from.value);
    let filter = filter_mode_spec(d, size.end + 1);
    Parsed {
        value: Layout {
            intra_only: false,
            reset_context,
            refresh_ref_mask: crate::vp9::bits::num(d, p, 8) as u8,
            ref_idx: [
                crate::vp9::bits::num(d, p + 8, 3) as u8,
                crate::vp9::bits::num(d, p + 12, 3) as u8,
                crate::vp9::bits::num(d, p + 16, 3) as u8,
            ],
            sign_bias: [
                crate::vp9::bits::flag(d, p + 11) && !resilient,
                crate::vp9::bits::flag(d, p + 15) && !resilient,
                crate::vp9::bits::flag(d, p + 19) && !resilient,
            ],
            color: plain_color(ColorSpace::Unknown),
            size: size.value,
            size_from_ref: from.value,
            high_precision_mvs: crate::vp9::bits::flag(d, size.end),
            filter_mode: filter.value,
        },
        ok: true,
        end: filter.end,
    }
}

fn read_inter_layout(
    gb: &mut GetBits<'_>,
    reset_context: u8,
    resilient: bool,
) -> (r: Option<Layout>)
    requires
        old(gb).wf(),
    ensures
        final(gb).wf(),
        final(gb).data() == old(gb).data(),
        crate::vp9::bits::got(
            r,
            inter_layout_spec(old(gb).data(), old(gb).at(), reset_context, resilient),
            old(gb).bits(),
            final(gb).at(),
        ),
        r matches Some(v) ==> {
            &&& v.size.width <= 65536
            &&& v.size.height <= 65536
            &&& forall|i: int| 0 <= i < 3 ==> #[trigger] v.ref_idx@[i] < 8
            &&& v.filter_mode <= 4
            &&& -1 <= v.size_from_ref <= 2
        },
{
    let ghost want = inter_layout_spec(gb.data(), gb.at(), reset_context, resilient).value;
    assert(1u32 << 3u32 == 8 && 1u32 << 2u32 == 4) by (bit_vector);
    let refresh_ref_mask: u8 = gb.get_bits(8)? as u8;
    let r0: u8 = gb.get_bits(3)? as u8;
    let b0 = gb.get_bit()?;
    let r1: u8 = gb.get_bits(3)? as u8;
    let b1 = gb.get_bit()?;
    let r2: u8 = gb.get_bits(3)? as u8;
    let b2 = gb.get_bit()?;
    let size_from_ref: i8 = read_size_ref(gb)?;
    let size = if size_from_ref >= 0 {
        read_render(gb, 0, 0)?
    } else {
        read_size(gb)?
    };
    let high_precision_mvs = gb.get_bit()?;
    let switchable = gb.get_bit()?;
    let mut filter_mode: u8 = 4;
    if !switchable {
        filter_mode = gb.get_bits(2)? as u8;
    }
    let l = Layout {
        intra_only: false,
        reset_context,
        refresh_ref_mask,
        ref_idx: [r0, r1, r2],
        sign_bias: [b0 && !resilient, b1 && !resilient, b2 && !resilient],
        color: Color {
            bit_depth: 8,
            color_space: ColorSpace::Unknown,
            color_range: ColorRange::Limited,
            subsampling_x: true,
            subsampling_y: true,
        },
        size,
        size_from_ref,
        high_precision_mvs,
        filter_mode,
    };
    assert(l.ref_idx =~= want.ref_idx);
    assert(l.sign_bias =~= want.sign_bias);
    Some(l)
}

/// The fields that depend on the type of a frame, at position `p`.
pub open spec fn layout_spec(d: Seq<u8>, p: int, intro: Intro) -> Parsed<Layout> {
    if intro.key {
        key_layout_spec(d, p, intro.profile)
    } else {
        let intra = !intro.show && crate::vp9::bits::flag(d, p);
        let q = if intro.show { p } else { p + 1 };
        let reset = if intro.resilient { 0u8 } else { crate::vp9::bits::num(d, q, 2) as u8 };
        let s = if intro.resilient { q } else { q + 2 };
        if intra {
            intra_layout_spec(d, s, intro.profile, reset)
        } else {
            inter_layout_spec(d, s, reset, intro.resilient)
        }
    }
}

/// Reads the fields that depend on the type of a frame.
pub fn read_layout(gb: &mut GetBits<'_>, intro: &Intro) -> (r: Option<Layout>)
    requires
        old(gb).wf(),
    ensures
        final(gb).wf(),
        final(gb).data() == old(gb).data(),
        crate::vp9::bits::got(
            r,
            layout_spec(old(gb).data(), old(gb).at(), *intro),
            old(gb).bits(),
            final(gb).at(),
        ),
        r matches Some(v) ==> {
            &&& v.size.width <= 65536
            &&& v.size.height <= 65536
            &&& forall|i: int| 0 <= i < 3 ==> #[trigger] v.ref_idx@[i] < 8
            &&& v.filter_mode <= 4
            &&& -1 <= v.size_from_ref <= 2
        },
{
    if intro.key {
        return read_key_layout(gb, intro.profile);
    }
    let mut intra = false;
    if !intro.show {
        intra = gb.get_bit()?;
    }
    let mut reset_context: u8 = 0;
    if !intro.resilient {
        reset_context = gb.get_bits(2)? as u8;
    }
    if intra {
        read_intra_layout(gb, intro.profile, reset_context)
    } else {
        read_inter_layout(gb, reset_context, intro.resilient)
    }
}

/// Which probability context a frame uses, and whether it updates it.
pub struct ContextUse {
    pub refresh_ctx: bool,
    pub parallel_mode: bool,
    pub frame_ctx_id: u8,
}

/// The use of probability contexts, at position `p`. A frame without references
/// always uses the first context.
pub open spec fn context_use_spec(
    d: Seq<u8>,
    p: int,
    resilient: bool,
    intra: bool,
) -> Parsed<ContextUse> {
    let q = if resilient { p } else { p + 2 };
    Parsed {
        value: ContextUse {
            refresh_ctx: !resilient && crate::vp9::bits::flag(d, p),
            parallel_mode: resilient || crate::vp9::bits::flag(d, p + 1),
            frame_ctx_id: if intra { 0u8 } else { crate::vp9::bits::num(d, q, 2) as u8 },
        },
        ok: true,
        end: q + 2,
    }
}

/// Reads the use of probability contexts.
pub fn read_context_use(gb: &mut GetBits<'_>, resilient: bool, intra: bool) -> (r: Option<
    ContextUse,
>)
    requires
        old(gb).wf(),
    ensures
        final(gb).wf(),
        final(gb).data() == old(gb).data(),
        crate::vp9::bits::got(
            r,
            context_use_spec(old(gb).data(), old(gb).at(), resilient, intra),
            old(gb).bits(),
            final(gb).at(),
        ),
        r matches Some(v) ==> v.frame_ctx_id < 4,
{
    assert(1u32 << 2u32 == 4) by (bit_vector);
    let mut refresh_ctx = false;
    let mut parallel_mode = true;
    if !resilient {
        refresh_ctx = gb.get_bit()?;
        parallel_mode = gb.get_bit()?;
    }
    let id: u8 = gb.get_bits(2)? as u8;
    Some(ContextUse { refresh_ctx, parallel_mode, frame_ctx_id: if intra { 0 } else { id } })
}

/// A signed number: `n` bits, then a sign.
pub open spec fn sbits_spec(d: Seq<u8>, p: int, n: int) -> i8 {
    let v = crate::vp9::bits::num(d, p, n) as i8;
    if crate::vp9::bits::flag(d, p + n) {
        (-v) as i8
    } else {
        v
    }
}

fn get_sbits_inv(gb: &mut GetBits<'_>, n: usize) -> (r: Option<i8>)
    requires
        old(gb).wf(),
        n <= 6,
    ensures
        final(gb).wf(),
        final(gb).data() == old(gb).data(),
        crate::vp9::bits::got(
            r,
            Parsed {
                value: sbits_spec(old(gb).data(), old(gb).at(), n as int),
                ok: true,
                end: old(gb).at() + n + 1,
            },
            old(gb).bits(),
            final(gb).at(),
        ),
        r matches Some(v) ==> -63 <= v <= 63,
{
    let u: u32 = gb.get_bits(n)?;
    proof {
        let m = n as u32;
        assert(1u32 << m <= 64) by (bit_vector)
            requires
                m <= 6,
        ;
    }
    let v: i8 = u as i8;
    let neg = gb.get_bit()?;
    Some(if neg { -v } else { v })
}

/// A signed number of `n` bits behind a flag, or `old` where the flag is not set.
pub open spec fn delta_spec(d: Seq<u8>, p: int, n: int, old_value: i8) -> Parsed<i8> {
    if crate::vp9::bits::flag(d, p) {
        Parsed { value: sbits_spec(d, p + 1, n), ok: true, end: p + n + 2 }
    } else {
        Parsed { value: old_value, ok: true, end: p + 1 }
    }
}

fn read_delta(gb: &mut GetBits<'_>, n: usize, old_value: i8) -> (r: Option<i8>)
    requires
        old(gb).wf(),
        n <= 6,
        -63 <= old_value <= 63,
    ensures
        final(gb).wf(),
        final(gb).data() == old(gb).data(),
        crate::vp9::bits::got(
            r,
            delta_spec(old(gb).data(), old(gb).at(), n as int, old_value),
            old(gb).bits(),
            final(gb).at(),
        ),
        r matches Some(v) ==> -63 <= v <= 63,
{
    let given = gb.get_bit()?;
    if given {
        get_sbits_inv(gb, n)
    } else {
        Some(old_value)
    }
}

/// Loop filter parameters of a frame.
pub struct LoopFilter {
    pub level: u8,
    pub sharpness: u8,
    pub delta_enabled: bool,
    pub delta_updated: bool,
    pub ref_deltas: [i8; 4],
    pub mode_deltas: [i8; 2],
}

/// Loop filter parameters at position `p`. Deltas that are not given keep their
/// standard values.
pub open spec fn loop_filter_spec(d: Seq<u8>, p: int) -> Parsed<LoopFilter> {
    let level = crate::vp9::bits::num(d, p, 6) as u8;
    let sharpness = crate::vp9::bits::num(d, p + 6, 3) as u8;
    let delta_enabled = crate::vp9::bits::flag(d, p + 9);
    let delta_updated = delta_enabled && crate::vp9::bits::flag(d, p + 10);
    if delta_updated {
        let r0 = delta_spec(d, p + 11, 6, 1i8);
        let r1 = delta_spec(d, r0.end, 6, 0i8);
        let r2 = delta_spec(d, r1.end, 6, -1i8);
        let r3 = delta_spec(d, r2.end, 6, -1i8);
        let m0 = delta_spec(d, r3.end, 6, 0i8);
        let m1 = delta_spec(d, m0.end, 6, 0i8);
        Parsed {
            value: LoopFilter {
                level,
                sharpness,
                delta_enabled,
                delta_updated,
                ref_deltas: [r0.value, r1.value, r2.value, r3.value],
                mode_deltas: [m0.value, m1.value],
            },
            ok: true,
            end: m1.end,
        }
    } else {
        Parsed {
            value: LoopFilter {
                level,
                sharpness,
                delta_enabled,
                delta_updated,
                ref_deltas: [1i8, 0i8, -1i8, -1i8],
                mode_deltas: [0i8, 0i8],
            },
            ok: true,
            end: if delta_enabled { p + 11 } else { p + 10 },
        }
    }
}

/// Reads the loop filter parameters.
pub fn read_loop_filter(gb: &mut GetBits<'_>) -> (r: Option<LoopFilter>)
    requires
        old(gb).wf(),
    ensures
        final(gb).wf(),
        final(gb).data() == old(gb).data(),
        crate::vp9::bits::got(
            r,
            loop_filter_spec(old(gb).data(), old(gb).at()),
            old(gb).bits(),
            final(gb).at(),
        ),
        r matches Some(v) ==> {
            &&& v.level < 64
            &&& v.sharpness < 8
            &&& forall|i: int| 0 <= i < 4 ==> -63 <= #[trigger] v.ref_deltas@[i] <= 63
            &&& forall|i: int| 0 <= i < 2 ==> -63 <= #[trigger] v.mode_deltas@[i] <= 63
        },
{
    let ghost want = loop_filter_spec(gb.data(), gb.at()).value;
    assert(1u32 << 6u32 == 64 && 1u32 << 3u32 == 8) by (bit_vector);
    let level: u8 = gb.get_bits(6)? as u8;
    let sharpness: u8 = gb.get_bits(3)? as u8;
    let delta_enabled = gb.get_bit()?;
    let mut delta_updated = false;
    if delta_enabled {
        delta_updated = gb.get_bit()?;
    }
    let mut ref_deltas: [i8; 4] = [1i8, 0i8, -1i8, -1i8];
    let mut mode_deltas: [i8; 2] = [0i8, 0i8];
    if delta_updated {
        let r0: i8 = read_delta(gb, 6, 1)?;
        let r1: i8 = read_delta(gb, 6, 0)?;
        let r2: i8 = read_delta(gb, 6, -1)?;
        let r3: i8 = read_delta(gb, 6, -1)?;
        let m0: i8 = read_delta(gb, 6, 0)?;
        let m1: i8 = read_delta(gb, 6, 0)?;
        ref_deltas = [r0, r1, r2, r3];
        mode_deltas = [m0, m1];
    }
    let l = LoopFilter { level, sharpness, delta_enabled, delta_updated, ref_deltas, mode_deltas };
    assert(l.ref_deltas =~= want.ref_deltas);
    assert(l.mode_deltas =~= want.mode_deltas);
    Some(l)
}

/// Quantizer of a frame.
pub struct Quant {
    pub base_q_idx: u8,
    pub y_dc_delta_q: i8,
    pub uv_dc_delta_q: i8,
    pub uv_ac_delta_q: i8,
}

/// Quantizer at position `p`.
pub open spec fn quant_spec(d: Seq<u8>, p: int) -> Parsed<Quant> {
    let a = delta_spec(d, p + 8, 4, 0i8);
    let b = delta_spec(d, a.end, 4, 0i8);
    let c = delta_spec(d, b.end, 4, 0i8);
    Parsed {
        value: Quant {
            base_q_idx: crate::vp9::bits::num(d, p, 8) as u8,
            y_dc_delta_q: a.value,
            uv_dc_delta_q: b.value,
            uv_ac_delta_q: c.value,
        },
        ok: true,
        end: c.end,
    }
}

/// Reads the quantizer.
pub fn read_quant(gb: &mut GetBits<'_>) -> (r: Option<Quant>)
    requires
        old(gb).wf(),
    ensures
        final(gb).wf(),
        final(gb).data() == old(gb).data(),
        crate::vp9::bits::got(
            r,
            quant_spec(old(gb).data(), old(gb).at()),
            old(gb).bits(),
            final(gb).at(),
        ),
{
    let base_q_idx: u8 = gb.get_bits(8)? as u8;
    let y_dc_delta_q: i8 = read_delta(gb, 4, 0)?;
    let uv_dc_delta_q: i8 = read_delta(gb, 4, 0)?;
    let uv_ac_delta_q: i8 = read_delta(gb, 4, 0)?;
    Some(Quant { base_q_idx, y_dc_delta_q, uv_dc_delta_q, uv_ac_delta_q })
}

/// Whether a quantizer loses nothing.
pub open spec fn lossless_spec(q: Quant) -> bool {
    q.base_q_idx == 0 && q.y_dc_delta_q == 0 && q.uv_dc_delta_q == 0 && q.uv_ac_delta_q == 0
}

/// `n` optional probabilities from position `p` on: a byte behind a flag, or 255.
pub open spec fn opt_probs_spec(d: Seq<u8>, p: int, n: int) -> (Seq<u8>, int)
    decreases n,
{
    if n <= 0 {
        (Seq::empty(), p)
    } else {
        let (s, q) = opt_probs_spec(d, p, n - 1);
        if crate::vp9::bits::flag(d, q) {
            (s.push(crate::vp9::bits::num(d, q + 1, 8) as u8), q + 9)
        } else {
            (s.push(255u8), q + 1)
        }
    }
}

/// Optional probabilities have their number, and end no earlier than any of them.
proof fn lemma_opt_probs(d: Seq<u8>, p: int, k: int, n: int)
    requires
        0 <= k <= n,
    ensures
        opt_probs_spec(d, p, n).0.len() == n,
        opt_probs_spec(d, p, k).1 <= opt_probs_spec(d, p, n).1,
        opt_probs_spec(d, p, n).1 >= p + n,
    decreases n,
{
    if n > 0 {
        if k < n {
            lemma_opt_probs(d, p, k, n - 1);
        } else {
            lemma_opt_probs(d, p, n - 1, n - 1);
        }
    }
}

fn read_opt_probs(gb: &mut GetBits<'_>, n: usize) -> (r: Option<Vec<u8>>)
    requires
        old(gb).wf(),
    ensures
        final(gb).wf(),
        final(gb).data() == old(gb).data(),
        match r {
            Some(v) => {
                &&& v@ == opt_probs_spec(old(gb).data(), old(gb).at(), n as int).0
                &&& v@.len() == n
                &&& final(gb).at() == opt_probs_spec(old(gb).data(), old(gb).at(), n as int).1
                &&& final(gb).at() <= old(gb).bits()
            },
            None => opt_probs_spec(old(gb).data(), old(gb).at(), n as int).1 > old(gb).bits(),
        },
{
    let ghost d = gb.data();
    let ghost p = gb.at();
    let mut v: Vec<u8> = Vec::new();
    let mut k: usize = 0;
    while k < n
        invariant
            k <= n,
            gb.wf(),
            gb.data() == d,
            d == old(gb).data(),
            p == old(gb).at(),
            v@ == opt_probs_spec(d, p, k as int).0,
            v@.len() == k,
            gb.at() == opt_probs_spec(d, p, k as int).1,
        decreases n - k,
    {
        proof {
            lemma_opt_probs(d, p, k + 1, n as int);
        }
        let given = gb.get_bit()?;
        if given {
            let x: u8 = gb.get_bits(8)? as u8;
            v.push(x);
        } else {
            v.push(255);
        }
        k += 1;
    }
    Some(v)
}

/// Loop filter levels that are all zero.
pub open spec fn zero_levels_spec() -> [[u8; 2]; 4] {
    [[0u8, 0u8], [0u8, 0u8], [0u8, 0u8], [0u8, 0u8]]
}

fn zero_levels() -> (r: [[u8; 2]; 4])
    ensures
        r == zero_levels_spec(),
{
    let z: [u8; 2] = [0u8, 0u8];
    let r: [[u8; 2]; 4] = [z, z, z, z];
    assert(z =~= zero_levels_spec()@[0]);
    assert(z =~= zero_levels_spec()@[1]);
    assert(z =~= zero_levels_spec()@[2]);
    assert(z =~= zero_levels_spec()@[3]);
    assert(r =~= zero_levels_spec());
    r
}

/// A feature without anything set.
pub open spec fn no_feature() -> SegmentFeature {
    SegmentFeature {
        q_enabled: false,
        lf_enabled: false,
        ref_enabled: false,
        skip_enabled: false,
        q_val: 0,
        lf_val: 0,
        ref_val: 0,
        lflvl: zero_levels_spec(),
    }
}

/// The features of a segment at position `p`, without loop filter levels.
pub open spec fn feature_spec(d: Seq<u8>, p: int) -> Parsed<SegmentFeature> {
    let q = crate::vp9::bits::flag(d, p);
    let mag = crate::vp9::bits::num(d, p + 1, 8) as i16;
    let p1 = if q { p + 10 } else { p + 1 };
    let lf = crate::vp9::bits::flag(d, p1);
    let p2 = if lf { p1 + 8 } else { p1 + 1 };
    let rf = crate::vp9::bits::flag(d, p2);
    let p3 = if rf { p2 + 3 } else { p2 + 1 };
    Parsed {
        value: SegmentFeature {
            q_enabled: q,
            lf_enabled: lf,
            ref_enabled: rf,
            skip_enabled: crate::vp9::bits::flag(d, p3),
            q_val: if !q {
                0i16
            } else if crate::vp9::bits::flag(d, p + 9) {
                (-mag) as i16
            } else {
                mag
            },
            lf_val: if lf { sbits_spec(d, p1 + 1, 6) } else { 0i8 },
            ref_val: if rf { crate::vp9::bits::num(d, p2 + 1, 2) as u8 } else { 0u8 },
            lflvl: zero_levels_spec(),
        },
        ok: true,
        end: p3 + 1,
    }
}

fn read_feature(gb: &mut GetBits<'_>) -> (r: Option<SegmentFeature>)
    requires
        old(gb).wf(),
    ensures
        final(gb).wf(),
        final(gb).data() == old(gb).data(),
        crate::vp9::bits::got(
            r,
            feature_spec(old(gb).data(), old(gb).at()),
            old(gb).bits(),
            final(gb).at(),
        ),
        r matches Some(v) ==> {
            &&& v.ref_val < 4
            &&& -63 <= v.lf_val <= 63
            &&& -255 <= v.q_val <= 255
        },
{
    assert(1u32 << 8u32 == 256 && 1u32 << 2u32 == 4) by (bit_vector);
    let q_enabled = gb.get_bit()?;
    let mut q_val: i16 = 0;
    if q_enabled {
        let mag: i16 = gb.get_bits(8)? as i16;
        let neg = gb.get_bit()?;
        q_val = if neg { -mag } else { mag };
    }
    let lf_enabled = gb.get_bit()?;
    let mut lf_val: i8 = 0;
    if lf_enabled {
        lf_val = get_sbits_inv(gb, 6)?;
    }
    let ref_enabled = gb.get_bit()?;
    let mut ref_val: u8 = 0;
    if ref_enabled {
        ref_val = gb.get_bits(2)? as u8;
    }
    let skip_enabled = gb.get_bit()?;
    Some(
        SegmentFeature {
            q_enabled,
            lf_enabled,
            ref_enabled,
            skip_enabled,
            q_val,
            lf_val,
            ref_val,
            lflvl: zero_levels(),
        },
    )
}

/// The features of `n` segments from position `p` on.
pub open spec fn features_spec(d: Seq<u8>, p: int, n: int) -> (Seq<SegmentFeature>, int)
    decreases n,
{
    if n <= 0 {
        (Seq::empty(), p)
    } else {
        let (s, q) = features_spec(d, p, n - 1);
        let f = feature_spec(d, q);
        (s.push(f.value), f.end)
    }
}

/// The features end no earlier than those of any segment.
proof fn lemma_features(d: Seq<u8>, p: int, k: int, n: int)
    requires
        0 <= k <= n,
    ensures
        features_spec(d, p, n).0.len() == n,
        features_spec(d, p, k).1 <= features_spec(d, p, n).1,
        features_spec(d, p, n).1 >= p,
    decreases n,
{
    if n > 0 {
        if k < n {
            lemma_features(d, p, k, n - 1);
        } else {
            lemma_features(d, p, n - 1, n - 1);
        }
    }
}

/// Segmentation of a frame, without loop filter levels.
pub struct Segments {
    pub enabled: bool,
    pub update_map: bool,
    pub temporal: bool,
    pub absolute_vals: bool,
    pub prob: Vec<u8>,
    pub pred_prob: Vec<u8>,
    pub feat: Vec<SegmentFeature>,
}

/// Segmentation, as values.
pub struct SegmentsView {
    pub enabled: bool,
    pub update_map: bool,
    pub temporal: bool,
    pub absolute_vals: bool,
    pub prob: Seq<u8>,
    pub pred_prob: Seq<u8>,
    pub feat: Seq<SegmentFeature>,
}

impl View for Segments {
    type V = SegmentsView;

    open spec fn view(&self) -> SegmentsView {
        SegmentsView {
            enabled: self.enabled,
            update_map: self.update_map,
            temporal: self.temporal,
            absolute_vals: self.absolute_vals,
            prob: self.prob@,
            pred_prob: self.pred_prob@,
            feat: self.feat@,
        }
    }
}

/// `n` times the same value.
pub open spec fn repeat<T>(v: T, n: nat) -> Seq<T> {
    Seq::new(n, |i: int| v)
}

/// The map probabilities of a segmentation at position `p`: seven, then, where the
/// map is predicted from the last frame, three more.
pub open spec fn seg_map_spec(d: Seq<u8>, p: int) -> (Seq<u8>, bool, Seq<u8>, int) {
    let (prob, q) = opt_probs_spec(d, p, 7);
    let temporal = crate::vp9::bits::flag(d, q);
    if temporal {
        let (pred, s) = opt_probs_spec(d, q + 1, 3);
        (prob, temporal, pred, s)
    } else {
        (prob, temporal, repeat(0u8, 3), q + 1)
    }
}

/// Segmentation at position `p`.
pub open spec fn segments_spec(d: Seq<u8>, p: int) -> (SegmentsView, int) {
    if !crate::vp9::bits::flag(d, p) {
        (
            SegmentsView {
                enabled: false,
                update_map: false,
                temporal: false,
                absolute_vals: false,
                prob: repeat(0u8, 7),
                pred_prob: repeat(0u8, 3),
                feat: repeat(no_feature(), 8),
            },
            p + 1,
        )
    } else {
        let update_map = crate::vp9::bits::flag(d, p + 1);
        let (prob, temporal, pred_prob, q) = if update_map {
            seg_map_spec(d, p + 2)
        } else {
            (repeat(0u8, 7), false, repeat(0u8, 3), p + 2)
        };
        if crate::vp9::bits::flag(d, q) {
            let (feat, s) = features_spec(d, q + 2, 8);
            (
                SegmentsView {
                    enabled: true,
                    update_map,
                    temporal,
                    absolute_vals: crate::vp9::bits::flag(d, q + 1),
                    prob,
                    pred_prob,
                    feat,
                },
                s,
            )
        } else {
            (
                SegmentsView {
                    enabled: true,
                    update_map,
                    temporal,
                    absolute_vals: false,
                    prob,
                    pred_prob,
                    feat: repeat(no_feature(), 8),
                },
                q + 1,
            )
        }
    }
}

/// Whether features have values in the ranges that the header can hold.
pub open spec fn features_in_range(feat: Seq<SegmentFeature>) -> bool {
    forall|i: int|
        0 <= i < feat.len() ==> {
            &&& (#[trigger] feat[i]).ref_val < 4
            &&& -63 <= feat[i].lf_val <= 63
            &&& -255 <= feat[i].q_val <= 255
            &&& levels_in_range(feat[i].lflvl)
        }
}

/// Whether loop filter levels are in their range.
pub open spec fn levels_in_range(l: [[u8; 2]; 4]) -> bool {
    forall|r: int, m: int| 0 <= r < 4 && 0 <= m < 2 ==> #[trigger] l@[r]@[m] <= 63
}

/// Reads the segmentation.
pub fn read_segments(gb: &mut GetBits<'_>) -> (r: Option<Segments>)
    requires
        old(gb).wf(),
    ensures
        final(gb).wf(),
        final(gb).data() == old(gb).data(),
        match r {
            Some(v) => {
                &&& v@ == segments_spec(old(gb).data(), old(gb).at()).0
                &&& v.prob@.len() == 7
                &&& v.pred_prob@.len() == 3
                &&& v.feat@.len() == 8
                &&& features_in_range(v.feat@)
                &&& final(gb).at() == segments_spec(old(gb).data(), old(gb).at()).1
                &&& final(gb).at() <= old(gb).bits()
            },
            None => segments_spec(old(gb).data(), old(gb).at()).1 > old(gb).bits(),
        },
{
    let ghost d = gb.data();
    let ghost p = gb.at();
    proof {
        assert forall|q: int| #[trigger] features_spec(d, q, 8).1 >= q by {
            lemma_features(d, q, 0, 8);
        }
        assert forall|q: int| #[trigger] opt_probs_spec(d, q, 7).1 >= q by {
            lemma_opt_probs(d, q, 0, 7);
        }
        assert forall|q: int| #[trigger] opt_probs_spec(d, q, 3).1 >= q by {
            lemma_opt_probs(d, q, 0, 3);
        }
    }
    let none = SegmentFeature {
        q_enabled: false,
        lf_enabled: false,
        ref_enabled: false,
        skip_enabled: false,
        q_val: 0,
        lf_val: 0,
        ref_val: 0,
        lflvl: zero_levels(),
    };
    let mut prob: Vec<u8> = vec![0u8; 7];
    let mut pred_prob: Vec<u8> = vec![0u8; 3];
    let mut feat: Vec<SegmentFeature> = Vec::new();
    let enabled = gb.get_bit()?;
    let mut update_map = false;
    let mut temporal = false;
    let mut absolute_vals = false;
    assert(prob@ =~= repeat(0u8, 7));
    assert(pred_prob@ =~= repeat(0u8, 3));
    let mut updated = false;
    if enabled {
        update_map = gb.get_bit()?;
        if update_map {
            prob = read_opt_probs(gb, 7)?;
            temporal = gb.get_bit()?;
            if temporal {
                pred_prob = read_opt_probs(gb, 3)?;
            }
        }
        updated = gb.get_bit()?;
        if updated {
            absolute_vals = gb.get_bit()?;
        }
    }
    if updated {
        let ghost start = gb.at();
        let mut i: usize = 0;
        while i < 8
            invariant
                i <= 8,
                gb.wf(),
                gb.data() == d,
                d == old(gb).data(),
                p == old(gb).at(),
                feat@ == features_spec(d, start, i as int).0,
                feat@.len() == i,
                features_in_range(feat@),
                gb.at() == features_spec(d, start, i as int).1,
                segments_spec(d, p).1 == features_spec(d, start, 8).1,
            decreases 8 - i,
        {
            proof {
                lemma_features(d, start, i + 1, 8);
            }
            let f = read_feature(gb)?;
            feat.push(f);
            i += 1;
        }
    } else {
        let mut i: usize = 0;
        while i < 8
            invariant
                i <= 8,
                none == no_feature(),
                feat@.len() == i,
                forall|j: int| 0 <= j < i ==> #[trigger] feat@[j] == no_feature(),
            decreases 8 - i,
        {
            feat.push(none);
            i += 1;
        }
        assert(feat@ =~= repeat(no_feature(), 8));
    }
    Some(Segments { enabled, update_map, temporal, absolute_vals, prob, pred_prob, feat })
}

/// `v` brought into `0..=63`.
pub open spec fn clamp63(v: int) -> u8 {
    if v < 0 {
        0
    } else if v > 63 {
        63
    } else {
        v as u8
    }
}

fn clamp_level(v: i32) -> (r: u8)
    ensures
        r == clamp63(v as int),
        r <= 63,
{
    if v < 0 {
        0
    } else if v > 63 {
        63
    } else {
        v as u8
    }
}

/// The level of a segment before reference and mode are looked at.
pub open spec fn base_level(s: SegmentsView, i: int, level: u8) -> u8 {
    if s.enabled && s.feat[i].lf_enabled {
        if s.absolute_vals {
            clamp63(s.feat[i].lf_val as int)
        } else {
            clamp63(level + s.feat[i].lf_val)
        }
    } else {
        level
    }
}

/// The level from a base level and a delta, which counts twice in a frame with a
/// level of 32 or more.
pub open spec fn shifted_level(base: u8, delta: int, level: u8) -> u8 {
    clamp63(base + (if level >= 32 { 2 * delta } else { delta }))
}

/// The loop filter levels of a segment.
pub open spec fn levels_spec(s: SegmentsView, i: int, lf: LoopFilter) -> [[u8; 2]; 4] {
    let base = base_level(s, i, lf.level);
    if lf.delta_enabled {
        let r = lf.ref_deltas@;
        let m = lf.mode_deltas@;
        let intra = shifted_level(base, r[0] as int, lf.level);
        [
            [intra, intra],
            [
                shifted_level(base, r[1] + m[0], lf.level),
                shifted_level(base, r[1] + m[1], lf.level),
            ],
            [
                shifted_level(base, r[2] + m[0], lf.level),
                shifted_level(base, r[2] + m[1], lf.level),
            ],
            [
                shifted_level(base, r[3] + m[0], lf.level),
                shifted_level(base, r[3] + m[1], lf.level),
            ],
        ]
    } else {
        [[base, base], [base, base], [base, base], [base, base]]
    }
}

fn shift_level(base: u8, delta: i32, level: u8) -> (r: u8)
    requires
        -200 <= delta <= 200,
    ensures
        r == shifted_level(base, delta as int, level),
        r <= 63,
{
    clamp_level(base as i32 + (if level >= 32 { 2 * delta } else { delta }))
}

/// Computes the loop filter levels of segment `i`.
pub fn segment_levels(s: &Segments, i: usize, lf: &LoopFilter) -> (r: [[u8; 2]; 4])
    requires
        i < s.feat@.len(),
        lf.level < 64,
        features_in_range(s.feat@),
        forall|k: int| 0 <= k < 4 ==> -63 <= #[trigger] lf.ref_deltas@[k] <= 63,
        forall|k: int| 0 <= k < 2 ==> -63 <= #[trigger] lf.mode_deltas@[k] <= 63,
    ensures
        r == levels_spec(s@, i as int, *lf),
        forall|a: int, b: int| 0 <= a < 4 && 0 <= b < 2 ==> #[trigger] r@[a]@[b] <= 63,
{
    let base: u8 = if s.enabled && s.feat[i].lf_enabled {
        if s.absolute_vals {
            clamp_level(s.feat[i].lf_val as i32)
        } else {
            clamp_level(lf.level as i32 + s.feat[i].lf_val as i32)
        }
    } else {
        lf.level
    };
    let ghost want = levels_spec(s@, i as int, *lf);
    let r: [[u8; 2]; 4] = if lf.delta_enabled {
        let intra: u8 = shift_level(base, lf.ref_deltas[0] as i32, lf.level);
        let m0: i32 = lf.mode_deltas[0] as i32;
        let m1: i32 = lf.mode_deltas[1] as i32;
        let r1: i32 = lf.ref_deltas[1] as i32;
        let r2: i32 = lf.ref_deltas[2] as i32;
        let r3: i32 = lf.ref_deltas[3] as i32;
        [
            [intra, intra],
            [shift_level(base, r1 + m0, lf.level), shift_level(base, r1 + m1, lf.level)],
            [shift_level(base, r2 + m0, lf.level), shift_level(base, r2 + m1, lf.level)],
            [shift_level(base, r3 + m0, lf.level), shift_level(base, r3 + m1, lf.level)],
        ]
    } else {
        [[base, base], [base, base], [base, base], [base, base]]
    };
    assert(r@[0] =~= want@[0]);
    assert(r@[1] =~= want@[1]);
    assert(r@[2] =~= want@[2]);
    assert(r@[3] =~= want@[3]);
    assert(r =~= want);
    r
}

/// Number of superblock columns of a frame.
pub open spec fn sb_cols_of(width: u32) -> u32 {
    ((width + 63) / 64) as u32
}

/// The least `k` from `from` on with `sb_cols <= 64 * 2^k`.
pub open spec fn min_tile_log2(sb_cols: u32, from: u8) -> u8
    decreases 6 - from,
{
    if from < 5 && sb_cols > 64u32 << from {
        min_tile_log2(sb_cols, (from + 1) as u8)
    } else {
        from
    }
}

/// The least `k` from `from` on with `sb_cols / 2^k < 4`.
pub open spec fn narrow_log2(sb_cols: u32, from: u8) -> u8
    decreases 10 - from,
{
    if from < 9 && sb_cols >> from >= 4 {
        narrow_log2(sb_cols, (from + 1) as u8)
    } else {
        from
    }
}

/// The greatest number of times that a frame can be halved into tile columns.
pub open spec fn max_tile_log2(sb_cols: u32) -> u8 {
    let k = narrow_log2(sb_cols, 0);
    if k == 0 {
        0
    } else {
        (k - 1) as u8
    }
}

/// The number of tile columns as a power of two, at position `p`: one more than
/// `from` for each flag that is set, up to `max`.
pub open spec fn tile_cols_spec(d: Seq<u8>, p: int, from: u8, max: u8) -> (u8, int)
    decreases max - from,
{
    if from < max {
        if crate::vp9::bits::flag(d, p) {
            tile_cols_spec(d, p + 1, (from + 1) as u8, max)
        } else {
            (from, p + 1)
        }
    } else {
        (from, p)
    }
}

proof fn lemma_tile_cols_end(d: Seq<u8>, p: int, from: u8, max: u8)
    ensures
        tile_cols_spec(d, p, from, max).1 >= p,
    decreases max - from,
{
    if from < max && crate::vp9::bits::flag(d, p) {
        lemma_tile_cols_end(d, p + 1, (from + 1) as u8, max);
    }
}

/// Tiles of a frame.
pub struct Tiles {
    pub cols_log2: u8,
    pub rows_log2: u8,
    pub compressed_size: u16,
}

/// Tiles of a frame and the size of its compressed header, at position `p`.
pub open spec fn tiles_spec(d: Seq<u8>, p: int, width: u32) -> Parsed<Tiles> {
    let sb = sb_cols_of(width);
    let (cols_log2, q) = tile_cols_spec(d, p, min_tile_log2(sb, 0), max_tile_log2(sb));
    let two = crate::vp9::bits::flag(d, q);
    let s = if two { q + 2 } else { q + 1 };
    Parsed {
        value: Tiles {
            cols_log2,
            rows_log2: if !two {
                0u8
            } else if crate::vp9::bits::flag(d, q + 1) {
                2u8
            } else {
                1u8
            },
            compressed_size: crate::vp9::bits::num(d, s, 16) as u16,
        },
        ok: true,
        end: s + 16,
    }
}

/// Reads the tiles and the size of the compressed header.
pub fn read_tiles(gb: &mut GetBits<'_>, width: u32) -> (r: Option<Tiles>)
    requires
        old(gb).wf(),
        width <= 65536,
    ensures
        final(gb).wf(),
        final(gb).data() == old(gb).data(),
        crate::vp9::bits::got(
            r,
            tiles_spec(old(gb).data(), old(gb).at(), width),
            old(gb).bits(),
            final(gb).at(),
        ),
        r matches Some(v) ==> v.cols_log2 <= 9 && v.rows_log2 <= 2,
{
    let ghost d = gb.data();
    let ghost p = gb.at();
    let sb_cols: u32 = (width + 63) / 64;
    let mut cols: u8 = 0;
    assert(64u32 << 5u8 == 2048) by (bit_vector);
    while sb_cols > (64u32 << cols)
        invariant
            cols <= 5,
            sb_cols <= 1025,
            64u32 << 5u8 == 2048,
            min_tile_log2(sb_cols, cols) == min_tile_log2(sb_cols, 0),
        decreases 6 - cols,
    {
        cols += 1;
    }
    let mut max: u8 = 0;
    assert(sb_cols >> 9u8 < 4) by (bit_vector)
        requires
            sb_cols <= 1025,
    ;
    while (sb_cols >> max) >= 4
        invariant
            max <= 9,
            sb_cols <= 1025,
            sb_cols >> 9u8 < 4,
            narrow_log2(sb_cols, max) == narrow_log2(sb_cols, 0),
        decreases 10 - max,
    {
        max += 1;
    }
    let max: u8 = if max == 0 { 0 } else { max - 1 };
    let ghost first = cols;
    let ghost all = tile_cols_spec(d, p, first, max);
    let mut more = true;
    while more && max > cols
        invariant
            cols <= 9,
            max <= 9,
            gb.wf(),
            gb.data() == d,
            d == old(gb).data(),
            p == old(gb).at(),
            more ==> tile_cols_spec(d, gb.at(), cols, max) == all,
            !more ==> all == (cols, gb.at()),
            tiles_spec(d, p, width).end >= all.1,
        decreases (if more { 1int } else { 0int }), max - cols,
    {
        proof {
            lemma_tile_cols_end(d, gb.at(), cols, max);
            lemma_tile_cols_end(d, gb.at() + 1, (cols + 1) as u8, max);
        }
        let b = gb.get_bit()?;
        if b {
            cols += 1;
        } else {
            more = false;
        }
    }
    let two = gb.get_bit()?;
    let mut rows_log2: u8 = 0;
    if two {
        let four = gb.get_bit()?;
        rows_log2 = if four { 2 } else { 1 };
    }
    let compressed_size: u16 = gb.get_bits(16)? as u16;
    Some(Tiles { cols_log2: cols, rows_log2, compressed_size })
}

/// A segmentation ends behind its start.
pub proof fn lemma_segments_end(d: Seq<u8>, p: int)
    ensures
        segments_spec(d, p).1 >= p,
{
    assert forall|q: int| #[trigger] features_spec(d, q, 8).1 >= q by {
        lemma_features(d, q, 0, 8);
    }
    assert forall|q: int| #[trigger] opt_probs_spec(d, q, 7).1 >= q by {
        lemma_opt_probs(d, q, 0, 7);
    }
    assert forall|q: int| #[trigger] opt_probs_spec(d, q, 3).1 >= q by {
        lemma_opt_probs(d, q, 0, 3);
    }
}

/// The tiles end behind their start.
pub proof fn lemma_tiles_end(d: Seq<u8>, p: int, width: u32)
    ensures
        tiles_spec(d, p, width).end >= p,
{
    let sb = sb_cols_of(width);
    lemma_tile_cols_end(d, p, min_tile_log2(sb, 0), max_tile_log2(sb));
}

} // verus!

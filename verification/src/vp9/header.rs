//! Frame headers.
use vstd::prelude::*;
use vstd::std_specs::convert::FromSpecImpl;
use vstd::std_specs::convert::TryFromSpecImpl;

use crate::error::Error;
use crate::vp9::bits::GetBits;
use crate::vp9::bool_decoder::BoolDecoder;
use crate::vp9::compressed::{read_compressed, CompressedInput};
use crate::vp9::default_probs::default_prob_context;
use crate::vp9::prob::CoefProbArray;
use crate::vp9::types::{BitstreamProfile, ProbContext};
use crate::vp9::uncompressed::{
    read_context_use, read_intro, read_layout, read_loop_filter, read_quant, read_segments,
    read_tiles, segment_levels, ContextUse, Intro, Layout, LoopFilter, Quant, Segments,
    SegmentsView, Tiles,
};

verus! {

/// Frame type.
#[derive(Clone, Copy, Debug, PartialEq, Eq, Structural)]
pub enum FrameType {
    KeyFrame,
    InterFrame,
}

/// Transform mode of a frame: the largest transform size, or a size for each block.
#[derive(Clone, Copy, Debug, PartialEq, Eq, Structural)]
pub enum TxMode {
    Only4x4,
    Allow8x8,
    Allow16x16,
    Allow32x32,
    TxModeSelect,
}

impl TxMode {
    /// The mode with the code `v`, or `v` itself where no mode has it.
    pub open spec fn of_code(v: u8) -> Result<TxMode, u8> {
        match v {
            0 => Ok(TxMode::Only4x4),
            1 => Ok(TxMode::Allow8x8),
            2 => Ok(TxMode::Allow16x16),
            3 => Ok(TxMode::Allow32x32),
            4 => Ok(TxMode::TxModeSelect),
            _ => Err(v),
        }
    }

    /// The code of this mode.
    pub fn code(self) -> (r: u8)
        ensures
            TxMode::of_code(r) == Ok::<TxMode, u8>(self),
    {
        match self {
            TxMode::Only4x4 => 0,
            TxMode::Allow8x8 => 1,
            TxMode::Allow16x16 => 2,
            TxMode::Allow32x32 => 3,
            TxMode::TxModeSelect => 4,
        }
    }
}

impl TryFromSpecImpl<u8> for TxMode {
    open spec fn obeys_try_from_spec() -> bool {
        true
    }

    open spec fn try_from_spec(v: u8) -> Result<TxMode, u8> {
        TxMode::of_code(v)
    }
}

impl TryFrom<u8> for TxMode {
    type Error = u8;

    fn try_from(v: u8) -> (r: Result<TxMode, u8>) {
        match v {
            0 => Ok(TxMode::Only4x4),
            1 => Ok(TxMode::Allow8x8),
            2 => Ok(TxMode::Allow16x16),
            3 => Ok(TxMode::Allow32x32),
            4 => Ok(TxMode::TxModeSelect),
            _ => Err(v),
        }
    }
}

/// Colour space of a stream, in the order of its 3-bit code.
#[derive(Clone, Copy, Debug, PartialEq, Eq, Structural)]
pub enum ColorSpace {
    Unknown,
    Bt601,
    Bt709,
    Smpte170,
    Smpte240,
    Bt2020Ncl,
    Reserved,
    Rgb,
}

impl ColorSpace {
    /// The colour space with the code `v`; unknown where none has it.
    pub open spec fn of_code(v: u8) -> ColorSpace {
        match v {
            1 => ColorSpace::Bt601,
            2 => ColorSpace::Bt709,
            3 => ColorSpace::Smpte170,
            4 => ColorSpace::Smpte240,
            5 => ColorSpace::Bt2020Ncl,
            6 => ColorSpace::Reserved,
            7 => ColorSpace::Rgb,
            _ => ColorSpace::Unknown,
        }
    }

    /// The colour space with the code `v`; unknown where none has it.
    pub fn from_code(v: u8) -> (r: ColorSpace)
        ensures
            r == ColorSpace::of_code(v),
    {
        match v {
            1 => ColorSpace::Bt601,
            2 => ColorSpace::Bt709,
            3 => ColorSpace::Smpte170,
            4 => ColorSpace::Smpte240,
            5 => ColorSpace::Bt2020Ncl,
            6 => ColorSpace::Reserved,
            7 => ColorSpace::Rgb,
            _ => ColorSpace::Unknown,
        }
    }
}

impl FromSpecImpl<u8> for ColorSpace {
    open spec fn obeys_from_spec() -> bool {
        true
    }

    open spec fn from_spec(v: u8) -> ColorSpace {
        ColorSpace::of_code(v)
    }
}

impl From<u8> for ColorSpace {
    fn from(v: u8) -> (r: ColorSpace) {
        ColorSpace::from_code(v)
    }
}

/// Colour range.
#[derive(Clone, Copy, Debug, PartialEq, Eq, Structural)]
pub enum ColorRange {
    /// Studio swing.
    Limited,
    /// Full swing.
    Full,
}

/// Features of one segment.
#[derive(Clone, Copy, Debug)]
pub struct SegmentFeature {
    pub q_enabled: bool,
    pub lf_enabled: bool,
    pub ref_enabled: bool,
    pub skip_enabled: bool,
    /// Quantizer, absolute or as a difference.
    pub q_val: i16,
    /// Loop filter level, absolute or as a difference.
    pub lf_val: i8,
    /// Reference frame.
    pub ref_val: u8,
    /// Loop filter levels by reference frame (intra first), and by whether the
    /// block moves.
    pub lflvl: [[u8; 2]; 4],
}

/// Segmentation of a frame.
#[derive(Clone, Debug)]
pub struct SegmentationParams {
    pub enabled: bool,
    pub update_map: bool,
    pub temporal: bool,
    pub absolute_vals: bool,
    /// Probabilities of the segment tree.
    pub prob: [u8; 7],
    /// Probabilities that a segment is as predicted.
    pub pred_prob: [u8; 3],
    /// Features by segment.
    pub feat: [SegmentFeature; 8],
}

/// A frame header.
#[derive(Clone, Debug)]
pub struct FrameHeader {
    pub profile: BitstreamProfile,
    pub show_existing_frame: bool,
    /// Reference to show, where an existing frame is shown.
    pub show_existing_frame_ref: u8,
    pub frame_type: FrameType,
    pub show_frame: bool,
    pub error_resilient: bool,
    pub intra_only: bool,
    pub reset_context: u8,
    /// Reference slots that this frame replaces, one bit each.
    pub refresh_ref_mask: u8,
    pub ref_idx: [u8; 3],
    pub sign_bias: [bool; 3],
    pub bit_depth: u8,
    pub width: u32,
    pub height: u32,
    pub render_width: u32,
    pub render_height: u32,
    pub subsampling_x: bool,
    pub subsampling_y: bool,
    pub color_space: ColorSpace,
    pub color_range: ColorRange,
    pub filter_level: u8,
    pub sharpness_level: u8,
    pub mode_ref_delta_enabled: bool,
    pub mode_ref_delta_updated: bool,
    pub ref_deltas: [i8; 4],
    pub mode_deltas: [i8; 2],
    pub base_q_idx: u8,
    pub y_dc_delta_q: i8,
    pub uv_dc_delta_q: i8,
    pub uv_ac_delta_q: i8,
    pub lossless: bool,
    pub segmentation: SegmentationParams,
    pub tile_cols_log2: u8,
    pub tile_rows_log2: u8,
    pub compressed_header_size: u16,
    /// Where the compressed header begins.
    pub compressed_header_offset: usize,
    /// Where the tiles begin.
    pub tile_data_offset: usize,
    /// Probabilities behind the updates of the compressed header.
    pub prob: ProbContext,
    /// Coefficient probabilities behind the updates of the compressed header.
    pub coef: CoefProbArray,
    pub tx_mode: TxMode,
    pub high_precision_mvs: bool,
    /// Interpolation filter, or 4 where it is coded for each block.
    pub filter_mode: u8,
    pub allow_comp_inter: bool,
    /// Single references (0), compound references (1) or either (2).
    pub comp_pred_mode: u8,
    pub fix_comp_ref: u8,
    pub var_comp_ref: [u8; 2],
    pub refresh_ctx: bool,
    pub parallel_mode: bool,
    pub frame_ctx_id: u8,
    pub use_last_frame_mvs: bool,
    /// Entry of `ref_idx` that gives the size of the frame, or -1.
    pub size_from_ref: i8,
}

/// Whether a segmentation is that of `s`, with the loop filter levels of each
/// segment in use.
pub open spec fn segmentation_is(x: SegmentationParams, s: SegmentsView, lf: LoopFilter) -> bool {
    &&& x.enabled == s.enabled
    &&& x.update_map == s.update_map
    &&& x.temporal == s.temporal
    &&& x.absolute_vals == s.absolute_vals
    &&& x.prob@ == s.prob
    &&& x.pred_prob@ == s.pred_prob
    &&& forall|i: int|
        0 <= i < 8 ==> #[trigger] x.feat@[i] == (if s.enabled || i == 0 {
            SegmentFeature { lflvl: crate::vp9::uncompressed::levels_spec(s, i, lf), ..s.feat[i] }
        } else {
            s.feat[i]
        })
}

/// Completes a segmentation with its loop filter levels.
fn finish_segmentation(s: &Segments, lf: &LoopFilter) -> (r: SegmentationParams)
    requires
        s.prob@.len() == 7,
        s.pred_prob@.len() == 3,
        s.feat@.len() == 8,
        crate::vp9::uncompressed::features_in_range(s.feat@),
        lf.level < 64,
        forall|k: int| 0 <= k < 4 ==> -63 <= #[trigger] lf.ref_deltas@[k] <= 63,
        forall|k: int| 0 <= k < 2 ==> -63 <= #[trigger] lf.mode_deltas@[k] <= 63,
    ensures
        segmentation_is(r, s@, *lf),
        forall|i: int|
            0 <= i < 8 ==> (#[trigger] r.feat@[i]).ref_val < 4 && -63 <= r.feat@[i].lf_val <= 63
                && -255 <= r.feat@[i].q_val <= 255 && crate::vp9::uncompressed::levels_in_range(
                r.feat@[i].lflvl,
            ),
{
    let mut feat: [SegmentFeature; 8] = [
        s.feat[0],
        s.feat[1],
        s.feat[2],
        s.feat[3],
        s.feat[4],
        s.feat[5],
        s.feat[6],
        s.feat[7],
    ];
    let prob: [u8; 7] = [
        s.prob[0],
        s.prob[1],
        s.prob[2],
        s.prob[3],
        s.prob[4],
        s.prob[5],
        s.prob[6],
    ];
    let pred_prob: [u8; 3] = [s.pred_prob[0], s.pred_prob[1], s.pred_prob[2]];
    assert(prob@ =~= s.prob@);
    assert(pred_prob@ =~= s.pred_prob@);
    assert(feat@ =~= s.feat@);
    let n: usize = if s.enabled { 8 } else { 1 };
    let mut i: usize = 0;
    while i < n
        invariant
            i <= n,
            n == (if s.enabled { 8int } else { 1int }),
            s.feat@.len() == 8,
            crate::vp9::uncompressed::features_in_range(s.feat@),
            lf.level < 64,
            forall|k: int| 0 <= k < 4 ==> -63 <= #[trigger] lf.ref_deltas@[k] <= 63,
            forall|k: int| 0 <= k < 2 ==> -63 <= #[trigger] lf.mode_deltas@[k] <= 63,
            forall|j: int|
                0 <= j < 8 ==> crate::vp9::uncompressed::levels_in_range(
                    (#[trigger] feat@[j]).lflvl,
                ),
            forall|j: int|
                0 <= j < 8 ==> #[trigger] feat@[j] == (if j < i {
                    SegmentFeature { lflvl: crate::vp9::uncompressed::levels_spec(s@, j, *lf), ..s.feat@[j] }
                } else {
                    s.feat@[j]
                }),
        decreases n - i,
    {
        let levels: [[u8; 2]; 4] = segment_levels(s, i, lf);
        let mut f: SegmentFeature = s.feat[i];
        f.lflvl = levels;
        feat[i] = f;
        i += 1;
    }
    SegmentationParams {
        enabled: s.enabled,
        update_map: s.update_map,
        temporal: s.temporal,
        absolute_vals: s.absolute_vals,
        prob,
        pred_prob,
        feat,
    }
}

/// The sections of the uncompressed header of a frame that is coded.
pub struct Plan {
    pub intro: Intro,
    pub layout: Layout,
    pub context: ContextUse,
    pub lf: LoopFilter,
    pub quant: Quant,
    pub seg: SegmentsView,
    pub tiles: Tiles,
    /// Whether every section is valid.
    pub ok: bool,
    /// Position behind the last section, in bits.
    pub end: int,
}

/// The sections of the uncompressed header in `d`, one behind the other.
#[verifier::opaque]
pub open spec fn plan_spec(d: Seq<u8>) -> Plan {
    let intro = crate::vp9::uncompressed::intro_spec(d);
    let layout = crate::vp9::uncompressed::layout_spec(d, intro.end, intro.value);
    let context = crate::vp9::uncompressed::context_use_spec(
        d,
        layout.end,
        intro.value.resilient,
        intro.value.key || layout.value.intra_only,
    );
    let lf = crate::vp9::uncompressed::loop_filter_spec(d, context.end);
    let quant = crate::vp9::uncompressed::quant_spec(d, lf.end);
    let (seg, seg_end) = crate::vp9::uncompressed::segments_spec(d, quant.end);
    let tiles = crate::vp9::uncompressed::tiles_spec(d, seg_end, layout.value.size.width);
    Plan {
        intro: intro.value,
        layout: layout.value,
        context: context.value,
        lf: lf.value,
        quant: quant.value,
        seg,
        tiles: tiles.value,
        ok: intro.ok && layout.ok,
        end: tiles.end,
    }
}

impl Plan {
    /// Where the compressed header begins.
    pub open spec fn compressed_at(self) -> int {
        (self.end + 7) / 8
    }

    /// Where the tiles begin.
    pub open spec fn tiles_at(self) -> int {
        self.compressed_at() + self.tiles.compressed_size
    }

    /// Whether the frame is coded without references.
    pub open spec fn intra(self) -> bool {
        self.intro.key || self.layout.intra_only
    }

    /// Whether blocks can use two references: they do not all lie on one side.
    pub open spec fn allow_comp(self) -> bool {
        let b = self.layout.sign_bias@;
        b[0] != b[1] || b[0] != b[2]
    }

    /// The bytes of the compressed header.
    pub open spec fn compressed(self, d: Seq<u8>) -> Seq<u8> {
        d.subrange(self.compressed_at(), self.tiles_at())
    }

    /// What the compressed header depends on.
    pub open spec fn compressed_input(self) -> CompressedInput {
        CompressedInput {
            lossless: crate::vp9::uncompressed::lossless_spec(self.quant),
            intra: self.intra(),
            switchable_filter: self.layout.filter_mode == 4,
            allow_comp_inter: self.allow_comp(),
            high_precision: self.layout.high_precision_mvs,
        }
    }
}

/// The reference that is fixed in a compound prediction, and the two others.
pub open spec fn comp_refs_spec(allow: bool, b: Seq<bool>) -> (u8, Seq<u8>) {
    if !allow {
        (0u8, seq![0u8, 0u8])
    } else if b[0] == b[1] {
        (2u8, seq![0u8, 1u8])
    } else if b[0] == b[2] {
        (1u8, seq![0u8, 2u8])
    } else {
        (0u8, seq![1u8, 2u8])
    }
}

/// Whether `d` starts with a valid header: the first fields are, and, unless they
/// only show an existing frame, the other sections are too, the compressed header
/// is there and not empty, and its first bit is zero.
pub open spec fn header_ok(d: Seq<u8>) -> bool {
    let intro = crate::vp9::uncompressed::intro_spec(d);
    let plan = plan_spec(d);
    &&& intro.ok
    &&& intro.end <= 8 * d.len()
    &&& !intro.value.show_existing ==> {
        &&& plan.ok
        &&& plan.end <= 8 * d.len()
        &&& plan.tiles_at() <= d.len()
        &&& plan.tiles.compressed_size > 0
        &&& !crate::vp9::bool_decoder::Rac::init(plan.compressed(d)).bit(128)
    }
}

/// Whether `h` is the header that `d` starts with, where it only shows an existing
/// frame, and `next` the position behind it.
pub open spec fn shows_existing(
    h: FrameHeader,
    next: int,
    d: Seq<u8>,
    default_coef: CoefProbArray,
) -> bool {
    let intro = crate::vp9::uncompressed::intro_spec(d);
    &&& next == (intro.end + 7) / 8
    &&& h.profile == intro.value.profile
    &&& h.show_existing_frame
    &&& h.show_existing_frame_ref == intro.value.show_ref
    &&& h.frame_type == FrameType::KeyFrame
    &&& h.show_frame
    &&& !h.error_resilient
    &&& !h.intra_only
    &&& h.reset_context == 0
    &&& h.refresh_ref_mask == 0
    &&& h.ref_idx@ == seq![0u8, 0u8, 0u8]
    &&& h.sign_bias@ == seq![false, false, false]
    &&& h.bit_depth == 8
    &&& h.width == 0
    &&& h.height == 0
    &&& h.render_width == 0
    &&& h.render_height == 0
    &&& h.subsampling_x
    &&& h.subsampling_y
    &&& h.color_space == ColorSpace::Unknown
    &&& h.color_range == ColorRange::Limited
    &&& h.filter_level == 0
    &&& h.sharpness_level == 0
    &&& !h.mode_ref_delta_enabled
    &&& !h.mode_ref_delta_updated
    &&& h.ref_deltas@ == seq![1i8, 0i8, -1i8, -1i8]
    &&& h.mode_deltas@ == seq![0i8, 0i8]
    &&& h.base_q_idx == 0
    &&& h.y_dc_delta_q == 0
    &&& h.uv_dc_delta_q == 0
    &&& h.uv_ac_delta_q == 0
    &&& !h.lossless
    &&& !h.segmentation.enabled
    &&& !h.segmentation.update_map
    &&& !h.segmentation.temporal
    &&& !h.segmentation.absolute_vals
    &&& h.segmentation.prob@ == crate::vp9::uncompressed::repeat(0u8, 7)
    &&& h.segmentation.pred_prob@ == crate::vp9::uncompressed::repeat(0u8, 3)
    &&& h.segmentation.feat@ == crate::vp9::uncompressed::repeat(
        crate::vp9::uncompressed::no_feature(),
        8,
    )
    &&& h.tile_cols_log2 == 0
    &&& h.tile_rows_log2 == 0
    &&& h.compressed_header_size == 0
    &&& h.compressed_header_offset == 0
    &&& h.tile_data_offset == 0
    &&& h.prob@ == crate::vp9::default_probs::default_prob_spec()
    &&& h.coef == default_coef
    &&& h.tx_mode == TxMode::Only4x4
    &&& !h.high_precision_mvs
    &&& h.filter_mode == 0
    &&& !h.allow_comp_inter
    &&& h.comp_pred_mode == 0
    &&& h.fix_comp_ref == 0
    &&& h.var_comp_ref@ == seq![0u8, 0u8]
    &&& !h.refresh_ctx
    &&& !h.parallel_mode
    &&& h.frame_ctx_id == 0
    &&& !h.use_last_frame_mvs
    &&& h.size_from_ref == -1
}

/// Saved probabilities as values.
pub open spec fn prob_views(s: Seq<ProbContext>) -> Seq<crate::vp9::compressed::ProbView> {
    Seq::new(s.len(), |i: int| s[i]@)
}

/// Saved coefficient probabilities as values.
pub open spec fn coef_views(s: Seq<CoefProbArray>) -> Seq<Seq<Seq<Seq<Seq<Seq<Seq<u8>>>>>>> {
    Seq::new(s.len(), |i: int| s[i].deep_view())
}

/// Whether `h` is the header that `d` starts with, where it is that of a coded
/// frame, and `next` the position behind it.
pub open spec fn codes_frame(
    h: FrameHeader,
    next: int,
    d: Seq<u8>,
    prob_ctx: Seq<crate::vp9::compressed::ProbView>,
    coef_ctx: Seq<Seq<Seq<Seq<Seq<Seq<Seq<u8>>>>>>>,
    default_coef: CoefProbArray,
) -> bool {
    let plan = plan_spec(d);
    let l = plan.layout;
    let ctx = plan.context.frame_ctx_id as int;
    let (fix, var) = comp_refs_spec(plan.allow_comp(), l.sign_bias@);
    let start = crate::vp9::bool_decoder::Rac::init(plan.compressed(d)).after(128);
    let out = crate::vp9::compressed::compressed_spec(
        start,
        plan.compressed_input(),
        if plan.intra() {
            crate::vp9::default_probs::default_prob_spec()
        } else {
            prob_ctx[ctx]
        },
        if plan.intra() { default_coef.deep_view() } else { coef_ctx[ctx] },
    );
    &&& next == plan.tiles_at()
    &&& h.profile == plan.intro.profile
    &&& !h.show_existing_frame
    &&& h.show_existing_frame_ref == 0
    &&& h.frame_type == (if plan.intro.key { FrameType::KeyFrame } else { FrameType::InterFrame })
    &&& h.show_frame == plan.intro.show
    &&& h.error_resilient == plan.intro.resilient
    &&& h.intra_only == l.intra_only
    &&& h.reset_context == l.reset_context
    &&& h.refresh_ref_mask == l.refresh_ref_mask
    &&& h.ref_idx == l.ref_idx
    &&& h.sign_bias == l.sign_bias
    &&& h.bit_depth == l.color.bit_depth
    &&& h.width == l.size.width
    &&& h.height == l.size.height
    &&& h.render_width == l.size.render_width
    &&& h.render_height == l.size.render_height
    &&& h.subsampling_x == l.color.subsampling_x
    &&& h.subsampling_y == l.color.subsampling_y
    &&& h.color_space == l.color.color_space
    &&& h.color_range == l.color.color_range
    &&& h.filter_level == plan.lf.level
    &&& h.sharpness_level == plan.lf.sharpness
    &&& h.mode_ref_delta_enabled == plan.lf.delta_enabled
    &&& h.mode_ref_delta_updated == plan.lf.delta_updated
    &&& h.ref_deltas == plan.lf.ref_deltas
    &&& h.mode_deltas == plan.lf.mode_deltas
    &&& h.base_q_idx == plan.quant.base_q_idx
    &&& h.y_dc_delta_q == plan.quant.y_dc_delta_q
    &&& h.uv_dc_delta_q == plan.quant.uv_dc_delta_q
    &&& h.uv_ac_delta_q == plan.quant.uv_ac_delta_q
    &&& h.lossless == crate::vp9::uncompressed::lossless_spec(plan.quant)
    &&& segmentation_is(h.segmentation, plan.seg, plan.lf)
    &&& h.tile_cols_log2 == plan.tiles.cols_log2
    &&& h.tile_rows_log2 == plan.tiles.rows_log2
    &&& h.compressed_header_size == plan.tiles.compressed_size
    &&& h.compressed_header_offset == plan.compressed_at()
    &&& h.tile_data_offset == plan.tiles_at()
    &&& h.prob@ == out.prob
    &&& h.coef.deep_view() == out.coef
    &&& h.tx_mode == out.tx_mode
    &&& h.high_precision_mvs == l.high_precision_mvs
    &&& h.filter_mode == l.filter_mode
    &&& h.allow_comp_inter == plan.allow_comp()
    &&& h.comp_pred_mode == out.comp_pred_mode
    &&& h.fix_comp_ref == fix
    &&& h.var_comp_ref@ == var
    &&& h.refresh_ctx == plan.context.refresh_ctx
    &&& h.parallel_mode == plan.context.parallel_mode
    &&& h.frame_ctx_id == plan.context.frame_ctx_id
    &&& h.use_last_frame_mvs == (!plan.intro.resilient && plan.intro.show)
    &&& h.size_from_ref == l.size_from_ref
}

/// Ranges of the fields of a header that was read.
pub open spec fn header_wf(h: FrameHeader) -> bool {
    &&& h.width <= 65536
    &&& h.height <= 65536
    &&& forall|i: int| 0 <= i < 3 ==> #[trigger] h.ref_idx@[i] < 8
    &&& h.filter_level < 64
    &&& h.sharpness_level < 8
    &&& h.tile_cols_log2 <= 9
    &&& h.tile_rows_log2 <= 2
    &&& h.filter_mode <= 4
    &&& h.comp_pred_mode <= 2
    &&& h.fix_comp_ref <= 2
    &&& forall|i: int| 0 <= i < 2 ==> #[trigger] h.var_comp_ref@[i] <= 2
    &&& h.frame_ctx_id < 4
    &&& -1 <= h.size_from_ref <= 2
    &&& h.bit_depth == 8 || h.bit_depth == 10 || h.bit_depth == 12
    &&& forall|i: int|
        0 <= i < 8 ==> (#[trigger] h.segmentation.feat@[i]).ref_val < 4 && -63
            <= h.segmentation.feat@[i].lf_val <= 63 && -255 <= h.segmentation.feat@[i].q_val
            <= 255
    &&& h.lossless ==> h.tx_mode == TxMode::Only4x4
    &&& forall|i: int|
        0 <= i < 8 ==> crate::vp9::uncompressed::levels_in_range(
            (#[trigger] h.segmentation.feat@[i]).lflvl,
        )
}

/// The header that only shows the existing frame `intro` names.
fn existing_header(intro: &Intro, default_coef: &CoefProbArray) -> (h: FrameHeader)
    requires
        intro.show_existing,
    ensures
        forall|d: Seq<u8>|
            #![trigger crate::vp9::uncompressed::intro_spec(d)]
            crate::vp9::uncompressed::intro_spec(d).value == *intro ==> shows_existing(
                h,
                (crate::vp9::uncompressed::intro_spec(d).end + 7) / 8,
                d,
                *default_coef,
            ),
        header_wf(h),
{
    let z: [u8; 2] = [0u8, 0u8];
    let none = SegmentFeature {
        q_enabled: false,
        lf_enabled: false,
        ref_enabled: false,
        skip_enabled: false,
        q_val: 0,
        lf_val: 0,
        ref_val: 0,
        lflvl: [z, z, z, z],
    };
    proof {
        let zl = crate::vp9::uncompressed::zero_levels_spec();
        assert(z =~= zl@[0]);
        assert(z =~= zl@[1]);
        assert(z =~= zl@[2]);
        assert(z =~= zl@[3]);
        assert(none.lflvl =~= zl);
        assert(none == crate::vp9::uncompressed::no_feature());
    }
    let segmentation = SegmentationParams {
        enabled: false,
        update_map: false,
        temporal: false,
        absolute_vals: false,
        prob: [0u8, 0u8, 0u8, 0u8, 0u8, 0u8, 0u8],
        pred_prob: [0u8, 0u8, 0u8],
        feat: [none, none, none, none, none, none, none, none],
    };
    assert(segmentation.prob@ =~= crate::vp9::uncompressed::repeat(0u8, 7));
    assert(segmentation.pred_prob@ =~= crate::vp9::uncompressed::repeat(0u8, 3));
    assert(segmentation.feat@ =~= crate::vp9::uncompressed::repeat(
        crate::vp9::uncompressed::no_feature(),
        8,
    ));
    let h = FrameHeader {
        profile: intro.profile,
        show_existing_frame: true,
        show_existing_frame_ref: intro.show_ref,
        frame_type: FrameType::KeyFrame,
        show_frame: true,
        error_resilient: false,
        intra_only: false,
        reset_context: 0,
        refresh_ref_mask: 0,
        ref_idx: [0u8, 0u8, 0u8],
        sign_bias: [false, false, false],
        bit_depth: 8,
        width: 0,
        height: 0,
        render_width: 0,
        render_height: 0,
        subsampling_x: true,
        subsampling_y: true,
        color_space: ColorSpace::Unknown,
        color_range: ColorRange::Limited,
        filter_level: 0,
        sharpness_level: 0,
        mode_ref_delta_enabled: false,
        mode_ref_delta_updated: false,
        ref_deltas: [1i8, 0i8, -1i8, -1i8],
        mode_deltas: [0i8, 0i8],
        base_q_idx: 0,
        y_dc_delta_q: 0,
        uv_dc_delta_q: 0,
        uv_ac_delta_q: 0,
        lossless: false,
        segmentation,
        tile_cols_log2: 0,
        tile_rows_log2: 0,
        compressed_header_size: 0,
        compressed_header_offset: 0,
        tile_data_offset: 0,
        prob: default_prob_context(),
        coef: *default_coef,
        tx_mode: TxMode::Only4x4,
        high_precision_mvs: false,
        filter_mode: 0,
        allow_comp_inter: false,
        comp_pred_mode: 0,
        fix_comp_ref: 0,
        var_comp_ref: [0u8, 0u8],
        refresh_ctx: false,
        parallel_mode: false,
        frame_ctx_id: 0,
        use_last_frame_mvs: false,
        size_from_ref: -1,
    };
    assert(h.ref_idx@ =~= seq![0u8, 0u8, 0u8]);
    assert(h.sign_bias@ =~= seq![false, false, false]);
    assert(h.ref_deltas@ =~= seq![1i8, 0i8, -1i8, -1i8]);
    assert(h.mode_deltas@ =~= seq![0i8, 0i8]);
    assert(h.var_comp_ref@ =~= seq![0u8, 0u8]);
    h
}

/// The sections of the uncompressed header of a coded frame, as they were read.
struct Sections {
    layout: Layout,
    context: ContextUse,
    lf: LoopFilter,
    quant: Quant,
    seg: Segments,
    tiles: Tiles,
}

/// Reads the sections of the uncompressed header behind its first fields, or
/// nothing where they are not valid.
#[verifier::rlimit(100)]
fn read_sections(gb: &mut GetBits<'_>, intro: &Intro) -> (r: Option<Sections>)
    requires
        old(gb).wf(),
        crate::vp9::uncompressed::intro_spec(old(gb).data()).ok,
        old(gb).at() == crate::vp9::uncompressed::intro_spec(old(gb).data()).end,
        *intro == crate::vp9::uncompressed::intro_spec(old(gb).data()).value,
    ensures
        final(gb).wf(),
        final(gb).data() == old(gb).data(),
        plan_spec(old(gb).data()).intro == *intro,
        match r {
            Some(x) => {
                let plan = plan_spec(old(gb).data());
                &&& plan.ok
                &&& plan.end == final(gb).at()
                &&& plan.layout == x.layout
                &&& plan.context == x.context
                &&& plan.lf == x.lf
                &&& plan.quant == x.quant
                &&& plan.seg == x.seg@
                &&& plan.tiles == x.tiles
                &&& x.layout.size.width <= 65536
                &&& x.layout.size.height <= 65536
                &&& forall|i: int| 0 <= i < 3 ==> #[trigger] x.layout.ref_idx@[i] < 8
                &&& x.layout.filter_mode <= 4
                &&& -1 <= x.layout.size_from_ref <= 2
                &&& x.layout.color.bit_depth == 8 || x.layout.color.bit_depth == 10
                    || x.layout.color.bit_depth == 12
                &&& x.context.frame_ctx_id < 4
                &&& x.lf.level < 64
                &&& x.lf.sharpness < 8
                &&& forall|i: int| 0 <= i < 4 ==> -63 <= #[trigger] x.lf.ref_deltas@[i] <= 63
                &&& forall|i: int| 0 <= i < 2 ==> -63 <= #[trigger] x.lf.mode_deltas@[i] <= 63
                &&& x.seg.prob@.len() == 7
                &&& x.seg.pred_prob@.len() == 3
                &&& x.seg.feat@.len() == 8
                &&& crate::vp9::uncompressed::features_in_range(x.seg.feat@)
                &&& x.tiles.cols_log2 <= 9
                &&& x.tiles.rows_log2 <= 2
            },
            None => !(plan_spec(old(gb).data()).ok && plan_spec(old(gb).data()).end <= old(
                gb,
            ).bits()),
        },
{
    proof {
        reveal(plan_spec);
        let d = gb.data();
        let layout = crate::vp9::uncompressed::layout_spec(d, gb.at(), *intro);
        let context = crate::vp9::uncompressed::context_use_spec(
            d,
            layout.end,
            intro.resilient,
            intro.key || layout.value.intra_only,
        );
        let lf = crate::vp9::uncompressed::loop_filter_spec(d, context.end);
        let quant = crate::vp9::uncompressed::quant_spec(d, lf.end);
        let end = crate::vp9::uncompressed::segments_spec(d, quant.end).1;
        crate::vp9::uncompressed::lemma_segments_end(d, quant.end);
        crate::vp9::uncompressed::lemma_tiles_end(d, end, layout.value.size.width);
    }
    let layout = read_layout(gb, intro)?;
    let intra = intro.key || layout.intra_only;
    let context = read_context_use(gb, intro.resilient, intra)?;
    let lf = read_loop_filter(gb)?;
    let quant = read_quant(gb)?;
    let seg = read_segments(gb)?;
    let tiles = read_tiles(gb, layout.size.width)?;
    Some(Sections { layout, context, lf, quant, seg, tiles })
}

/// Reads the header of a coded frame behind its first fields, or nothing where it
/// is not valid.
#[verifier::rlimit(100)]
fn coded_header(
    data: &[u8],
    gb: &mut GetBits<'_>,
    intro: Intro,
    prob_ctx: &[ProbContext; 4],
    coef_ctx: &[CoefProbArray; 4],
    default_coef: &CoefProbArray,
) -> (r: Option<(FrameHeader, usize)>)
    requires
        8 * data@.len() <= usize::MAX,
        old(gb).wf(),
        old(gb).data() == data@,
        crate::vp9::uncompressed::intro_spec(data@).ok,
        old(gb).at() == crate::vp9::uncompressed::intro_spec(data@).end,
        intro == crate::vp9::uncompressed::intro_spec(data@).value,
        !intro.show_existing,
    ensures
        match r {
            Some((h, next)) => {
                &&& header_ok(data@)
                &&& codes_frame(
                    h,
                    next as int,
                    data@,
                    prob_views(prob_ctx@),
                    coef_views(coef_ctx@),
                    *default_coef,
                )
                &&& header_wf(h)
            },
            None => !header_ok(data@),
        },
{
    let ghost d = data@;
    let ghost plan = plan_spec(d);
    let Sections { layout, context, lf, quant, seg, tiles } = read_sections(gb, &intro)?;
    let intra = intro.key || layout.intra_only;
    let lossless = quant.base_q_idx == 0 && quant.y_dc_delta_q == 0 && quant.uv_dc_delta_q == 0
        && quant.uv_ac_delta_q == 0;
    let segmentation = finish_segmentation(&seg, &lf);
    let compressed_header_offset: usize = gb.byte_pos();
    assert(compressed_header_offset == plan.compressed_at());
    let left: usize = data.len() - compressed_header_offset;
    if tiles.compressed_size as usize > left {
        return None;
    }
    let tile_data_offset: usize = compressed_header_offset + tiles.compressed_size as usize;
    let compressed = vstd::slice::slice_subrange(data, compressed_header_offset, tile_data_offset);
    assert(compressed@ =~= plan.compressed(d));
    let mut bd = match BoolDecoder::new(compressed) {
        None => return None,
        Some(bd) => bd,
    };
    if bd.get_prob(128) {
        return None;
    }
    let mut prob: ProbContext = if intra {
        default_prob_context()
    } else {
        prob_ctx[context.frame_ctx_id as usize]
    };
    let mut coef: CoefProbArray = if intra {
        *default_coef
    } else {
        coef_ctx[context.frame_ctx_id as usize]
    };
    let b0 = layout.sign_bias[0];
    let b1 = layout.sign_bias[1];
    let b2 = layout.sign_bias[2];
    let allow_comp_inter = b0 != b1 || b0 != b2;
    let input = CompressedInput {
        lossless,
        intra,
        switchable_filter: layout.filter_mode == 4,
        allow_comp_inter,
        high_precision: layout.high_precision_mvs,
    };
    let (tx_mode, comp_pred_mode): (TxMode, u8) = read_compressed(
        &mut bd,
        &input,
        &mut prob,
        &mut coef,
    );
    let (fix_comp_ref, var_comp_ref): (u8, [u8; 2]) = if !allow_comp_inter {
        (0, [0u8, 0u8])
    } else if b0 == b1 {
        (2, [0u8, 1u8])
    } else if b0 == b2 {
        (1, [0u8, 2u8])
    } else {
        (0, [1u8, 2u8])
    };
    assert(var_comp_ref@ =~= comp_refs_spec(plan.allow_comp(), layout.sign_bias@).1);
    let h = FrameHeader {
        profile: intro.profile,
        show_existing_frame: false,
        show_existing_frame_ref: 0,
        frame_type: if intro.key { FrameType::KeyFrame } else { FrameType::InterFrame },
        show_frame: intro.show,
        error_resilient: intro.resilient,
        intra_only: layout.intra_only,
        reset_context: layout.reset_context,
        refresh_ref_mask: layout.refresh_ref_mask,
        ref_idx: layout.ref_idx,
        sign_bias: layout.sign_bias,
        bit_depth: layout.color.bit_depth,
        width: layout.size.width,
        height: layout.size.height,
        render_width: layout.size.render_width,
        render_height: layout.size.render_height,
        subsampling_x: layout.color.subsampling_x,
        subsampling_y: layout.color.subsampling_y,
        color_space: layout.color.color_space,
        color_range: layout.color.color_range,
        filter_level: lf.level,
        sharpness_level: lf.sharpness,
        mode_ref_delta_enabled: lf.delta_enabled,
        mode_ref_delta_updated: lf.delta_updated,
        ref_deltas: lf.ref_deltas,
        mode_deltas: lf.mode_deltas,
        base_q_idx: quant.base_q_idx,
        y_dc_delta_q: quant.y_dc_delta_q,
        uv_dc_delta_q: quant.uv_dc_delta_q,
        uv_ac_delta_q: quant.uv_ac_delta_q,
        lossless,
        segmentation,
        tile_cols_log2: tiles.cols_log2,
        tile_rows_log2: tiles.rows_log2,
        compressed_header_size: tiles.compressed_size,
        compressed_header_offset,
        tile_data_offset,
        prob,
        coef,
        tx_mode,
        high_precision_mvs: layout.high_precision_mvs,
        filter_mode: layout.filter_mode,
        allow_comp_inter,
        comp_pred_mode,
        fix_comp_ref,
        var_comp_ref,
        refresh_ctx: context.refresh_ctx,
        parallel_mode: context.parallel_mode,
        frame_ctx_id: context.frame_ctx_id,
        use_last_frame_mvs: !intro.resilient && intro.show,
        size_from_ref: layout.size_from_ref,
    };
    Some((h, tile_data_offset))
}

/// Reads the frame header at the start of `data`.
///
/// `prob_ctx` and `coef_ctx` are the saved probability contexts, one of which a
/// frame with references starts from; other frames start from the standard
/// probabilities, those of the coefficients being `default_coef`. Returns the header
/// and the position behind it, where the tiles begin.
pub fn decode_frame_header(
    data: &[u8],
    prob_ctx: &[ProbContext; 4],
    coef_ctx: &[CoefProbArray; 4],
    default_coef: &CoefProbArray,
) -> (r: Result<(FrameHeader, usize), Error>)
    requires
        8 * data@.len() <= usize::MAX,
    ensures
        match r {
            Ok((h, next)) => {
                &&& header_ok(data@)
                &&& header_wf(h)
                &&& next <= data@.len()
                &&& if crate::vp9::uncompressed::intro_spec(data@).value.show_existing {
                    shows_existing(h, next as int, data@, *default_coef)
                } else {
                    codes_frame(
                        h,
                        next as int,
                        data@,
                        prob_views(prob_ctx@),
                        coef_views(coef_ctx@),
                        *default_coef,
                    )
                }
            },
            Err(e) => e == Error::InvalidData && !header_ok(data@),
        },
{
    let mut gb = GetBits::new(data);
    let intro = match read_intro(&mut gb) {
        None => return Err(Error::InvalidData),
        Some(intro) => intro,
    };
    if intro.show_existing {
        let next: usize = gb.byte_pos();
        let h = existing_header(&intro, default_coef);
        return Ok((h, next));
    }
    match coded_header(data, &mut gb, intro, prob_ctx, coef_ctx, default_coef) {
        None => Err(Error::InvalidData),
        Some(x) => Ok(x),
    }
}

impl Default for FrameType {
    fn default() -> (r: FrameType)
        ensures
            r == FrameType::KeyFrame,
    {
        FrameType::KeyFrame
    }
}

impl Default for TxMode {
    fn default() -> (r: TxMode)
        ensures
            r == TxMode::Only4x4,
    {
        TxMode::Only4x4
    }
}

impl Default for ColorSpace {
    fn default() -> (r: ColorSpace)
        ensures
            r == ColorSpace::Unknown,
    {
        ColorSpace::Unknown
    }
}

impl Default for ColorRange {
    fn default() -> (r: ColorRange)
        ensures
            r == ColorRange::Limited,
    {
        ColorRange::Limited
    }
}

/// Whether a segment has no features.
pub open spec fn no_features(f: SegmentFeature) -> bool {
    &&& !f.q_enabled
    &&& !f.lf_enabled
    &&& !f.ref_enabled
    &&& !f.skip_enabled
    &&& f.q_val == 0
    &&& f.lf_val == 0
    &&& f.ref_val == 0
    &&& forall|i: int, j: int| 0 <= i < 4 && 0 <= j < 2 ==> (#[trigger] f.lflvl@[i]@[j]) == 0
}

impl Default for SegmentFeature {
    fn default() -> (r: SegmentFeature)
        ensures
            no_features(r),
    {
        SegmentFeature {
            q_enabled: false,
            lf_enabled: false,
            ref_enabled: false,
            skip_enabled: false,
            q_val: 0,
            lf_val: 0,
            ref_val: 0,
            lflvl: [[0u8; 2]; 4],
        }
    }
}

impl Default for SegmentationParams {
    fn default() -> (r: SegmentationParams)
        ensures
            !r.enabled,
            !r.update_map,
            !r.temporal,
            !r.absolute_vals,
            forall|i: int| 0 <= i < 7 ==> #[trigger] r.prob@[i] == 0,
            forall|i: int| 0 <= i < 3 ==> #[trigger] r.pred_prob@[i] == 0,
            forall|i: int| 0 <= i < 8 ==> no_features(#[trigger] r.feat@[i]),
    {
        let f: SegmentFeature = SegmentFeature::default();
        SegmentationParams {
            enabled: false,
            update_map: false,
            temporal: false,
            absolute_vals: false,
            prob: [0u8; 7],
            pred_prob: [0u8; 3],
            feat: [f; 8],
        }
    }
}

/// Data that does not begin with the frame marker has no header, and neither has data that ends
/// before the first flags.
pub proof fn law_marker_is_required(d: Seq<u8>)
    requires
        crate::vp9::bits::num(d, 0, 2) != 2 || d.len() == 0,
    ensures
        !header_ok(d),
{
}

} // verus!

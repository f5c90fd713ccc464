//! The decoder: packets in, frames out.
use std::collections::VecDeque;
use std::sync::Arc;
use vstd::prelude::*;
use vstd::slice::slice_subrange;

use crate::codec::decoder::{CodecParameters, Decoder, DecoderDescriptor};
use crate::codec::descriptor::{CodecCapabilities, CodecDescriptor, CodecProperties};
use crate::common::buffer::Buffer;
use crate::common::codec_id::CodecId;
use crate::common::frame::{Frame, FrameFlags, FramePlane, PictureType};
use crate::common::media_type::MediaType;
use crate::common::packet::Packet;
use crate::common::pixel_format::PixelFormat;
use crate::error::{Error, Result};
use crate::vp9::data::Tables;
use crate::vp9::default_probs::default_prob_context;
use crate::vp9::header::{decode_frame_header, FrameHeader, FrameType, TxMode};
use crate::vp9::picture::{decode_picture, Picture, PictureInput, PictureView};
use crate::vp9::compressed::ProbView;
use crate::vp9::prob::{adapt_probs, CoefProbArray, CountContext};
use crate::vp9::recon::{FbView, FrameBuffer};
use crate::vp9::refs::{MvRefPair, RefFrame, RefStore};
use crate::vp9::superframe::parse_superframe;
use crate::vp9::types::{CompPredMode, ProbContext};

verus! {

/// Coefficient probabilities as nested sequences.
pub type CoefView = Seq<Seq<Seq<Seq<Seq<Seq<u8>>>>>>;

/// What a decoder remembers between frames, and the frames that it has ready.
pub struct Memory {
    pub prob: Seq<ProbView>,
    pub coef: Seq<CoefView>,
    pub slots: Seq<Option<Arc<RefFrame>>>,
    pub prev: Option<Seq<MvRefPair>>,
    pub prev_cols: int,
    pub last_keyframe: bool,
    pub last_show_frame: bool,
    pub last_width: u32,
    pub last_height: u32,
    pub queue: Seq<Frame>,
    pub draining: bool,
    pub frame_count: u64,
}

/// The video decoder.
pub struct Vp9Decoder {
    params: CodecParameters,
    tables: Tables,
    output_queue: VecDeque<Frame>,
    draining: bool,
    codec_descriptor: CodecDescriptor,
    /// Probabilities kept between frames, in four slots.
    prob_ctx: [ProbContext; 4],
    /// Coefficient probabilities kept between frames, in four slots.
    coef_ctx: [CoefProbArray; 4],
    /// Whether the last frame was a key frame.
    last_keyframe: bool,
    /// Frames given out.
    frame_count: u64,
    ref_store: RefStore,
    /// Whether the last frame was shown.
    last_show_frame: bool,
    last_width: u32,
    last_height: u32,
}

/// Whether a reference frame can be shown and referred to.
pub open spec fn ref_frame_wf(rf: RefFrame) -> bool {
    &&& 1 <= rf.width <= 65536
    &&& 1 <= rf.height <= 65536
    &&& rf.fb.y@.len() + 64 <= isize::MAX
    &&& rf.fb.u@.len() + 64 <= isize::MAX
    &&& rf.fb.v@.len() + 64 <= isize::MAX
}

/// Whether what a decoder remembers is consistent.
pub open spec fn memory_wf(m: Memory) -> bool {
    &&& m.prob.len() == 4
    &&& m.coef.len() == 4
    &&& m.slots.len() == 8
    &&& forall|i: int|
        0 <= i < 8 ==> ((#[trigger] m.slots[i]) matches Some(rf) ==> ref_frame_wf(*rf))
    &&& m.prev matches Some(g) ==> crate::vp9::mvs::grid_wf(g)
    &&& 0 <= m.prev_cols <= 16384
    &&& forall|i: int| 0 <= i < m.queue.len() ==> (#[trigger] m.queue[i]).wf()
}

/// Whether a frame shows decoded pixels.
pub open spec fn shows(
    f: Frame,
    v: FbView,
    width: u32,
    height: u32,
    pts: i64,
    picture_type: PictureType,
    key: bool,
) -> bool {
    &&& f.wf()
    &&& f.data is Video
    &&& ({
        let d = f.data->Video_0;
        let plain = Frame {
            pts: crate::common::timestamp::NOPTS_VALUE,
            flags: FrameFlags { bits: 0 },
            ..f
        };
        &&& plain.is_plain()
        &&& f.pts == pts
        &&& f.flags.bits == (if key {
            FrameFlags::KEY
        } else {
            0
        })
        &&& d.width == width
        &&& d.height == height
        &&& d.format == PixelFormat::Yuv420p
        &&& d.picture_type == picture_type
        &&& d.color_range == crate::common::frame::ColorRange::Unspecified
        &&& d.color_space == crate::common::frame::ColorSpace::Unspecified
        &&& d.color_primaries == crate::common::color_primaries::ColorPrimaries::Unspecified
        &&& d.color_trc == crate::common::color_trc::ColorTransferCharacteristic::Unspecified
        &&& d.chroma_location == crate::common::chroma_location::ChromaLocation::Unspecified
        &&& d.sample_aspect_ratio.num == 0 && d.sample_aspect_ratio.den == 1
        &&& d.crop_top == 0 && d.crop_bottom == 0 && d.crop_left == 0 && d.crop_right == 0
        &&& d.planes@.len() == 3
        &&& d.planes@[0].buffer@ == v.y && d.planes@[0].offset == 0 && d.planes@[0].linesize
            == v.y_stride
        &&& d.planes@[1].buffer@ == v.u && d.planes@[1].offset == 0 && d.planes@[1].linesize
            == v.uv_stride
        &&& d.planes@[2].buffer@ == v.v && d.planes@[2].offset == 0 && d.planes@[2].linesize
            == v.uv_stride
    })
}

fn plane(bytes: &Vec<u8>, linesize: usize) -> (r: FramePlane)
    requires
        bytes@.len() + 64 <= isize::MAX,
    ensures
        r.buffer.wf(),
        r.buffer@ == bytes@,
        r.offset == 0,
        r.linesize == linesize,
{
    FramePlane { buffer: Buffer::from_slice(bytes.as_slice()), offset: 0, linesize }
}

/// The frame that shows decoded pixels.
fn shown(
    fb: &FrameBuffer,
    width: u32,
    height: u32,
    pts: i64,
    picture_type: PictureType,
    key: bool,
) -> (r: Frame)
    requires
        fb.y@.len() + 64 <= isize::MAX,
        fb.u@.len() + 64 <= isize::MAX,
        fb.v@.len() + 64 <= isize::MAX,
    ensures
        shows(r, fb@, width, height, pts, picture_type, key),
{
    let mut frame = Frame::new_video(width, height, PixelFormat::Yuv420p);
    let mut planes: Vec<FramePlane> = Vec::new();
    planes.push(plane(&fb.y, fb.y_stride));
    planes.push(plane(&fb.u, fb.uv_stride));
    planes.push(plane(&fb.v, fb.uv_stride));
    frame.pts = pts;
    if key {
        frame.flags = FrameFlags { bits: FrameFlags::KEY };
    }
    match frame.video_mut() {
        Some(video) => {
            video.planes = planes;
            video.picture_type = picture_type;
        },
        None => {},
    }
    frame
}

/// What a decoder remembers before a frame is decoded: a key frame and a frame that resists errors
/// start from the standard probabilities, and a key frame without references.
#[verifier::opaque]
pub open spec fn reset_spec(m: Memory, key: bool, resilient: bool, coef: CoefView) -> Memory {
    let p = if key || resilient {
        Memory {
            prob: Seq::new(4, |i: int| crate::vp9::default_probs::default_prob_spec()),
            coef: Seq::new(4, |i: int| coef),
            ..m
        }
    } else {
        m
    };
    if key {
        Memory {
            slots: Seq::new(8, |i: int| None::<Arc<RefFrame>>),
            prev: None,
            prev_cols: 0,
            ..p
        }
    } else {
        p
    }
}

/// The size of a frame, which a reference may give. Nothing where that reference is missing.
pub open spec fn frame_size(m: Memory, h: FrameHeader) -> Option<(u32, u32)> {
    if h.size_from_ref < 0 {
        Some((h.width, h.height))
    } else {
        match m.slots[h.ref_idx@[h.size_from_ref as int] as int] {
            Some(rf) => Some((rf.width, rf.height)),
            None => None,
        }
    }
}

/// A header with the size of the frame, and with whether the motion vectors of the last frame can be
/// used.
pub open spec fn with_size(m: Memory, h: FrameHeader, width: u32, height: u32) -> FrameHeader {
    FrameHeader {
        width,
        height,
        use_last_frame_mvs: !h.error_resilient && m.last_show_frame && m.last_width == width
            && m.last_height == height,
        ..h
    }
}

/// A header with what the decoder adds to it, where the size of the frame is known.
#[verifier::opaque]
pub open spec fn completed(m: Memory, h: FrameHeader) -> Option<FrameHeader> {
    match frame_size(m, h) {
        None => None,
        Some((width, height)) => Some(with_size(m, h, width, height)),
    }
}

proof fn lemma_with_size(m: Memory, h: FrameHeader, width: u32, height: u32)
    requires
        crate::vp9::header::header_wf(h),
        width <= 65536,
        height <= 65536,
    ensures
        crate::vp9::header::header_wf(with_size(m, h, width, height)),
{
    let g = with_size(m, h, width, height);
    assert(g.segmentation == h.segmentation && g.ref_idx == h.ref_idx && g.var_comp_ref
        == h.var_comp_ref);
}

/// Whether a frame refers to no other.
pub open spec fn refers_to_none(h: FrameHeader) -> bool {
    h.frame_type == FrameType::KeyFrame || h.intra_only
}

/// How the references of a frame are combined.
pub open spec fn comp_mode(h: FrameHeader) -> CompPredMode {
    match CompPredMode::of_code(h.comp_pred_mode) {
        Ok(c) => c,
        Err(_) => CompPredMode::SingleRef,
    }
}

/// The probabilities that a frame leaves behind in its slot.
pub open spec fn prob_after(
    before: ProbView,
    h: FrameHeader,
    counts: crate::vp9::prob::CountView,
) -> ProbView {
    let coded = h.prob@;
    if !h.refresh_ctx {
        before
    } else if h.parallel_mode {
        coded
    } else if refers_to_none(h) {
        ProbView {
            skip: coded.skip,
            tx32p: coded.tx32p,
            tx16p: coded.tx16p,
            tx8p: coded.tx8p,
            ..before
        }
    } else {
        crate::vp9::prob::adapt_inter_spec(
            before,
            counts,
            h.high_precision_mvs,
            h.filter_mode == 4,
            h.tx_mode == TxMode::TxModeSelect,
            comp_mode(h),
        )
    }
}

/// The coefficient probabilities that a frame leaves behind in its slot.
pub open spec fn coef_after(
    before: CoefView,
    h: FrameHeader,
    counts: crate::vp9::prob::CountView,
    last_keyframe: bool,
) -> CoefView {
    if !h.refresh_ctx {
        before
    } else if h.parallel_mode {
        h.coef.deep_view()
    } else {
        crate::vp9::prob::adapt_coefs_spec(
            before,
            counts.coef,
            counts.eob,
            crate::vp9::prob::coef_update_factor(refers_to_none(h), last_keyframe),
        )
    }
}

/// Whether a reference frame holds a decoded picture.
pub open spec fn holds(rf: RefFrame, p: PictureView, h: FrameHeader) -> bool {
    &&& rf.fb@ == p.fb
    &&& rf.mv_grid@ == p.grid
    &&& rf.width == h.width
    &&& rf.height == h.height
    &&& rf.cols_4x4 == (h.width + 3) / 4
    &&& rf.rows_4x4 == (h.height + 3) / 4
}

/// Whether `n` is what a decoder remembers that remembered `m` and then decoded a picture: the
/// probabilities are adapted, the picture is put into the slots that the header names, and it is
/// given out where it is to be shown.
#[verifier::opaque]
pub open spec fn remembered(m: Memory, n: Memory, h: FrameHeader, p: PictureView, pts: i64) -> bool {
    let ctx = h.frame_ctx_id as int;
    &&& n.prob == m.prob.update(ctx, prob_after(m.prob[ctx], h, p.counts))
    &&& n.coef == m.coef.update(ctx, coef_after(m.coef[ctx], h, p.counts, m.last_keyframe))
    &&& n.slots.len() == 8
    &&& forall|i: int|
        #![trigger n.slots[i]]
        0 <= i < 8 ==> if h.refresh_ref_mask & (1u8 << (i as u8)) != 0 {
            n.slots[i] matches Some(rf) && holds(*rf, p, h)
        } else {
            n.slots[i] == m.slots[i]
        }
    &&& n.prev == Some(p.grid)
    &&& n.prev_cols == (h.width + 3) / 4
    &&& n.last_keyframe == (h.frame_type == FrameType::KeyFrame)
    &&& n.last_show_frame == h.show_frame
    &&& n.last_width == h.width
    &&& n.last_height == h.height
    &&& n.draining == m.draining
    &&& if h.show_frame {
        &&& queued(m.queue, n.queue)
        &&& shows(
            n.queue.last(),
            p.fb,
            h.width,
            h.height,
            pts,
            if refers_to_none(h) {
                PictureType::I
            } else {
                PictureType::P
            },
            h.frame_type == FrameType::KeyFrame,
        )
        &&& n.frame_count == m.frame_count.wrapping_add(1)
    } else {
        &&& n.queue == m.queue
        &&& n.frame_count == m.frame_count
    }
}

/// Whether one frame was added to a queue.
pub open spec fn queued(before: Seq<Frame>, after: Seq<Frame>) -> bool {
    after.len() == before.len() + 1 && after.drop_last() == before
}

/// Whether `data` begins with the header `h`, read with what a decoder remembers.
#[verifier::opaque]
pub open spec fn begins_with(data: Seq<u8>, m: Memory, t: Tables, h: FrameHeader) -> bool {
    crate::vp9::header::codes_frame(
        h,
        h.tile_data_offset as int,
        data,
        m.prob,
        m.coef,
        t.default_coef,
    )
}

/// What the picture behind a header is decoded from.
pub open spec fn picture_input(m: Memory, t: Tables, h: FrameHeader) -> PictureInput {
    PictureInput { h, tables: t, slots: m.slots, prev: m.prev, prev_cols: m.prev_cols }
}

/// What comes of a frame with a header of its own.
pub open spec fn coded_result(
    m: Memory,
    n: Memory,
    t: Tables,
    h: FrameHeader,
    data: Seq<u8>,
    pts: i64,
    r: Result<()>,
) -> bool {
    if h.bit_depth != 8 {
        r == Ok::<(), Error>(()) && n == m
    } else {
        let k = reset_spec(
            m,
            h.frame_type == FrameType::KeyFrame,
            h.error_resilient,
            t.default_coef.deep_view(),
        );
        match completed(k, h) {
            None => r == Ok::<(), Error>(()) && n == k,
            Some(g) => match picture_input(k, t, g).picture(
                data.subrange(h.tile_data_offset as int, data.len() as int),
            ) {
                None => r == Err::<(), Error>(Error::InvalidData) && n == k,
                Some(p) => r == Ok::<(), Error>(()) && remembered(k, n, g, p, pts),
            },
        }
    }
}

/// What comes of a frame that shows an earlier one.
pub open spec fn existing_result(m: Memory, n: Memory, slot: int, pts: i64, r: Result<()>) -> bool {
    match m.slots[slot] {
        None => r == Err::<(), Error>(Error::InvalidData) && n == m,
        Some(rf) => {
            &&& r == Ok::<(), Error>(())
            &&& n == (Memory {
                queue: n.queue,
                frame_count: m.frame_count.wrapping_add(1),
                ..m
            })
            &&& queued(m.queue, n.queue)
            &&& shows(n.queue.last(), rf.fb@, rf.width, rf.height, pts, PictureType::P, false)
        },
    }
}

/// What comes of a frame: what a decoder with memory `m` returns and remembers then.
pub open spec fn frame_result(
    m: Memory,
    n: Memory,
    t: Tables,
    data: Seq<u8>,
    pts: i64,
    r: Result<()>,
) -> bool {
    let intro = crate::vp9::uncompressed::intro_spec(data).value;
    if !crate::vp9::header::header_ok(data) {
        r == Err::<(), Error>(Error::InvalidData) && n == m
    } else if intro.show_existing {
        existing_result(m, n, intro.show_ref as int, pts, r)
    } else {
        exists|h: FrameHeader|
            #[trigger] begins_with(data, m, t, h) && coded_result(m, n, t, h, data, pts, r)
    }
}

impl Vp9Decoder {
    /// What the decoder remembers, and the frames that it has ready.
    #[verifier::opaque]
    pub closed spec fn memory(&self) -> Memory {
        Memory {
            prob: crate::vp9::header::prob_views(self.prob_ctx@),
            coef: crate::vp9::header::coef_views(self.coef_ctx@),
            slots: self.ref_store.slots@,
            prev: match self.ref_store.prev_frame_mvs {
                Some(g) => Some(g@),
                None => None,
            },
            prev_cols: self.ref_store.prev_cols_4x4 as int,
            last_keyframe: self.last_keyframe,
            last_show_frame: self.last_show_frame,
            last_width: self.last_width,
            last_height: self.last_height,
            queue: self.output_queue@,
            draining: self.draining,
            frame_count: self.frame_count,
        }
    }

    /// The tables that the decoder was given.
    pub closed spec fn given_tables(&self) -> Tables {
        self.tables
    }

    /// The parameters that the decoder was opened with.
    pub closed spec fn given_params(&self) -> CodecParameters {
        self.params
    }

    /// Whether the decoder is consistent.
    #[verifier::opaque]
    pub closed spec fn wf(&self) -> bool {
        &&& memory_wf(self.memory())
        &&& self.tables.wf()
    }

    fn reset(&mut self, key: bool, resilient: bool)
        requires
            old(self).wf(),
        ensures
            final(self).wf(),
            final(self).tables == old(self).tables,
            final(self).params == old(self).params,
            final(self).codec_descriptor == old(self).codec_descriptor,
            final(self).memory() == reset_spec(
                old(self).memory(),
                key,
                resilient,
                old(self).tables.default_coef.deep_view(),
            ),
    {
        proof {
            reveal(Vp9Decoder::memory);
            reveal(Vp9Decoder::wf);
            reveal(reset_spec);
        }
        let ghost m = self.memory();
        let ghost k = reset_spec(m, key, resilient, self.tables.default_coef.deep_view());
        if key || resilient {
            let p: ProbContext = default_prob_context();
            let c: CoefProbArray = self.tables.default_coef;
            self.prob_ctx = [p, p, p, p];
            self.coef_ctx = [c, c, c, c];
            assert(self.memory().prob =~= k.prob);
            assert(self.memory().coef =~= k.coef);
        }
        if key {
            self.ref_store.clear();
            assert(self.memory().slots =~= k.slots);
        }
        assert(self.memory() == k);
    }

    fn adapt(&mut self, header: &FrameHeader, counts: &CountContext)
        requires
            old(self).wf(),
            crate::vp9::header::header_wf(*header),
        ensures
            final(self).wf(),
            final(self).tables == old(self).tables,
            final(self).params == old(self).params,
            final(self).codec_descriptor == old(self).codec_descriptor,
            final(self).memory() == ({
                let m = old(self).memory();
                let ctx = header.frame_ctx_id as int;
                Memory {
                    prob: m.prob.update(ctx, prob_after(m.prob[ctx], *header, counts@)),
                    coef: m.coef.update(
                        ctx,
                        coef_after(m.coef[ctx], *header, counts@, m.last_keyframe),
                    ),
                    ..m
                }
            }),
    {
        proof {
            reveal(Vp9Decoder::memory);
            reveal(Vp9Decoder::wf);
        }
        let ghost m = self.memory();
        let ctx: usize = header.frame_ctx_id as usize;
        let ghost e = Memory {
            prob: m.prob.update(ctx as int, prob_after(m.prob[ctx as int], *header, counts@)),
            coef: m.coef.update(
                ctx as int,
                coef_after(m.coef[ctx as int], *header, counts@, m.last_keyframe),
            ),
            ..m
        };
        let intra = header.frame_type == FrameType::KeyFrame || header.intra_only;
        if header.refresh_ctx {
            if header.parallel_mode {
                self.prob_ctx[ctx] = header.prob;
                self.coef_ctx[ctx] = header.coef;
            } else {
                let comp = if header.comp_pred_mode == 1 {
                    CompPredMode::CompRef
                } else if header.comp_pred_mode == 2 {
                    CompPredMode::Switchable
                } else {
                    CompPredMode::SingleRef
                };
                let mut prob: ProbContext = self.prob_ctx[ctx];
                let mut coef: CoefProbArray = self.coef_ctx[ctx];
                adapt_probs(
                    &mut prob,
                    &mut coef,
                    counts,
                    intra,
                    self.last_keyframe,
                    header.high_precision_mvs,
                    header.filter_mode == 4,
                    header.tx_mode == TxMode::TxModeSelect,
                    comp,
                );
                if intra {
                    prob.skip = header.prob.skip;
                    prob.tx32p = header.prob.tx32p;
                    prob.tx16p = header.prob.tx16p;
                    prob.tx8p = header.prob.tx8p;
                }
                self.prob_ctx[ctx] = prob;
                self.coef_ctx[ctx] = coef;
            }
        }
        assert(self.memory().prob =~= e.prob);
        assert(self.memory().coef =~= e.coef);
    }
}

impl Vp9Decoder {
    fn remember(&mut self, header: &FrameHeader, picture: Picture, pts: i64)
        requires
            old(self).wf(),
            crate::vp9::header::header_wf(*header),
            1 <= picture.fb.width == header.width,
            1 <= picture.fb.height == header.height,
            crate::vp9::recon::same_shape(
                picture.fb@,
                crate::vp9::picture::black(header.width as int, header.height as int),
            ),
            crate::vp9::recon::luma_len(header.width as int, header.height as int) + 64
                <= isize::MAX,
            crate::vp9::mvs::grid_wf(picture.grid@),
        ensures
            final(self).wf(),
            final(self).tables == old(self).tables,
            final(self).params == old(self).params,
            final(self).codec_descriptor == old(self).codec_descriptor,
            remembered(
                old(self).memory(),
                final(self).memory(),
                *header,
                PictureView { fb: picture.fb@, grid: picture.grid@, counts: picture.counts@ },
                pts,
            ),
    {
        proof {
            reveal(Vp9Decoder::memory);
            reveal(Vp9Decoder::wf);
            reveal(remembered);
        }
        let ghost m = self.memory();
        let ghost p = PictureView {
            fb: picture.fb@,
            grid: picture.grid@,
            counts: picture.counts@,
        };
        proof {
            crate::vp9::picture::lemma_plane_sizes(header.width as int, header.height as int);
        }
        self.adapt(header, &picture.counts);
        let Picture { fb, grid, counts: _ } = picture;
        let key = header.frame_type == FrameType::KeyFrame;
        self.last_keyframe = key;
        let cols_4x4: usize = (header.width as usize + 3) / 4;
        let rows_4x4: usize = (header.height as usize + 3) / 4;
        if header.show_frame {
            let picture_type = if key || header.intra_only {
                PictureType::I
            } else {
                PictureType::P
            };
            let frame = shown(&fb, header.width, header.height, pts, picture_type, key);
            let ghost before = self.output_queue@;
            self.output_queue.push_back(frame);
            assert(self.output_queue@.drop_last() =~= before);
            self.frame_count = self.frame_count.wrapping_add(1);
        }
        let mv_grid: Vec<MvRefPair> = grid.clone();
        assert(mv_grid@ =~= grid@);
        let rf = RefFrame {
            fb,
            mv_grid,
            width: header.width,
            height: header.height,
            cols_4x4,
            rows_4x4,
        };
        assert(holds(rf, p, *header));
        assert(ref_frame_wf(rf));
        self.ref_store.refresh(header.refresh_ref_mask, Arc::new(rf));
        self.ref_store.rotate_mvpair(grid, cols_4x4);
        self.last_show_frame = header.show_frame;
        self.last_width = header.width;
        self.last_height = header.height;
        let ghost n = self.memory();
        assert(n.prob == m.prob.update(
            header.frame_ctx_id as int,
            prob_after(m.prob[header.frame_ctx_id as int], *header, p.counts),
        ));
        assert forall|i: int| 0 <= i < 8 implies ((#[trigger] n.slots[i]) matches Some(x)
            ==> ref_frame_wf(*x)) by {
            assert(m.slots[i] matches Some(x) ==> ref_frame_wf(*x));
        }
        assert forall|i: int| 0 <= i < n.queue.len() implies (#[trigger] n.queue[i]).wf() by {
            if i < m.queue.len() {
                assert(m.queue[i].wf());
                assert(n.queue[i] == m.queue[i]);
            }
        }
    }

    fn show_existing(&mut self, slot: usize, pts: i64) -> (r: Result<()>)
        requires
            old(self).wf(),
            slot < 8,
        ensures
            final(self).wf(),
            final(self).tables == old(self).tables,
            final(self).params == old(self).params,
            final(self).codec_descriptor == old(self).codec_descriptor,
            existing_result(old(self).memory(), final(self).memory(), slot as int, pts, r),
    {
        proof {
            reveal(Vp9Decoder::memory);
            reveal(Vp9Decoder::wf);
        }
        let ghost m = self.memory();
        let frame = match &self.ref_store.slots[slot] {
            None => return Err(Error::InvalidData),
            Some(rf) => {
                assert(m.slots[slot as int] == Some(*rf));
                shown(&rf.fb, rf.width, rf.height, pts, PictureType::P, false)
            },
        };
        self.output_queue.push_back(frame);
        self.frame_count = self.frame_count.wrapping_add(1);
        let ghost n = self.memory();
        assert(n.queue.drop_last() =~= m.queue);
        assert forall|i: int| 0 <= i < n.queue.len() implies (#[trigger] n.queue[i]).wf() by {
            if i < m.queue.len() {
                assert(m.queue[i].wf());
                assert(n.queue[i] == m.queue[i]);
            }
        }
        Ok(())
    }

    fn size_of_frame(&self, coded: &FrameHeader) -> (r: Option<(u32, u32)>)
        requires
            self.wf(),
            crate::vp9::header::header_wf(*coded),
        ensures
            r == frame_size(self.memory(), *coded),
            r matches Some((w, h)) ==> w <= 65536 && h <= 65536,
    {
        proof {
            reveal(Vp9Decoder::memory);
            reveal(Vp9Decoder::wf);
        }
        if coded.size_from_ref < 0 {
            return Some((coded.width, coded.height));
        }
        let slot: usize = coded.ref_idx[coded.size_from_ref as usize] as usize;
        let ghost k = self.memory();
        match &self.ref_store.slots[slot] {
            Some(rf) => {
                assert(k.slots[slot as int] == Some(*rf));
                Some((rf.width, rf.height))
            },
            None => {
                assert(k.slots[slot as int] is None);
                None
            },
        }
    }

    /// A header with what the decoder adds to it.
    fn complete(&self, coded: FrameHeader) -> (r: Option<FrameHeader>)
        requires
            self.wf(),
            crate::vp9::header::header_wf(coded),
        ensures
            r == completed(self.memory(), coded),
            r matches Some(g) ==> crate::vp9::header::header_wf(g),
    {
        let (width, height) = match self.size_of_frame(&coded) {
            Some(x) => x,
            None => {
                proof {
                    reveal(completed);
                }
                return None;
            },
        };
        let same = !coded.error_resilient && self.last_show_frame && self.last_width == width
            && self.last_height == height;
        let r = FrameHeader { width, height, use_last_frame_mvs: same, ..coded };
        proof {
            reveal(Vp9Decoder::memory);
            reveal(completed);
            lemma_with_size(self.memory(), coded, width, height);
            assert(r == with_size(self.memory(), coded, width, height));
        }
        Some(r)
    }

    /// Decodes the picture behind a header.
    fn picture(&self, header: &FrameHeader, tile_data: &[u8]) -> (r: Result<Picture>)
        requires
            self.wf(),
            crate::vp9::header::header_wf(*header),
        ensures
            match r {
                Ok(p) => {
                    &&& picture_input(self.memory(), self.tables, *header).picture(tile_data@)
                        == Some(PictureView { fb: p.fb@, grid: p.grid@, counts: p.counts@ })
                    &&& 1 <= p.fb.width == header.width
                    &&& 1 <= p.fb.height == header.height
                    &&& crate::vp9::recon::same_shape(
                        p.fb@,
                        crate::vp9::picture::black(header.width as int, header.height as int),
                    )
                    &&& crate::vp9::recon::luma_len(header.width as int, header.height as int) + 64
                        <= isize::MAX
                    &&& crate::vp9::mvs::grid_wf(p.grid@)
                },
                Err(e) => picture_input(self.memory(), self.tables, *header).picture(
                    tile_data@,
                ) is None && e == Error::InvalidData,
            },
    {
        proof {
            reveal(Vp9Decoder::memory);
            reveal(Vp9Decoder::wf);
        }
        let prev: Option<&[MvRefPair]> = match &self.ref_store.prev_frame_mvs {
            Some(g) => Some(g.as_slice()),
            None => None,
        };
        decode_picture(
            header,
            &self.tables,
            tile_data,
            &self.ref_store.slots,
            prev,
            self.ref_store.prev_cols_4x4,
        )
    }

    /// Decodes a frame whose header has been read.
    fn decode_coded(&mut self, coded: FrameHeader, data: &[u8], pts: i64) -> (r: Result<()>)
        requires
            old(self).wf(),
            crate::vp9::header::header_wf(coded),
            coded.tile_data_offset <= data@.len(),
        ensures
            final(self).wf(),
            final(self).tables == old(self).tables,
            final(self).params == old(self).params,
            final(self).codec_descriptor == old(self).codec_descriptor,
            coded_result(
                old(self).memory(),
                final(self).memory(),
                old(self).tables,
                coded,
                data@,
                pts,
                r,
            ),
    {
        if coded.bit_depth != 8 {
            return Ok(());
        }
        let start: usize = coded.tile_data_offset;
        self.reset(coded.frame_type == FrameType::KeyFrame, coded.error_resilient);
        match self.complete(coded) {
            None => Ok(()),
            Some(header) => {
                let tile_data = slice_subrange(data, start, data.len());
                match self.picture(&header, tile_data) {
                    Err(e) => Err(e),
                    Ok(p) => {
                        self.remember(&header, p, pts);
                        Ok(())
                    },
                }
            },
        }
    }

    /// Decodes one frame. A frame of more than 8 bits for each sample, and one whose size is that of
    /// a missing reference, are passed over.
    pub fn decode_frame(&mut self, data: &[u8], pts: i64) -> (r: Result<()>)
        requires
            old(self).wf(),
            8 * data@.len() <= usize::MAX,
        ensures
            final(self).wf(),
            final(self).given_tables() == old(self).given_tables(),
            final(self).given_params() == old(self).given_params(),
            final(self).describes() == old(self).describes(),
            frame_result(
                old(self).memory(),
                final(self).memory(),
                old(self).given_tables(),
                data@,
                pts,
                r,
            ),
    {
        proof {
            reveal(Vp9Decoder::memory);
            reveal(Vp9Decoder::wf);
        }
        let ghost m = self.memory();
        let ghost t = self.tables;
        let (header, _next) = match decode_frame_header(
            data,
            &self.prob_ctx,
            &self.coef_ctx,
            &self.tables.default_coef,
        ) {
            Ok(x) => x,
            Err(_) => return Err(Error::InvalidData),
        };
        if header.show_existing_frame {
            proof {
                let code = crate::vp9::uncompressed::profile_code(data@);
                let p = if code == 3 {
                    5int
                } else {
                    4int
                };
                crate::vp9::bits::law_num_bound(data@, p + 1, 3);
                assert(1u32 << 3u32 == 8) by (bit_vector);
            }
            return self.show_existing(header.show_existing_frame_ref as usize, pts);
        }
        proof {
            reveal(begins_with);
            assert(begins_with(data@, m, t, header));
        }
        self.decode_coded(header, data, pts)
    }

    /// The codec that is decoded.
    pub closed spec fn describes(&self) -> CodecDescriptor {
        self.codec_descriptor
    }
}

/// What a new decoder remembers: nothing, with all probabilities but those of the coefficients zero.
pub open spec fn fresh(coef: CoefView) -> Memory {
    Memory {
        prob: Seq::new(4, |i: int| crate::vp9::default_probs::zero_prob_spec()),
        coef: Seq::new(4, |i: int| coef),
        slots: Seq::new(8, |i: int| None::<Arc<RefFrame>>),
        prev: None,
        prev_cols: 0,
        last_keyframe: false,
        last_show_frame: false,
        last_width: 0,
        last_height: 0,
        queue: Seq::empty(),
        draining: false,
        frame_count: 0,
    }
}

/// Whether a description is that of this codec.
pub open spec fn is_vp9(d: CodecDescriptor) -> bool {
    &&& d.id == CodecId::Vp9
    &&& d.media_type == MediaType::Video
    &&& d.name@ == "vp9"@
    &&& d.long_name@ == "VP9 Video"@
    &&& d.properties.bits == CodecProperties::LOSSY
    &&& d.profiles@.len() == 0
}

/// Whether decoding frame after frame leads from `m` to `n`: frames `0` to `k` of a packet, each
/// decoded without an error or passed over as not supported.
pub open spec fn decoded_up_to(
    m: Memory,
    n: Memory,
    t: Tables,
    data: Seq<u8>,
    pts: i64,
    k: int,
) -> bool
    decreases k,
{
    if k <= 0 {
        n == m
    } else {
        exists|x: Memory, r: Result<()>|
            #![trigger frame_result(x, n, t, frame_in(data, k - 1), pts, r)]
            decoded_up_to(m, x, t, data, pts, k - 1) && frame_result(
                x,
                n,
                t,
                frame_in(data, k - 1),
                pts,
                r,
            ) && goes_on(r)
    }
}

/// Whether the frames behind one with this result are decoded.
pub open spec fn goes_on(r: Result<()>) -> bool {
    match r {
        Ok(_) => true,
        Err(e) => e == Error::PatchwelcomeNotImplemented,
    }
}

/// Frame `k` of a packet.
pub open spec fn frame_in(data: Seq<u8>, k: int) -> Seq<u8> {
    let f = crate::vp9::superframe::superframe_spec(data)[k];
    data.subrange(f.0, f.1)
}

proof fn lemma_one_more(
    m: Memory,
    x: Memory,
    n: Memory,
    t: Tables,
    data: Seq<u8>,
    pts: i64,
    k: int,
    r: Result<()>,
)
    requires
        k >= 0,
        decoded_up_to(m, x, t, data, pts, k),
        frame_result(x, n, t, frame_in(data, k), pts, r),
        goes_on(r),
    ensures
        decoded_up_to(m, n, t, data, pts, k + 1),
{
    let j = k + 1;
    assert(j - 1 == k);
    assert(frame_result(x, n, t, frame_in(data, j - 1), pts, r));
    assert(decoded_up_to(m, n, t, data, pts, j));
}

/// What comes of a packet: its frames are decoded one after the other, up to the first error.
pub open spec fn packet_result(
    m: Memory,
    n: Memory,
    t: Tables,
    data: Seq<u8>,
    pts: i64,
    r: Result<()>,
) -> bool {
    let count = crate::vp9::superframe::superframe_spec(data).len() as int;
    match r {
        Ok(_) => decoded_up_to(m, n, t, data, pts, count),
        Err(e) => exists|x: Memory, k: int|
            #![trigger frame_result(x, n, t, frame_in(data, k), pts, r)]
            0 <= k < count && decoded_up_to(m, x, t, data, pts, k) && frame_result(
                x,
                n,
                t,
                frame_in(data, k),
                pts,
                r,
            ) && !goes_on(r),
    }
}

impl Vp9Decoder {
    /// A decoder with given tables. Tables whose scans leave their blocks are refused.
    pub fn new(params: CodecParameters, tables: Tables) -> (r: Result<Vp9Decoder>)
        ensures
            match r {
                Ok(d) => {
                    &&& tables.wf()
                    &&& d.wf()
                    &&& d.memory() == fresh(tables.default_coef.deep_view())
                    &&& d.given_tables() == tables
                    &&& d.given_params() == params
                    &&& is_vp9(d.describes())
                },
                Err(e) => !tables.wf() && e == Error::InvalidArgument,
            },
    {
        if !tables.is_valid() {
            return Err(Error::InvalidArgument);
        }
        let p: ProbContext = ProbContext::default();
        let c: CoefProbArray = tables.default_coef;
        let ghost coef = tables.default_coef.deep_view();
        let d = Vp9Decoder {
            params,
            tables,
            output_queue: VecDeque::new(),
            draining: false,
            codec_descriptor: CodecDescriptor {
                id: CodecId::Vp9,
                media_type: MediaType::Video,
                name: "vp9",
                long_name: "VP9 Video",
                properties: CodecProperties { bits: CodecProperties::LOSSY },
                profiles: &[],
            },
            prob_ctx: [p, p, p, p],
            coef_ctx: [c, c, c, c],
            last_keyframe: false,
            frame_count: 0,
            ref_store: RefStore::new(),
            last_show_frame: false,
            last_width: 0,
            last_height: 0,
        };
        proof {
            reveal(Vp9Decoder::memory);
            reveal(Vp9Decoder::wf);
            let m = d.memory();
            let f = fresh(coef);
            assert(m.prob =~= f.prob);
            assert(m.coef =~= f.coef);
            assert(m.slots =~= f.slots);
            assert(m.queue =~= f.queue);
        }
        Ok(d)
    }

    fn decode_packet(&mut self, data: &[u8], pts: i64) -> (r: Result<()>)
        requires
            old(self).wf(),
            8 * data@.len() <= usize::MAX,
        ensures
            final(self).wf(),
            final(self).given_tables() == old(self).given_tables(),
            final(self).given_params() == old(self).given_params(),
            final(self).describes() == old(self).describes(),
            packet_result(
                old(self).memory(),
                final(self).memory(),
                old(self).given_tables(),
                data@,
                pts,
                r,
            ),
    {
        let ghost m = self.memory();
        let ghost t = self.given_tables();
        let frames = parse_superframe(data);
        let mut k: usize = 0;
        while k < frames.len()
            invariant
                k <= frames@.len(),
                self.wf(),
                8 * data@.len() <= usize::MAX,
                m == old(self).memory(),
                t == old(self).given_tables(),
                self.given_tables() == t,
                self.given_params() == old(self).given_params(),
                self.describes() == old(self).describes(),
                frames@.len() == crate::vp9::superframe::superframe_spec(data@).len(),
                forall|i: int| 0 <= i < frames@.len() ==> (#[trigger] frames@[i])@ == frame_in(
                    data@,
                    i,
                ),
                forall|i: int|
                    0 <= i < frames@.len() ==> (#[trigger] frames@[i])@.len() <= data@.len(),
                decoded_up_to(m, self.memory(), t, data@, pts, k as int),
            decreases frames@.len() - k,
        {
            let ghost x = self.memory();
            let frame = frames[k];
            assert(frame@ == frames@[k as int]@);
            let r = self.decode_frame(frame, pts);
            assert(frame_result(x, self.memory(), t, frame_in(data@, k as int), pts, r));
            match r {
                Ok(()) => {},
                Err(Error::PatchwelcomeNotImplemented) => {},
                Err(e) => return Err(e),
            }
            proof {
                lemma_one_more(m, x, self.memory(), t, data@, pts, k as int, r);
            }
            k += 1;
        }
        Ok(())
    }
}

impl Decoder for Vp9Decoder {
    open spec fn valid(&self) -> bool {
        self.wf()
    }

    fn send_packet(&mut self, packet: Option<&Packet>) -> (r: Result<()>)
        ensures
            final(self).given_tables() == old(self).given_tables(),
            final(self).given_params() == old(self).given_params(),
            final(self).describes() == old(self).describes(),
            match packet {
                None => r == Ok::<(), Error>(()) && final(self).memory() == (Memory {
                    draining: true,
                    ..old(self).memory()
                }),
                Some(p) => packet_result(
                    old(self).memory(),
                    final(self).memory(),
                    old(self).given_tables(),
                    p.data@,
                    p.pts,
                    r,
                ),
            },
    {
        match packet {
            None => {
                proof {
                    reveal(Vp9Decoder::memory);
                    reveal(Vp9Decoder::wf);
                }
                self.draining = true;
                Ok(())
            },
            Some(p) => self.decode_packet(p.data.data(), p.pts),
        }
    }

    fn receive_frame(&mut self) -> (r: Result<Frame>)
        ensures
            final(self).given_tables() == old(self).given_tables(),
            final(self).given_params() == old(self).given_params(),
            final(self).describes() == old(self).describes(),
            match r {
                Ok(f) => {
                    let q = old(self).memory().queue;
                    &&& q.len() > 0
                    &&& f == q[0]
                    &&& final(self).memory() == (Memory { queue: q.skip(1), ..old(self).memory() })
                },
                Err(e) => {
                    &&& old(self).memory().queue.len() == 0
                    &&& final(self).memory() == old(self).memory()
                    &&& e == (if old(self).memory().draining {
                        Error::Eof
                    } else {
                        Error::Again
                    })
                },
            },
    {
        proof {
            reveal(Vp9Decoder::memory);
            reveal(Vp9Decoder::wf);
        }
        let ghost m = self.memory();
        match self.output_queue.pop_front() {
            Some(frame) => {
                assert(m.queue[0] == frame);
                assert(self.memory().queue =~= m.queue.skip(1));
                assert forall|i: int| 0 <= i < self.memory().queue.len() implies (
                #[trigger] self.memory().queue[i]).wf() by {
                    assert(m.queue[i + 1].wf());
                }
                Ok(frame)
            },
            None => {
                assert(self.memory().queue =~= m.queue);
                if self.draining {
                    Err(Error::Eof)
                } else {
                    Err(Error::Again)
                }
            },
        }
    }

    fn flush(&mut self)
        ensures
            final(self).given_tables() == old(self).given_tables(),
            final(self).given_params() == old(self).given_params(),
            final(self).describes() == old(self).describes(),
            final(self).memory() == (Memory {
                queue: Seq::empty(),
                draining: false,
                slots: Seq::new(8, |i: int| None::<Arc<RefFrame>>),
                prev: None,
                prev_cols: 0,
                last_show_frame: false,
                ..old(self).memory()
            }),
    {
        proof {
            reveal(Vp9Decoder::memory);
            reveal(Vp9Decoder::wf);
        }
        self.output_queue.clear();
        self.draining = false;
        self.ref_store.clear();
        self.last_show_frame = false;
        assert(self.memory().slots =~= Seq::new(8, |i: int| None::<Arc<RefFrame>>));
        assert(self.memory().queue =~= Seq::empty());
    }

    fn descriptor(&self) -> (r: &CodecDescriptor)
        ensures
            *r == self.describes(),
    {
        &self.codec_descriptor
    }
}

/// The description by which the decoder is registered.
pub fn vp9_descriptor() -> (r: DecoderDescriptor)
    ensures
        r.codec_id == CodecId::Vp9,
        r.name@ == "vp9"@,
        r.long_name@ == "VP9 Video"@,
        r.media_type == MediaType::Video,
        r.capabilities.bits == CodecCapabilities::DR1,
        r.properties.bits == CodecProperties::LOSSY,
        r.priority == 100,
{
    DecoderDescriptor {
        codec_id: CodecId::Vp9,
        name: "vp9",
        long_name: "VP9 Video",
        media_type: MediaType::Video,
        capabilities: CodecCapabilities { bits: CodecCapabilities::DR1 },
        properties: CodecProperties { bits: CodecProperties::LOSSY },
        priority: 100,
    }
}

/// A frame is given out only if it is shown: decoding never takes frames out of the queue, and adds
/// at most one.
pub proof fn law_frame_adds_at_most_one(
    m: Memory,
    n: Memory,
    t: Tables,
    data: Seq<u8>,
    pts: i64,
    r: Result<()>,
)
    requires
        frame_result(m, n, t, data, pts, r),
    ensures
        n.queue == m.queue || queued(m.queue, n.queue),
        n.draining == m.draining,
        r is Err ==> n.queue == m.queue && r == Err::<(), Error>(Error::InvalidData),
{
    reveal(reset_spec);
    reveal(remembered);
}

/// A frame that shows an earlier one changes nothing that later frames are decoded from.
pub proof fn law_shown_again_changes_nothing(
    m: Memory,
    n: Memory,
    t: Tables,
    data: Seq<u8>,
    pts: i64,
    r: Result<()>,
)
    requires
        frame_result(m, n, t, data, pts, r),
        crate::vp9::uncompressed::intro_spec(data).value.show_existing,
    ensures
        n == (Memory { queue: n.queue, frame_count: n.frame_count, ..m }),
{
}

} // verus!

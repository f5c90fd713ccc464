//! Decoded frames.
use vstd::prelude::*;

use crate::common::buffer::Buffer;
use crate::common::channel_layout::ChannelLayout;
use crate::common::chroma_location::ChromaLocation;
use crate::common::color_primaries::ColorPrimaries;
use crate::common::color_trc::ColorTransferCharacteristic;
use crate::common::frame_side_data::{FrameSideData, FrameSideDataType};
use crate::common::metadata::Metadata;
use crate::common::pixel_format::PixelFormat;
use crate::common::rational::Rational;
use crate::common::sample_format::SampleFormat;
use crate::common::timestamp::NOPTS_VALUE;

verus! {

/// Greatest number of planes of a video frame.
pub const VIDEO_MAX_PLANES: usize = 4;

/// Greatest number of planes of an audio frame.
pub const AUDIO_MAX_PLANES: usize = 8;

/// Type of a picture.
#[derive(Debug, Clone, Copy, PartialEq, Eq, Hash, Structural)]
pub enum PictureType {
    /// Not known.
    Unknown,
    I,
    P,
    B,
    S,
    Si,
    Sp,
    Bi,
}

impl PictureType {
    /// The number by which it is known.
    pub open spec fn code(self) -> int {
        match self {
            PictureType::Unknown => 0,
            PictureType::I => 1,
            PictureType::P => 2,
            PictureType::B => 3,
            PictureType::S => 4,
            PictureType::Si => 5,
            PictureType::Sp => 6,
            PictureType::Bi => 7,
        }
    }

    /// The number by which it is known.
    pub fn number(self) -> (r: u8)
        ensures
            r == self.code(),
    {
        match self {
            PictureType::Unknown => 0,
            PictureType::I => 1,
            PictureType::P => 2,
            PictureType::B => 3,
            PictureType::S => 4,
            PictureType::Si => 5,
            PictureType::Sp => 6,
            PictureType::Bi => 7,
        }
    }
}
/// Range of the sample values.
#[derive(Debug, Clone, Copy, PartialEq, Eq, Hash, Structural)]
pub enum ColorRange {
    Unspecified,
    /// The limited range.
    Mpeg,
    /// The full range.
    Jpeg,
}

impl ColorRange {
    /// The number by which it is known.
    pub open spec fn code(self) -> int {
        match self {
            ColorRange::Unspecified => 0,
            ColorRange::Mpeg => 1,
            ColorRange::Jpeg => 2,
        }
    }

    /// The number by which it is known.
    pub fn number(self) -> (r: u32)
        ensures
            r == self.code(),
    {
        match self {
            ColorRange::Unspecified => 0,
            ColorRange::Mpeg => 1,
            ColorRange::Jpeg => 2,
        }
    }
}
/// Color space.
#[derive(Debug, Clone, Copy, PartialEq, Eq, Hash, Structural)]
pub enum ColorSpace {
    Rgb,
    Bt709,
    Unspecified,
    Fcc,
    Bt470bg,
    Smpte170m,
    Smpte240m,
    Ycgco,
    Bt2020Ncl,
    Bt2020Cl,
}

impl ColorSpace {
    /// The number by which it is known.
    pub open spec fn code(self) -> int {
        match self {
            ColorSpace::Rgb => 0,
            ColorSpace::Bt709 => 1,
            ColorSpace::Unspecified => 2,
            ColorSpace::Fcc => 4,
            ColorSpace::Bt470bg => 5,
            ColorSpace::Smpte170m => 6,
            ColorSpace::Smpte240m => 7,
            ColorSpace::Ycgco => 8,
            ColorSpace::Bt2020Ncl => 9,
            ColorSpace::Bt2020Cl => 10,
        }
    }

    /// The number by which it is known.
    pub fn number(self) -> (r: u32)
        ensures
            r == self.code(),
    {
        match self {
            ColorSpace::Rgb => 0,
            ColorSpace::Bt709 => 1,
            ColorSpace::Unspecified => 2,
            ColorSpace::Fcc => 4,
            ColorSpace::Bt470bg => 5,
            ColorSpace::Smpte170m => 6,
            ColorSpace::Smpte240m => 7,
            ColorSpace::Ycgco => 8,
            ColorSpace::Bt2020Ncl => 9,
            ColorSpace::Bt2020Cl => 10,
        }
    }
}
/// Flags of a frame.
#[derive(Debug, Clone, Copy, PartialEq, Eq, Structural)]
pub struct FrameFlags {
    pub bits: u32,
}

impl FrameFlags {
    pub const CORRUPT: u32 = 1;

    pub const KEY: u32 = 2;

    pub const DISCARD: u32 = 4;

    pub const INTERLACED: u32 = 8;

    pub const TOP_FIRST: u32 = 16;

    /// No flag.
    pub fn empty() -> (r: FrameFlags)
        ensures
            r.bits == 0,
    {
        FrameFlags { bits: 0 }
    }

    /// Whether every one of given flags is set.
    pub fn contains(self, flags: u32) -> (r: bool)
        ensures
            r == (self.bits & flags == flags),
    {
        self.bits & flags == flags
    }

    /// These flags and given ones.
    pub fn union(self, flags: u32) -> (r: FrameFlags)
        ensures
            r.bits == self.bits | flags,
    {
        FrameFlags { bits: self.bits | flags }
    }
}

/// A plane of a frame: a part of a buffer.
#[derive(Debug)]
pub struct FramePlane {
    pub buffer: Buffer,
    /// Where the plane starts in the buffer.
    pub offset: usize,
    /// Bytes of a row of video, or of a whole plane of audio.
    pub linesize: usize,
}

/// What only a video frame has.
#[derive(Debug)]
pub struct VideoFrameData {
    pub planes: Vec<FramePlane>,
    pub width: u32,
    pub height: u32,
    pub format: PixelFormat,
    pub picture_type: PictureType,
    pub color_range: ColorRange,
    pub color_space: ColorSpace,
    pub color_primaries: ColorPrimaries,
    pub color_trc: ColorTransferCharacteristic,
    pub chroma_location: ChromaLocation,
    pub sample_aspect_ratio: Rational,
    /// Rows and columns to drop at each edge.
    pub crop_top: u32,
    pub crop_bottom: u32,
    pub crop_left: u32,
    pub crop_right: u32,
}

/// What only an audio frame has.
#[derive(Debug)]
pub struct AudioFrameData {
    pub planes: Vec<FramePlane>,
    pub nb_samples: u32,
    pub format: SampleFormat,
    pub sample_rate: u32,
    pub channel_layout: ChannelLayout,
}

/// Video or audio.
#[derive(Debug)]
pub enum FrameData {
    Video(VideoFrameData),
    Audio(AudioFrameData),
}

/// A decoded frame.
#[derive(Debug)]
pub struct Frame {
    pub data: FrameData,
    /// When it is to be presented, in units of the time base.
    pub pts: i64,
    /// The decoding time of the packet that it came from.
    pub pkt_dts: i64,
    /// An estimate of the presentation time.
    pub best_effort_timestamp: i64,
    /// How long it lasts, in units of the time base.
    pub duration: i64,
    pub time_base: Rational,
    pub flags: FrameFlags,
    /// How often the picture is to be repeated.
    pub repeat_pict: i32,
    pub metadata: Metadata,
    pub side_data: Vec<FrameSideData>,
}

/// Whether two planes hold the same.
pub open spec fn same_plane(a: FramePlane, b: FramePlane) -> bool {
    &&& a.buffer@ == b.buffer@
    &&& a.buffer.wf() == b.buffer.wf()
    &&& a.offset == b.offset
    &&& a.linesize == b.linesize
}

/// Whether two lists of planes hold the same.
pub open spec fn same_planes(a: Seq<FramePlane>, b: Seq<FramePlane>) -> bool {
    a.len() == b.len() && forall|i: int| 0 <= i < a.len() ==> same_plane(#[trigger] a[i], b[i])
}

/// Whether two lists of side data hold the same.
pub open spec fn same_side_data(a: Seq<FrameSideData>, b: Seq<FrameSideData>) -> bool {
    a.len() == b.len() && forall|i: int|
        0 <= i < a.len() ==> (#[trigger] a[i]).data_type == b[i].data_type && a[i].data@
            == b[i].data@
}

/// Whether two video frames agree in everything but their planes, their size and their format.
pub open spec fn same_picture_facts(a: VideoFrameData, b: VideoFrameData) -> bool {
    &&& a.picture_type == b.picture_type
    &&& a.color_range == b.color_range
    &&& a.color_space == b.color_space
    &&& a.color_primaries == b.color_primaries
    &&& a.color_trc == b.color_trc
    &&& a.chroma_location == b.chroma_location
    &&& a.sample_aspect_ratio == b.sample_aspect_ratio
    &&& a.crop_top == b.crop_top
    &&& a.crop_bottom == b.crop_bottom
    &&& a.crop_left == b.crop_left
    &&& a.crop_right == b.crop_right
}

/// Whether two lots of frame data hold the same.
pub open spec fn same_data(a: FrameData, b: FrameData) -> bool {
    match (a, b) {
        (FrameData::Video(v), FrameData::Video(w)) => {
            &&& same_planes(v.planes@, w.planes@)
            &&& v.width == w.width
            &&& v.height == w.height
            &&& v.format == w.format
            &&& same_picture_facts(v, w)
        },
        (FrameData::Audio(v), FrameData::Audio(w)) => {
            &&& same_planes(v.planes@, w.planes@)
            &&& v.nb_samples == w.nb_samples
            &&& v.format == w.format
            &&& v.sample_rate == w.sample_rate
            &&& v.channel_layout.order == w.channel_layout.order
            &&& v.channel_layout.nb_channels == w.channel_layout.nb_channels
            &&& v.channel_layout.channels@ == w.channel_layout.channels@
        },
        _ => false,
    }
}

/// Whether two frames agree in everything but their data.
pub open spec fn same_facts(a: Frame, b: Frame) -> bool {
    &&& a.pts == b.pts
    &&& a.pkt_dts == b.pkt_dts
    &&& a.best_effort_timestamp == b.best_effort_timestamp
    &&& a.duration == b.duration
    &&& a.time_base == b.time_base
    &&& a.flags == b.flags
    &&& a.repeat_pict == b.repeat_pict
    &&& a.metadata@ == b.metadata@
    &&& same_side_data(a.side_data@, b.side_data@)
}

impl Clone for FramePlane {
    fn clone(&self) -> (r: FramePlane)
        ensures
            same_plane(r, *self),
    {
        FramePlane { buffer: self.buffer.clone(), offset: self.offset, linesize: self.linesize }
    }
}

fn clone_planes(planes: &Vec<FramePlane>) -> (r: Vec<FramePlane>)
    ensures
        same_planes(r@, planes@),
{
    let mut r: Vec<FramePlane> = Vec::new();
    let mut i: usize = 0;
    while i < planes.len()
        invariant
            i <= planes@.len(),
            r@.len() == i,
            forall|j: int| 0 <= j < i ==> same_plane(#[trigger] r@[j], planes@[j]),
        decreases planes@.len() - i,
    {
        r.push(planes[i].clone());
        i += 1;
    }
    r
}

/// A copy of side data.
pub fn clone_side_data(side_data: &Vec<FrameSideData>) -> (r: Vec<FrameSideData>)
    ensures
        same_side_data(r@, side_data@),
{
    let mut r: Vec<FrameSideData> = Vec::new();
    let mut i: usize = 0;
    while i < side_data.len()
        invariant
            i <= side_data@.len(),
            r@.len() == i,
            forall|j: int|
                0 <= j < i ==> (#[trigger] r@[j]).data_type == side_data@[j].data_type
                    && r@[j].data@ == side_data@[j].data@,
        decreases side_data@.len() - i,
    {
        r.push(side_data[i].clone());
        i += 1;
    }
    r
}

impl Clone for VideoFrameData {
    fn clone(&self) -> (r: VideoFrameData)
        ensures
            same_data(FrameData::Video(r), FrameData::Video(*self)),
    {
        VideoFrameData {
            planes: clone_planes(&self.planes),
            width: self.width,
            height: self.height,
            format: self.format,
            picture_type: self.picture_type,
            color_range: self.color_range,
            color_space: self.color_space,
            color_primaries: self.color_primaries,
            color_trc: self.color_trc,
            chroma_location: self.chroma_location,
            sample_aspect_ratio: self.sample_aspect_ratio,
            crop_top: self.crop_top,
            crop_bottom: self.crop_bottom,
            crop_left: self.crop_left,
            crop_right: self.crop_right,
        }
    }
}

impl Clone for AudioFrameData {
    fn clone(&self) -> (r: AudioFrameData)
        ensures
            same_data(FrameData::Audio(r), FrameData::Audio(*self)),
    {
        AudioFrameData {
            planes: clone_planes(&self.planes),
            nb_samples: self.nb_samples,
            format: self.format,
            sample_rate: self.sample_rate,
            channel_layout: self.channel_layout.clone(),
        }
    }
}

impl Clone for FrameData {
    fn clone(&self) -> (r: FrameData)
        ensures
            same_data(r, *self),
    {
        match self {
            FrameData::Video(v) => FrameData::Video(v.clone()),
            FrameData::Audio(a) => FrameData::Audio(a.clone()),
        }
    }
}

impl Clone for Frame {
    fn clone(&self) -> (r: Frame)
        ensures
            same_data(r.data, self.data),
            same_facts(r, *self),
    {
        Frame {
            data: self.data.clone(),
            pts: self.pts,
            pkt_dts: self.pkt_dts,
            best_effort_timestamp: self.best_effort_timestamp,
            duration: self.duration,
            time_base: self.time_base,
            flags: self.flags,
            repeat_pict: self.repeat_pict,
            metadata: self.metadata.clone(),
            side_data: clone_side_data(&self.side_data),
        }
    }
}

/// Whether the buffers of planes are valid.
pub open spec fn planes_wf(planes: Seq<FramePlane>) -> bool {
    forall|i: int| 0 <= i < planes.len() ==> (#[trigger] planes[i]).buffer.wf()
}

/// The first piece of side data of a type, or the length where there is none.
pub open spec fn side_data_index(s: Seq<FrameSideData>, t: FrameSideDataType) -> nat
    decreases s.len(),
{
    if s.len() == 0 {
        0
    } else if s[0].data_type == t {
        0
    } else {
        1 + side_data_index(s.skip(1), t)
    }
}

/// Side data without the pieces of a type.
pub open spec fn side_data_without(
    s: Seq<FrameSideData>,
    t: FrameSideDataType,
) -> Seq<FrameSideData> {
    s.filter(|d: FrameSideData| d.data_type != t)
}

impl VideoFrameData {
    /// Whether this is what a new video frame holds.
    pub open spec fn is_new(&self, width: u32, height: u32, format: PixelFormat) -> bool {
        &&& self.planes@.len() == 0
        &&& self.width == width
        &&& self.height == height
        &&& self.format == format
        &&& self.picture_type == PictureType::Unknown
        &&& self.color_range == ColorRange::Unspecified
        &&& self.color_space == ColorSpace::Unspecified
        &&& self.color_primaries == ColorPrimaries::Unspecified
        &&& self.color_trc == ColorTransferCharacteristic::Unspecified
        &&& self.chroma_location == ChromaLocation::Unspecified
        &&& self.sample_aspect_ratio.num == 0
        &&& self.sample_aspect_ratio.den == 1
        &&& self.crop_top == 0
        &&& self.crop_bottom == 0
        &&& self.crop_left == 0
        &&& self.crop_right == 0
    }
}

impl Frame {
    /// Whether the buffers of the frame are valid.
    pub open spec fn wf(&self) -> bool {
        match self.data {
            FrameData::Video(v) => planes_wf(v.planes@),
            FrameData::Audio(a) => planes_wf(a.planes@),
        }
    }

    /// Whether everything but the data is as in a new frame.
    pub open spec fn is_plain(&self) -> bool {
        &&& self.pts == NOPTS_VALUE
        &&& self.pkt_dts == NOPTS_VALUE
        &&& self.best_effort_timestamp == NOPTS_VALUE
        &&& self.duration == 0
        &&& self.time_base.num == 0
        &&& self.time_base.den == 1
        &&& self.flags.bits == 0
        &&& self.repeat_pict == 0
        &&& self.metadata@.len() == 0
        &&& self.side_data@.len() == 0
    }

    fn around(data: FrameData) -> (r: Frame)
        ensures
            r.data == data,
            r.is_plain(),
    {
        Frame {
            data,
            pts: NOPTS_VALUE,
            pkt_dts: NOPTS_VALUE,
            best_effort_timestamp: NOPTS_VALUE,
            duration: 0,
            time_base: Rational::new(0, 1),
            flags: FrameFlags::empty(),
            repeat_pict: 0,
            metadata: Metadata::new(),
            side_data: Vec::new(),
        }
    }

    /// A video frame without planes.
    pub fn new_video(width: u32, height: u32, format: PixelFormat) -> (r: Frame)
        ensures
            r.wf(),
            r.is_plain(),
            r.data is Video,
            r.data->Video_0.is_new(width, height, format),
    {
        Frame::around(
            FrameData::Video(
                VideoFrameData {
                    planes: Vec::new(),
                    width,
                    height,
                    format,
                    picture_type: PictureType::Unknown,
                    color_range: ColorRange::Unspecified,
                    color_space: ColorSpace::Unspecified,
                    color_primaries: ColorPrimaries::Unspecified,
                    color_trc: ColorTransferCharacteristic::Unspecified,
                    chroma_location: ChromaLocation::Unspecified,
                    sample_aspect_ratio: Rational::new(0, 1),
                    crop_top: 0,
                    crop_bottom: 0,
                    crop_left: 0,
                    crop_right: 0,
                },
            ),
        )
    }

    /// An audio frame without planes.
    pub fn new_audio(
        nb_samples: u32,
        format: SampleFormat,
        sample_rate: u32,
        channel_layout: ChannelLayout,
    ) -> (r: Frame)
        ensures
            r.wf(),
            r.is_plain(),
            r.data is Audio,
            r.data->Audio_0.planes@.len() == 0,
            r.data->Audio_0.nb_samples == nb_samples,
            r.data->Audio_0.format == format,
            r.data->Audio_0.sample_rate == sample_rate,
            r.data->Audio_0.channel_layout == channel_layout,
    {
        Frame::around(
            FrameData::Audio(
                AudioFrameData {
                    planes: Vec::new(),
                    nb_samples,
                    format,
                    sample_rate,
                    channel_layout,
                },
            ),
        )
    }

    /// Whether this is a video frame.
    pub fn is_video(&self) -> (r: bool)
        ensures
            r == self.data is Video,
    {
        match &self.data {
            FrameData::Video(_) => true,
            FrameData::Audio(_) => false,
        }
    }

    /// Whether this is an audio frame.
    pub fn is_audio(&self) -> (r: bool)
        ensures
            r == self.data is Audio,
    {
        match &self.data {
            FrameData::Video(_) => false,
            FrameData::Audio(_) => true,
        }
    }

    /// What only a video frame has.
    pub fn video(&self) -> (r: Option<&VideoFrameData>)
        ensures
            match r {
                Some(v) => self.data == FrameData::Video(*v),
                None => self.data is Audio,
            },
    {
        match &self.data {
            FrameData::Video(v) => Some(v),
            FrameData::Audio(_) => None,
        }
    }

    /// What only a video frame has, to be changed in place.
    pub fn video_mut(&mut self) -> (r: Option<&mut VideoFrameData>)
        ensures
            match r {
                Some(v) => old(self).data == FrameData::Video(*v) && *final(self) == (Frame {
                    data: FrameData::Video(*final(v)),
                    ..*old(self)
                }),
                None => old(self).data is Audio && *final(self) == *old(self),
            },
    {
        match &mut self.data {
            FrameData::Video(v) => Some(v),
            FrameData::Audio(_) => None,
        }
    }

    /// What only an audio frame has.
    pub fn audio(&self) -> (r: Option<&AudioFrameData>)
        ensures
            match r {
                Some(a) => self.data == FrameData::Audio(*a),
                None => self.data is Video,
            },
    {
        match &self.data {
            FrameData::Audio(a) => Some(a),
            FrameData::Video(_) => None,
        }
    }

    /// What only an audio frame has, to be changed in place.
    pub fn audio_mut(&mut self) -> (r: Option<&mut AudioFrameData>)
        ensures
            match r {
                Some(a) => old(self).data == FrameData::Audio(*a) && *final(self) == (Frame {
                    data: FrameData::Audio(*final(a)),
                    ..*old(self)
                }),
                None => old(self).data is Video && *final(self) == *old(self),
            },
    {
        match &mut self.data {
            FrameData::Audio(a) => Some(a),
            FrameData::Video(_) => None,
        }
    }

    /// The first piece of side data of a type.
    pub fn get_side_data(&self, data_type: FrameSideDataType) -> (r: Option<&FrameSideData>)
        ensures
            match r {
                Some(d) => side_data_index(self.side_data@, data_type) < self.side_data@.len()
                    && *d == self.side_data@[side_data_index(self.side_data@, data_type) as int],
                None => side_data_index(self.side_data@, data_type) == self.side_data@.len(),
            },
    {
        let mut i: usize = 0;
        assert(self.side_data@.skip(0) =~= self.side_data@);
        while i < self.side_data.len()
            invariant
                i <= self.side_data@.len(),
                side_data_index(self.side_data@, data_type) == i + side_data_index(
                    self.side_data@.skip(i as int),
                    data_type,
                ),
            decreases self.side_data@.len() - i,
        {
            if self.side_data[i].data_type == data_type {
                return Some(&self.side_data[i]);
            }
            assert(self.side_data@.skip(i as int).skip(1) =~= self.side_data@.skip(i + 1));
            i += 1;
        }
        None
    }

    /// Adds a piece of side data. Pieces of the same type are kept.
    pub fn add_side_data(&mut self, side_data: FrameSideData)
        ensures
            final(self).side_data@ == old(self).side_data@.push(side_data),
            *final(self) == (Frame { side_data: final(self).side_data, ..*old(self) }),
    {
        self.side_data.push(side_data);
    }

    /// Removes every piece of side data of a type.
    pub fn remove_side_data(&mut self, data_type: FrameSideDataType)
        ensures
            final(self).side_data@ == side_data_without(old(self).side_data@, data_type),
            *final(self) == (Frame { side_data: final(self).side_data, ..*old(self) }),
    {
        let ghost whole = self.side_data@;
        let ghost pred = |d: FrameSideData| d.data_type != data_type;
        let ghost mut done: int = 0;
        let mut i: usize = 0;
        proof {
            reveal(Seq::filter);
            assert(whole.take(0).filter(pred) =~= Seq::<FrameSideData>::empty());
            assert(self.side_data@ =~= whole.take(0).filter(pred) + whole.skip(0));
        }
        while i < self.side_data.len()
            invariant
                0 <= done <= whole.len(),
                i == whole.take(done).filter(pred).len(),
                self.side_data@ == whole.take(done).filter(pred) + whole.skip(done),
                pred == (|d: FrameSideData| d.data_type != data_type),
                *self == (Frame { side_data: self.side_data, ..*old(self) }),
            decreases whole.len() - done,
        {
            let ghost kept = whole.take(done).filter(pred);
            assert(self.side_data@[i as int] == whole[done]);
            proof {
                reveal(Seq::filter);
                assert(whole.take(done + 1).drop_last() =~= whole.take(done));
                assert(whole.take(done + 1).last() == whole[done]);
            }
            if self.side_data[i].data_type == data_type {
                let ghost before = self.side_data@;
                self.side_data.remove(i);
                assert(self.side_data@ =~= kept + whole.skip(done + 1));
            } else {
                i += 1;
                assert(self.side_data@ =~= kept.push(whole[done]) + whole.skip(done + 1));
            }
            proof {
                done = done + 1;
            }
        }
        proof {
            assert(done == whole.len());
            assert(whole.take(done) =~= whole);
            assert(self.side_data@ =~= whole.filter(pred));
        }
    }
}

proof fn lemma_side_data_index(s: Seq<FrameSideData>, t: FrameSideDataType)
    ensures
        side_data_index(s, t) <= s.len(),
        (forall|i: int| 0 <= i < s.len() ==> (#[trigger] s[i]).data_type != t) ==> side_data_index(
            s,
            t,
        ) == s.len(),
    decreases s.len(),
{
    if s.len() > 0 {
        lemma_side_data_index(s.skip(1), t);
    }
}

/// No piece of a type is found after the pieces of that type were removed.
pub proof fn law_removed_side_data_is_gone(s: Seq<FrameSideData>, t: FrameSideDataType)
    ensures
        side_data_index(side_data_without(s, t), t) == side_data_without(s, t).len(),
{
    let pred = |d: FrameSideData| d.data_type != t;
    let f = s.filter(pred);
    assert forall|i: int| 0 <= i < f.len() implies (#[trigger] f[i]).data_type != t by {
        s.lemma_filter_pred(pred, i);
    }
    lemma_side_data_index(f, t);
}

} // verus!

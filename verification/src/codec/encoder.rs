//! Encoders.
use vstd::prelude::*;

use crate::codec::descriptor::{CodecCapabilities, CodecProperties};
use crate::codec::options::CodecOptions;
use crate::common::channel_layout::{ChannelLayout, ChannelOrder};
use crate::common::codec_id::CodecId;
use crate::common::frame::Frame;
use crate::common::media_type::MediaType;
use crate::common::packet::Packet;
use crate::common::pixel_format::PixelFormat;
use crate::common::rational::Rational;
use crate::common::sample_format::SampleFormat;
use crate::error::Result;

verus! {

/// Settings of a codec.
#[derive(Debug, Clone, Copy, PartialEq, Eq, Structural)]
pub struct CodecFlags {
    pub bits: u32,
}

impl CodecFlags {
    pub const UNALIGNED: u32 = 1;

    pub const QSCALE: u32 = 2;

    pub const OUTPUT_CORRUPT: u32 = 8;

    pub const QPEL: u32 = 16;

    pub const DROPCHANGED: u32 = 0x20;

    pub const RECON_FRAME: u32 = 0x40;

    pub const COPY_OPAQUE: u32 = 0x80;

    pub const FRAME_DURATION: u32 = 0x100;

    pub const PASS1: u32 = 0x200;

    pub const PASS2: u32 = 0x400;

    pub const LOOP_FILTER: u32 = 0x800;

    pub const GRAY: u32 = 0x2000;

    pub const PSNR: u32 = 0x8000;

    pub const INTERLACED_DCT: u32 = 0x40000;

    pub const LOW_DELAY: u32 = 0x80000;

    pub const GLOBAL_HEADER: u32 = 0x400000;

    pub const BITEXACT: u32 = 0x800000;

    pub const AC_PRED: u32 = 0x1000000;

    pub const INTERLACED_ME: u32 = 0x20000000;

    pub const CLOSED_GOP: u32 = 0x80000000;

    /// No flag.
    pub fn empty() -> (r: CodecFlags)
        ensures
            r.bits == 0,
    {
        CodecFlags { bits: 0 }
    }

    /// Whether every one of given flags is set.
    pub fn contains(self, flags: u32) -> (r: bool)
        ensures
            r == (self.bits & flags == flags),
    {
        self.bits & flags == flags
    }

    /// These flags and given ones.
    pub fn union(self, flags: u32) -> (r: CodecFlags)
        ensures
            r.bits == self.bits | flags,
    {
        CodecFlags { bits: self.bits | flags }
    }
}

/// An encoder: frames are sent to it, and packets received from it.
pub trait Encoder: Send {
    /// Takes a frame, or the end of the stream where there is none.
    fn send_frame(&mut self, frame: Option<&Frame>) -> Result<()>;

    /// Gives the next packet.
    fn receive_packet(&mut self) -> Result<Packet>;

    /// Forgets what was sent.
    fn flush(&mut self);
}

/// The settings that an encoder is opened with.
pub struct EncoderBuilder {
    pub codec_id: CodecId,
    pub media_type: MediaType,
    pub bit_rate: i64,
    pub flags: CodecFlags,
    pub time_base: Rational,
    pub sample_rate: u32,
    pub sample_format: SampleFormat,
    pub channel_layout: ChannelLayout,
    pub width: u32,
    pub height: u32,
    pub pixel_format: PixelFormat,
    /// Options of the codec's own.
    pub options: CodecOptions,
}

impl EncoderBuilder {
    /// The settings of a codec, with nothing set.
    pub fn new(codec_id: CodecId, media_type: MediaType) -> (r: EncoderBuilder)
        ensures
            r.codec_id == codec_id,
            r.media_type == media_type,
            r.bit_rate == 0,
            r.flags.bits == 0,
            r.time_base.num == 1,
            r.time_base.den == 1,
            r.sample_rate == 0,
            r.sample_format == SampleFormat::Unknown,
            r.channel_layout.order == ChannelOrder::Unspec,
            r.channel_layout.nb_channels == 0,
            r.channel_layout.channels@.len() == 0,
            r.width == 0,
            r.height == 0,
            r.pixel_format == PixelFormat::Unknown,
            r.options@.len() == 0,
    {
        EncoderBuilder {
            codec_id,
            media_type,
            bit_rate: 0,
            flags: CodecFlags::empty(),
            time_base: Rational::new(1, 1),
            sample_rate: 0,
            sample_format: SampleFormat::Unknown,
            channel_layout: ChannelLayout::unspec(0),
            width: 0,
            height: 0,
            pixel_format: PixelFormat::Unknown,
            options: CodecOptions::new(),
        }
    }

    /// The settings with an option of the codec's own.
    pub fn option(self, key: &str, value: &str) -> (r: EncoderBuilder)
        ensures
            r.options@ == crate::codec::options::with_option(self.options@, key@, value@),
            r == (EncoderBuilder { options: r.options, ..self }),
    {
        let mut r = self;
        r.options.set(key, value);
        r
    }
}

/// Description of an encoder.
#[derive(Debug, Clone)]
pub struct EncoderDescriptor {
    pub codec_id: CodecId,
    pub name: &'static str,
    pub long_name: &'static str,
    pub media_type: MediaType,
    pub capabilities: CodecCapabilities,
    pub properties: CodecProperties,
    pub supported_sample_formats: &'static [SampleFormat],
    pub supported_pixel_formats: &'static [PixelFormat],
    /// The encoder of the highest priority is chosen.
    pub priority: i32,
}

} // verus!

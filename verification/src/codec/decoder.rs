//! Decoders.
use vstd::prelude::*;

use crate::codec::descriptor::{CodecCapabilities, CodecDescriptor, CodecProperties};
use crate::codec::options::CodecOptions;
use crate::common::channel_layout::{ChannelLayout, ChannelOrder};
use crate::common::codec_id::CodecId;
use crate::common::frame::Frame;
use crate::common::media_type::MediaType;
use crate::common::packet::Packet;
use crate::common::pixel_format::PixelFormat;
use crate::common::rational::Rational;
use crate::common::sample_format::SampleFormat;
use crate::error::Result;

verus! {

/// What a decoder is opened with.
#[derive(Debug, Clone)]
pub struct CodecParameters {
    pub codec_id: CodecId,
    pub media_type: MediaType,
    pub extradata: Vec<u8>,
    pub sample_rate: u32,
    pub sample_format: SampleFormat,
    pub channel_layout: ChannelLayout,
    pub width: u32,
    pub height: u32,
    pub pixel_format: PixelFormat,
    pub bit_rate: i64,
    pub time_base: Rational,
    pub block_align: u32,
    pub bits_per_coded_sample: u32,
    pub bits_per_raw_sample: u32,
    /// Threads to decode with, or 0 to leave that open.
    pub thread_count: u32,
    /// Tag of the codec in its container, or 0.
    pub codec_tag: u32,
    /// Options of the codec's own.
    pub options: CodecOptions,
}

impl CodecParameters {
    /// The parameters of a codec, with nothing set.
    pub fn new(codec_id: CodecId, media_type: MediaType) -> (r: CodecParameters)
        ensures
            r.codec_id == codec_id,
            r.media_type == media_type,
            r.extradata@.len() == 0,
            r.sample_rate == 0,
            r.sample_format == SampleFormat::Unknown,
            r.channel_layout.order == ChannelOrder::Unspec,
            r.channel_layout.nb_channels == 0,
            r.channel_layout.channels@.len() == 0,
            r.width == 0,
            r.height == 0,
            r.pixel_format == PixelFormat::Unknown,
            r.bit_rate == 0,
            r.time_base.num == 0,
            r.time_base.den == 1,
            r.block_align == 0,
            r.bits_per_coded_sample == 0,
            r.bits_per_raw_sample == 0,
            r.thread_count == 0,
            r.codec_tag == 0,
            r.options@.len() == 0,
    {
        CodecParameters {
            codec_id,
            media_type,
            extradata: Vec::new(),
            sample_rate: 0,
            sample_format: SampleFormat::Unknown,
            channel_layout: ChannelLayout::unspec(0),
            width: 0,
            height: 0,
            pixel_format: PixelFormat::Unknown,
            bit_rate: 0,
            time_base: Rational::new(0, 1),
            block_align: 0,
            bits_per_coded_sample: 0,
            bits_per_raw_sample: 0,
            thread_count: 0,
            codec_tag: 0,
            options: CodecOptions::new(),
        }
    }
}

/// Whether a packet can be read: its buffer is valid, and its bits can be counted.
pub open spec fn packet_readable(packet: Packet) -> bool {
    packet.wf() && 8 * packet.data@.len() <= usize::MAX
}

/// A decoder: packets are sent to it, and frames received from it.
pub trait Decoder: Send {
    /// Whether the decoder can go on.
    open spec fn valid(&self) -> bool {
        true
    }

    /// Takes a packet, or the end of the stream where there is none.
    fn send_packet(&mut self, packet: Option<&Packet>) -> (r: Result<()>)
        requires
            old(self).valid(),
            packet matches Some(p) ==> packet_readable(*p),
        ensures
            final(self).valid(),
    ;

    /// Gives the next frame.
    fn receive_frame(&mut self) -> (r: Result<Frame>)
        requires
            old(self).valid(),
        ensures
            final(self).valid(),
            r matches Ok(f) ==> f.wf(),
    ;

    /// Forgets what was sent.
    fn flush(&mut self)
        requires
            old(self).valid(),
        ensures
            final(self).valid(),
    ;

    /// The codec that is decoded.
    fn descriptor(&self) -> (r: &CodecDescriptor)
        requires
            self.valid(),
    ;
}

/// The parameters and options that a decoder is opened with.
pub struct DecoderBuilder {
    params: CodecParameters,
}

impl DecoderBuilder {
    /// The parameters that have been set.
    pub closed spec fn settings(&self) -> CodecParameters {
        self.params
    }

    /// A builder with given parameters.
    pub fn new(params: CodecParameters) -> (r: DecoderBuilder)
        ensures
            r.settings() == params,
    {
        DecoderBuilder { params }
    }

    /// The builder with an option of the codec's own.
    pub fn option(self, key: &str, value: &str) -> (r: DecoderBuilder)
        ensures
            r.settings().options@ == crate::codec::options::with_option(
                self.settings().options@,
                key@,
                value@,
            ),
            r.settings() == (CodecParameters {
                options: r.settings().options,
                ..self.settings()
            }),
    {
        let mut r = self;
        r.params.options.set(key, value);
        r
    }

    /// The parameters.
    pub fn params(&self) -> (r: &CodecParameters)
        ensures
            *r == self.settings(),
    {
        &self.params
    }
}

/// Description of a decoder.
#[derive(Debug, Clone)]
pub struct DecoderDescriptor {
    pub codec_id: CodecId,
    pub name: &'static str,
    pub long_name: &'static str,
    pub media_type: MediaType,
    pub capabilities: CodecCapabilities,
    pub properties: CodecProperties,
    /// The decoder of the highest priority is chosen.
    pub priority: i32,
}

} // verus!

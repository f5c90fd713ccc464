//! Identifiers of codecs.
use vstd::prelude::*;

verus! {

/// Identifier of a codec.
#[derive(Debug, Clone, Copy, PartialEq, Eq, Hash, Structural)]
pub enum CodecId {
    /// No codec.
    Unknown,
    Mpeg1video,
    Mpeg2video,
    H261,
    H263,
    Rv10,
    Rv20,
    Mjpeg,
    Mpeg4,
    Rawvideo,
    H264,
    Vp8,
    Vp9,
    Hevc,
    Av1,
    PcmS16le,
    PcmS16be,
    PcmU16le,
    PcmU16be,
    PcmS8,
    PcmU8,
    PcmMulaw,
    PcmAlaw,
    PcmS32le,
    PcmS32be,
    PcmU32le,
    PcmU32be,
    PcmS24le,
    PcmS24be,
    PcmU24le,
    PcmU24be,
    PcmF32be,
    PcmF32le,
    PcmF64be,
    PcmF64le,
    AdpcmImaWav,
    AdpcmMs,
    Mp1,
    Mp2,
    Mp3,
    Aac,
    Ac3,
    Vorbis,
    Flac,
    Alac,
    WavPack,
    Opus,
    SubDvdSubtitle,
    SubDvbSubtitle,
    SubText,
    SubXsub,
    SubSsa,
    SubMovText,
    SubSrt,
    SubWebvtt,
}

impl CodecId {
    /// The number by which it is known.
    pub open spec fn code(self) -> int {
        match self {
            CodecId::Unknown => 0,
            CodecId::Mpeg1video => 1,
            CodecId::Mpeg2video => 2,
            CodecId::H261 => 3,
            CodecId::H263 => 4,
            CodecId::Rv10 => 5,
            CodecId::Rv20 => 6,
            CodecId::Mjpeg => 7,
            CodecId::Mpeg4 => 12,
            CodecId::Rawvideo => 13,
            CodecId::H264 => 27,
            CodecId::Vp8 => 139,
            CodecId::Vp9 => 167,
            CodecId::Hevc => 173,
            CodecId::Av1 => 225,
            CodecId::PcmS16le => 65536,
            CodecId::PcmS16be => 65537,
            CodecId::PcmU16le => 65538,
            CodecId::PcmU16be => 65539,
            CodecId::PcmS8 => 65540,
            CodecId::PcmU8 => 65541,
            CodecId::PcmMulaw => 65542,
            CodecId::PcmAlaw => 65543,
            CodecId::PcmS32le => 65544,
            CodecId::PcmS32be => 65545,
            CodecId::PcmU32le => 65546,
            CodecId::PcmU32be => 65547,
            CodecId::PcmS24le => 65548,
            CodecId::PcmS24be => 65549,
            CodecId::PcmU24le => 65550,
            CodecId::PcmU24be => 65551,
            CodecId::PcmF32be => 65556,
            CodecId::PcmF32le => 65557,
            CodecId::PcmF64be => 65558,
            CodecId::PcmF64le => 65559,
            CodecId::AdpcmImaWav => 69633,
            CodecId::AdpcmMs => 69638,
            CodecId::Mp1 => 86058,
            CodecId::Mp2 => 86016,
            CodecId::Mp3 => 86017,
            CodecId::Aac => 86018,
            CodecId::Ac3 => 86019,
            CodecId::Vorbis => 86021,
            CodecId::Flac => 86028,
            CodecId::Alac => 86032,
            CodecId::WavPack => 86041,
            CodecId::Opus => 86076,
            CodecId::SubDvdSubtitle => 94208,
            CodecId::SubDvbSubtitle => 94209,
            CodecId::SubText => 94210,
            CodecId::SubXsub => 94211,
            CodecId::SubSsa => 94212,
            CodecId::SubMovText => 94213,
            CodecId::SubSrt => 94216,
            CodecId::SubWebvtt => 94226,
        }
    }

    /// The number by which it is known.
    pub fn number(self) -> (r: u32)
        ensures
            r == self.code(),
    {
        match self {
            CodecId::Unknown => 0,
            CodecId::Mpeg1video => 1,
            CodecId::Mpeg2video => 2,
            CodecId::H261 => 3,
            CodecId::H263 => 4,
            CodecId::Rv10 => 5,
            CodecId::Rv20 => 6,
            CodecId::Mjpeg => 7,
            CodecId::Mpeg4 => 12,
            CodecId::Rawvideo => 13,
            CodecId::H264 => 27,
            CodecId::Vp8 => 139,
            CodecId::Vp9 => 167,
            CodecId::Hevc => 173,
            CodecId::Av1 => 225,
            CodecId::PcmS16le => 65536,
            CodecId::PcmS16be => 65537,
            CodecId::PcmU16le => 65538,
            CodecId::PcmU16be => 65539,
            CodecId::PcmS8 => 65540,
            CodecId::PcmU8 => 65541,
            CodecId::PcmMulaw => 65542,
            CodecId::PcmAlaw => 65543,
            CodecId::PcmS32le => 65544,
            CodecId::PcmS32be => 65545,
            CodecId::PcmU32le => 65546,
            CodecId::PcmU32be => 65547,
            CodecId::PcmS24le => 65548,
            CodecId::PcmS24be => 65549,
            CodecId::PcmU24le => 65550,
            CodecId::PcmU24be => 65551,
            CodecId::PcmF32be => 65556,
            CodecId::PcmF32le => 65557,
            CodecId::PcmF64be => 65558,
            CodecId::PcmF64le => 65559,
            CodecId::AdpcmImaWav => 69633,
            CodecId::AdpcmMs => 69638,
            CodecId::Mp1 => 86058,
            CodecId::Mp2 => 86016,
            CodecId::Mp3 => 86017,
            CodecId::Aac => 86018,
            CodecId::Ac3 => 86019,
            CodecId::Vorbis => 86021,
            CodecId::Flac => 86028,
            CodecId::Alac => 86032,
            CodecId::WavPack => 86041,
            CodecId::Opus => 86076,
            CodecId::SubDvdSubtitle => 94208,
            CodecId::SubDvbSubtitle => 94209,
            CodecId::SubText => 94210,
            CodecId::SubXsub => 94211,
            CodecId::SubSsa => 94212,
            CodecId::SubMovText => 94213,
            CodecId::SubSrt => 94216,
            CodecId::SubWebvtt => 94226,
        }
    }

    /// Its name.
    pub open spec fn label(self) -> Seq<char> {
        match self {
            CodecId::Unknown => "none"@,
            CodecId::Mpeg1video => "mpeg1video"@,
            CodecId::Mpeg2video => "mpeg2video"@,
            CodecId::H261 => "h261"@,
            CodecId::H263 => "h263"@,
            CodecId::Rv10 => "rv10"@,
            CodecId::Rv20 => "rv20"@,
            CodecId::Mjpeg => "mjpeg"@,
            CodecId::Mpeg4 => "mpeg4"@,
            CodecId::Rawvideo => "rawvideo"@,
            CodecId::H264 => "h264"@,
            CodecId::Vp8 => "vp8"@,
            CodecId::Vp9 => "vp9"@,
            CodecId::Hevc => "hevc"@,
            CodecId::Av1 => "av1"@,
            CodecId::PcmS16le => "pcm_s16le"@,
            CodecId::PcmS16be => "pcm_s16be"@,
            CodecId::PcmU16le => "pcm_u16le"@,
            CodecId::PcmU16be => "pcm_u16be"@,
            CodecId::PcmS8 => "pcm_s8"@,
            CodecId::PcmU8 => "pcm_u8"@,
            CodecId::PcmMulaw => "pcm_mulaw"@,
            CodecId::PcmAlaw => "pcm_alaw"@,
            CodecId::PcmS32le => "pcm_s32le"@,
            CodecId::PcmS32be => "pcm_s32be"@,
            CodecId::PcmU32le => "pcm_u32le"@,
            CodecId::PcmU32be => "pcm_u32be"@,
            CodecId::PcmS24le => "pcm_s24le"@,
            CodecId::PcmS24be => "pcm_s24be"@,
            CodecId::PcmU24le => "pcm_u24le"@,
            CodecId::PcmU24be => "pcm_u24be"@,
            CodecId::PcmF32be => "pcm_f32be"@,
            CodecId::PcmF32le => "pcm_f32le"@,
            CodecId::PcmF64be => "pcm_f64be"@,
            CodecId::PcmF64le => "pcm_f64le"@,
            CodecId::AdpcmImaWav => "adpcm_ima_wav"@,
            CodecId::AdpcmMs => "adpcm_ms"@,
            CodecId::Mp1 => "mp1"@,
            CodecId::Mp2 => "mp2"@,
            CodecId::Mp3 => "mp3"@,
            CodecId::Aac => "aac"@,
            CodecId::Ac3 => "ac3"@,
            CodecId::Vorbis => "vorbis"@,
            CodecId::Flac => "flac"@,
            CodecId::Alac => "alac"@,
            CodecId::WavPack => "wavpack"@,
            CodecId::Opus => "opus"@,
            CodecId::SubDvdSubtitle => "dvd_subtitle"@,
            CodecId::SubDvbSubtitle => "dvb_subtitle"@,
            CodecId::SubText => "text"@,
            CodecId::SubXsub => "xsub"@,
            CodecId::SubSsa => "ssa"@,
            CodecId::SubMovText => "mov_text"@,
            CodecId::SubSrt => "srt"@,
            CodecId::SubWebvtt => "webvtt"@,
        }
    }

    /// Its name.
    pub fn name(self) -> (r: &'static str)
        ensures
            r@ == self.label(),
    {
        match self {
            CodecId::Unknown => "none",
            CodecId::Mpeg1video => "mpeg1video",
            CodecId::Mpeg2video => "mpeg2video",
            CodecId::H261 => "h261",
            CodecId::H263 => "h263",
            CodecId::Rv10 => "rv10",
            CodecId::Rv20 => "rv20",
            CodecId::Mjpeg => "mjpeg",
            CodecId::Mpeg4 => "mpeg4",
            CodecId::Rawvideo => "rawvideo",
            CodecId::H264 => "h264",
            CodecId::Vp8 => "vp8",
            CodecId::Vp9 => "vp9",
            CodecId::Hevc => "hevc",
            CodecId::Av1 => "av1",
            CodecId::PcmS16le => "pcm_s16le",
            CodecId::PcmS16be => "pcm_s16be",
            CodecId::PcmU16le => "pcm_u16le",
            CodecId::PcmU16be => "pcm_u16be",
            CodecId::PcmS8 => "pcm_s8",
            CodecId::PcmU8 => "pcm_u8",
            CodecId::PcmMulaw => "pcm_mulaw",
            CodecId::PcmAlaw => "pcm_alaw",
            CodecId::PcmS32le => "pcm_s32le",
            CodecId::PcmS32be => "pcm_s32be",
            CodecId::PcmU32le => "pcm_u32le",
            CodecId::PcmU32be => "pcm_u32be",
            CodecId::PcmS24le => "pcm_s24le",
            CodecId::PcmS24be => "pcm_s24be",
            CodecId::PcmU24le => "pcm_u24le",
            CodecId::PcmU24be => "pcm_u24be",
            CodecId::PcmF32be => "pcm_f32be",
            CodecId::PcmF32le => "pcm_f32le",
            CodecId::PcmF64be => "pcm_f64be",
            CodecId::PcmF64le => "pcm_f64le",
            CodecId::AdpcmImaWav => "adpcm_ima_wav",
            CodecId::AdpcmMs => "adpcm_ms",
            CodecId::Mp1 => "mp1",
            CodecId::Mp2 => "mp2",
            CodecId::Mp3 => "mp3",
            CodecId::Aac => "aac",
            CodecId::Ac3 => "ac3",
            CodecId::Vorbis => "vorbis",
            CodecId::Flac => "flac",
            CodecId::Alac => "alac",
            CodecId::WavPack => "wavpack",
            CodecId::Opus => "opus",
            CodecId::SubDvdSubtitle => "dvd_subtitle",
            CodecId::SubDvbSubtitle => "dvb_subtitle",
            CodecId::SubText => "text",
            CodecId::SubXsub => "xsub",
            CodecId::SubSsa => "ssa",
            CodecId::SubMovText => "mov_text",
            CodecId::SubSrt => "srt",
            CodecId::SubWebvtt => "webvtt",
        }
    }
}

/// Two codecs with one number are the same.
pub proof fn law_codec_numbers_differ(a: CodecId, b: CodecId)
    requires
        a.code() == b.code(),
    ensures
        a == b,
{
}

} // verus!

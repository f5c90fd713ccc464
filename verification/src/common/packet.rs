//! Encoded packets.
use vstd::prelude::*;

use crate::common::buffer::Buffer;
use crate::common::timestamp::NOPTS_VALUE;

verus! {

/// Flags of a packet.
#[derive(Debug, Clone, Copy, PartialEq, Eq, Structural)]
pub struct PacketFlags {
    pub bits: u32,
}

impl PacketFlags {
    pub const KEY: u32 = 1;

    pub const CORRUPT: u32 = 2;

    pub const DISCARD: u32 = 4;

    pub const TRUSTED: u32 = 8;

    pub const DISPOSABLE: u32 = 16;

    /// No flag.
    pub fn empty() -> (r: PacketFlags)
        ensures
            r.bits == 0,
    {
        PacketFlags { bits: 0 }
    }

    /// Whether every one of given flags is set.
    pub fn contains(self, flags: u32) -> (r: bool)
        ensures
            r == (self.bits & flags == flags),
    {
        self.bits & flags == flags
    }

    /// These flags and given ones.
    pub fn union(self, flags: u32) -> (r: PacketFlags)
        ensures
            r.bits == self.bits | flags,
    {
        PacketFlags { bits: self.bits | flags }
    }
}

/// Kind of a piece of side data of a packet.
#[derive(Debug, Clone, Copy, PartialEq, Eq, Hash, Structural)]
pub enum PacketSideDataType {
    Palette,
    NewExtradata,
    ParamChange,
    H263MbInfo,
    ReplayGain,
    DisplayMatrix,
    Stereo3d,
    AudioServiceType,
    QualityStats,
    FallbackTrack,
    CpbProperties,
    SkipSamples,
    JpDualmono,
    StringsMetadata,
    SubtitlePosition,
    MatroskaBlockadditional,
    WebvttIdentifier,
    WebvttSettings,
    MetadataUpdate,
    MpegtsStreamId,
    MasteringDisplayMetadata,
    Spherical,
    ContentLightLevel,
    A53Cc,
    EncryptionInitInfo,
    EncryptionInfo,
    Afd,
    Prft,
    IccProfile,
    DoviConf,
    S12mTimecode,
    DynamicHdr10Plus,
    IamfMixGainParam,
    IamfDemixingInfoParam,
    IamfReconGainInfoParam,
    AmbientViewingEnvironment,
    FrameCropping,
    Lcevc,
    ReferenceDisplays3d,
    RtcpSr,
    Exif,
}

impl PacketSideDataType {
    /// The number by which it is known.
    pub open spec fn code(self) -> int {
        match self {
            PacketSideDataType::Palette => 0,
            PacketSideDataType::NewExtradata => 1,
            PacketSideDataType::ParamChange => 2,
            PacketSideDataType::H263MbInfo => 3,
            PacketSideDataType::ReplayGain => 4,
            PacketSideDataType::DisplayMatrix => 5,
            PacketSideDataType::Stereo3d => 6,
            PacketSideDataType::AudioServiceType => 7,
            PacketSideDataType::QualityStats => 8,
            PacketSideDataType::FallbackTrack => 9,
            PacketSideDataType::CpbProperties => 10,
            PacketSideDataType::SkipSamples => 11,
            PacketSideDataType::JpDualmono => 12,
            PacketSideDataType::StringsMetadata => 13,
            PacketSideDataType::SubtitlePosition => 14,
            PacketSideDataType::MatroskaBlockadditional => 15,
            PacketSideDataType::WebvttIdentifier => 16,
            PacketSideDataType::WebvttSettings => 17,
            PacketSideDataType::MetadataUpdate => 18,
            PacketSideDataType::MpegtsStreamId => 19,
            PacketSideDataType::MasteringDisplayMetadata => 20,
            PacketSideDataType::Spherical => 21,
            PacketSideDataType::ContentLightLevel => 22,
            PacketSideDataType::A53Cc => 23,
            PacketSideDataType::EncryptionInitInfo => 24,
            PacketSideDataType::EncryptionInfo => 25,
            PacketSideDataType::Afd => 26,
            PacketSideDataType::Prft => 27,
            PacketSideDataType::IccProfile => 28,
            PacketSideDataType::DoviConf => 29,
            PacketSideDataType::S12mTimecode => 30,
            PacketSideDataType::DynamicHdr10Plus => 31,
            PacketSideDataType::IamfMixGainParam => 32,
            PacketSideDataType::IamfDemixingInfoParam => 33,
            PacketSideDataType::IamfReconGainInfoParam => 34,
            PacketSideDataType::AmbientViewingEnvironment => 35,
            PacketSideDataType::FrameCropping => 36,
            PacketSideDataType::Lcevc => 37,
            PacketSideDataType::ReferenceDisplays3d => 38,
            PacketSideDataType::RtcpSr => 39,
            PacketSideDataType::Exif => 40,
        }
    }

    /// The number by which it is known.
    pub fn number(self) -> (r: u32)
        ensures
            r == self.code(),
    {
        match self {
            PacketSideDataType::Palette => 0,
            PacketSideDataType::NewExtradata => 1,
            PacketSideDataType::ParamChange => 2,
            PacketSideDataType::H263MbInfo => 3,
            PacketSideDataType::ReplayGain => 4,
            PacketSideDataType::DisplayMatrix => 5,
            PacketSideDataType::Stereo3d => 6,
            PacketSideDataType::AudioServiceType => 7,
            PacketSideDataType::QualityStats => 8,
            PacketSideDataType::FallbackTrack => 9,
            PacketSideDataType::CpbProperties => 10,
            PacketSideDataType::SkipSamples => 11,
            PacketSideDataType::JpDualmono => 12,
            PacketSideDataType::StringsMetadata => 13,
            PacketSideDataType::SubtitlePosition => 14,
            PacketSideDataType::MatroskaBlockadditional => 15,
            PacketSideDataType::WebvttIdentifier => 16,
            PacketSideDataType::WebvttSettings => 17,
            PacketSideDataType::MetadataUpdate => 18,
            PacketSideDataType::MpegtsStreamId => 19,
            PacketSideDataType::MasteringDisplayMetadata => 20,
            PacketSideDataType::Spherical => 21,
            PacketSideDataType::ContentLightLevel => 22,
            PacketSideDataType::A53Cc => 23,
            PacketSideDataType::EncryptionInitInfo => 24,
            PacketSideDataType::EncryptionInfo => 25,
            PacketSideDataType::Afd => 26,
            PacketSideDataType::Prft => 27,
            PacketSideDataType::IccProfile => 28,
            PacketSideDataType::DoviConf => 29,
            PacketSideDataType::S12mTimecode => 30,
            PacketSideDataType::DynamicHdr10Plus => 31,
            PacketSideDataType::IamfMixGainParam => 32,
            PacketSideDataType::IamfDemixingInfoParam => 33,
            PacketSideDataType::IamfReconGainInfoParam => 34,
            PacketSideDataType::AmbientViewingEnvironment => 35,
            PacketSideDataType::FrameCropping => 36,
            PacketSideDataType::Lcevc => 37,
            PacketSideDataType::ReferenceDisplays3d => 38,
            PacketSideDataType::RtcpSr => 39,
            PacketSideDataType::Exif => 40,
        }
    }
}
/// A piece of side data of a packet.
#[derive(Debug)]
pub struct PacketSideData {
    pub data_type: PacketSideDataType,
    pub data: Vec<u8>,
}

impl Clone for PacketSideData {
    fn clone(&self) -> (r: PacketSideData)
        ensures
            r.data_type == self.data_type,
            r.data@ == self.data@,
    {
        PacketSideData { data_type: self.data_type, data: self.data.clone() }
    }
}

/// A piece of an encoded stream.
#[derive(Debug, Clone)]
pub struct Packet {
    /// The encoded bytes.
    pub data: Buffer,
    /// When it is to be presented, in units of the time base.
    pub pts: i64,
    /// When it is to be decoded, in units of the time base.
    pub dts: i64,
    /// How long it lasts, in units of the time base.
    pub duration: i64,
    /// The stream that it belongs to.
    pub stream_index: usize,
    pub flags: PacketFlags,
    /// Its place in the file in bytes, or -1.
    pub pos: i64,
    pub side_data: Vec<PacketSideData>,
    /// Decoded samples to drop at the start.
    pub trim_start: u32,
    /// Decoded samples to drop at the end.
    pub trim_end: u32,
}

impl Packet {
    /// Whether the buffer of the packet is valid.
    pub open spec fn wf(&self) -> bool {
        self.data.wf()
    }

    /// Whether everything but the bytes is as in a new packet.
    pub open spec fn is_plain(&self) -> bool {
        &&& self.pts == NOPTS_VALUE
        &&& self.dts == NOPTS_VALUE
        &&& self.duration == 0
        &&& self.stream_index == 0
        &&& self.flags.bits == 0
        &&& self.pos == -1
        &&& self.side_data@.len() == 0
        &&& self.trim_start == 0
        &&& self.trim_end == 0
    }

    fn around(data: Buffer) -> (r: Packet)
        ensures
            r.data == data,
            r.is_plain(),
    {
        Packet {
            data,
            pts: NOPTS_VALUE,
            dts: NOPTS_VALUE,
            duration: 0,
            stream_index: 0,
            flags: PacketFlags::empty(),
            pos: -1,
            side_data: Vec::new(),
            trim_start: 0,
            trim_end: 0,
        }
    }

    /// A packet without bytes.
    pub fn new() -> (r: Packet)
        ensures
            r.wf(),
            r.data@ == Seq::<u8>::empty(),
            r.is_plain(),
    {
        let r = Packet::around(Buffer::new(0));
        assert(r.data@ =~= Seq::<u8>::empty());
        r
    }

    /// A packet of given bytes.
    pub fn from_slice(data: &[u8]) -> (r: Packet)
        requires
            data@.len() + 64 <= isize::MAX,
        ensures
            r.wf(),
            r.data@ == data@,
            r.is_plain(),
    {
        Packet::around(Buffer::from_slice(data))
    }

    /// Number of its bytes.
    pub fn size(&self) -> (r: usize)
        requires
            self.wf(),
        ensures
            r == self.data@.len(),
    {
        self.data.size()
    }
}

impl Default for Packet {
    fn default() -> (r: Packet)
        ensures
            r.wf(),
            r.data@ == Seq::<u8>::empty(),
            r.is_plain(),
    {
        Packet::new()
    }
}

} // verus!

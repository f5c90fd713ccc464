//! Side data of frames.
use vstd::prelude::*;

verus! {

/// Kind of a piece of side data of a frame.
#[derive(Debug, Clone, Copy, PartialEq, Eq, Hash, Structural)]
pub enum FrameSideDataType {
    Panscan,
    A53Cc,
    Stereo3d,
    MatrixEncoding,
    DownmixInfo,
    ReplayGain,
    DisplayMatrix,
    Afd,
    MotionVectors,
    SkipSamples,
    AudioServiceType,
    MasteringDisplayMetadata,
    GopTimecode,
    Spherical,
    ContentLightLevel,
    IccProfile,
    S12mTimecode,
    DynamicHdrPlus,
    RegionsOfInterest,
    VideoEncParams,
    SeiUnregistered,
    FilmGrainParams,
    DetectionBboxes,
    DoviRpuBuffer,
    DoviMetadata,
    DynamicHdrVivid,
    AmbientViewingEnvironment,
    VideoHint,
    Lcevc,
    ViewId,
    ThreeDReferenceDisplays,
    Exif,
}

impl FrameSideDataType {
    /// The number by which it is known.
    pub open spec fn code(self) -> int {
        match self {
            FrameSideDataType::Panscan => 0,
            FrameSideDataType::A53Cc => 1,
            FrameSideDataType::Stereo3d => 2,
            FrameSideDataType::MatrixEncoding => 3,
            FrameSideDataType::DownmixInfo => 4,
            FrameSideDataType::ReplayGain => 5,
            FrameSideDataType::DisplayMatrix => 6,
            FrameSideDataType::Afd => 7,
            FrameSideDataType::MotionVectors => 8,
            FrameSideDataType::SkipSamples => 9,
            FrameSideDataType::AudioServiceType => 10,
            FrameSideDataType::MasteringDisplayMetadata => 11,
            FrameSideDataType::GopTimecode => 12,
            FrameSideDataType::Spherical => 13,
            FrameSideDataType::ContentLightLevel => 14,
            FrameSideDataType::IccProfile => 15,
            FrameSideDataType::S12mTimecode => 16,
            FrameSideDataType::DynamicHdrPlus => 17,
            FrameSideDataType::RegionsOfInterest => 18,
            FrameSideDataType::VideoEncParams => 19,
            FrameSideDataType::SeiUnregistered => 20,
            FrameSideDataType::FilmGrainParams => 21,
            FrameSideDataType::DetectionBboxes => 22,
            FrameSideDataType::DoviRpuBuffer => 23,
            FrameSideDataType::DoviMetadata => 24,
            FrameSideDataType::DynamicHdrVivid => 25,
            FrameSideDataType::AmbientViewingEnvironment => 26,
            FrameSideDataType::VideoHint => 27,
            FrameSideDataType::Lcevc => 28,
            FrameSideDataType::ViewId => 29,
            FrameSideDataType::ThreeDReferenceDisplays => 30,
            FrameSideDataType::Exif => 31,
        }
    }

    /// The number by which it is known.
    pub fn number(self) -> (r: u32)
        ensures
            r == self.code(),
    {
        match self {
            FrameSideDataType::Panscan => 0,
            FrameSideDataType::A53Cc => 1,
            FrameSideDataType::Stereo3d => 2,
            FrameSideDataType::MatrixEncoding => 3,
            FrameSideDataType::DownmixInfo => 4,
            FrameSideDataType::ReplayGain => 5,
            FrameSideDataType::DisplayMatrix => 6,
            FrameSideDataType::Afd => 7,
            FrameSideDataType::MotionVectors => 8,
            FrameSideDataType::SkipSamples => 9,
            FrameSideDataType::AudioServiceType => 10,
            FrameSideDataType::MasteringDisplayMetadata => 11,
            FrameSideDataType::GopTimecode => 12,
            FrameSideDataType::Spherical => 13,
            FrameSideDataType::ContentLightLevel => 14,
            FrameSideDataType::IccProfile => 15,
            FrameSideDataType::S12mTimecode => 16,
            FrameSideDataType::DynamicHdrPlus => 17,
            FrameSideDataType::RegionsOfInterest => 18,
            FrameSideDataType::VideoEncParams => 19,
            FrameSideDataType::SeiUnregistered => 20,
            FrameSideDataType::FilmGrainParams => 21,
            FrameSideDataType::DetectionBboxes => 22,
            FrameSideDataType::DoviRpuBuffer => 23,
            FrameSideDataType::DoviMetadata => 24,
            FrameSideDataType::DynamicHdrVivid => 25,
            FrameSideDataType::AmbientViewingEnvironment => 26,
            FrameSideDataType::VideoHint => 27,
            FrameSideDataType::Lcevc => 28,
            FrameSideDataType::ViewId => 29,
            FrameSideDataType::ThreeDReferenceDisplays => 30,
            FrameSideDataType::Exif => 31,
        }
    }
}
/// A piece of side data of a frame.
#[derive(Debug)]
pub struct FrameSideData {
    pub data_type: FrameSideDataType,
    pub data: Vec<u8>,
}

impl Clone for FrameSideData {
    fn clone(&self) -> (r: FrameSideData)
        ensures
            r.data_type == self.data_type,
            r.data@ == self.data@,
    {
        FrameSideData { data_type: self.data_type, data: self.data.clone() }
    }
}

} // verus!

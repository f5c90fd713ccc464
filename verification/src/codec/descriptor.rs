//! Descriptions of codecs.
use vstd::prelude::*;

use crate::common::codec_id::CodecId;
use crate::common::media_type::MediaType;

verus! {

/// What a codec can do.
#[derive(Debug, Clone, Copy, PartialEq, Eq, Structural)]
pub struct CodecCapabilities {
    pub bits: u32,
}

impl CodecCapabilities {
    pub const DRAW_HORIZ_BAND: u32 = 1;

    pub const DR1: u32 = 2;

    pub const DELAY: u32 = 0x20;

    pub const SMALL_LAST_FRAME: u32 = 0x40;

    pub const SUBFRAMES: u32 = 0x100;

    pub const EXPERIMENTAL: u32 = 0x200;

    pub const CHANNEL_CONF: u32 = 0x400;

    pub const FRAME_THREADS: u32 = 0x1000;

    pub const SLICE_THREADS: u32 = 0x2000;

    pub const PARAM_CHANGE: u32 = 0x4000;

    pub const OTHER_THREADS: u32 = 0x8000;

    pub const VARIABLE_FRAME_SIZE: u32 = 0x10000;

    pub const AVOID_PROBING: u32 = 0x20000;

    pub const HARDWARE: u32 = 0x40000;

    pub const HYBRID: u32 = 0x80000;

    pub const ENCODER_REORDERED_OPAQUE: u32 = 0x100000;

    pub const ENCODER_FLUSH: u32 = 0x200000;

    pub const ENCODER_RECON_FRAME: u32 = 0x400000;

    /// No flag.
    pub fn empty() -> (r: CodecCapabilities)
        ensures
            r.bits == 0,
    {
        CodecCapabilities { bits: 0 }
    }

    /// Whether every one of given flags is set.
    pub fn contains(self, flags: u32) -> (r: bool)
        ensures
            r == (self.bits & flags == flags),
    {
        self.bits & flags == flags
    }

    /// These flags and given ones.
    pub fn union(self, flags: u32) -> (r: CodecCapabilities)
        ensures
            r.bits == self.bits | flags,
    {
        CodecCapabilities { bits: self.bits | flags }
    }
}

/// Properties of a codec.
#[derive(Debug, Clone, Copy, PartialEq, Eq, Structural)]
pub struct CodecProperties {
    pub bits: u32,
}

impl CodecProperties {
    pub const INTRA_ONLY: u32 = 1;

    pub const LOSSY: u32 = 2;

    pub const LOSSLESS: u32 = 4;

    pub const REORDER: u32 = 8;

    pub const FIELDS: u32 = 16;

    pub const BITMAP_SUB: u32 = 0x10000;

    pub const TEXT_SUB: u32 = 0x20000;

    /// No flag.
    pub fn empty() -> (r: CodecProperties)
        ensures
            r.bits == 0,
    {
        CodecProperties { bits: 0 }
    }

    /// Whether every one of given flags is set.
    pub fn contains(self, flags: u32) -> (r: bool)
        ensures
            r == (self.bits & flags == flags),
    {
        self.bits & flags == flags
    }

    /// These flags and given ones.
    pub fn union(self, flags: u32) -> (r: CodecProperties)
        ensures
            r.bits == self.bits | flags,
    {
        CodecProperties { bits: self.bits | flags }
    }
}

/// A profile of a codec.
#[derive(Debug, Clone)]
pub struct Profile {
    pub id: i32,
    pub name: &'static str,
}

/// Description of a codec.
#[derive(Debug, Clone)]
pub struct CodecDescriptor {
    pub id: CodecId,
    pub media_type: MediaType,
    pub name: &'static str,
    pub long_name: &'static str,
    pub properties: CodecProperties,
    pub profiles: &'static [Profile],
}

} // verus!

//! Formats of pixels.
use vstd::prelude::*;

verus! {

/// Format of pixels.
#[derive(Debug, Clone, Copy, PartialEq, Eq, Hash, Structural)]
pub enum PixelFormat {
    /// No format.
    Unknown,
    Yuv420p,
    Yuyv422,
    Rgb24,
    Bgr24,
    Yuv422p,
    Yuv444p,
    Yuv410p,
    Yuv411p,
    Gray8,
    MonoWhite,
    MonoBlack,
    Pal8,
    Yuvj420p,
    Yuvj422p,
    Yuvj444p,
    Uyvy422,
    Nv12,
    Nv21,
    Argb,
    Rgba,
    Abgr,
    Bgra,
    Gray16be,
    Gray16le,
    Yuv420p16le,
    Yuv420p16be,
    Rgb48be,
    Rgb48le,
    Yuv420p10le,
    Yuv420p10be,
}

impl PixelFormat {
    /// The number by which it is known.
    pub open spec fn code(self) -> int {
        match self {
            PixelFormat::Unknown => -1,
            PixelFormat::Yuv420p => 0,
            PixelFormat::Yuyv422 => 1,
            PixelFormat::Rgb24 => 2,
            PixelFormat::Bgr24 => 3,
            PixelFormat::Yuv422p => 4,
            PixelFormat::Yuv444p => 5,
            PixelFormat::Yuv410p => 6,
            PixelFormat::Yuv411p => 7,
            PixelFormat::Gray8 => 8,
            PixelFormat::MonoWhite => 9,
            PixelFormat::MonoBlack => 10,
            PixelFormat::Pal8 => 11,
            PixelFormat::Yuvj420p => 12,
            PixelFormat::Yuvj422p => 13,
            PixelFormat::Yuvj444p => 14,
            PixelFormat::Uyvy422 => 15,
            PixelFormat::Nv12 => 25,
            PixelFormat::Nv21 => 26,
            PixelFormat::Argb => 27,
            PixelFormat::Rgba => 28,
            PixelFormat::Abgr => 29,
            PixelFormat::Bgra => 30,
            PixelFormat::Gray16be => 31,
            PixelFormat::Gray16le => 32,
            PixelFormat::Yuv420p16le => 55,
            PixelFormat::Yuv420p16be => 56,
            PixelFormat::Rgb48be => 41,
            PixelFormat::Rgb48le => 42,
            PixelFormat::Yuv420p10le => 90,
            PixelFormat::Yuv420p10be => 91,
        }
    }

    /// The number by which it is known.
    pub fn number(self) -> (r: i32)
        ensures
            r == self.code(),
    {
        match self {
            PixelFormat::Unknown => -1,
            PixelFormat::Yuv420p => 0,
            PixelFormat::Yuyv422 => 1,
            PixelFormat::Rgb24 => 2,
            PixelFormat::Bgr24 => 3,
            PixelFormat::Yuv422p => 4,
            PixelFormat::Yuv444p => 5,
            PixelFormat::Yuv410p => 6,
            PixelFormat::Yuv411p => 7,
            PixelFormat::Gray8 => 8,
            PixelFormat::MonoWhite => 9,
            PixelFormat::MonoBlack => 10,
            PixelFormat::Pal8 => 11,
            PixelFormat::Yuvj420p => 12,
            PixelFormat::Yuvj422p => 13,
            PixelFormat::Yuvj444p => 14,
            PixelFormat::Uyvy422 => 15,
            PixelFormat::Nv12 => 25,
            PixelFormat::Nv21 => 26,
            PixelFormat::Argb => 27,
            PixelFormat::Rgba => 28,
            PixelFormat::Abgr => 29,
            PixelFormat::Bgra => 30,
            PixelFormat::Gray16be => 31,
            PixelFormat::Gray16le => 32,
            PixelFormat::Yuv420p16le => 55,
            PixelFormat::Yuv420p16be => 56,
            PixelFormat::Rgb48be => 41,
            PixelFormat::Rgb48le => 42,
            PixelFormat::Yuv420p10le => 90,
            PixelFormat::Yuv420p10be => 91,
        }
    }

    /// Its name.
    pub open spec fn label(self) -> Seq<char> {
        match self {
            PixelFormat::Unknown => "none"@,
            PixelFormat::Yuv420p => "yuv420p"@,
            PixelFormat::Yuyv422 => "yuyv422"@,
            PixelFormat::Rgb24 => "rgb24"@,
            PixelFormat::Bgr24 => "bgr24"@,
            PixelFormat::Yuv422p => "yuv422p"@,
            PixelFormat::Yuv444p => "yuv444p"@,
            PixelFormat::Yuv410p => "yuv410p"@,
            PixelFormat::Yuv411p => "yuv411p"@,
            PixelFormat::Gray8 => "gray8"@,
            PixelFormat::MonoWhite => "monowhite"@,
            PixelFormat::MonoBlack => "monoblack"@,
            PixelFormat::Pal8 => "pal8"@,
            PixelFormat::Yuvj420p => "yuvj420p"@,
            PixelFormat::Yuvj422p => "yuvj422p"@,
            PixelFormat::Yuvj444p => "yuvj444p"@,
            PixelFormat::Uyvy422 => "uyvy422"@,
            PixelFormat::Nv12 => "nv12"@,
            PixelFormat::Nv21 => "nv21"@,
            PixelFormat::Argb => "argb"@,
            PixelFormat::Rgba => "rgba"@,
            PixelFormat::Abgr => "abgr"@,
            PixelFormat::Bgra => "bgra"@,
            PixelFormat::Gray16be => "gray16be"@,
            PixelFormat::Gray16le => "gray16le"@,
            PixelFormat::Yuv420p16le => "yuv420p16le"@,
            PixelFormat::Yuv420p16be => "yuv420p16be"@,
            PixelFormat::Rgb48be => "rgb48be"@,
            PixelFormat::Rgb48le => "rgb48le"@,
            PixelFormat::Yuv420p10le => "yuv420p10le"@,
            PixelFormat::Yuv420p10be => "yuv420p10be"@,
        }
    }

    /// Its name.
    pub fn name(self) -> (r: &'static str)
        ensures
            r@ == self.label(),
    {
        match self {
            PixelFormat::Unknown => "none",
            PixelFormat::Yuv420p => "yuv420p",
            PixelFormat::Yuyv422 => "yuyv422",
            PixelFormat::Rgb24 => "rgb24",
            PixelFormat::Bgr24 => "bgr24",
            PixelFormat::Yuv422p => "yuv422p",
            PixelFormat::Yuv444p => "yuv444p",
            PixelFormat::Yuv410p => "yuv410p",
            PixelFormat::Yuv411p => "yuv411p",
            PixelFormat::Gray8 => "gray8",
            PixelFormat::MonoWhite => "monowhite",
            PixelFormat::MonoBlack => "monoblack",
            PixelFormat::Pal8 => "pal8",
            PixelFormat::Yuvj420p => "yuvj420p",
            PixelFormat::Yuvj422p => "yuvj422p",
            PixelFormat::Yuvj444p => "yuvj444p",
            PixelFormat::Uyvy422 => "uyvy422",
            PixelFormat::Nv12 => "nv12",
            PixelFormat::Nv21 => "nv21",
            PixelFormat::Argb => "argb",
            PixelFormat::Rgba => "rgba",
            PixelFormat::Abgr => "abgr",
            PixelFormat::Bgra => "bgra",
            PixelFormat::Gray16be => "gray16be",
            PixelFormat::Gray16le => "gray16le",
            PixelFormat::Yuv420p16le => "yuv420p16le",
            PixelFormat::Yuv420p16be => "yuv420p16be",
            PixelFormat::Rgb48be => "rgb48be",
            PixelFormat::Rgb48le => "rgb48le",
            PixelFormat::Yuv420p10le => "yuv420p10le",
            PixelFormat::Yuv420p10be => "yuv420p10be",
        }
    }
}
/// Properties of a pixel format.
#[derive(Debug, Clone, Copy, PartialEq, Eq, Structural)]
pub struct PixelFormatFlags {
    pub bits: u64,
}

impl PixelFormatFlags {
    pub const BIG_ENDIAN: u64 = 1;

    pub const PAL: u64 = 2;

    pub const BITSTREAM: u64 = 4;

    pub const HWACCEL: u64 = 8;

    pub const PLANAR: u64 = 16;

    pub const RGB: u64 = 32;

    pub const ALPHA: u64 = 128;

    pub const BAYER: u64 = 256;

    pub const FLOAT: u64 = 512;

    /// No flag.
    pub fn empty() -> (r: PixelFormatFlags)
        ensures
            r.bits == 0,
    {
        PixelFormatFlags { bits: 0 }
    }

    /// Whether every one of given flags is set.
    pub fn contains(self, flags: u64) -> (r: bool)
        ensures
            r == (self.bits & flags == flags),
    {
        self.bits & flags == flags
    }

    /// These flags and given ones.
    pub fn union(self, flags: u64) -> (r: PixelFormatFlags)
        ensures
            r.bits == self.bits | flags,
    {
        PixelFormatFlags { bits: self.bits | flags }
    }
}

/// Where a component of a pixel lies.
#[derive(Debug, Clone, Copy)]
pub struct PixelFormatComponentDescriptor {
    /// The plane that holds it.
    pub plane: u16,
    /// Elements between two pixels that are neighbors in a row.
    pub step: u16,
    /// Elements before the component of the first pixel.
    pub offset: u16,
    /// Low bits to be shifted away.
    pub shift: u16,
    /// Number of its bits.
    pub depth: u16,
}

/// Layout of a pixel format.
#[derive(Debug, Clone)]
pub struct PixelFormatDescriptor {
    pub name: &'static str,
    pub nb_components: u8,
    /// Shift from the luma width to the chroma width.
    pub log2_chroma_w: u8,
    /// Shift from the luma height to the chroma height.
    pub log2_chroma_h: u8,
    pub flags: PixelFormatFlags,
    pub components: [PixelFormatComponentDescriptor; 4],
}

} // verus!

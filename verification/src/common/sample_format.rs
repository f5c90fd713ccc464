//! Formats of audio samples.
use vstd::prelude::*;

verus! {

/// Format of audio samples.
#[derive(Debug, Clone, Copy, PartialEq, Eq, Hash, Structural)]
pub enum SampleFormat {
    /// No format.
    Unknown,
    /// Unsigned 8 bits.
    U8,
    /// Signed 16 bits.
    S16,
    /// Signed 32 bits.
    S32,
    /// Float.
    Flt,
    /// Double.
    Dbl,
    /// Unsigned 8 bits, planar.
    U8p,
    /// Signed 16 bits, planar.
    S16p,
    /// Signed 32 bits, planar.
    S32p,
    /// Float, planar.
    Fltp,
    /// Double, planar.
    Dblp,
    /// Signed 64 bits.
    S64,
    /// Signed 64 bits, planar.
    S64p,
}

impl SampleFormat {
    /// The number by which it is known.
    pub open spec fn code(self) -> int {
        match self {
            SampleFormat::Unknown => -1,
            SampleFormat::U8 => 0,
            SampleFormat::S16 => 1,
            SampleFormat::S32 => 2,
            SampleFormat::Flt => 3,
            SampleFormat::Dbl => 4,
            SampleFormat::U8p => 5,
            SampleFormat::S16p => 6,
            SampleFormat::S32p => 7,
            SampleFormat::Fltp => 8,
            SampleFormat::Dblp => 9,
            SampleFormat::S64 => 10,
            SampleFormat::S64p => 11,
        }
    }

    /// The number by which it is known.
    pub fn number(self) -> (r: i32)
        ensures
            r == self.code(),
    {
        match self {
            SampleFormat::Unknown => -1,
            SampleFormat::U8 => 0,
            SampleFormat::S16 => 1,
            SampleFormat::S32 => 2,
            SampleFormat::Flt => 3,
            SampleFormat::Dbl => 4,
            SampleFormat::U8p => 5,
            SampleFormat::S16p => 6,
            SampleFormat::S32p => 7,
            SampleFormat::Fltp => 8,
            SampleFormat::Dblp => 9,
            SampleFormat::S64 => 10,
            SampleFormat::S64p => 11,
        }
    }

    /// Its name.
    pub open spec fn label(self) -> Seq<char> {
        match self {
            SampleFormat::Unknown => "none"@,
            SampleFormat::U8 => "u8"@,
            SampleFormat::S16 => "s16"@,
            SampleFormat::S32 => "s32"@,
            SampleFormat::Flt => "flt"@,
            SampleFormat::Dbl => "dbl"@,
            SampleFormat::U8p => "u8p"@,
            SampleFormat::S16p => "s16p"@,
            SampleFormat::S32p => "s32p"@,
            SampleFormat::Fltp => "fltp"@,
            SampleFormat::Dblp => "dblp"@,
            SampleFormat::S64 => "s64"@,
            SampleFormat::S64p => "s64p"@,
        }
    }

    /// Its name.
    pub fn name(self) -> (r: &'static str)
        ensures
            r@ == self.label(),
    {
        match self {
            SampleFormat::Unknown => "none",
            SampleFormat::U8 => "u8",
            SampleFormat::S16 => "s16",
            SampleFormat::S32 => "s32",
            SampleFormat::Flt => "flt",
            SampleFormat::Dbl => "dbl",
            SampleFormat::U8p => "u8p",
            SampleFormat::S16p => "s16p",
            SampleFormat::S32p => "s32p",
            SampleFormat::Fltp => "fltp",
            SampleFormat::Dblp => "dblp",
            SampleFormat::S64 => "s64",
            SampleFormat::S64p => "s64p",
        }
    }
}
impl SampleFormat {
    /// Bytes of one sample.
    pub open spec fn sample_bytes(self) -> nat {
        match self {
            SampleFormat::Unknown => 0,
            SampleFormat::U8 | SampleFormat::U8p => 1,
            SampleFormat::S16 | SampleFormat::S16p => 2,
            SampleFormat::S32 | SampleFormat::S32p | SampleFormat::Flt | SampleFormat::Fltp => 4,
            SampleFormat::Dbl | SampleFormat::Dblp | SampleFormat::S64 | SampleFormat::S64p => 8,
        }
    }

    /// Bytes of one sample.
    pub fn bytes_per_sample(self) -> (r: usize)
        ensures
            r == self.sample_bytes(),
    {
        match self {
            SampleFormat::Unknown => 0,
            SampleFormat::U8 | SampleFormat::U8p => 1,
            SampleFormat::S16 | SampleFormat::S16p => 2,
            SampleFormat::S32 | SampleFormat::S32p | SampleFormat::Flt | SampleFormat::Fltp => 4,
            SampleFormat::Dbl | SampleFormat::Dblp | SampleFormat::S64 | SampleFormat::S64p => 8,
        }
    }

    /// Whether each channel has a plane of its own.
    pub open spec fn planar_samples(self) -> bool {
        self != self.packed_spec()
    }

    /// Whether each channel has a plane of its own.
    pub fn is_planar(self) -> (r: bool)
        ensures
            r == self.planar_samples(),
    {
        match self {
            SampleFormat::U8p
            | SampleFormat::S16p
            | SampleFormat::S32p
            | SampleFormat::Fltp
            | SampleFormat::Dblp
            | SampleFormat::S64p => true,
            _ => false,
        }
    }

    /// The format with the same samples, interleaved.
    pub open spec fn packed_spec(self) -> SampleFormat {
        match self {
            SampleFormat::U8p => SampleFormat::U8,
            SampleFormat::S16p => SampleFormat::S16,
            SampleFormat::S32p => SampleFormat::S32,
            SampleFormat::Fltp => SampleFormat::Flt,
            SampleFormat::Dblp => SampleFormat::Dbl,
            SampleFormat::S64p => SampleFormat::S64,
            other => other,
        }
    }

    /// The format with the same samples, interleaved.
    pub fn packed(self) -> (r: SampleFormat)
        ensures
            r == self.packed_spec(),
    {
        match self {
            SampleFormat::U8p => SampleFormat::U8,
            SampleFormat::S16p => SampleFormat::S16,
            SampleFormat::S32p => SampleFormat::S32,
            SampleFormat::Fltp => SampleFormat::Flt,
            SampleFormat::Dblp => SampleFormat::Dbl,
            SampleFormat::S64p => SampleFormat::S64,
            other => other,
        }
    }

    /// The format with the same samples, a plane for each channel.
    pub open spec fn planar_spec(self) -> SampleFormat {
        match self {
            SampleFormat::U8 => SampleFormat::U8p,
            SampleFormat::S16 => SampleFormat::S16p,
            SampleFormat::S32 => SampleFormat::S32p,
            SampleFormat::Flt => SampleFormat::Fltp,
            SampleFormat::Dbl => SampleFormat::Dblp,
            SampleFormat::S64 => SampleFormat::S64p,
            other => other,
        }
    }

    /// The format with the same samples, a plane for each channel.
    pub fn planar(self) -> (r: SampleFormat)
        ensures
            r == self.planar_spec(),
    {
        match self {
            SampleFormat::U8 => SampleFormat::U8p,
            SampleFormat::S16 => SampleFormat::S16p,
            SampleFormat::S32 => SampleFormat::S32p,
            SampleFormat::Flt => SampleFormat::Fltp,
            SampleFormat::Dbl => SampleFormat::Dblp,
            SampleFormat::S64 => SampleFormat::S64p,
            other => other,
        }
    }
}

/// Packing and unpacking undo each other and keep the size of a sample.
pub proof fn law_packed_and_planar(f: SampleFormat)
    ensures
        f.planar_spec().packed_spec() == f.packed_spec(),
        f.packed_spec().planar_spec() == f.planar_spec(),
        f.planar_spec().sample_bytes() == f.sample_bytes(),
        f.packed_spec().sample_bytes() == f.sample_bytes(),
        !f.packed_spec().planar_samples(),
        f != SampleFormat::Unknown ==> f.planar_spec().planar_samples(),
{
}

} // verus!

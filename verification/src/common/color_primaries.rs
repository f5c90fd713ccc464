//! Color primaries.
use vstd::prelude::*;

verus! {

/// Chromaticity of the source primaries.
#[derive(Debug, Clone, Copy, PartialEq, Eq, Hash, Structural)]
pub enum ColorPrimaries {
    Reserved0,
    Bt709,
    Unspecified,
    Reserved,
    Bt470m,
    Bt470bg,
    Smpte170m,
    Smpte240m,
    Film,
    Bt2020,
    Smpte428,
    Smpte431,
    Smpte432,
    Ebu3213,
}

impl Default for ColorPrimaries {
    fn default() -> (r: ColorPrimaries)
        ensures
            r == ColorPrimaries::Unspecified,
    {
        ColorPrimaries::Unspecified
    }
}

impl ColorPrimaries {
    /// The number by which it is known.
    pub open spec fn code(self) -> int {
        match self {
            ColorPrimaries::Reserved0 => 0,
            ColorPrimaries::Bt709 => 1,
            ColorPrimaries::Unspecified => 2,
            ColorPrimaries::Reserved => 3,
            ColorPrimaries::Bt470m => 4,
            ColorPrimaries::Bt470bg => 5,
            ColorPrimaries::Smpte170m => 6,
            ColorPrimaries::Smpte240m => 7,
            ColorPrimaries::Film => 8,
            ColorPrimaries::Bt2020 => 9,
            ColorPrimaries::Smpte428 => 10,
            ColorPrimaries::Smpte431 => 11,
            ColorPrimaries::Smpte432 => 12,
            ColorPrimaries::Ebu3213 => 22,
        }
    }

    /// The number by which it is known.
    pub fn number(self) -> (r: i32)
        ensures
            r == self.code(),
    {
        match self {
            ColorPrimaries::Reserved0 => 0,
            ColorPrimaries::Bt709 => 1,
            ColorPrimaries::Unspecified => 2,
            ColorPrimaries::Reserved => 3,
            ColorPrimaries::Bt470m => 4,
            ColorPrimaries::Bt470bg => 5,
            ColorPrimaries::Smpte170m => 6,
            ColorPrimaries::Smpte240m => 7,
            ColorPrimaries::Film => 8,
            ColorPrimaries::Bt2020 => 9,
            ColorPrimaries::Smpte428 => 10,
            ColorPrimaries::Smpte431 => 11,
            ColorPrimaries::Smpte432 => 12,
            ColorPrimaries::Ebu3213 => 22,
        }
    }

    /// Its name.
    pub open spec fn label(self) -> Seq<char> {
        match self {
            ColorPrimaries::Reserved0 => "reserved"@,
            ColorPrimaries::Bt709 => "bt709"@,
            ColorPrimaries::Unspecified => "unknown"@,
            ColorPrimaries::Reserved => "reserved"@,
            ColorPrimaries::Bt470m => "bt470m"@,
            ColorPrimaries::Bt470bg => "bt470bg"@,
            ColorPrimaries::Smpte170m => "smpte170m"@,
            ColorPrimaries::Smpte240m => "smpte240m"@,
            ColorPrimaries::Film => "film"@,
            ColorPrimaries::Bt2020 => "bt2020"@,
            ColorPrimaries::Smpte428 => "smpte428"@,
            ColorPrimaries::Smpte431 => "smpte431"@,
            ColorPrimaries::Smpte432 => "smpte432"@,
            ColorPrimaries::Ebu3213 => "ebu3213"@,
        }
    }

    /// Its name.
    pub fn name(self) -> (r: &'static str)
        ensures
            r@ == self.label(),
    {
        match self {
            ColorPrimaries::Reserved0 => "reserved",
            ColorPrimaries::Bt709 => "bt709",
            ColorPrimaries::Unspecified => "unknown",
            ColorPrimaries::Reserved => "reserved",
            ColorPrimaries::Bt470m => "bt470m",
            ColorPrimaries::Bt470bg => "bt470bg",
            ColorPrimaries::Smpte170m => "smpte170m",
            ColorPrimaries::Smpte240m => "smpte240m",
            ColorPrimaries::Film => "film",
            ColorPrimaries::Bt2020 => "bt2020",
            ColorPrimaries::Smpte428 => "smpte428",
            ColorPrimaries::Smpte431 => "smpte431",
            ColorPrimaries::Smpte432 => "smpte432",
            ColorPrimaries::Ebu3213 => "ebu3213",
        }
    }
}
} // verus!

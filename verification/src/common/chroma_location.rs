//! Where the chroma samples of a picture lie.
use vstd::prelude::*;

verus! {

/// Location of the chroma samples.
#[derive(Debug, Clone, Copy, PartialEq, Eq, Hash, Structural)]
pub enum ChromaLocation {
    Unspecified,
    Left,
    Center,
    TopLeft,
    Top,
    BottomLeft,
    Bottom,
}

impl Default for ChromaLocation {
    fn default() -> (r: ChromaLocation)
        ensures
            r == ChromaLocation::Unspecified,
    {
        ChromaLocation::Unspecified
    }
}

impl ChromaLocation {
    /// The number by which it is known.
    pub open spec fn code(self) -> int {
        match self {
            ChromaLocation::Unspecified => 0,
            ChromaLocation::Left => 1,
            ChromaLocation::Center => 2,
            ChromaLocation::TopLeft => 3,
            ChromaLocation::Top => 4,
            ChromaLocation::BottomLeft => 5,
            ChromaLocation::Bottom => 6,
        }
    }

    /// The number by which it is known.
    pub fn number(self) -> (r: i32)
        ensures
            r == self.code(),
    {
        match self {
            ChromaLocation::Unspecified => 0,
            ChromaLocation::Left => 1,
            ChromaLocation::Center => 2,
            ChromaLocation::TopLeft => 3,
            ChromaLocation::Top => 4,
            ChromaLocation::BottomLeft => 5,
            ChromaLocation::Bottom => 6,
        }
    }

    /// Its name.
    pub open spec fn label(self) -> Seq<char> {
        match self {
            ChromaLocation::Unspecified => "unspecified"@,
            ChromaLocation::Left => "left"@,
            ChromaLocation::Center => "center"@,
            ChromaLocation::TopLeft => "topleft"@,
            ChromaLocation::Top => "top"@,
            ChromaLocation::BottomLeft => "bottomleft"@,
            ChromaLocation::Bottom => "bottom"@,
        }
    }

    /// Its name.
    pub fn name(self) -> (r: &'static str)
        ensures
            r@ == self.label(),
    {
        match self {
            ChromaLocation::Unspecified => "unspecified",
            ChromaLocation::Left => "left",
            ChromaLocation::Center => "center",
            ChromaLocation::TopLeft => "topleft",
            ChromaLocation::Top => "top",
            ChromaLocation::BottomLeft => "bottomleft",
            ChromaLocation::Bottom => "bottom",
        }
    }
}
} // verus!

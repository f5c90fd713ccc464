//! Kinds of streams.
use vstd::prelude::*;

verus! {

/// Kind of a stream.
#[derive(Debug, Clone, Copy, PartialEq, Eq, Hash, Structural)]
pub enum MediaType {
    Video,
    Audio,
    Data,
    Subtitle,
    Attachment,
}

impl MediaType {
    /// The number by which it is known.
    pub open spec fn code(self) -> int {
        match self {
            MediaType::Video => 0,
            MediaType::Audio => 1,
            MediaType::Data => 2,
            MediaType::Subtitle => 3,
            MediaType::Attachment => 4,
        }
    }

    /// The number by which it is known.
    pub fn number(self) -> (r: i32)
        ensures
            r == self.code(),
    {
        match self {
            MediaType::Video => 0,
            MediaType::Audio => 1,
            MediaType::Data => 2,
            MediaType::Subtitle => 3,
            MediaType::Attachment => 4,
        }
    }

    /// Its name.
    pub open spec fn label(self) -> Seq<char> {
        match self {
            MediaType::Video => "video"@,
            MediaType::Audio => "audio"@,
            MediaType::Data => "data"@,
            MediaType::Subtitle => "subtitle"@,
            MediaType::Attachment => "attachment"@,
        }
    }

    /// Its name.
    pub fn name(self) -> (r: &'static str)
        ensures
            r@ == self.label(),
    {
        match self {
            MediaType::Video => "video",
            MediaType::Audio => "audio",
            MediaType::Data => "data",
            MediaType::Subtitle => "subtitle",
            MediaType::Attachment => "attachment",
        }
    }
}
} // verus!

//! Reading containers.
use vstd::prelude::*;

use crate::codec::decoder::CodecParameters;
use crate::common::metadata::Metadata;
use crate::common::packet::Packet;
use crate::common::rational::Rational;
use crate::error::{failure, Error, Result};
use crate::format::io::{BufferedIo, IoContext};

verus! {

/// Properties of an input format.
#[derive(Debug, Clone, Copy, PartialEq, Eq, Structural)]
pub struct InputFormatFlags {
    pub bits: u32,
}

impl InputFormatFlags {
    pub const NOFILE: u32 = 1;

    pub const NEEDNUMBER: u32 = 2;

    pub const NOBINSEARCH: u32 = 8;

    pub const NOGENSEARCH: u32 = 16;

    pub const NOBYTESEEK: u32 = 0x20;

    pub const SEEK_TO_PTS: u32 = 0x4000000;

    /// No flag.
    pub fn empty() -> (r: InputFormatFlags)
        ensures
            r.bits == 0,
    {
        InputFormatFlags { bits: 0 }
    }

    /// Whether every one of given flags is set.
    pub fn contains(self, flags: u32) -> (r: bool)
        ensures
            r == (self.bits & flags == flags),
    {
        self.bits & flags == flags
    }

    /// These flags and given ones.
    pub fn union(self, flags: u32) -> (r: InputFormatFlags)
        ensures
            r.bits == self.bits | flags,
    {
        InputFormatFlags { bits: self.bits | flags }
    }
}

/// How a timestamp is sought.
#[derive(Debug, Clone, Copy, PartialEq, Eq, Structural)]
pub struct SeekFlags {
    pub bits: u32,
}

impl SeekFlags {
    pub const BACKWARD: u32 = 1;

    pub const BYTE: u32 = 2;

    pub const ANY: u32 = 4;

    pub const FRAME: u32 = 8;

    /// No flag.
    pub fn empty() -> (r: SeekFlags)
        ensures
            r.bits == 0,
    {
        SeekFlags { bits: 0 }
    }

    /// Whether every one of given flags is set.
    pub fn contains(self, flags: u32) -> (r: bool)
        ensures
            r == (self.bits & flags == flags),
    {
        self.bits & flags == flags
    }

    /// These flags and given ones.
    pub fn union(self, flags: u32) -> (r: SeekFlags)
        ensures
            r.bits == self.bits | flags,
    {
        SeekFlags { bits: self.bits | flags }
    }
}

/// Which packets of a stream are dropped.
#[derive(Debug, Clone, Copy, PartialEq, Eq, PartialOrd, Ord, Structural)]
pub enum Discard {
    Nothing,
    Default,
    NonRef,
    Bidir,
    NonIntra,
    NonKey,
    All,
}

impl Discard {
    /// The number by which it is known.
    pub open spec fn code(self) -> int {
        match self {
            Discard::Nothing => -16,
            Discard::Default => 0,
            Discard::NonRef => 8,
            Discard::Bidir => 16,
            Discard::NonIntra => 24,
            Discard::NonKey => 32,
            Discard::All => 48,
        }
    }

    /// The number by which it is known.
    pub fn number(self) -> (r: i32)
        ensures
            r == self.code(),
    {
        match self {
            Discard::Nothing => -16,
            Discard::Default => 0,
            Discard::NonRef => 8,
            Discard::Bidir => 16,
            Discard::NonIntra => 24,
            Discard::NonKey => 32,
            Discard::All => 48,
        }
    }
}

/// What a format is recognized by.
#[derive(Debug)]
pub struct ProbeData<'a> {
    pub filename: &'a str,
    /// The first bytes of the file.
    pub buf: &'a [u8],
}

/// The score of a format that the name of a file suggests.
pub const PROBE_SCORE_EXTENSION: i32 = 50;

/// The score of a format that is certain.
pub const PROBE_SCORE_MAX: i32 = 100;

/// A stream of a file.
#[derive(Debug, Clone)]
pub struct Stream {
    pub index: usize,
    pub codec_params: CodecParameters,
    pub time_base: Rational,
    pub duration: i64,
    pub nb_frames: i64,
    pub metadata: Metadata,
    pub discard: Discard,
}

impl Stream {
    /// A stream of which only the codec is known.
    pub fn new(index: usize, codec_params: CodecParameters) -> (r: Stream)
        ensures
            r.index == index,
            r.codec_params == codec_params,
            r.time_base.num == 0,
            r.time_base.den == 1,
            r.duration == 0,
            r.nb_frames == 0,
            r.metadata@.len() == 0,
            r.discard == Discard::Default,
    {
        Stream {
            index,
            codec_params,
            time_base: Rational::new(0, 1),
            duration: 0,
            nb_frames: 0,
            metadata: Metadata::new(),
            discard: Discard::Default,
        }
    }
}

/// What the header of a file holds.
pub struct DemuxerHeader {
    pub streams: Vec<Stream>,
    pub metadata: Metadata,
    pub duration: i64,
    pub start_time: i64,
}

/// A reader of a container. What an implementation does is said by a relation for each operation,
/// between the reader and the source before and after it, what is asked, and the result.
pub trait Demuxer<T: IoContext>: Send + Sized {
    /// Whether reading the header can turn this reader and `io0` into `after` and `io1`, with the
    /// result `r`.
    open spec fn header_read(
        &self,
        io0: BufferedIo<T>,
        after: Self,
        io1: BufferedIo<T>,
        r: Result<DemuxerHeader>,
    ) -> bool {
        true
    }

    /// Whether reading a packet can turn this reader and `io0` into `after` and `io1`, with the
    /// result `r`.
    open spec fn packet_read(
        &self,
        io0: BufferedIo<T>,
        after: Self,
        io1: BufferedIo<T>,
        r: Result<Packet>,
    ) -> bool {
        true
    }

    /// Whether going to a timestamp of a stream can turn this reader and `io0` into `after` and `io1`,
    /// failing with `failed` or not.
    open spec fn sought(
        &self,
        io0: BufferedIo<T>,
        stream_index: usize,
        timestamp: i64,
        flags: SeekFlags,
        after: Self,
        io1: BufferedIo<T>,
        failed: Option<Error>,
    ) -> bool {
        true
    }

    /// Reads the header.
    fn read_header(&mut self, io: &mut BufferedIo<T>) -> (r: Result<DemuxerHeader>)
        requires
            old(io).wf(),
        ensures
            final(io).wf(),
            old(self).header_read(*old(io), *final(self), *final(io), r),
    ;

    /// Reads the next packet.
    fn read_packet(&mut self, io: &mut BufferedIo<T>) -> (r: Result<Packet>)
        requires
            old(io).wf(),
        ensures
            final(io).wf(),
            old(self).packet_read(*old(io), *final(self), *final(io), r),
    ;

    /// Goes to a timestamp.
    fn seek(
        &mut self,
        io: &mut BufferedIo<T>,
        stream_index: usize,
        timestamp: i64,
        flags: SeekFlags,
    ) -> (r: Result<()>)
        requires
            old(io).wf(),
        ensures
            final(io).wf(),
            old(self).sought(
                *old(io),
                stream_index,
                timestamp,
                flags,
                *final(self),
                *final(io),
                failure(r),
            ),
    ;
}

/// Description of an input format.
#[derive(Debug, Clone)]
pub struct InputFormatDescriptor {
    pub name: &'static str,
    pub long_name: &'static str,
    /// Extensions with commas between them.
    pub extensions: &'static str,
    pub mime_types: &'static str,
    pub flags: InputFormatFlags,
    /// Decides between formats of the same score.
    pub priority: i32,
}

} // verus!

//! Writing containers.
use vstd::prelude::*;

use crate::common::codec_id::CodecId;
use crate::common::packet::Packet;
use crate::error::{failure, Error, Result};
use crate::format::demuxer::Stream;
use crate::format::io::{BufferedIo, IoContext};

verus! {

/// Properties of an output format.
#[derive(Debug, Clone, Copy, PartialEq, Eq, Structural)]
pub struct OutputFormatFlags {
    pub bits: u32,
}

impl OutputFormatFlags {
    pub const NOFILE: u32 = 1;

    pub const NEEDNUMBER: u32 = 2;

    pub const GLOBALHEADER: u32 = 0x40;

    pub const NOTIMESTAMPS: u32 = 0x80;

    pub const VARIABLE_FPS: u32 = 0x400;

    pub const NODIMENSIONS: u32 = 0x800;

    pub const NOSTREAMS: u32 = 0x1000;

    pub const TS_NONSTRICT: u32 = 0x20000;

    pub const TS_NEGATIVE: u32 = 0x40000;

    /// No flag.
    pub fn empty() -> (r: OutputFormatFlags)
        ensures
            r.bits == 0,
    {
        OutputFormatFlags { bits: 0 }
    }

    /// Whether every one of given flags is set.
    pub fn contains(self, flags: u32) -> (r: bool)
        ensures
            r == (self.bits & flags == flags),
    {
        self.bits & flags == flags
    }

    /// These flags and given ones.
    pub fn union(self, flags: u32) -> (r: OutputFormatFlags)
        ensures
            r.bits == self.bits | flags,
    {
        OutputFormatFlags { bits: self.bits | flags }
    }
}

/// A writer of a container. What an implementation does is said by a relation for each operation,
/// between the writer and the sink before and after it, what is handed over, and the result.
pub trait Muxer<T: IoContext>: Send + Sized {
    /// Whether writing the header of a file with given streams can turn this writer and `io0` into
    /// `after` and `io1`, failing with `failed` or not.
    open spec fn header_written(
        &self,
        io0: BufferedIo<T>,
        streams: Seq<Stream>,
        after: Self,
        io1: BufferedIo<T>,
        failed: Option<Error>,
    ) -> bool {
        true
    }

    /// Whether writing a packet can turn this writer and `io0` into `after` and `io1`, failing
    /// with `failed` or not.
    open spec fn packet_written(
        &self,
        io0: BufferedIo<T>,
        packet: Packet,
        after: Self,
        io1: BufferedIo<T>,
        failed: Option<Error>,
    ) -> bool {
        true
    }

    /// Whether writing the end of the file can turn this writer and `io0` into `after` and `io1`, failing
    /// with `failed` or not.
    open spec fn trailer_written(
        &self,
        io0: BufferedIo<T>,
        after: Self,
        io1: BufferedIo<T>,
        failed: Option<Error>,
    ) -> bool {
        true
    }

    /// Writes the header.
    fn write_header(&mut self, io: &mut BufferedIo<T>, streams: &[Stream]) -> (r: Result<()>)
        requires
            old(io).wf(),
        ensures
            final(io).wf(),
            old(self).header_written(*old(io), streams@, *final(self), *final(io), failure(r)),
    ;

    /// Writes a packet.
    fn write_packet(&mut self, io: &mut BufferedIo<T>, packet: &Packet) -> (r: Result<()>)
        requires
            old(io).wf(),
        ensures
            final(io).wf(),
            old(self).packet_written(*old(io), *packet, *final(self), *final(io), failure(r)),
    ;

    /// Writes the end of the file.
    fn write_trailer(&mut self, io: &mut BufferedIo<T>) -> (r: Result<()>)
        requires
            old(io).wf(),
        ensures
            final(io).wf(),
            old(self).trailer_written(*old(io), *final(self), *final(io), failure(r)),
    ;
}

/// Description of an output format.
#[derive(Debug, Clone)]
pub struct OutputFormatDescriptor {
    pub name: &'static str,
    pub long_name: &'static str,
    /// Extensions with commas between them.
    pub extensions: &'static str,
    pub mime_types: &'static str,
    pub flags: OutputFormatFlags,
    pub audio_codec: CodecId,
    pub video_codec: CodecId,
}

} // verus!

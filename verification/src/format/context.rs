//! Open files.
use vstd::prelude::*;

use crate::common::metadata::Metadata;
use crate::common::packet::Packet;
use crate::error::{failure, Error, Result};
use crate::format::demuxer::{Demuxer, DemuxerHeader, SeekFlags, Stream};
use crate::format::io::{
    flushed, handed_on, read_failed, read_whole, unless_taken, went, BufferedIo, Call, IoContext,
};
use crate::format::muxer::Muxer;

verus! {

/// Most bytes that a format is recognized by.
pub const MAX_PROBE_SIZE: u64 = 4096;

/// How many bytes of a file its format is recognized by: all of a short file, and as many as possible
/// where its size is not known.
pub open spec fn probe_size_spec(file_size: Option<u64>) -> int {
    match file_size {
        Some(n) => if n < MAX_PROBE_SIZE {
            n as int
        } else {
            MAX_PROBE_SIZE as int
        },
        None => MAX_PROBE_SIZE as int,
    }
}

/// How many bytes of a file its format is recognized by.
pub fn probe_size(file_size: Option<u64>) -> (r: usize)
    ensures
        r == probe_size_spec(file_size),
{
    match file_size {
        Some(n) => if n < MAX_PROBE_SIZE {
            n as usize
        } else {
            4096
        },
        None => 4096,
    }
}

/// Whether the source was sent to its start behind a read of the next `n` bytes that left `m`.
pub open spec fn probed_after<T: IoContext>(
    a: BufferedIo<T>,
    m: BufferedIo<T>,
    b: BufferedIo<T>,
    n: int,
    place: Result<u64>,
    r: Result<Vec<u8>>,
) -> bool {
    &&& read_whole(a, m, n)
    &&& went(m, b, 0, place)
    &&& match place {
        Ok(_) => r matches Ok(v) && v@ == handed_on(a.traffic(), m.traffic()),
        Err(e) => r matches Err(x) && x == e,
    }
}

/// Whether the next `n` bytes of a source were read, and the source then sent back to its start, where
/// all that can be done: the source before and after that, and the result. Where the bytes cannot be
/// read, or what waits to be written cannot be written, the source is not sent back.
pub open spec fn probed<T: IoContext>(
    a: BufferedIo<T>,
    b: BufferedIo<T>,
    n: int,
    r: Result<Vec<u8>>,
) -> bool {
    ||| r matches Err(e) && read_failed(a, b, n, e)
    ||| exists|m: BufferedIo<T>, place: Result<u64>| #[trigger] probed_after(a, m, b, n, place, r)
}

/// Reads what the format of a file of a given size is recognized by, and goes back to its start.
pub fn read_probe_of<T: IoContext>(io: &mut BufferedIo<T>, size: Option<u64>) -> (r: Result<Vec<u8>>)
    requires
        old(io).wf(),
    ensures
        final(io).wf(),
        unless_taken(*old(io), *final(io), r),
        old(io).is_live() ==> probed(*old(io), *final(io), probe_size_spec(size), r),
{
    let wanted: usize = probe_size(size);
    match io.read_bytes(wanted) {
        Err(e) => Err(e),
        Ok(v) => {
            let ghost m = *io;
            let place = io.seek(0);
            let r = match place {
                Err(e) => Err(e),
                Ok(_) => Ok(v),
            };
            assert(probed_after(*old(io), m, *io, wanted as int, place, r));
            r
        },
    }
}

/// Whether a source was asked for its size and then probed by as much as the answer gives: the source
/// before that, behind the answer and at the end, and the result.
pub open spec fn probed_by_size<T: IoContext>(
    a: BufferedIo<T>,
    m: BufferedIo<T>,
    b: BufferedIo<T>,
    answer: Result<u64>,
    r: Result<Vec<u8>>,
) -> bool {
    &&& m.calls() == a.calls().push(Call::Size { size: answer })
    &&& m.traffic() == a.traffic()
    &&& probed(
        m,
        b,
        probe_size_spec(
            match answer {
                Ok(n) => Some(n),
                Err(_) => None,
            },
        ),
        r,
    )
}

/// Reads what the format of a file is recognized by, and goes back to its start. How much that is, the
/// size decides that the source gives.
pub fn read_probe<T: IoContext>(io: &mut BufferedIo<T>) -> (r: Result<Vec<u8>>)
    requires
        old(io).wf(),
    ensures
        final(io).wf(),
        unless_taken(*old(io), *final(io), r),
        old(io).is_live() ==> exists|m: BufferedIo<T>, answer: Result<u64>| #[trigger]
            probed_by_size(*old(io), m, *final(io), answer, r),
{
    let answer = io.size();
    let ghost m = *io;
    let size = match answer {
        Ok(n) => Some(n),
        Err(_) => None,
    };
    let r = read_probe_of(io, size);
    proof {
        if old(io).is_live() {
            assert(probed_by_size(*old(io), m, *io, answer, r));
        }
    }
    r
}

/// A reader of a container, and its source.
pub struct Opened<D, T> {
    demuxer: D,
    io: BufferedIo<T>,
}

impl<D: Demuxer<T>, T: IoContext> Opened<D, T> {
    /// The reader of the container.
    pub closed spec fn reader(&self) -> D {
        self.demuxer
    }

    /// The source.
    pub closed spec fn source(&self) -> BufferedIo<T> {
        self.io
    }
}

/// A file that is read.
pub struct InputContext<D, T> {
    pub opened: Opened<D, T>,
    pub streams: Vec<Stream>,
    pub metadata: Metadata,
    pub duration: i64,
    pub start_time: i64,
}

/// Whether a context holds what a header holds.
pub open spec fn holds_header<D: Demuxer<T>, T: IoContext>(
    c: InputContext<D, T>,
    h: DemuxerHeader,
) -> bool {
    &&& c.streams == h.streams
    &&& c.metadata == h.metadata
    &&& c.duration == h.duration
    &&& c.start_time == h.start_time
}

impl<D: Demuxer<T>, T: IoContext> InputContext<D, T> {
    /// The reader of the container.
    pub open spec fn reader(&self) -> D {
        self.opened.reader()
    }

    /// The source.
    pub open spec fn source(&self) -> BufferedIo<T> {
        self.opened.source()
    }

    /// Whether the source is consistent.
    pub open spec fn wf(&self) -> bool {
        self.source().wf()
    }

    /// Reads the header of a file whose format is known.
    pub fn open_with(demuxer: D, io: BufferedIo<T>) -> (r: Result<InputContext<D, T>>)
        requires
            io.wf(),
        ensures
            match r {
                Ok(c) => c.wf() && exists|h: DemuxerHeader| #[trigger]
                    holds_header(c, h) && demuxer.header_read(io, c.reader(), c.source(), Ok(h)),
                Err(e) => exists|d: D, io1: BufferedIo<T>| #[trigger]
                    demuxer.header_read(io, d, io1, Err(e)),
            },
    {
        let mut reader = demuxer;
        let mut source = io;
        match reader.read_header(&mut source) {
            Err(e) => Err(e),
            Ok(header) => {
                let c = InputContext::around(reader, source, header);
                assert(holds_header(c, header));
                Ok(c)
            },
        }
    }

    /// A file whose header has been read.
    pub fn around(demuxer: D, io: BufferedIo<T>, header: DemuxerHeader) -> (r: InputContext<D, T>)
        requires
            io.wf(),
        ensures
            r.wf(),
            r.reader() == demuxer,
            r.source() == io,
            holds_header(r, header),
    {
        InputContext {
            opened: Opened { demuxer, io },
            streams: header.streams,
            metadata: header.metadata,
            duration: header.duration,
            start_time: header.start_time,
        }
    }

    /// Reads the next packet.
    pub fn read_packet(&mut self) -> (r: Result<Packet>)
        requires
            old(self).wf(),
        ensures
            final(self).wf(),
            old(self).reader().packet_read(
                old(self).source(),
                final(self).reader(),
                final(self).source(),
                r,
            ),
            final(self).streams == old(self).streams,
            final(self).metadata == old(self).metadata,
            final(self).duration == old(self).duration,
            final(self).start_time == old(self).start_time,
    {
        self.opened.demuxer.read_packet(&mut self.opened.io)
    }

    /// Goes to a timestamp of a stream.
    pub fn seek(&mut self, stream_index: usize, timestamp: i64, flags: SeekFlags) -> (r: Result<()>)
        requires
            old(self).wf(),
        ensures
            final(self).wf(),
            old(self).reader().sought(
                old(self).source(),
                stream_index,
                timestamp,
                flags,
                final(self).reader(),
                final(self).source(),
                failure(r),
            ),
            final(self).streams == old(self).streams,
            final(self).metadata == old(self).metadata,
            final(self).duration == old(self).duration,
            final(self).start_time == old(self).start_time,
    {
        self.opened.demuxer.seek(&mut self.opened.io, stream_index, timestamp, flags)
    }

    /// A stream.
    pub fn stream(&self, index: usize) -> (r: Option<&Stream>)
        ensures
            match r {
                Some(s) => index < self.streams@.len() && *s == self.streams@[index as int],
                None => index >= self.streams@.len(),
            },
    {
        if index < self.streams.len() {
            Some(&self.streams[index])
        } else {
            None
        }
    }

    /// Number of streams.
    pub fn nb_streams(&self) -> (r: usize)
        ensures
            r == self.streams@.len(),
    {
        self.streams.len()
    }
}

/// A file that is written.
pub struct OutputContext<M, T> {
    muxer: M,
    io: BufferedIo<T>,
}

/// Whether the end of a file was written and then everything that waited: the writer and the sink
/// before and after that, and the result. Where the end cannot be written, nothing else is done.
pub open spec fn ended<M: Muxer<T>, T: IoContext>(
    m0: M,
    io0: BufferedIo<T>,
    m1: M,
    io1: BufferedIo<T>,
    r: Result<()>,
) -> bool {
    ||| r is Err && m0.trailer_written(io0, m1, io1, failure(r))
    ||| exists|io: BufferedIo<T>| #[trigger]
        m0.trailer_written(io0, m1, io, None) && unless_taken(io, io1, r) && (io.is_live()
            ==> flushed(io, io1, r))
}

impl<M: Muxer<T>, T: IoContext> OutputContext<M, T> {
    /// The writer of the container.
    pub closed spec fn writer(&self) -> M {
        self.muxer
    }

    /// The sink.
    pub closed spec fn sink(&self) -> BufferedIo<T> {
        self.io
    }

    /// Whether the sink is consistent.
    pub open spec fn wf(&self) -> bool {
        self.sink().wf()
    }

    /// Writes the header of a file.
    pub fn create_with(muxer: M, io: BufferedIo<T>, streams: &[Stream]) -> (r: Result<
        OutputContext<M, T>,
    >)
        requires
            io.wf(),
        ensures
            match r {
                Ok(c) => c.wf() && muxer.header_written(io, streams@, c.writer(), c.sink(), None),
                Err(e) => exists|m: M, io1: BufferedIo<T>| #[trigger]
                    muxer.header_written(io, streams@, m, io1, Some(e)),
            },
    {
        let mut writer = muxer;
        let mut sink = io;
        let r = writer.write_header(&mut sink, streams);
        match r {
            Err(e) => Err(e),
            Ok(()) => Ok(OutputContext { muxer: writer, io: sink }),
        }
    }

    /// Writes a packet.
    pub fn write_packet(&mut self, packet: &Packet) -> (r: Result<()>)
        requires
            old(self).wf(),
        ensures
            final(self).wf(),
            old(self).writer().packet_written(
                old(self).sink(),
                *packet,
                final(self).writer(),
                final(self).sink(),
                failure(r),
            ),
    {
        self.muxer.write_packet(&mut self.io, packet)
    }

    /// Writes the end of the file and everything that waits to be written. The context is left as it is
    /// then.
    pub fn end(&mut self) -> (r: Result<()>)
        requires
            old(self).wf(),
        ensures
            final(self).wf(),
            ended(
                old(self).writer(),
                old(self).sink(),
                final(self).writer(),
                final(self).sink(),
                r,
            ),
            r is Ok ==> final(self).sink().is_live() && final(self).sink().traffic().waiting.len()
                == 0,
    {
        let r = self.muxer.write_trailer(&mut self.io);
        match r {
            Err(e) => Err(e),
            Ok(()) => self.io.flush(),
        }
    }

    /// Writes the end of the file and everything that waits to be written.
    pub fn finish(self) -> (r: Result<()>)
        requires
            self.wf(),
        ensures
            exists|m: M, io: BufferedIo<T>| #[trigger]
                ended(self.writer(), self.sink(), m, io, r) && (r is Ok ==> io.is_live()
                    && io.traffic().waiting.len() == 0),
    {
        let mut context = self;
        let r = context.end();
        assert(ended(self.writer(), self.sink(), context.writer(), context.sink(), r));
        r
    }
}

} // verus!

use std::sync::{Arc, Mutex};

use wedeo::common::codec_id::CodecId;
use wedeo::common::media_type::MediaType;
use wedeo::common::packet::Packet;
use wedeo::common::rational::Rational;
use wedeo::codec::decoder::CodecParameters;
use wedeo::common::metadata::Metadata;
use wedeo::error::{Error, IoKind, Result};
use wedeo::filter::graph::{FilterGraph, FilterLinkConfig};
use wedeo::filter::registry::find_filter_by_name;
use wedeo::filter::{FilterDescriptor, FilterFlags};
use wedeo::format::bytes::{be_number, le_number, to_be, to_le};
use wedeo::format::context::{probe_size, read_probe, read_probe_of, InputContext, OutputContext};
use wedeo::format::demuxer::{
    Demuxer, DemuxerHeader, Discard, InputFormatDescriptor, InputFormatFlags, SeekFlags, Stream,
};
use wedeo::format::io::{read_tag, BufferedIo, IoContext, SeekFrom, Source, DEFAULT_BUF_SIZE};
use wedeo::format::muxer::{Muxer, OutputFormatDescriptor, OutputFormatFlags};
use wedeo::format::protocol::{choose_opening, scheme_of, Opening, ProtocolFlags};
use wedeo::format::registry::{
    find_demuxer_by_name, find_muxer_by_name, guess_muxer_by_extension, probe, Probed,
};
use wedeo::resample::{Quality, Resampler};

/// Bytes in memory, given out in small pieces.
struct Memory {
    bytes: Vec<u8>,
    pos: usize,
    piece: usize,
    seekable: bool,
    refuse: bool,
}

impl Memory {
    fn of(bytes: Vec<u8>) -> Memory {
        Memory { bytes, pos: 0, piece: 7, seekable: true, refuse: false }
    }
}

impl IoContext for Memory {
    fn read(&mut self, buf: &mut [u8]) -> Result<usize> {
        let n = self.piece.min(buf.len()).min(self.bytes.len().saturating_sub(self.pos));
        buf[..n].copy_from_slice(&self.bytes[self.pos..self.pos + n]);
        self.pos += n;
        Ok(n)
    }

    fn write(&mut self, buf: &[u8]) -> Result<usize> {
        if self.refuse {
            return Ok(0);
        }
        let n = self.piece.min(buf.len());
        self.bytes.extend_from_slice(&buf[..n]);
        Ok(n)
    }

    fn seek(&mut self, pos: SeekFrom) -> Result<u64> {
        self.pos = match pos {
            SeekFrom::Start(n) => n as usize,
            SeekFrom::Current(n) => (self.pos as i64 + n) as usize,
            SeekFrom::End(n) => (self.bytes.len() as i64 + n) as usize,
        };
        Ok(self.pos as u64)
    }

    fn tell(&mut self) -> Result<u64> {
        Ok(self.pos as u64)
    }

    fn size(&mut self) -> Result<u64> {
        Ok(self.bytes.len() as u64)
    }

    fn is_seekable(&self) -> bool {
        self.seekable
    }
}

#[test]
fn numbers_are_read_in_both_orders() {
    let bytes: Vec<u8> = (1..=40).collect();
    let mut io = BufferedIo::new(Memory::of(bytes));
    assert_eq!(io.read_u8(), Ok(1));
    assert_eq!(io.read_u16le(), Ok(0x0302));
    assert_eq!(io.read_u16be(), Ok(0x0405));
    assert_eq!(io.read_u32le(), Ok(0x09080706));
    assert_eq!(io.read_u32be(), Ok(0x0A0B0C0D));
    assert_eq!(io.read_i32le(), Ok(0x11100F0E));
    assert_eq!(io.read_u64le(), Ok(0x1918171615141312));
    assert_eq!(io.read_u64be(), Ok(0x1A1B1C1D1E1F2021));
    assert_eq!(io.tell(), Ok(33));
    assert_eq!(read_tag(&mut io), Ok([34, 35, 36, 37]));
    assert_eq!(io.read_u32le(), Err(Error::Eof));
    let mut negative = BufferedIo::new(Memory::of(vec![0xFE, 0xFF, 0xFF, 0xFF]));
    assert_eq!(negative.read_i32le(), Ok(-2));
}

#[test]
fn short_reads_give_what_there_is() {
    let mut io = BufferedIo::new(Memory::of(vec![9; 20]));
    assert_eq!(io.read_up_to(15).unwrap().len(), 15);
    assert_eq!(io.read_up_to(15), Ok(vec![9; 5]));
    assert_eq!(io.read_up_to(15), Ok(vec![]));
    assert_eq!(io.read_bytes(1), Err(Error::Eof));
    let mut io = BufferedIo::new(Memory::of(vec![1, 2, 3]));
    let mut buf = [8u8; 5];
    assert_eq!(io.read_exact(&mut buf), Err(Error::Eof));
    assert_eq!(buf, [1, 2, 3, 8, 8]);
}

#[test]
fn bytes_are_skipped() {
    for seekable in [true, false] {
        let mut m = Memory::of((0..100).collect());
        m.seekable = seekable;
        let mut io = BufferedIo::new(m);
        assert_eq!(io.is_seekable(), seekable);
        assert_eq!(io.read_u8(), Ok(0));
        io.skip(3).unwrap();
        assert_eq!(io.read_u8(), Ok(4));
        io.skip(60).unwrap();
        assert_eq!(io.read_u8(), Ok(65));
    }
    let mut m = Memory::of(vec![0; 10]);
    m.seekable = false;
    assert_eq!(BufferedIo::new(m).skip(11), Err(Error::Eof));
}

#[test]
fn written_numbers_reach_the_sink() {
    let mut io = BufferedIo::new(Memory::of(Vec::new()));
    io.write_u8(1).unwrap();
    io.write_u16le(0x0302).unwrap();
    io.write_u16be(0x0405).unwrap();
    io.write_u32le(0x09080706).unwrap();
    io.write_u32be(0x0A0B0C0D).unwrap();
    io.write_u64le(0x1514131211100F0E).unwrap();
    assert_eq!(io.tell(), Ok(21));
    io.write_bytes(&[22, 23]).unwrap();
    io.flush().unwrap();
    let Source::Live(m) = io.take_inner() else { panic!("the source is gone") };
    assert_eq!(m.bytes, (1..=23).collect::<Vec<u8>>());
    assert_eq!(
        io.read_u8(),
        Err(Error::Other("I/O context has been taken".to_string()))
    );
    let mut rest = io.take_inner();
    assert!(matches!(rest, Source::Dead(_)));
    let taken = || Error::Other("I/O context has been taken".to_string());
    assert_eq!(rest.read(&mut [0]), Err(taken()));
    assert_eq!(rest.write(&[0]), Err(taken()));
    assert_eq!(rest.seek(SeekFrom::Start(0)), Err(taken()));
    assert_eq!(rest.tell(), Err(taken()));
    assert_eq!(rest.size(), Err(taken()));
    assert!(!rest.is_seekable());
    assert!(!io.is_seekable());
    assert_eq!(io.write_bytes(&[0]), Err(taken()));
    assert_eq!(io.write_u8(7), Err(taken()));
    assert_eq!(io.write_u64le(7), Err(taken()));
    assert_eq!(io.write_all(&[]), Err(taken()));
    assert_eq!(io.read_bytes(0), Err(taken()));
    assert_eq!(io.read_up_to(0), Err(taken()));
    assert_eq!(io.read_exact(&mut []), Err(taken()));
    assert_eq!(io.skip(0), Err(taken()));
    assert_eq!(io.flush(), Err(taken()));
    assert_eq!(io.seek(0), Err(taken()));
    assert_eq!(io.size(), Err(taken()));
    assert_eq!(io.tell(), Err(taken()));
}

#[test]
fn full_buffer_is_handed_on() {
    let mut io = BufferedIo::new(Memory::of(Vec::new()));
    let data: Vec<u8> = (0..DEFAULT_BUF_SIZE + 10).map(|i| i as u8).collect();
    io.write_all(&data).unwrap();
    let at = io.seek(5).unwrap();
    assert_eq!(at, 5);
    assert_eq!(io.size(), Ok(data.len() as u64));
    assert_eq!(io.read_u8(), Ok(5));
    assert!(matches!(io.take_inner(), Source::Live(m) if m.bytes == data));
}

#[test]
fn sink_that_takes_nothing_is_an_error() {
    let mut m = Memory::of(Vec::new());
    m.refuse = true;
    let mut io = BufferedIo::new(m);
    io.write_u8(1).unwrap();
    assert_eq!(io.flush(), Err(Error::Io(IoKind::WriteZero)));
}

#[test]
fn numbers_and_bytes() {
    assert_eq!(to_le(0x010203, 4), vec![3, 2, 1, 0]);
    assert_eq!(to_be(0x010203, 3), vec![1, 2, 3]);
    assert_eq!(le_number(&[3, 2, 1]), 0x010203);
    assert_eq!(be_number(&[1, 2, 3]), 0x010203);
    assert_eq!(be_number(&to_be(u64::MAX, 8)), u64::MAX);
}

#[test]
fn probing_reads_the_start() {
    assert_eq!(probe_size(Some(10)), 10);
    assert_eq!(probe_size(Some(1 << 40)), 4096);
    assert_eq!(probe_size(None), 4096);
    let mut io = BufferedIo::new(Memory::of((0..50).collect()));
    assert_eq!(read_probe(&mut io), Ok((0..50).collect::<Vec<u8>>()));
    assert_eq!(io.read_u8(), Ok(0));
}

#[test]
fn best_score_wins() {
    let p = |score, priority| Probed { score, priority };
    assert_eq!(probe(&[p(50, 100), p(100, 50), p(100, 100), p(100, 100)]), Some(2));
    assert_eq!(probe(&[p(0, 100), p(-1, 50)]), None);
    assert_eq!(probe(&[]), None);
}

fn output(name: &'static str, extensions: &'static str) -> OutputFormatDescriptor {
    OutputFormatDescriptor {
        name,
        long_name: name,
        extensions,
        mime_types: "",
        flags: OutputFormatFlags::empty(),
        audio_codec: CodecId::PcmS16le,
        video_codec: CodecId::Unknown,
    }
}

#[test]
fn formats_are_found() {
    let all = [output("mov", "mov, mp4 ,m4a"), output("wav", "wav")];
    assert_eq!(guess_muxer_by_extension(&all, "MP4"), Some(0));
    assert_eq!(guess_muxer_by_extension(&all, "m4a"), Some(0));
    assert_eq!(guess_muxer_by_extension(&all, "Wav"), Some(1));
    assert_eq!(guess_muxer_by_extension(&all, "wa"), None);
    assert_eq!(find_muxer_by_name(&all, "wav"), Some(1));
    assert_eq!(find_muxer_by_name(&all, "WAV"), None);
    let inputs = [InputFormatDescriptor {
        name: "wav",
        long_name: "",
        extensions: "wav",
        mime_types: "",
        flags: InputFormatFlags::empty(),
        priority: 100,
    }];
    assert_eq!(find_demuxer_by_name(&inputs, "wav"), Some(0));
    assert_eq!(Discard::Nothing.number(), -16);
}

#[test]
fn addresses_choose_protocols() {
    assert_eq!(scheme_of("http://a://b"), "http");
    assert_eq!(scheme_of("dir/file.mp4"), "file");
    assert_eq!(scheme_of("a:/b"), "file");
    assert_eq!(scheme_of("://x"), "");
    let names = ["rtp", "http"];
    assert_eq!(
        choose_opening(&names, "http://a", ProtocolFlags::read_only()),
        Opening::Registered(1)
    );
    assert_eq!(choose_opening(&names, "x", ProtocolFlags::read_write()), Opening::CreateFile);
    assert_eq!(choose_opening(&names, "ftp://x", ProtocolFlags::read_only()), Opening::OpenFile);
}

struct Counter {
    left: u8,
}

impl Demuxer<Memory> for Counter {
    fn read_header(&mut self, io: &mut BufferedIo<Memory>) -> Result<DemuxerHeader> {
        self.left = io.read_u8()?;
        Ok(DemuxerHeader {
            streams: vec![Stream::new(0, CodecParameters::new(CodecId::PcmU8, MediaType::Audio))],
            metadata: Metadata::new(),
            duration: self.left as i64,
            start_time: 0,
        })
    }

    fn read_packet(&mut self, io: &mut BufferedIo<Memory>) -> Result<Packet> {
        Ok(Packet::from_slice(&[io.read_u8()?]))
    }

    fn seek(&mut self, io: &mut BufferedIo<Memory>, _: usize, t: i64, _: SeekFlags) -> Result<()> {
        io.seek(t as u64 + 1)?;
        Ok(())
    }
}

impl<T: IoContext> Muxer<T> for Counter {
    fn write_header(&mut self, io: &mut BufferedIo<T>, streams: &[Stream]) -> Result<()> {
        io.write_u8(streams.len() as u8)
    }

    fn write_packet(&mut self, io: &mut BufferedIo<T>, packet: &Packet) -> Result<()> {
        io.write_bytes(packet.data.data())
    }

    fn write_trailer(&mut self, io: &mut BufferedIo<T>) -> Result<()> {
        if self.left == 99 {
            return Err(Error::Bug);
        }
        io.write_u8(255)
    }
}

/// Bytes that the test can look at while they are written.
struct Shared(Arc<Mutex<Vec<u8>>>);

impl IoContext for Shared {
    fn read(&mut self, _: &mut [u8]) -> Result<usize> {
        Ok(0)
    }

    fn write(&mut self, buf: &[u8]) -> Result<usize> {
        self.0.lock().unwrap().extend_from_slice(buf);
        Ok(buf.len())
    }

    fn seek(&mut self, _: SeekFrom) -> Result<u64> {
        Err(Error::Io(IoKind::NotSeekable))
    }

    fn tell(&mut self) -> Result<u64> {
        Ok(self.0.lock().unwrap().len() as u64)
    }

    fn size(&mut self) -> Result<u64> {
        self.tell()
    }

    fn is_seekable(&self) -> bool {
        false
    }
}

#[test]
fn files_are_read_and_written() {
    let io = BufferedIo::new(Memory::of(vec![3, 10, 20, 30]));
    let mut c = InputContext::open_with(Counter { left: 0 }, io).unwrap();
    assert_eq!(c.nb_streams(), 1);
    assert_eq!(c.duration, 3);
    assert!(c.stream(1).is_none());
    assert_eq!(c.stream(0).unwrap().discard, Discard::Default);
    assert_eq!(c.read_packet().unwrap().data.data(), &[10]);
    c.seek(0, 2, SeekFlags::empty()).unwrap();
    assert_eq!(c.read_packet().unwrap().data.data(), &[30]);
    assert_eq!(c.read_packet().err(), Some(Error::Eof));
    let bytes = Arc::new(Mutex::new(Vec::new()));
    let io = BufferedIo::new(Shared(bytes.clone()));
    let mut out = OutputContext::create_with(Counter { left: 0 }, io, &[]).unwrap();
    out.write_packet(&Packet::from_slice(&[7, 8])).unwrap();
    assert_eq!(*bytes.lock().unwrap(), vec![]);
    out.finish().unwrap();
    assert_eq!(*bytes.lock().unwrap(), vec![0, 7, 8, 255]);
}

#[test]
fn nothing_is_flushed_behind_a_failed_trailer() {
    let bytes = Arc::new(Mutex::new(Vec::new()));
    let io = BufferedIo::new(Shared(bytes.clone()));
    let mut out = OutputContext::create_with(Counter { left: 99 }, io, &[]).unwrap();
    out.write_packet(&Packet::from_slice(&[7])).unwrap();
    assert_eq!(out.end(), Err(Error::Bug));
    assert_eq!(*bytes.lock().unwrap(), vec![]);
    assert_eq!(out.finish(), Err(Error::Bug));
}

#[test]
fn probing_asks_for_as_much_as_there_is() {
    let mut io = BufferedIo::new(Memory::of((0..100).collect()));
    assert_eq!(read_probe_of(&mut io, Some(5)), Ok(vec![0, 1, 2, 3, 4]));
    assert_eq!(io.read_u8(), Ok(0));
    assert_eq!(read_probe_of(&mut io, None), Err(Error::Eof));
    let mut io = BufferedIo::new(Shared(Arc::new(Mutex::new(Vec::new()))));
    assert_eq!(read_probe_of(&mut io, Some(0)), Err(Error::Io(IoKind::NotSeekable)));
    io.take_inner();
    assert!(read_probe(&mut io).is_err());
}

#[test]
fn second_flush_writes_nothing() {
    let bytes = Arc::new(Mutex::new(Vec::new()));
    let mut io = BufferedIo::new(Shared(bytes.clone()));
    io.write_u16be(0x0102).unwrap();
    io.write_u8(3).unwrap();
    io.flush().unwrap();
    assert_eq!(*bytes.lock().unwrap(), vec![1, 2, 3]);
    io.flush().unwrap();
    assert_eq!(*bytes.lock().unwrap(), vec![1, 2, 3]);
}

#[test]
fn graphs_list_their_links() {
    let mut g: FilterGraph<u32> = FilterGraph::new();
    let a = g.add_node("a".to_string(), 1);
    let b = g.add_node("b".to_string(), 2);
    let config = FilterLinkConfig { media_type: MediaType::Audio, time_base: Rational::new(1, 1) };
    assert_eq!(g.add_link(a, 0, b, 0, config.clone()), 0);
    assert_eq!(g.add_link(b, 0, b, 1, config), 1);
    assert_eq!((g.nb_nodes(), g.nb_links()), (2, 2));
    let f = [FilterDescriptor {
        name: "scale",
        description: "",
        inputs: &[],
        outputs: &[],
        flags: FilterFlags::empty(),
    }];
    assert_eq!(find_filter_by_name(&f, "scale"), Some(0));
    assert_eq!(find_filter_by_name(&f, "crop"), None);
}

#[test]
fn samples_come_in_chunks() {
    let mut r = Resampler::<i32>::new(48000, 16000, 2).unwrap();
    let input: Vec<i32> = (0..6000).collect();
    r.accept(&input).unwrap();
    assert_eq!(r.next_chunk().unwrap(), (0..2048).collect::<Vec<i32>>());
    assert_eq!(r.next_chunk().unwrap(), (2048..4096).collect::<Vec<i32>>());
    assert!(r.next_chunk().is_none());
    let (frames, chunk) = r.start_flush(-1).unwrap();
    assert_eq!(frames, 952);
    assert_eq!(chunk.len(), 2048);
    assert_eq!(chunk[1903], 5999);
    assert_eq!(chunk[1904], -1);
    assert_eq!(r.output_frames_estimate(3000), 1000);
    assert_eq!(r.output_frames_estimate(952), 318);
    assert_eq!(r.tail_samples(342, 684, 952), 636);
    assert_eq!(r.tail_samples(10, 684, 952), 20);
    assert_eq!(r.tail_samples(342, 9, 952), 8);
    assert_eq!((r.from_rate(), r.to_rate(), r.channels()), (48000, 16000, 2));
    assert_ne!(Quality::Fast, Quality::High);
}

#[test]
fn reads_follow_the_stream_however_it_is_cut() {
    let bytes: Vec<u8> = (0..200).collect();
    for piece in [1, 3, 64, 1000] {
        let mut m = Memory::of(bytes.clone());
        m.piece = piece;
        let mut io = BufferedIo::new(m);
        assert_eq!(io.read_up_to(70), Ok(bytes[..70].to_vec()));
        assert_eq!(io.read_bytes(100), Ok(bytes[70..170].to_vec()));
        assert_eq!(io.read_up_to(70), Ok(bytes[170..].to_vec()));
        assert_eq!(io.read_bytes(1), Err(Error::Eof));
        assert_eq!(io.read_bytes(0), Ok(vec![]));
    }
}

use std::cmp::Ordering;

use wedeo::common::buffer::{Buffer, INPUT_BUFFER_PADDING_SIZE};
use wedeo::common::channel_layout::{Channel, ChannelLayout, ChannelOrder};
use wedeo::common::chroma_location::ChromaLocation;
use wedeo::common::codec_id::CodecId;
use wedeo::common::color_primaries::ColorPrimaries;
use wedeo::common::color_trc::ColorTransferCharacteristic;
use wedeo::common::frame::{ColorSpace, Frame, FrameFlags, PictureType};
use wedeo::common::frame_side_data::{FrameSideData, FrameSideDataType};
use wedeo::common::log::{LogLevel, Severity};
use wedeo::common::media_type::MediaType;
use wedeo::common::metadata::Metadata;
use wedeo::common::packet::{Packet, PacketFlags, PacketSideDataType};
use wedeo::common::pixel_format::{PixelFormat, PixelFormatFlags};
use wedeo::common::rational::{
    cmp_q, gcd, reduce, rescale, rescale_q, rescale_q_rnd, rescale_rnd, Rational, Rounding,
    ROUND_PASS_MINMAX,
};
use wedeo::common::sample_format::SampleFormat;
use wedeo::common::text::{parse_i64, push_decimal, same_text};
use wedeo::common::timestamp::{time_base_q, NOPTS_VALUE, TIME_BASE};
use wedeo::error::{Error, IoKind};

const BUFFER_ALIGN: usize = 64;

#[test]
fn test_buffer_new() {
    let buf = Buffer::new(1024);
    assert_eq!(buf.size(), 1024);
    assert_eq!(buf.data().len(), 1024);
    assert!(buf.data().iter().all(|&b| b == 0));
}

#[test]
fn test_buffer_from_slice() {
    let data = [1u8, 2, 3, 4, 5];
    let buf = Buffer::from_slice(&data);
    assert_eq!(buf.size(), 5);
    assert_eq!(buf.data(), &[1, 2, 3, 4, 5]);
}

#[test]
fn copied_buffer_has_its_own_storage() {
    let a = Buffer::from_slice(&[1, 2, 3]);
    assert!(a.is_writable());
    let mut b = a.copied();
    assert!(a.is_writable() && b.is_writable());
    b.data_mut()[0] = 9;
    assert_eq!((a.data(), b.data()), (&[1u8, 2, 3][..], &[9u8, 2, 3][..]));
}

#[test]
fn test_buffer_cow() {
    let buf1 = Buffer::new(100);
    assert!(buf1.is_writable());
    let buf2 = buf1.clone();
    assert!(!buf1.is_writable());
    assert!(!buf2.is_writable());
    let mut buf3 = buf2.clone();
    buf3.make_writable();
    assert!(buf3.is_writable());
}

#[test]
fn test_buffer_padding() {
    let buf = Buffer::new(10);
    assert!(buf.padded().len() >= 10 + INPUT_BUFFER_PADDING_SIZE);
    assert!(buf.padded()[10..].iter().all(|&b| b == 0));
}

#[test]
fn test_buffer_alignment() {
    let buf = Buffer::new(100);
    let ptr = buf.data().as_ptr() as usize;
    assert_eq!(ptr % BUFFER_ALIGN, 0);
    let buf2 = Buffer::from_slice(&[1, 2, 3]);
    let ptr2 = buf2.data().as_ptr() as usize;
    assert_eq!(ptr2 % BUFFER_ALIGN, 0);
}

#[test]
fn written_buffer_leaves_its_sharers_alone() {
    let a = Buffer::from_slice(&[1, 2, 3]);
    let mut b = a.clone();
    b.data_mut()[1] = 9;
    assert_eq!(b.data(), &[1, 9, 3]);
    assert_eq!(a.data(), &[1, 2, 3]);
    b.data_mut()[0] = 7;
    assert_eq!(b.data(), &[7, 9, 3]);
}

#[test]
fn resized_buffer_keeps_zeroed_padding() {
    let mut b = Buffer::from_slice(&[5; 200]);
    b.resize(3);
    assert_eq!(b.data(), &[5, 5, 5]);
    assert_eq!(b.padded().len(), 3 + INPUT_BUFFER_PADDING_SIZE);
    assert!(b.padded()[3..].iter().all(|&x| x == 0));
    b.resize(6);
    assert_eq!(b.data(), &[5, 5, 5, 0, 0, 0]);
}

#[test]
fn chroma_location_test_default_is_unspecified() {
    assert_eq!(ChromaLocation::default(), ChromaLocation::Unspecified);
}

#[test]
fn chroma_location_test_repr_values() {
    assert_eq!(ChromaLocation::Unspecified.number(), 0);
    assert_eq!(ChromaLocation::Left.number(), 1);
    assert_eq!(ChromaLocation::Center.number(), 2);
    assert_eq!(ChromaLocation::Bottom.number(), 6);
}

#[test]
fn chroma_location_test_display() {
    assert_eq!(ChromaLocation::Left.name(), "left");
    assert_eq!(ChromaLocation::TopLeft.name(), "topleft");
}

#[test]
fn color_primaries_test_default_is_unspecified() {
    assert_eq!(ColorPrimaries::default(), ColorPrimaries::Unspecified);
}

#[test]
fn color_primaries_test_repr_values() {
    assert_eq!(ColorPrimaries::Reserved0.number(), 0);
    assert_eq!(ColorPrimaries::Bt709.number(), 1);
    assert_eq!(ColorPrimaries::Bt2020.number(), 9);
    assert_eq!(ColorPrimaries::Ebu3213.number(), 22);
}

#[test]
fn color_primaries_test_display() {
    assert_eq!(ColorPrimaries::Bt709.name(), "bt709");
    assert_eq!(ColorPrimaries::Unspecified.name(), "unknown");
    assert_eq!(ColorPrimaries::Smpte170m.name(), "smpte170m");
}

#[test]
fn color_trc_test_default_is_unspecified() {
    assert_eq!(
        ColorTransferCharacteristic::default(),
        ColorTransferCharacteristic::Unspecified
    );
}

#[test]
fn color_trc_test_repr_values() {
    assert_eq!(ColorTransferCharacteristic::Reserved0.number(), 0);
    assert_eq!(ColorTransferCharacteristic::Bt709.number(), 1);
    assert_eq!(ColorTransferCharacteristic::Smpte2084.number(), 16);
    assert_eq!(ColorTransferCharacteristic::AribStdB67.number(), 18);
}

#[test]
fn color_trc_test_display() {
    assert_eq!(ColorTransferCharacteristic::Bt709.name(), "bt709");
    assert_eq!(ColorTransferCharacteristic::Unspecified.name(), "unknown");
    assert_eq!(ColorTransferCharacteristic::Gamma22.name(), "bt470m");
    assert_eq!(ColorTransferCharacteristic::Gamma28.name(), "bt470bg");
    assert_eq!(ColorTransferCharacteristic::Log.name(), "log100");
    assert_eq!(ColorTransferCharacteristic::LogSqrt.name(), "log316");
    assert_eq!(ColorTransferCharacteristic::Bt1361Ecg.name(), "bt1361e");
    assert_eq!(ColorTransferCharacteristic::AribStdB67.name(), "arib-std-b67");
    assert_eq!(ColorTransferCharacteristic::Iec61966_2_1.name(), "iec61966-2-1");
}

#[test]
fn test_side_data_type_discriminants() {
    assert_eq!(FrameSideDataType::Panscan.number(), 0);
    assert_eq!(FrameSideDataType::A53Cc.number(), 1);
    assert_eq!(FrameSideDataType::DisplayMatrix.number(), 6);
    assert_eq!(FrameSideDataType::MasteringDisplayMetadata.number(), 11);
    assert_eq!(FrameSideDataType::ContentLightLevel.number(), 14);
    assert_eq!(FrameSideDataType::FilmGrainParams.number(), 21);
    assert_eq!(FrameSideDataType::DoviRpuBuffer.number(), 23);
    assert_eq!(FrameSideDataType::DoviMetadata.number(), 24);
    assert_eq!(FrameSideDataType::DynamicHdrVivid.number(), 25);
    assert_eq!(FrameSideDataType::AmbientViewingEnvironment.number(), 26);
    assert_eq!(FrameSideDataType::VideoHint.number(), 27);
    assert_eq!(FrameSideDataType::Lcevc.number(), 28);
    assert_eq!(FrameSideDataType::ViewId.number(), 29);
    assert_eq!(FrameSideDataType::ThreeDReferenceDisplays.number(), 30);
    assert_eq!(FrameSideDataType::Exif.number(), 31);
}

#[test]
fn test_frame_side_data_creation() {
    let sd = FrameSideData {
        data_type: FrameSideDataType::A53Cc,
        data: vec![0x01, 0x02, 0x03],
    };
    assert_eq!(sd.data_type, FrameSideDataType::A53Cc);
    assert_eq!(sd.data.len(), 3);
}

#[test]
fn test_frame_side_data_clone() {
    let sd = FrameSideData {
        data_type: FrameSideDataType::IccProfile,
        data: vec![0xFF; 100],
    };
    let sd2 = sd.clone();
    assert_eq!(sd2.data_type, FrameSideDataType::IccProfile);
    assert_eq!(sd2.data.len(), 100);
}

#[test]
fn side_data_of_a_type_is_found_and_removed() {
    let mut f = Frame::new_video(2, 2, PixelFormat::Gray8);
    for (t, b) in [
        (FrameSideDataType::Afd, 1),
        (FrameSideDataType::Exif, 2),
        (FrameSideDataType::Afd, 3),
    ] {
        f.add_side_data(FrameSideData { data_type: t, data: vec![b] });
    }
    assert_eq!(f.get_side_data(FrameSideDataType::Afd).unwrap().data, vec![1]);
    f.remove_side_data(FrameSideDataType::Afd);
    assert!(f.get_side_data(FrameSideDataType::Afd).is_none());
    assert_eq!(f.side_data.len(), 1);
    assert_eq!(f.side_data[0].data, vec![2]);
}

#[test]
fn new_frames_are_plain() {
    let mut v = Frame::new_video(16, 8, PixelFormat::Yuv420p);
    assert!(v.is_video() && !v.is_audio());
    assert!(v.audio().is_none());
    assert_eq!(v.pts, NOPTS_VALUE);
    v.video_mut().unwrap().color_space = ColorSpace::Bt709;
    assert_eq!(v.video().unwrap().color_space, ColorSpace::Bt709);
    assert_eq!(v.video().unwrap().picture_type, PictureType::Unknown);
    let mut a = Frame::new_audio(1024, SampleFormat::Fltp, 48000, ChannelLayout::stereo());
    assert!(a.is_audio());
    assert!(a.video_mut().is_none());
    a.audio_mut().unwrap().nb_samples = 5;
    assert_eq!(a.audio().unwrap().nb_samples, 5);
    let b = a.clone();
    assert_eq!(b.audio().unwrap().channel_layout.to_text(), "stereo");
}

#[test]
fn new_packets_are_plain() {
    let p = Packet::new();
    assert_eq!(p.size(), 0);
    assert_eq!((p.pts, p.dts, p.pos), (NOPTS_VALUE, NOPTS_VALUE, -1));
    let q = Packet::from_slice(&[1, 2, 3]);
    assert_eq!(q.size(), 3);
    assert_eq!(q.data.data(), &[1, 2, 3]);
    assert_eq!(PacketSideDataType::Exif.number(), 40);
    assert!(PacketFlags::empty().union(PacketFlags::KEY).contains(PacketFlags::KEY));
    assert!(!PacketFlags::empty().contains(PacketFlags::KEY));
    assert_eq!(FrameFlags::TOP_FIRST, 16);
}

#[test]
fn test_metadata_basic() {
    let mut m = Metadata::new();
    m.set("title", "Test Video");
    m.set("artist", "Wedeo");
    assert_eq!(m.get("title"), Some("Test Video"));
    assert_eq!(m.get("TITLE"), Some("Test Video"));
    assert_eq!(m.len(), 2);
}

#[test]
fn test_metadata_overwrite() {
    let mut m = Metadata::new();
    m.set("title", "First");
    m.set("TITLE", "Second");
    assert_eq!(m.get("title"), Some("Second"));
    assert_eq!(m.len(), 1);
}

#[test]
fn test_metadata_order() {
    let mut m = Metadata::new();
    m.set("b", "2");
    m.set("a", "1");
    m.set("c", "3");
    let keys: Vec<&str> = m.iter().into_iter().map(|(k, _)| k).collect();
    assert_eq!(keys, vec!["b", "a", "c"]);
}

#[test]
fn test_metadata_remove() {
    let mut m = Metadata::new();
    m.set("key", "value");
    assert_eq!(m.remove("KEY"), Some("value".to_string()));
    assert!(m.is_empty());
}

#[test]
fn metadata_keeps_the_first_spelling() {
    let mut m = Metadata::default();
    m.set("Title", "a");
    m.set("tITLE", "b");
    m.set("\u{c4}", "c");
    assert_eq!(m.clone().iter(), vec![("Title", "b"), ("\u{c4}", "c")]);
    assert_eq!(m.get("\u{e4}"), None);
    assert_eq!(m.remove("none"), None);
}

#[test]
fn test_rational_basics() {
    let r = Rational::new(1, 2);
    assert_eq!(r.num as f64 / r.den as f64, 0.5);
    assert_eq!(r.invert(), Rational::new(2, 1));
}

#[test]
fn test_rational_arithmetic() {
    let a = Rational::new(1, 3);
    let b = Rational::new(1, 6);
    let sum = a + b;
    assert_eq!(sum, Rational::new(1, 2));
    let product = Rational::new(2, 3) * Rational::new(3, 4);
    assert_eq!(product, Rational::new(1, 2));
}

#[test]
fn test_rescale_rnd() {
    assert_eq!(rescale(3, 1, 2), 2);
    assert_eq!(rescale_rnd(3, 1, 2, Rounding::Zero, false), 1);
    assert_eq!(rescale_rnd(3, 1, 2, Rounding::Up, false), 2);
    assert_eq!(rescale_rnd(3, 1, 2, Rounding::Down, false), 1);
}

#[test]
fn test_rescale_q() {
    let tb1 = Rational::new(1, 48000);
    let tb2 = Rational::new(1, 1000);
    let result = rescale_q(48000, tb1, tb2);
    assert_eq!(result, 1000);
}

#[test]
fn test_gcd() {
    assert_eq!(gcd(12, 8), 4);
    assert_eq!(gcd(0, 5), 5);
    assert_eq!(gcd(5, 0), 5);
    assert_eq!(gcd(0, 0), 0);
    assert_eq!(gcd(7, 13), 1);
}

#[test]
fn test_reduce() {
    let (n, d, exact) = reduce(6, 4, i32::MAX as i64);
    assert!(exact);
    assert_eq!(n, 3);
    assert_eq!(d, 2);
}

#[test]
fn test_pass_minmax() {
    assert_eq!(rescale_rnd(i64::MIN, 1, 2, Rounding::NearInf, true), i64::MIN);
    assert_eq!(rescale_rnd(i64::MAX, 1, 2, Rounding::NearInf, true), i64::MAX);
}

#[test]
fn rescaling_rounds_by_sign() {
    assert_eq!(rescale_rnd(-3, 1, 2, Rounding::Down, false), -2);
    assert_eq!(rescale_rnd(-3, 1, 2, Rounding::Up, false), -1);
    assert_eq!(rescale_rnd(-3, 1, 2, Rounding::Inf, false), -2);
    assert_eq!(rescale_rnd(-3, 1, 2, Rounding::Zero, false), -1);
    assert_eq!(rescale_rnd(-3, 1, 2, Rounding::NearInf, false), -2);
    assert_eq!(rescale_rnd(i64::MAX, 3, 1, Rounding::Zero, false), i64::MIN);
    assert_eq!(rescale_rnd(5, 1, 0, Rounding::Zero, false), i64::MIN);
    assert_eq!(rescale_rnd(i64::MAX, 7, 7, Rounding::Up, false), i64::MAX);
    assert_eq!(
        rescale_q_rnd(1, Rational::new(1, 3), Rational::new(1, 2), Rounding::Up, false),
        1
    );
    assert_eq!(Rounding::NearInf.value(), 5);
    assert_eq!(ROUND_PASS_MINMAX, 8192);
}

#[test]
fn fractions_are_approximated() {
    assert_eq!(reduce(314159, 100000, 200), (179, 57, false));
    assert_eq!(reduce(-314159, 100000, 1000), (-355, 113, false));
    assert_eq!(reduce(1, 0, 10), (1, 0, true));
    assert_eq!(reduce(5, 3, 0), (0, 1, false));
    let mut r = Rational::new(100, -50);
    assert!(r.reduce(10));
    assert_eq!((r.num, r.den), (-2, 1));
}

#[test]
fn reduced_fractions_are_the_nearest() {
    for (num, den) in [(314159, 100000), (-271828, 100000), (1, 997), (997, 1), (-5, -7), (8, -977)] {
        for max in [1, 2, 7, 20] {
            let (n, d, _) = reduce(num, den, max);
            let (n, d) = (n as i64, d as i64);
            assert!(-max <= n && n <= max && 1 <= d && d <= max);
            for p in -max..=max {
                for q in 1..=max {
                    assert!((num * d - den * n).abs() * q <= (num * q - den * p).abs() * d);
                }
            }
        }
    }
}

#[test]
fn rationals_of_any_sign_are_ordered() {
    let q = Rational::new;
    assert!(q(1, -2) < q(1, 2));
    assert_eq!(q(1, -2), q(-1, 2));
    assert_eq!(q(1, 0), q(2, 0));
    assert!(q(1, 0) > q(-1, 0));
    assert!(q(1, 0) > q(7, -3));
    assert_eq!(q(0, 0).partial_cmp(&q(1, 2)), None);
    assert_eq!(q(1, 0).partial_cmp(&q(0, 0)), None);
}

#[test]
fn rationals_are_ordered() {
    assert!(Rational::new(1, 3) < Rational::new(1, 2));
    assert_eq!(
        Rational::new(1, 2).partial_cmp(&Rational::new(-1, -2)),
        Some(Ordering::Equal)
    );
    assert_eq!(
        Rational::new(1, 0).partial_cmp(&Rational::new(-1, 0)),
        Some(Ordering::Greater)
    );
    assert_eq!(Rational::new(0, 0).partial_cmp(&Rational::new(1, 1)), None);
    assert_eq!(Rational::new(1, 2) - Rational::new(1, 3), Rational::new(1, 6));
    assert_eq!(Rational::new(1, 2) / Rational::new(1, 4), Rational::new(2, 1));
    assert_eq!((-Rational::new(1, 2)).to_text(), "-1/2");
    assert_eq!(Rational::default().den, 0);
    assert_eq!(time_base_q(), Rational::new(1, TIME_BASE));
}

#[test]
fn layouts_have_names() {
    assert_eq!(ChannelLayout::mono().to_text(), "mono");
    assert_eq!(ChannelLayout::surround_5_1().to_text(), "5.1");
    assert_eq!(ChannelLayout::surround_7_1().standard_name(), Some("7.1"));
    assert_eq!(ChannelLayout::unspec(3).to_text(), "3 channels");
    let odd = ChannelLayout {
        order: ChannelOrder::Custom,
        nb_channels: 2,
        channels: vec![Channel::FrontRight, Channel::FrontLeft],
    };
    assert_eq!(odd.to_text(), "FR+FL");
    assert_eq!(Channel::BinauralRight.number(), 62);
}

#[test]
fn masks_become_layouts() {
    let l = ChannelLayout::from_wav_channel_mask(0x3F);
    assert_eq!(l.nb_channels, 6);
    assert_eq!(l.to_text(), "5.1");
    assert_eq!(ChannelLayout::from_wav_channel_mask(0).order, ChannelOrder::Unspec);
    let high = ChannelLayout::from_wav_channel_mask(0x8002_0000);
    assert_eq!(high.channels, vec![Channel::TopBackRight]);
}

#[test]
fn sample_formats_come_in_pairs() {
    assert_eq!(SampleFormat::Fltp.packed(), SampleFormat::Flt);
    assert_eq!(SampleFormat::S64.planar(), SampleFormat::S64p);
    assert!(SampleFormat::U8p.is_planar());
    assert!(!SampleFormat::Unknown.is_planar());
    assert_eq!(SampleFormat::Dblp.bytes_per_sample(), 8);
    assert_eq!(SampleFormat::S16p.name(), "s16p");
    assert_eq!(SampleFormat::Unknown.number(), -1);
}

#[test]
fn codes_and_names() {
    assert_eq!(CodecId::Vp9.number(), 167);
    assert_eq!(CodecId::PcmS16le.name(), "pcm_s16le");
    assert_eq!(CodecId::Opus.number(), 0x1503C);
    assert_eq!(PixelFormat::Yuv420p10le.number(), 90);
    assert_eq!(PixelFormat::Unknown.name(), "none");
    assert_eq!(PixelFormatFlags::ALPHA, 128);
    assert_eq!(MediaType::Subtitle.name(), "subtitle");
    assert_eq!(LogLevel::Quiet.number(), -8);
    assert_eq!(LogLevel::Verbose.to_tracing_level(), Severity::Info);
    assert_eq!(LogLevel::Fatal.to_tracing_level(), Severity::Error);
}

#[test]
fn numbers_are_read_and_written() {
    for n in [0, 7, -1, 1234567890, i64::MAX, i64::MIN] {
        let mut s = String::new();
        push_decimal(&mut s, n);
        assert_eq!(s, n.to_string());
        assert_eq!(parse_i64(&s), Some(n));
    }
    assert_eq!(parse_i64("+5"), Some(5));
    assert_eq!(parse_i64("007"), Some(7));
    for bad in ["", "-", "+", "1a", "--1", " 1", "9223372036854775808", "-9223372036854775809"] {
        assert_eq!(parse_i64(bad), bad.parse().ok());
        assert_eq!(parse_i64(bad), None);
    }
    assert!(same_text("abc", "abc") && !same_text("abc", "abC"));
}

#[test]
fn errors_have_texts() {
    assert_eq!(Error::Eof.message(), "End of file");
    assert_eq!(Error::Io(IoKind::WriteZero).message(), "I/O error: write zero");
    assert_eq!(Error::Other("x".to_string()).message(), "x");
}

#[test]
fn side_and_back_layouts_have_their_own_names() {
    let surround = |last: [Channel; 2]| ChannelLayout {
        order: ChannelOrder::Custom,
        nb_channels: 0,
        channels: vec![
            Channel::FrontLeft,
            Channel::FrontRight,
            Channel::FrontCenter,
            Channel::LowFrequency,
            last[0],
            last[1],
        ],
    };
    let back = surround([Channel::BackLeft, Channel::BackRight]);
    let side = surround([Channel::SideLeft, Channel::SideRight]);
    assert_eq!(back.standard_name(), Some("5.1"));
    assert_eq!(side.standard_name(), Some("5.1(side)"));
}

#[test]
fn named_layouts_are_in_order() {
    let of = |channels: Vec<Channel>| ChannelLayout {
        order: ChannelOrder::Native,
        nb_channels: channels.len() as i32,
        channels,
    };
    let ordered = of(vec![Channel::FrontLeft, Channel::FrontRight]);
    assert_eq!(ordered.standard_name(), Some("stereo"));
    let swapped = of(vec![Channel::FrontRight, Channel::FrontLeft]);
    assert_eq!(swapped.standard_name(), None);
    for layout in [ChannelLayout::surround_5_1(), ChannelLayout::surround_7_1()] {
        assert!(layout.channels.windows(2).all(|w| w[0].number() < w[1].number()));
    }
}

#[test]
fn removed_metadata_leaves_the_rest_in_order() {
    let mut m = Metadata::new();
    for (k, v) in [("Title", "a"), ("Artist", "b"), ("Date", "c")] {
        m.set(k, v);
    }
    assert_eq!(m.remove("genre"), None);
    assert_eq!(m.len(), 3);
    assert_eq!(m.remove("ARTIST"), Some("b".to_string()));
    assert_eq!(m.get("artist"), None);
    assert_eq!(m.iter(), vec![("Title", "a"), ("Date", "c")]);
}

#[test]
fn rationals_are_compared() {
    let q = Rational::new;
    assert_eq!(cmp_q(q(1, -2), q(1, 2)), Some(Ordering::Less));
    assert_eq!(cmp_q(q(1, 2), q(1, -2)), Some(Ordering::Greater));
    assert_eq!(cmp_q(q(1, 0), q(2, 0)), Some(Ordering::Equal));
    assert_eq!(cmp_q(q(0, 0), q(2, 0)), None);
}

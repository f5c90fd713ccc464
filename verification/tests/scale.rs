use wedeo::common::buffer::Buffer;
use wedeo::common::channel_layout::ChannelLayout;
use wedeo::common::chroma_location::ChromaLocation;
use wedeo::common::color_primaries::ColorPrimaries;
use wedeo::common::color_trc::ColorTransferCharacteristic;
use wedeo::common::frame::{
    ColorRange, ColorSpace, Frame, FrameData, FrameFlags, FramePlane, PictureType, VideoFrameData,
};
use wedeo::common::metadata::Metadata;
use wedeo::common::pixel_format::PixelFormat;
use wedeo::common::rational::Rational;
use wedeo::common::sample_format::SampleFormat;
use wedeo::common::timestamp::NOPTS_VALUE;
use wedeo::error::Error;
use wedeo::scale::{convert_frame, Converter};

fn make_i420_frame(w: u32, h: u32, y_val: u8, u_val: u8, v_val: u8) -> Frame {
    let y_size = (w as usize) * (h as usize);
    let uv_w = (w as usize).div_ceil(2);
    let uv_h = (h as usize).div_ceil(2);
    let uv_size = uv_w * uv_h;
    let y_buf = Buffer::from_slice(&vec![y_val; y_size]);
    let u_buf = Buffer::from_slice(&vec![u_val; uv_size]);
    let v_buf = Buffer::from_slice(&vec![v_val; uv_size]);
    let planes = vec![
        FramePlane { buffer: y_buf, offset: 0, linesize: w as usize },
        FramePlane { buffer: u_buf, offset: 0, linesize: uv_w },
        FramePlane { buffer: v_buf, offset: 0, linesize: uv_w },
    ];
    Frame {
        data: FrameData::Video(VideoFrameData {
            planes,
            width: w,
            height: h,
            format: PixelFormat::Yuv420p,
            picture_type: PictureType::I,
            color_range: ColorRange::Mpeg,
            color_space: ColorSpace::Bt709,
            color_primaries: ColorPrimaries::default(),
            color_trc: ColorTransferCharacteristic::default(),
            chroma_location: ChromaLocation::default(),
            sample_aspect_ratio: Rational::new(1, 1),
            crop_top: 0,
            crop_bottom: 0,
            crop_left: 0,
            crop_right: 0,
        }),
        pts: 42,
        pkt_dts: NOPTS_VALUE,
        best_effort_timestamp: NOPTS_VALUE,
        duration: 1024,
        time_base: Rational::new(1, 44100),
        flags: FrameFlags { bits: FrameFlags::KEY },
        repeat_pict: 0,
        metadata: Metadata::new(),
        side_data: Vec::new(),
    }
}

fn make_packed(format: PixelFormat, w: u32, h: u32, bytes: Vec<u8>, linesize: usize) -> Frame {
    let mut f = Frame::new_video(w, h, format);
    f.video_mut().unwrap().planes =
        vec![FramePlane { buffer: Buffer::from_slice(&bytes), offset: 0, linesize }];
    f
}

#[test]
fn noop_same_format() {
    let conv = Converter::new(PixelFormat::Yuv420p, PixelFormat::Yuv420p, 4, 2).unwrap();
    assert!(conv.is_noop());
}

#[test]
fn noop_different_format() {
    let conv = Converter::new(PixelFormat::Yuv420p, PixelFormat::Rgb24, 4, 2).unwrap();
    assert!(!conv.is_noop());
}

#[test]
fn unsupported_format_pair() {
    let result = Converter::new(PixelFormat::Gray8, PixelFormat::Rgb24, 4, 2);
    assert!(result.is_err());
}

#[test]
fn odd_dimensions_rejected_for_yuv420() {
    let result = Converter::new(PixelFormat::Yuv420p, PixelFormat::Rgb24, 3, 2);
    assert!(result.is_err());
    let result = Converter::new(PixelFormat::Yuv420p, PixelFormat::Rgb24, 4, 3);
    assert!(result.is_err());
}

#[test]
fn zero_dimensions_rejected() {
    let result = Converter::new(PixelFormat::Rgb24, PixelFormat::Bgra, 0, 4);
    assert!(result.is_err());
}

#[test]
fn i420_to_rgb24_4x2() {
    let src = make_i420_frame(4, 2, 16, 128, 128);
    let conv = Converter::new(PixelFormat::Yuv420p, PixelFormat::Rgb24, 4, 2).unwrap();
    let dst = conv.convert(&src).unwrap();
    let video = dst.video().unwrap();
    assert_eq!(video.format, PixelFormat::Rgb24);
    assert_eq!(video.width, 4);
    assert_eq!(video.height, 2);
    assert_eq!(video.planes.len(), 1);
    let data = video.planes[0].buffer.data();
    let expected_size = 4 * 2 * 3;
    assert!(data.len() >= expected_size);
    for (i, &byte) in data.iter().enumerate().take(expected_size) {
        assert!(byte <= 2, "pixel byte {i} = {byte}, expected near 0",);
    }
}

#[test]
fn i420_to_rgb24_white() {
    let src = make_i420_frame(4, 2, 235, 128, 128);
    let mut src = src;
    if let Some(v) = src.video_mut() {
        v.color_space = ColorSpace::Smpte170m;
    }
    let conv = Converter::new(PixelFormat::Yuv420p, PixelFormat::Rgb24, 4, 2).unwrap();
    let dst = conv.convert(&src).unwrap();
    let video = dst.video().unwrap();
    let data = video.planes[0].buffer.data();
    for (i, &byte) in data.iter().enumerate().take(4 * 2 * 3) {
        assert!(byte >= 253, "pixel byte {i} = {byte}, expected near 255",);
    }
}

#[test]
fn metadata_preserved() {
    let src = make_i420_frame(4, 2, 16, 128, 128);
    let conv = Converter::new(PixelFormat::Yuv420p, PixelFormat::Rgb24, 4, 2).unwrap();
    let dst = conv.convert(&src).unwrap();
    assert_eq!(dst.pts, 42);
    assert_eq!(dst.duration, 1024);
    assert_eq!(dst.time_base, Rational::new(1, 44100));
    assert_eq!(dst.flags, FrameFlags { bits: FrameFlags::KEY });
    let video = dst.video().unwrap();
    assert_eq!(video.picture_type, PictureType::I);
    assert_eq!(video.color_range, ColorRange::Mpeg);
    assert_eq!(video.color_space, ColorSpace::Bt709);
    assert_eq!(video.sample_aspect_ratio, Rational::new(1, 1));
}

#[test]
fn dimension_mismatch_rejected() {
    let src = make_i420_frame(4, 2, 16, 128, 128);
    let conv = Converter::new(PixelFormat::Yuv420p, PixelFormat::Rgb24, 8, 4).unwrap();
    let result = conv.convert(&src);
    assert!(result.is_err());
}

#[test]
fn convert_frame_convenience() {
    let src = make_i420_frame(4, 2, 16, 128, 128);
    let dst = convert_frame(&src, PixelFormat::Rgba).unwrap();
    let video = dst.video().unwrap();
    assert_eq!(video.format, PixelFormat::Rgba);
    assert_eq!(video.planes.len(), 1);
    assert!(video.planes[0].buffer.data().len() >= 4 * 2 * 4);
}

#[test]
fn noop_convert_preserves_data() {
    let src = make_i420_frame(4, 2, 100, 50, 200);
    let conv = Converter::new(PixelFormat::Yuv420p, PixelFormat::Yuv420p, 4, 2).unwrap();
    let dst = conv.convert(&src).unwrap();
    let sv = src.video().unwrap();
    let dv = dst.video().unwrap();
    assert_eq!(sv.planes.len(), dv.planes.len());
    for (sp, dp) in sv.planes.iter().zip(dv.planes.iter()) {
        assert_eq!(&sp.buffer.data()[sp.offset..], &dp.buffer.data()[dp.offset..]);
    }
}

#[test]
fn colors_are_reordered_with_gaps_skipped() {
    let bytes = vec![1, 2, 3, 4, 5, 6, 0, 0, 7, 8, 9, 10, 11, 12, 0, 0];
    let src = make_packed(PixelFormat::Bgr24, 2, 2, bytes, 8);
    let dst = convert_frame(&src, PixelFormat::Rgb24).unwrap();
    let v = dst.video().unwrap();
    assert_eq!(v.planes[0].linesize, 6);
    assert_eq!(v.planes[0].buffer.data(), &[3, 2, 1, 6, 5, 4, 9, 8, 7, 12, 11, 10]);
}

#[test]
fn gray_becomes_flat_chroma() {
    let src = make_packed(PixelFormat::Bgra, 4, 2, vec![255; 32], 16);
    let dst = convert_frame(&src, PixelFormat::Nv12).unwrap();
    let v = dst.video().unwrap();
    assert_eq!(v.planes.len(), 2);
    assert_eq!((v.planes[0].linesize, v.planes[1].linesize), (4, 4));
    assert_eq!((v.planes[0].buffer.size(), v.planes[1].buffer.size()), (8, 4));
    assert!(v.planes[0].buffer.data().iter().all(|&b| (234..=236).contains(&b)));
    assert!(v.planes[1].buffer.data().iter().all(|&b| (127..=129).contains(&b)));
    let back = convert_frame(&src, PixelFormat::Yuv420p).unwrap();
    assert_eq!(back.video().unwrap().planes[1].linesize, 2);
}

#[test]
fn incomplete_pictures_are_refused() {
    let short = make_packed(PixelFormat::Bgr24, 2, 2, vec![0; 11], 6);
    assert_eq!(
        convert_frame(&short, PixelFormat::Rgb24).err(),
        Some(Error::Other("dcp convert_image failed: Not enough data provided".to_string()))
    );
    let narrow = make_packed(PixelFormat::Bgra, 2, 2, vec![0; 64], 7);
    assert!(convert_frame(&narrow, PixelFormat::Rgb24).is_err());
    let mut few = make_i420_frame(4, 2, 0, 0, 0);
    few.video_mut().unwrap().planes.truncate(2);
    assert_eq!(convert_frame(&few, PixelFormat::Rgb24).err(), Some(Error::InvalidData));
    let mut far = make_i420_frame(4, 2, 0, 0, 0);
    far.video_mut().unwrap().planes[1].offset = 3;
    assert_eq!(convert_frame(&far, PixelFormat::Rgb24).err(), Some(Error::InvalidData));
    let sound = Frame::new_audio(1, SampleFormat::S16, 48000, ChannelLayout::mono());
    assert_eq!(convert_frame(&sound, PixelFormat::Rgb24).err(), Some(Error::InvalidData));
    let rgba = make_packed(PixelFormat::Rgba, 2, 2, vec![0; 16], 8);
    assert_eq!(convert_frame(&rgba, PixelFormat::Rgb24).err(), Some(Error::InvalidArgument));
}

#[test]
fn rows_that_overlap_are_read_as_they_lie() {
    let bytes: Vec<u8> = (0..11).collect();
    let narrow = make_packed(PixelFormat::Bgr24, 2, 2, bytes, 5);
    let out = convert_frame(&narrow, PixelFormat::Rgb24).unwrap();
    let data = out.video().unwrap().planes[0].buffer.data().to_vec();
    assert_eq!(&data[..12], &[2, 1, 0, 5, 4, 3, 7, 6, 5, 10, 9, 8]);
}

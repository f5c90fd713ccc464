use std::sync::Arc;

use wedeo::codec::decoder::{CodecParameters, Decoder};
use wedeo::common::codec_id::CodecId;
use wedeo::common::frame::{FrameFlags, PictureType};
use wedeo::common::media_type::MediaType;
use wedeo::common::packet::Packet;
use wedeo::error::Error;
use wedeo::vp9::block::{decode_sb, TileDecodeContext};
use wedeo::vp9::block_modes::BlockInfo;
use wedeo::vp9::bool_decoder::{norm_shift, BoolDecoder};
use wedeo::vp9::context::{AboveContext, LeftContext};
use wedeo::vp9::data::{Scan, Tables};
use wedeo::vp9::decoder::{vp9_descriptor, Vp9Decoder};
use wedeo::vp9::edge_filter::loop_filter_edge;
use wedeo::vp9::default_probs::default_prob_context;
use wedeo::vp9::header::{decode_frame_header, ColorSpace, FrameType, TxMode};
use wedeo::vp9::idct::{iadst4, idct16, idct32, idct4, idct8, itxfm_add, iwht4};
use wedeo::vp9::inter_pred::{can_predict, inter_pred};
use wedeo::vp9::intra_pred::intra_pred;
use wedeo::vp9::loopfilter::loop_filter_frame;
use wedeo::vp9::mc::{avg_block, chroma_mv, luma_size, mc_luma};
use wedeo::vp9::mvs::{find_ref_mvs, read_mv_component, MvSearchCtx};
use wedeo::vp9::prob::{adapt_probs, CoefProbArray, CountContext};
use wedeo::vp9::quant::{get_ac_quant, get_dc_quant};
use wedeo::vp9::recon::{reconstruct_inter_block, FrameBuffer};
use wedeo::vp9::refs::{MvRefPair, RefFrame, RefStore};
use wedeo::vp9::superframe::parse_superframe;
use wedeo::vp9::tiles::{locate_tiles, tile_sb_offset};
use wedeo::vp9::types::{BlockLevel, BlockSize, CompPredMode, IntraMode, ProbContext, TxSize, TxType};

fn flat_coefs() -> CoefProbArray {
    [[[[[[128u8; 3]; 6]; 6]; 2]; 2]; 4]
}

fn no_probs() -> [ProbContext; 4] {
    [ProbContext::default(), ProbContext::default(), ProbContext::default(), ProbContext::default()]
}

fn raster(n: usize) -> Scan {
    Scan { order: (0..n as i16).collect(), neighbors: vec![[0, 0]; n] }
}

fn tables() -> Tables {
    Tables {
        default_coef: flat_coefs(),
        pareto8: [[128; 8]; 256],
        kf_partition: [[[128; 3]; 4]; 4],
        kf_y_mode: [[[128; 9]; 10]; 10],
        kf_uv_mode: [[128; 9]; 10],
        default_4x4: raster(16),
        col_4x4: raster(16),
        row_4x4: raster(16),
        default_8x8: raster(64),
        col_8x8: raster(64),
        row_8x8: raster(64),
        default_16x16: raster(256),
        col_16x16: raster(256),
        row_16x16: raster(256),
        default_32x32: raster(1024),
        subpel: [[[0, 0, 0, 128, 0, 0, 0, 0]; 16]; 4],
    }
}

struct BitWriter {
    bits: Vec<bool>,
}

impl BitWriter {
    fn put(&mut self, value: u32, n: u32) {
        for i in (0..n).rev() {
            self.bits.push((value >> i) & 1 == 1);
        }
    }

    fn bytes(&self) -> Vec<u8> {
        self.bits
            .chunks(8)
            .map(|c| c.iter().enumerate().fold(0u8, |a, (i, &b)| a | ((b as u8) << (7 - i))))
            .collect()
    }
}

/// A key frame whose entropy-coded parts are zeros: every block takes the first branch everywhere.
fn key_frame(width: u32, height: u32, refresh: u32) -> Vec<u8> {
    let mut w = BitWriter { bits: Vec::new() };
    w.put(0b10, 2);
    w.put(0, 2);
    w.put(0, 1);
    w.put(0, 1);
    w.put(1, 1);
    w.put(0, 1);
    w.put(0x49_83_42, 24);
    w.put(1, 3);
    w.put(0, 1);
    w.put(width - 1, 16);
    w.put(height - 1, 16);
    w.put(0, 1);
    w.put(refresh, 1);
    w.put(0, 1);
    w.put(0, 2);
    w.put(0, 6);
    w.put(0, 3);
    w.put(0, 1);
    w.put(60, 8);
    w.put(0, 3);
    w.put(0, 1);
    w.put(0, 1);
    w.put(8, 16);
    let mut bytes = w.bytes();
    bytes.extend(vec![0u8; 8]);
    bytes.extend(vec![0u8; 64]);
    bytes
}

fn decoder() -> Vp9Decoder {
    Vp9Decoder::new(CodecParameters::new(CodecId::Vp9, MediaType::Video), tables()).unwrap()
}

#[test]
fn test_empty_data_returns_none() {
    assert!(BoolDecoder::new(&[]).is_none());
}

#[test]
fn test_single_byte_initialises() {
    let bd = BoolDecoder::new(&[0x80]);
    assert!(bd.is_some());
}

#[test]
fn test_get_uint_all_ones() {
    let data = [0xFF, 0xFF, 0xFF, 0xFF, 0xFF, 0xFF, 0xFF, 0xFF];
    let mut bd = BoolDecoder::new(&data).unwrap();
    let v = bd.get_uint(8);
    assert_eq!(v, 0xFF);
}

#[test]
fn test_norm_shift_table_spot_checks() {
    assert_eq!(norm_shift(0), 8);
    assert_eq!(norm_shift(1), 7);
    assert_eq!(norm_shift(128), 0);
    assert_eq!(norm_shift(255), 0);
    assert_eq!(norm_shift(64), 1);
}

#[test]
fn test_invalid_frame_marker() {
    let data = [0x00u8; 32];
    let result = decode_frame_header(&data, &no_probs(), &[flat_coefs(); 4], &flat_coefs());
    assert!(result.is_err(), "Expected error for bad frame marker");
}

#[test]
fn test_empty_data() {
    let result = decode_frame_header(&[], &no_probs(), &[flat_coefs(); 4], &flat_coefs());
    assert!(result.is_err());
}

#[test]
fn test_tx_mode_values() {
    assert_eq!(TxMode::Only4x4.code(), 0);
    assert_eq!(TxMode::TxModeSelect.code(), 4);
}

#[test]
fn test_color_space_from() {
    assert_eq!(ColorSpace::from(7u8), ColorSpace::Rgb);
    assert_eq!(ColorSpace::from(0u8), ColorSpace::Unknown);
}

#[test]
fn idct_all_zeros_leaves_pred_unchanged() {
    let pred: Vec<u8> = (0..16).map(|i| i as u8 * 8).collect();
    let mut dst = pred.clone();
    let coefs = vec![0i32; 16];
    itxfm_add(&mut dst, 4, &coefs, TxSize::Tx4x4, TxType::DctDct, 8, 0);
    assert_eq!(dst, pred, "zero coefficients must not modify prediction");
}

#[test]
fn idct4_dc_only() {
    let mut dst = vec![100u8; 16];
    let mut coefs = vec![0i32; 16];
    coefs[0] = 512;
    itxfm_add(&mut dst, 4, &coefs, TxSize::Tx4x4, TxType::DctDct, 8, 1);
    let first = dst[0];
    assert!(dst.iter().all(|&v| v == first), "DC-only must be uniform");
    assert!(first > 100, "positive DC coefficient should increase pixel values");
}

#[test]
fn idct4_known_values() {
    let input = [16384, 0, 0, 0];
    let mut output = [0i32; 4];
    idct4(&input, &mut output);
    for v in output {
        assert!((v - 11585).abs() <= 1, "idct4 DC: expected ~11585, got {v}");
    }
}

#[test]
fn iwht4_dc_only() {
    let input = [4, 0, 0, 0];
    let mut output = [0i32; 4];
    iwht4(&input, &mut output);
    assert_eq!(output, [1, 0, 0, 0]);
}

#[test]
fn idct8_dc_only() {
    let input = [16384, 0, 0, 0, 0, 0, 0, 0];
    let mut output = [0i32; 8];
    idct8(&input, &mut output);
    let expected = ((16384_i64 * 11585 + (1 << 13)) >> 14) as i32;
    for v in output {
        assert!((v - expected).abs() <= 1);
    }
}

fn make_above(size: usize, val: u8) -> Vec<u8> {
    vec![val; size]
}

fn make_left(size: usize, val: u8) -> Vec<u8> {
    vec![val; size]
}

#[test]
fn vert_pred_flat() {
    let size = 4;
    let above = make_above(size, 200);
    let left = make_left(size, 100);
    let mut dst = vec![0u8; size * size];
    intra_pred(&mut dst, size, &above, &left, 150, IntraMode::VertPred, size, 8);
    assert!(dst.iter().all(|&v| v == 200));
}

#[test]
fn hor_pred_flat() {
    let size = 4;
    let above = make_above(size, 100);
    let left: Vec<u8> = (0..size as u8).collect();
    let mut dst = vec![0u8; size * size];
    intra_pred(&mut dst, size, &above, &left, 150, IntraMode::HorPred, size, 8);
    for y in 0..size {
        let expected = left[size - 1 - y];
        for x in 0..size {
            assert_eq!(dst[x + y * size], expected, "y={y} x={x}");
        }
    }
}

#[test]
fn dc_pred_flat() {
    let size = 4;
    let above = make_above(size, 100);
    let left = make_left(size, 200);
    let mut dst = vec![0u8; size * size];
    intra_pred(&mut dst, size, &above, &left, 150, IntraMode::DcPred, size, 8);
    assert!(dst.iter().all(|&v| v == 150), "DC pred failed: {:?}", dst);
}

#[test]
fn tm_pred_basic() {
    let size = 4;
    let above: Vec<u8> = (1..=4).collect();
    let left: Vec<u8> = (5..=8).collect();
    let top_left = 4u8;
    let mut dst = vec![0u8; size * size];
    intra_pred(&mut dst, size, &above, &left, top_left, IntraMode::TmVp8Pred, size, 8);
    assert_eq!(dst[0], 5);
}

#[test]
fn dc128_pred() {
    let size = 4;
    let mut dst = vec![0u8; size * size];
    intra_pred(&mut dst, size, &[0u8; 4], &[0u8; 4], 0, IntraMode::Dc128Pred, size, 8);
    assert!(dst.iter().all(|&v| v == 128));
}

#[test]
fn diag_downleft_4x4_corner() {
    let above: [u8; 8] = [10, 20, 30, 40, 50, 60, 70, 80];
    let left = [0u8; 4];
    let mut dst = vec![0u8; 16];
    intra_pred(&mut dst, 4, &above, &left, 0, IntraMode::DiagDownLeftPred, 4, 8);
    assert_eq!(dst[3 + 3 * 4], 80);
    assert_eq!(dst[0], 20);
}

#[test]
fn test_dc_quant_zero_index() {
    let q = get_dc_quant(0, 0, 8);
    assert!(q > 0, "DC quantizer must be positive");
}

#[test]
fn test_ac_quant_zero_index() {
    let q = get_ac_quant(0, 0, 8);
    assert!(q > 0, "AC quantizer must be positive");
}

#[test]
fn test_quant_clamp_low() {
    let q = get_dc_quant(0, -10, 8);
    assert_eq!(q, get_dc_quant(0, 0, 8));
}

#[test]
fn test_quant_clamp_high() {
    let q = get_dc_quant(250, 100, 8);
    assert_eq!(q, get_dc_quant(255, 0, 8));
}

#[test]
fn quantizer_steps_by_bit_depth() {
    assert_eq!(get_dc_quant(0, 0, 8), 4);
    assert_eq!(get_ac_quant(255, 0, 8), 1828);
    assert_eq!(get_ac_quant(255, 0, 10), 7312);
    assert_eq!(get_ac_quant(255, 0, 12), 29247);
    assert_eq!(get_dc_quant(255, 0, 12), 21387);
}

#[test]
fn dc_of_512_adds_ten() {
    let mut dst = vec![100u8; 16];
    let mut coefs = vec![0i32; 16];
    coefs[0] = 512;
    itxfm_add(&mut dst, 4, &coefs, TxSize::Tx4x4, TxType::DctDct, 8, 1);
    assert_eq!(dst, vec![116u8; 16]);
}

#[test]
fn zeros_in_stream_read_as_first_branch() {
    let data = [0u8; 8];
    let mut bd = BoolDecoder::new(&data).unwrap();
    assert!(!bd.get_prob(128));
    assert!(!bd.get());
    assert_eq!(bd.get_uint(4), 0);
}

#[test]
fn flat_edge_is_not_filtered() {
    let mut plane = vec![90u8; 64];
    loop_filter_edge(&mut plane, 4, 8, 1, 40, 10, 2, 8);
    assert_eq!(plane, vec![90u8; 64]);
}

#[test]
fn small_step_is_smoothed() {
    let mut plane = vec![0u8; 64];
    for y in 0..8 {
        for x in 0..8 {
            plane[y * 8 + x] = if x < 4 { 100 } else { 104 };
        }
    }
    let before = plane.clone();
    loop_filter_edge(&mut plane, 4, 8, 1, 60, 20, 0, 4);
    assert_ne!(plane, before);
    for y in 0..8 {
        assert_eq!(&plane[y * 8..y * 8 + 8], &[100, 100, 101, 101, 102, 103, 104, 104]);
    }
}

#[test]
fn tile_offsets_cover_all_superblocks() {
    assert_eq!(tile_sb_offset(0, 2, 10), 0);
    assert_eq!(tile_sb_offset(1, 2, 10), 2);
    assert_eq!(tile_sb_offset(2, 2, 10), 5);
    assert_eq!(tile_sb_offset(4, 2, 10), 10);
}

#[test]
fn tiles_lie_one_behind_the_other() {
    let data = [0, 0, 0, 2, 7, 8, 9];
    assert_eq!(locate_tiles(&data, 2), Some(vec![(4, 6), (6, 7)]));
    assert_eq!(locate_tiles(&[0, 0], 2), None);
}

#[test]
fn superframe_is_split() {
    let marker = 0b110_01_000u8;
    let data = [1, 2, 3, 4, 5, marker, 2, 3, marker];
    let frames = parse_superframe(&data);
    assert_eq!(frames, vec![&[1u8, 2][..], &[3u8, 4, 5][..]]);
}

#[test]
fn superframe_with_wrong_index_is_one_frame() {
    let marker = 0b110_01_000u8;
    let too_long = [1, 2, 3, marker, 2, 9, marker];
    assert_eq!(parse_superframe(&too_long), vec![&too_long[..]]);
    let no_first_marker = [1, 2, 3, 0, 1, 1, marker];
    assert_eq!(parse_superframe(&no_first_marker), vec![&no_first_marker[..]]);
    assert_eq!(parse_superframe(&[1, 2, 3]), vec![&[1u8, 2, 3][..]]);
    assert_eq!(parse_superframe(&[]).len(), 1);
}

#[test]
fn empty_store_has_no_frames() {
    let mut store = RefStore::new();
    assert!(store.slots.iter().all(|s| s.is_none()));
    store.rotate_mvpair(Vec::new(), 16);
    assert_eq!(store.prev_cols_4x4, 16);
    store.clear();
    assert_eq!(store.prev_cols_4x4, 0);
    assert!(store.prev_frame_mvs.is_none());
}

#[test]
fn key_frame_of_zeros_is_gray() {
    let mut d = decoder();
    let mut packet = Packet::from_slice(&key_frame(64, 64, 1));
    packet.pts = 7;
    d.send_packet(Some(&packet)).unwrap();
    let frame = d.receive_frame().unwrap();
    assert_eq!(frame.pts, 7);
    assert!(frame.flags.contains(FrameFlags::KEY));
    let video = frame.video().unwrap();
    assert_eq!((video.width, video.height), (64, 64));
    assert_eq!(video.picture_type, PictureType::I);
    assert_eq!(video.planes.len(), 3);
    assert_eq!(video.planes[0].linesize, 64);
    assert!(video.planes[0].buffer.data().iter().all(|&b| b == 128));
    assert!(video.planes[1].buffer.data()[..32].iter().all(|&b| b == 128));
    assert_eq!(d.receive_frame().err(), Some(Error::Again));
}

#[test]
fn shown_frame_is_repeated_from_its_slot() {
    let mut d = decoder();
    d.send_packet(Some(&Packet::from_slice(&key_frame(72, 40, 0)))).unwrap();
    let first = d.receive_frame().unwrap();
    let mut w = BitWriter { bits: Vec::new() };
    w.put(0b10, 2);
    w.put(0, 2);
    w.put(1, 1);
    w.put(5, 3);
    d.send_packet(Some(&Packet::from_slice(&w.bytes()))).unwrap();
    let again = d.receive_frame().unwrap();
    let (a, b) = (first.video().unwrap(), again.video().unwrap());
    assert_eq!((b.width, b.height), (72, 40));
    assert_eq!(b.picture_type, PictureType::P);
    for i in 0..3 {
        assert_eq!(a.planes[i].buffer.data(), b.planes[i].buffer.data());
    }
}

#[test]
fn empty_slot_cannot_be_shown() {
    let mut d = decoder();
    let r = d.send_packet(Some(&Packet::from_slice(&[0b1000_1000])));
    assert_eq!(r, Err(Error::InvalidData));
}

#[test]
fn bad_packet_is_refused_and_nothing_comes_out() {
    let mut d = decoder();
    assert_eq!(d.send_packet(Some(&Packet::from_slice(&[0; 32]))), Err(Error::InvalidData));
    assert_eq!(d.receive_frame().err(), Some(Error::Again));
}

#[test]
fn drained_decoder_ends_and_flush_starts_over() {
    let mut d = decoder();
    d.send_packet(Some(&Packet::from_slice(&key_frame(64, 64, 1)))).unwrap();
    d.send_packet(None).unwrap();
    assert!(d.receive_frame().is_ok());
    assert_eq!(d.receive_frame().err(), Some(Error::Eof));
    d.flush();
    assert_eq!(d.receive_frame().err(), Some(Error::Again));
    let r = d.send_packet(Some(&Packet::from_slice(&[0b1000_1000])));
    assert_eq!(r, Err(Error::InvalidData));
}

#[test]
fn scans_that_leave_their_blocks_are_refused() {
    let mut t = tables();
    t.col_4x4 = raster(64);
    let r = Vp9Decoder::new(CodecParameters::new(CodecId::Vp9, MediaType::Video), t);
    assert_eq!(r.err(), Some(Error::InvalidArgument));
}

#[test]
fn decoder_is_described() {
    let d = decoder();
    assert_eq!(d.descriptor().name, "vp9");
    assert_eq!(d.descriptor().id, CodecId::Vp9);
    assert_eq!(vp9_descriptor().priority, 100);
}

fn key_frame_of(width: u32, height: u32, level: u32, tiles: &[u8]) -> Vec<u8> {
    let mut w = BitWriter { bits: Vec::new() };
    w.put(0b10, 2);
    w.put(0, 2);
    w.put(0, 1);
    w.put(0, 1);
    w.put(1, 1);
    w.put(0, 1);
    w.put(0x49_83_42, 24);
    w.put(1, 3);
    w.put(0, 1);
    w.put(width - 1, 16);
    w.put(height - 1, 16);
    w.put(0, 1);
    w.put(1, 1);
    w.put(0, 1);
    w.put(0, 2);
    w.put(level, 6);
    w.put(0, 3);
    w.put(0, 1);
    w.put(60, 8);
    w.put(0, 3);
    w.put(0, 1);
    w.put(0, 1);
    w.put(8, 16);
    let mut bytes = w.bytes();
    bytes.extend(vec![0u8; 8]);
    bytes.extend_from_slice(tiles);
    bytes
}

/// A frame that refers to slot 0 and has the size of that frame.
fn inter_frame(tiles: &[u8]) -> Vec<u8> {
    let mut w = BitWriter { bits: Vec::new() };
    w.put(0b10, 2);
    w.put(0, 2);
    w.put(0, 1);
    w.put(1, 1);
    w.put(1, 1);
    w.put(0, 1);
    w.put(0, 2);
    w.put(0, 8);
    w.put(0, 12);
    w.put(1, 1);
    w.put(0, 1);
    w.put(0, 1);
    w.put(0, 1);
    w.put(0, 2);
    w.put(0, 1);
    w.put(0, 1);
    w.put(0, 2);
    w.put(0, 6);
    w.put(0, 3);
    w.put(0, 1);
    w.put(60, 8);
    w.put(0, 3);
    w.put(0, 1);
    w.put(0, 1);
    w.put(8, 16);
    let mut bytes = w.bytes();
    bytes.extend(vec![0u8; 8]);
    bytes.extend_from_slice(tiles);
    bytes
}

fn noise(seed: u32, n: usize) -> Vec<u8> {
    let mut x = seed.wrapping_mul(2654435761).wrapping_add(12345);
    let mut v: Vec<u8> = (0..n)
        .map(|_| {
            x ^= x << 13;
            x ^= x >> 17;
            x ^= x << 5;
            (x >> 11) as u8
        })
        .collect();
    v[0] &= 0x7F;
    v
}

#[test]
fn noise_decodes_the_same_twice() {
    for seed in 1..20u32 {
        let (w, h) = (8 * (1 + 3 * seed % 17), 8 * (1 + 7 * seed % 11));
        let key = Packet::from_slice(&key_frame_of(w, h, 20, &noise(seed, 900)));
        let next = Packet::from_slice(&inter_frame(&noise(seed + 100, 900)));
        let mut outputs = Vec::new();
        for _ in 0..2 {
            let mut d = decoder();
            let first = d.send_packet(Some(&key));
            let second = d.send_packet(Some(&next));
            let mut planes: Vec<Vec<u8>> = Vec::new();
            while let Ok(f) = d.receive_frame() {
                for p in &f.video().unwrap().planes {
                    planes.push(p.buffer.data().to_vec());
                }
            }
            outputs.push((first, second, planes));
        }
        assert_eq!(outputs[0], outputs[1]);
        assert!(outputs[0].0.is_ok(), "seed {seed}: {:?}", outputs[0].0);
        assert!(outputs[0].2.len() >= 3);
    }
}

#[test]
fn block_without_motion_copies_its_reference() {
    let key = Packet::from_slice(&key_frame_of(64, 64, 0, &noise(5, 900)));
    let mut copied = false;
    for b in 0..=127u8 {
        let mut d = decoder();
        d.send_packet(Some(&key)).unwrap();
        let reference = d.receive_frame().unwrap();
        let mut tiles = vec![0u8; 64];
        tiles[0] = b;
        if d.send_packet(Some(&Packet::from_slice(&inter_frame(&tiles)))).is_ok() {
            let f = d.receive_frame().unwrap();
            let v = f.video().unwrap();
            assert_eq!(v.picture_type, PictureType::P);
            assert!(!f.flags.contains(FrameFlags::KEY));
            let r = reference.video().unwrap();
            if (0..3).all(|i| v.planes[i].buffer.data() == r.planes[i].buffer.data()) {
                copied = true;
            }
        }
    }
    assert!(copied);
}

#[test]
fn missing_coefficients_are_an_error() {
    let mut d = decoder();
    let key = Packet::from_slice(&key_frame_of(60, 34, 20, &noise(4, 900)));
    assert_eq!(d.send_packet(Some(&key)), Err(Error::InvalidData));
}

#[test]
fn frame_without_its_reference_is_passed_over() {
    let mut d = decoder();
    assert_eq!(d.send_packet(Some(&Packet::from_slice(&inter_frame(&[0; 32])))), Ok(()));
    assert_eq!(d.receive_frame().err(), Some(Error::Again));
}

#[test]
fn superframe_gives_all_its_frames() {
    let a = key_frame(64, 64, 1);
    let b = key_frame(72, 40, 1);
    let marker = 0b110_01_001u8;
    let mut data = a.clone();
    data.extend_from_slice(&b);
    data.push(marker);
    for f in [&a, &b] {
        data.extend_from_slice(&(f.len() as u16).to_le_bytes());
    }
    data.push(marker);
    let mut d = decoder();
    d.send_packet(Some(&Packet::from_slice(&data))).unwrap();
    assert_eq!(d.receive_frame().unwrap().video().unwrap().width, 64);
    assert_eq!(d.receive_frame().unwrap().video().unwrap().width, 72);
    assert!(d.receive_frame().is_err());
}

#[test]
fn one_dimensional_transforms_of_a_constant() {
    let mut a = [0i32; 16];
    a[0] = 1000;
    let mut out = [0i32; 16];
    idct16(&a, &mut out);
    assert_eq!(out, [707; 16]);
    let mut b = [0i32; 32];
    b[0] = 1000;
    let mut out = [0i32; 32];
    idct32(&b, &mut out);
    assert_eq!(out, [707; 32]);
    let mut out = [0i32; 4];
    iadst4(&[1000, 0, 0, 0], &mut out);
    assert_eq!(out, [322, 606, 816, 928]);
}

#[test]
fn pixels_between_two_are_weighted() {
    let mut subpel = [[[0i16; 8]; 16]; 4];
    subpel[1] = [[0, 0, 0, 64, 64, 0, 0, 0]; 16];
    let reference: Vec<u8> = (0..64u8).map(|i| i * 4).collect();
    let mut emu = vec![0u8; 160 * 71];
    let mut dst = vec![0u8; 16];
    mc_luma(&mut dst, 4, &reference, 8, 8, 8, 2, 2, &[4, 0], 4, 4, 1, &subpel, &mut emu);
    assert_eq!(&dst[..4], &[74, 78, 82, 86]);
    mc_luma(&mut dst, 4, &reference, 8, 8, 8, 2, 2, &[8, -16], 4, 4, 1, &subpel, &mut emu);
    assert_eq!(&dst[..4], &[12, 16, 20, 24]);
    mc_luma(&mut dst, 4, &reference, 8, 8, 8, 0, 0, &[-800, -800], 4, 4, 1, &subpel, &mut emu);
    assert_eq!(dst, vec![0u8; 16]);
    mc_luma(&mut dst, 4, &reference, 8, 8, 8, 4, 4, &[800, 800], 4, 4, 1, &subpel, &mut emu);
    assert_eq!(dst, vec![252u8; 16]);
}

#[test]
fn two_predictions_are_averaged() {
    let mut dst = vec![10u8, 11, 200, 0];
    avg_block(&mut dst, 2, &[13, 11, 255, 1], 2, 2);
    assert_eq!(dst, vec![12, 11, 228, 1]);
}

#[test]
fn chroma_vectors_are_means() {
    let mv = [[[4, 0], [0, 0]], [[6, 0], [0, 0]], [[-5, 2], [0, 0]], [[8, 3], [0, 0]]];
    assert_eq!(chroma_mv(BlockSize::Bs4x4, &mv, 0, true, true), [3, 1]);
    assert_eq!(chroma_mv(BlockSize::Bs16x16, &mv, 0, true, true), [4, 0]);
}

#[test]
fn probabilities_follow_counts() {
    let mut prob = default_prob_context();
    let mut coef = flat_coefs();
    let mut counts = CountContext::default();
    prob.skip[0] = 128;
    counts.skip[0] = [10, 0];
    let before = prob.intra;
    adapt_probs(
        &mut prob,
        &mut coef,
        &counts,
        false,
        false,
        false,
        false,
        false,
        CompPredMode::SingleRef,
    );
    assert_eq!(prob.skip[0], 160);
    assert_eq!(prob.intra, before);
    assert_eq!(coef, flat_coefs());
    let mut other = CountContext::default();
    other.skip[0] = [1, 2];
    counts.merge(&other);
    assert_eq!(counts.skip[0], [11, 2]);
}

#[test]
fn header_fields_are_read() {
    let data = key_frame(72, 40, 1);
    let (h, next) =
        decode_frame_header(&data, &no_probs(), &[flat_coefs(); 4], &flat_coefs()).unwrap();
    assert_eq!((h.width, h.height), (72, 40));
    assert_eq!(h.frame_type, FrameType::KeyFrame);
    assert!(h.show_frame && !h.error_resilient && h.refresh_ctx && !h.parallel_mode);
    assert_eq!(h.base_q_idx, 60);
    assert_eq!(h.refresh_ref_mask, 0xFF);
    assert_eq!(h.compressed_header_size, 8);
    assert_eq!(h.tx_mode, TxMode::Only4x4);
    assert_eq!(next, h.tile_data_offset);
    assert_eq!(next + 64, data.len());
    let cut = &data[..next - 1];
    assert!(decode_frame_header(cut, &no_probs(), &[flat_coefs(); 4], &flat_coefs()).is_err());
}

#[test]
fn filters_reach_as_far_as_their_width() {
    let row: Vec<u8> = (0..32).map(|x| if x < 16 { 100 } else { 104 }).collect();
    let mut plane: Vec<u8> = Vec::new();
    for _ in 0..8 {
        plane.extend_from_slice(&row);
    }
    let mut narrow = plane.clone();
    loop_filter_edge(&mut narrow, 16, 32, 1, 60, 20, 0, 8);
    let mut wide = plane.clone();
    loop_filter_edge(&mut wide, 16, 32, 1, 60, 20, 0, 16);
    for y in 0..8 {
        let line = &narrow[y * 32..y * 32 + 32];
        assert_eq!(&line[..13], &row[..13]);
        assert_eq!(&line[13..19], &[101, 101, 102, 103, 103, 104]);
        assert_eq!(&line[19..], &row[19..]);
        let line = &wide[y * 32..y * 32 + 32];
        assert_eq!(&line[..9], &row[..9]);
        assert_eq!(
            &line[9..23],
            &[100, 101, 101, 101, 101, 102, 102, 102, 103, 103, 103, 103, 104, 104]
        );
        assert_eq!(&line[23..], &row[23..]);
    }
}

#[test]
fn end_of_input_is_seen_at_once() {
    let mut bd = BoolDecoder::new(&[0x80]).unwrap();
    assert!(!bd.is_end());
    bd.get_uint(17);
    assert_eq!(bd.diag_state().3, 1);
    assert_eq!(bd.diag_state().2, 0);
    assert!(bd.is_end());
    assert!(bd.is_end());
}

#[test]
fn last_eighth_is_counted_where_it_is_not_read() {
    let probs = default_prob_context().mv_comp[0];
    for (data, long) in [([0u8; 16], false), ([0x7F; 16], true)] {
        let mut bd = BoolDecoder::new(&data).unwrap();
        let mut counts = CountContext::default().mv_comp[0];
        let v = read_mv_component(&mut bd, &probs, &mut counts, false);
        assert_eq!(v % 2, 0);
        if counts.classes[0] == 1 {
            assert!(!long);
            assert_eq!((counts.class0_hp, counts.hp), ([0, 1], [0, 0]));
        } else {
            assert!(long);
            assert_eq!((counts.class0_hp, counts.hp), ([0, 0], [0, 1]));
        }
        let mut bd = BoolDecoder::new(&data).unwrap();
        let mut counts = CountContext::default().mv_comp[0];
        read_mv_component(&mut bd, &probs, &mut counts, true);
        assert_eq!(counts.class0_hp[0] + counts.class0_hp[1] + counts.hp[0] + counts.hp[1], 1);
    }
}

fn picture(f: impl Fn(usize) -> u8) -> FrameBuffer {
    let mut fb = FrameBuffer::new(64, 64);
    for (i, p) in fb.y.iter_mut().enumerate() {
        *p = f(i);
    }
    for (i, p) in fb.u.iter_mut().enumerate() {
        *p = f(i + 1);
    }
    for (i, p) in fb.v.iter_mut().enumerate() {
        *p = f(i + 2);
    }
    fb
}

fn slot(f: impl Fn(usize) -> u8) -> Option<Arc<RefFrame>> {
    Some(Arc::new(RefFrame {
        fb: picture(f),
        mv_grid: Vec::new(),
        width: 64,
        height: 64,
        cols_4x4: 16,
        rows_4x4: 16,
    }))
}

fn inter_block(bs: BlockSize, comp: bool) -> BlockInfo {
    BlockInfo {
        row: 2,
        col: 2,
        bs,
        tx_size: TxSize::Tx4x4,
        uv_tx_size: TxSize::Tx4x4,
        y_mode: [IntraMode::DcPred; 4],
        uv_mode: IntraMode::DcPred,
        skip: true,
        segment_id: 0,
        tile_col_start: 0,
        is_inter: true,
        comp,
        ref_frame: [0, 1],
        inter_mode: [13; 4],
        mv: [[[8, 0], [8, 0]], [[0, 8], [0, 8]], [[16, 8], [16, 8]], [[8, 24], [8, 24]]],
        filter: 0,
        coefs_y: Vec::new(),
        coefs_u: Vec::new(),
        coefs_v: Vec::new(),
    }
}

#[test]
fn small_blocks_are_averaged_whole() {
    let subpel = tables().subpel;
    for bs in [BlockSize::Bs8x8, BlockSize::Bs8x4, BlockSize::Bs4x8, BlockSize::Bs4x4] {
        let slots = [slot(|_| 10), slot(|_| 21), None, None, None, None, None, None];
        let block = inter_block(bs, true);
        let mut fb = picture(|_| 0);
        assert!(can_predict(&fb, &block, &slots, &[0, 1, 2], true, true));
        inter_pred(&mut fb, &block, &slots, &[0, 1, 2], true, true, &subpel);
        for y in 0..64 {
            for x in 0..64 {
                let inside = (8..16).contains(&x) && (8..16).contains(&y);
                assert_eq!(fb.y[y * fb.y_stride + x], if inside { 16 } else { 0 });
            }
        }
        for y in 0..32 {
            for x in 0..32 {
                let inside = (4..8).contains(&x) && (4..8).contains(&y);
                assert_eq!(fb.u[y * fb.uv_stride + x], if inside { 16 } else { 0 });
                assert_eq!(fb.v[y * fb.uv_stride + x], if inside { 16 } else { 0 });
            }
        }
    }
}

#[test]
fn averaging_with_itself_changes_nothing() {
    let subpel = tables().subpel;
    for bs in [BlockSize::Bs16x16, BlockSize::Bs8x4, BlockSize::Bs4x8, BlockSize::Bs4x4] {
        let texture = |i: usize| (i * i / 7 % 251) as u8;
        let slots = [slot(texture), None, None, None, None, None, None, None];
        let mut once = picture(|_| 3);
        let mut twice = picture(|_| 3);
        inter_pred(&mut once, &inter_block(bs, false), &slots, &[0, 0, 0], true, true, &subpel);
        inter_pred(&mut twice, &inter_block(bs, true), &slots, &[0, 0, 0], true, true, &subpel);
        assert!(once.y != picture(|_| 3).y);
        assert!(once.y == twice.y && once.u == twice.u && once.v == twice.v);
    }
}

#[test]
fn lone_first_coefficient_is_transformed_the_same() {
    for (size, n) in
        [(TxSize::Tx4x4, 4), (TxSize::Tx8x8, 8), (TxSize::Tx16x16, 16), (TxSize::Tx32x32, 32)]
    {
        for dc in [1, -77, 512, 32767, -32767] {
            let mut coefs = vec![0i32; n * n];
            coefs[0] = dc;
            let mut short = vec![100u8; 40 * n];
            let mut full = short.clone();
            itxfm_add(&mut short, 40, &coefs, size, TxType::DctDct, 8, 1);
            itxfm_add(&mut full, 40, &coefs, size, TxType::DctDct, 8, n);
            assert_eq!(short, full);
        }
    }
}

#[test]
fn skipped_block_has_no_residual() {
    let data = key_frame(64, 64, 1);
    let (h, _) =
        decode_frame_header(&data, &no_probs(), &[flat_coefs(); 4], &flat_coefs()).unwrap();
    let subpel = tables().subpel;
    let texture = |i: usize| (i * i / 7 % 251) as u8;
    let slots = [slot(texture), None, None, None, None, None, None, None];
    let skipped = inter_block(BlockSize::Bs8x8, false);
    let mut coded = inter_block(BlockSize::Bs8x8, false);
    coded.skip = false;
    coded.coefs_y = vec![0; 64];
    coded.coefs_u = vec![0; 16];
    coded.coefs_v = vec![0; 16];
    let mut a = picture(|_| 3);
    let mut b = picture(|_| 3);
    let mut c = picture(|_| 3);
    assert_eq!(reconstruct_inter_block(&mut a, &skipped, &h, &slots, &subpel), Ok(()));
    assert_eq!(reconstruct_inter_block(&mut b, &coded, &h, &slots, &subpel), Ok(()));
    inter_pred(&mut c, &skipped, &slots, &h.ref_idx, true, true, &subpel);
    assert!(a.y == b.y && a.u == b.u && a.v == b.v);
    assert!(a.y == c.y && a.u == c.u && a.v == c.v);
    coded.coefs_y[0] = 400;
    assert_eq!(reconstruct_inter_block(&mut b, &coded, &h, &slots, &subpel), Ok(()));
    assert!(a.y != b.y);
    coded.coefs_y.truncate(63);
    assert_eq!(
        reconstruct_inter_block(&mut b, &coded, &h, &slots, &subpel),
        Err(Error::InvalidData)
    );
}

#[test]
fn halves_of_cosine_transforms_mirror() {
    let mut small = [0i32; 4];
    let mut eight = [0i32; 8];
    idct4(&[16384, -300, 77, 5], &mut small);
    idct8(&[16384, 0, -300, 0, 77, 0, 5, 0], &mut eight);
    for n in 0..4 {
        assert_eq!((eight[n], eight[7 - n]), (small[n], small[n]));
    }
    idct8(&[16384, 0, 0, 0, 0, 0, 0, 0], &mut eight);
    assert_eq!(eight, [11585; 8]);
    let evens: [i32; 16] = core::array::from_fn(|i| if i % 2 == 0 { 1000 - 77 * i as i32 } else { 0 });
    let odds: [i32; 16] = core::array::from_fn(|i| if i % 2 == 1 { 1000 - 77 * i as i32 } else { 0 });
    let mut sixteen = [0i32; 16];
    idct8(&core::array::from_fn(|i| evens[2 * i]), &mut eight);
    idct16(&evens, &mut sixteen);
    for n in 0..8 {
        assert_eq!((sixteen[n], sixteen[15 - n]), (eight[n], eight[n]));
    }
    idct16(&odds, &mut sixteen);
    for n in 0..8 {
        assert_eq!(sixteen[15 - n], -sixteen[n]);
    }
    let evens: [i32; 32] = core::array::from_fn(|i| if i % 2 == 0 { 900 - 61 * i as i32 } else { 0 });
    let odds: [i32; 32] = core::array::from_fn(|i| if i % 2 == 1 { 900 - 61 * i as i32 } else { 0 });
    let mut all = [0i32; 32];
    idct16(&core::array::from_fn(|i| evens[2 * i]), &mut sixteen);
    idct32(&evens, &mut all);
    for n in 0..16 {
        assert_eq!((all[n], all[31 - n]), (sixteen[n], sixteen[n]));
    }
    idct32(&odds, &mut all);
    for n in 0..16 {
        assert_eq!(all[31 - n], -all[n]);
    }
}

#[test]
fn flat_lines_are_left_by_every_filter() {
    for wd in [4, 8, 16] {
        let mut plane = vec![201u8; 32 * 8];
        loop_filter_edge(&mut plane, 16, 32, 1, 60, 20, 0, wd);
        assert_eq!(plane, vec![201u8; 32 * 8]);
    }
}

#[test]
fn flat_frame_is_left_by_the_loop_filter() {
    let data = key_frame(64, 64, 1);
    let (mut h, _) =
        decode_frame_header(&data, &no_probs(), &[flat_coefs(); 4], &flat_coefs()).unwrap();
    h.filter_level = 40;
    h.segmentation.feat[0].lflvl = [[40; 2]; 4];
    let mut block = inter_block(BlockSize::Bs8x8, false);
    block.skip = false;
    let mut fb = picture(|_| 77);
    loop_filter_frame(&mut fb, &[block], &h);
    let flat = picture(|_| 77);
    assert!(fb.y == flat.y && fb.u == flat.u && fb.v == flat.v);
    let mut block = inter_block(BlockSize::Bs8x8, false);
    block.skip = false;
    let mut fb = picture(|i| 100 + 4 * (i % 8 / 4) as u8);
    let before = fb.y.clone();
    loop_filter_frame(&mut fb, &[block], &h);
    assert!(fb.y != before);
}

#[test]
fn blocks_tile_their_superblock() {
    let (w, h) = (104, 72);
    let data = key_frame(w, h, 1);
    let (header, _) =
        decode_frame_header(&data, &no_probs(), &[flat_coefs(); 4], &flat_coefs()).unwrap();
    let tables = tables();
    let (cols, rows) = (26usize, 18usize);
    for seed in 1..12u32 {
        let bytes = noise(seed, 2000);
        let mut above = AboveContext::new(cols, 2);
        let mut left = LeftContext::new();
        let mut grid = vec![MvRefPair::default(); cols * rows];
        let bd = BoolDecoder::new(&bytes).unwrap();
        let mut td = TileDecodeContext::new(
            bd,
            &header,
            &tables,
            &mut above,
            &mut left,
            0,
            &mut grid,
            None,
            0,
        );
        for (row, col) in [(0, 0), (0, 16), (16, 0), (16, 16)] {
            let from = td.blocks.len();
            decode_sb(&mut td, row, col, BlockLevel::Bl64x64).unwrap();
            let mut hits = vec![0; 16 * 16];
            for b in &td.blocks[from..] {
                assert!(b.row < rows && b.col < cols);
                let (bw, bh) = (luma_size(b.bs, 0) / 4, luma_size(b.bs, 1) / 4);
                for r in b.row..b.row + bh {
                    for c in b.col..b.col + bw {
                        hits[(r - row) * 16 + (c - col)] += 1;
                    }
                }
            }
            for r in 0..16 {
                for c in 0..16 {
                    assert!(hits[r * 16 + c] <= 1);
                    if row + r < rows && col + c < cols {
                        assert_eq!(hits[r * 16 + c], 1);
                    }
                }
            }
        }
    }
}

#[test]
fn places_without_references_predict_no_motion() {
    let none = MvRefPair { mv: [[99, 99]; 2], ref_frame: [-1, -1] };
    let other = MvRefPair { mv: [[500, -40]; 2], ref_frame: [0, -1] };
    let ctx = MvSearchCtx {
        min_mv: [-100, 8],
        max_mv: [100, 200],
        tile_col_start: 0,
        cols_4x4: 8,
        rows_4x4: 8,
        sign_bias: [false; 3],
    };
    for sb in [-1, 0] {
        for (pair, expected) in [(none, [0, 8]), (other, [100, 8])] {
            let grid = vec![pair; 64];
            let above = vec![[[500, -40]; 2]; 16];
            let left = vec![[[500, -40]; 2]; 16];
            let mut mv = [1, 1];
            find_ref_mvs(
                &ctx,
                &grid,
                Some(&grid),
                8,
                &above,
                &left,
                &mut mv,
                0,
                0,
                0,
                sb,
                4,
                4,
                2,
                if sb < 0 { BlockSize::Bs8x8 } else { BlockSize::Bs4x4 },
                &[[[0; 2]; 2]; 4],
                true,
            );
            assert_eq!(mv, expected);
        }
    }
}

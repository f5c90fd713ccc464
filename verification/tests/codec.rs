use wedeo::codec::bitstream::{
    bit_reader, get_se_golomb, get_te0_golomb, get_te_golomb, get_ue_golomb, BitRead, BitReadBE,
};
use wedeo::codec::decoder::{CodecParameters, DecoderBuilder, DecoderDescriptor};
use wedeo::codec::descriptor::{CodecCapabilities, CodecProperties};
use wedeo::codec::encoder::{EncoderBuilder, EncoderDescriptor};
use wedeo::codec::options::CodecOptions;
use wedeo::codec::registry::{
    find_decoder, find_decoder_by_name, find_encoder, find_encoder_by_name,
};
use wedeo::common::codec_id::CodecId;
use wedeo::common::media_type::MediaType;
use wedeo::error::Error;

fn make_reader(data: &[u8]) -> BitReadBE<'_> {
    BitReadBE::new(data)
}

#[test]
fn ue_value_0() {
    let data = [0x80, 0, 0, 0, 0, 0, 0, 0];
    let mut br = make_reader(&data);
    assert_eq!(get_ue_golomb(&mut br).unwrap(), 0);
}

#[test]
fn ue_value_1() {
    let data = [0x40, 0, 0, 0, 0, 0, 0, 0];
    let mut br = make_reader(&data);
    assert_eq!(get_ue_golomb(&mut br).unwrap(), 1);
}

#[test]
fn ue_value_2() {
    let data = [0x60, 0, 0, 0, 0, 0, 0, 0];
    let mut br = make_reader(&data);
    assert_eq!(get_ue_golomb(&mut br).unwrap(), 2);
}

#[test]
fn ue_value_3() {
    let data = [0x20, 0, 0, 0, 0, 0, 0, 0];
    let mut br = make_reader(&data);
    assert_eq!(get_ue_golomb(&mut br).unwrap(), 3);
}

#[test]
fn ue_value_4() {
    let data = [0x28, 0, 0, 0, 0, 0, 0, 0];
    let mut br = make_reader(&data);
    assert_eq!(get_ue_golomb(&mut br).unwrap(), 4);
}

#[test]
fn ue_value_5() {
    let data = [0x30, 0, 0, 0, 0, 0, 0, 0];
    let mut br = make_reader(&data);
    assert_eq!(get_ue_golomb(&mut br).unwrap(), 5);
}

#[test]
fn ue_value_6() {
    let data = [0x38, 0, 0, 0, 0, 0, 0, 0];
    let mut br = make_reader(&data);
    assert_eq!(get_ue_golomb(&mut br).unwrap(), 6);
}

#[test]
fn ue_sequential_values() {
    let data = [0xA6, 0, 0, 0, 0, 0, 0, 0];
    let mut br = make_reader(&data);
    assert_eq!(get_ue_golomb(&mut br).unwrap(), 0);
    assert_eq!(get_ue_golomb(&mut br).unwrap(), 1);
    assert_eq!(get_ue_golomb(&mut br).unwrap(), 2);
}

#[test]
fn ue_error_all_zeros() {
    let data = [0u8; 8];
    let mut br = make_reader(&data);
    assert_eq!(get_ue_golomb(&mut br), Err(Error::InvalidData));
}

#[test]
fn se_mapping() {
    let data = [0x80, 0, 0, 0, 0, 0, 0, 0];
    let mut br = make_reader(&data);
    assert_eq!(get_se_golomb(&mut br).unwrap(), 0);
    let data = [0x40, 0, 0, 0, 0, 0, 0, 0];
    let mut br = make_reader(&data);
    assert_eq!(get_se_golomb(&mut br).unwrap(), 1);
    let data = [0x60, 0, 0, 0, 0, 0, 0, 0];
    let mut br = make_reader(&data);
    assert_eq!(get_se_golomb(&mut br).unwrap(), -1);
    let data = [0x20, 0, 0, 0, 0, 0, 0, 0];
    let mut br = make_reader(&data);
    assert_eq!(get_se_golomb(&mut br).unwrap(), 2);
    let data = [0x28, 0, 0, 0, 0, 0, 0, 0];
    let mut br = make_reader(&data);
    assert_eq!(get_se_golomb(&mut br).unwrap(), -2);
}

#[test]
fn te_range_2_bit_0() {
    let data = [0x00, 0, 0, 0, 0, 0, 0, 0];
    let mut br = make_reader(&data);
    assert_eq!(get_te_golomb(&mut br, 2).unwrap(), 1);
}

#[test]
fn te_range_2_bit_1() {
    let data = [0x80, 0, 0, 0, 0, 0, 0, 0];
    let mut br = make_reader(&data);
    assert_eq!(get_te_golomb(&mut br, 2).unwrap(), 0);
}

#[test]
fn te_range_gt2_falls_through_to_ue() {
    let data = [0x80, 0, 0, 0, 0, 0, 0, 0];
    let mut br = make_reader(&data);
    assert_eq!(get_te_golomb(&mut br, 5).unwrap(), 0);
}

#[test]
fn te0_range_1_returns_zero() {
    let data = [0xFF, 0, 0, 0, 0, 0, 0, 0];
    let mut br = make_reader(&data);
    assert_eq!(get_te0_golomb(&mut br, 1).unwrap(), 0);
}

#[test]
fn te0_range_2_reads_bit() {
    let data = [0x80, 0, 0, 0, 0, 0, 0, 0];
    let mut br = make_reader(&data);
    assert_eq!(get_te0_golomb(&mut br, 2).unwrap(), 0);
}

#[test]
fn te0_range_gt2_falls_through_to_ue() {
    let data = [0x40, 0, 0, 0, 0, 0, 0, 0];
    let mut br = make_reader(&data);
    assert_eq!(get_te0_golomb(&mut br, 8).unwrap(), 1);
}

fn code_bits(v: u64, bits: &mut Vec<bool>) {
    let n = v + 1;
    let z = 63 - n.leading_zeros();
    bits.extend((0..z).map(|_| false));
    bits.extend((0..=z).rev().map(|i| (n >> i) & 1 == 1));
}

#[test]
fn codes_are_read_back() {
    let values = [0u64, 1, 5, 77, 1000, 65535, 0x7fff_ffff, 0xffff_fffe, 3, 0xffff_0000];
    let mut bits = Vec::new();
    for v in values {
        code_bits(v, &mut bits);
    }
    let mut data: Vec<u8> = bits
        .chunks(8)
        .map(|c| c.iter().enumerate().fold(0u8, |a, (i, &b)| a | ((b as u8) << (7 - i))))
        .collect();
    data.extend([0u8; 16]);
    let mut br = bit_reader(&data);
    for v in values {
        assert_eq!(get_ue_golomb(&mut br), Ok(v as u32));
    }
}

#[test]
fn short_data_reads_as_zero() {
    let mut br = bit_reader(&[0xFF; 7]);
    assert_eq!(get_ue_golomb(&mut br), Err(Error::InvalidData));
    assert_eq!(get_te_golomb(&mut br, 2), Ok(1));
}

#[test]
fn test_set_and_get() {
    let mut opts = CodecOptions::new();
    opts.set("bitrate", "128000");
    assert_eq!(opts.get("bitrate"), Some("128000"));
    assert_eq!(opts.get("missing"), None);
}

#[test]
fn test_overwrite_preserves_order() {
    let mut opts = CodecOptions::new();
    opts.set("a", "1");
    opts.set("b", "2");
    opts.set("a", "3");
    let keys: Vec<&str> = opts.iter().into_iter().map(|(k, _)| k).collect();
    assert_eq!(keys, vec!["a", "b"]);
    assert_eq!(opts.get("a"), Some("3"));
}

#[test]
fn test_typed_getters() {
    let mut opts = CodecOptions::new();
    opts.set("threads", "4");
    opts.set("quality", "0.95");
    opts.set("strict", "true");
    opts.set("experimental", "1");
    opts.set("disabled", "no");
    opts.set("bad_int", "abc");
    assert_eq!(opts.get_i64("threads"), Some(4));
    assert_eq!(opts.get("quality").and_then(|v| v.parse::<f64>().ok()), Some(0.95));
    assert_eq!(opts.get_bool("strict"), Some(true));
    assert_eq!(opts.get_bool("experimental"), Some(true));
    assert_eq!(opts.get_bool("disabled"), Some(false));
    assert_eq!(opts.get_i64("bad_int"), None);
    assert_eq!(opts.get_i64("missing"), None);
}

#[test]
fn test_is_empty() {
    let mut opts = CodecOptions::new();
    assert!(opts.is_empty());
    opts.set("key", "value");
    assert!(!opts.is_empty());
}

#[test]
fn test_default() {
    let opts = CodecOptions::default();
    assert!(opts.is_empty());
}

#[test]
fn keys_of_options_keep_their_case() {
    let mut opts = CodecOptions::new();
    opts.set("a", "yes");
    opts.set("A", "maybe");
    assert_eq!(opts.get_bool("a"), Some(true));
    assert_eq!(opts.get_bool("A"), None);
    assert_eq!(opts.get_bool("missing"), None);
}

fn described(id: CodecId, name: &'static str, priority: i32) -> DecoderDescriptor {
    DecoderDescriptor {
        codec_id: id,
        name,
        long_name: name,
        media_type: MediaType::Audio,
        capabilities: CodecCapabilities::empty(),
        properties: CodecProperties::empty(),
        priority,
    }
}

#[test]
fn decoder_of_highest_priority_is_found() {
    let all = [
        described(CodecId::Aac, "wrapped", 50),
        described(CodecId::Aac, "native", 100),
        described(CodecId::Mp3, "other", 200),
        described(CodecId::Aac, "native2", 100),
    ];
    assert_eq!(find_decoder(&all, CodecId::Aac), Some(3));
    assert_eq!(find_decoder(&all, CodecId::Flac), None);
    assert_eq!(find_decoder_by_name(&all, "native"), Some(1));
    assert_eq!(find_decoder_by_name(&all, "nativ"), None);
}

#[test]
fn encoder_of_highest_priority_is_found() {
    let one = |priority| EncoderDescriptor {
        codec_id: CodecId::PcmS16le,
        name: "pcm",
        long_name: "",
        media_type: MediaType::Audio,
        capabilities: CodecCapabilities::empty(),
        properties: CodecProperties::empty(),
        supported_sample_formats: &[],
        supported_pixel_formats: &[],
        priority,
    };
    let all = [one(3), one(9), one(4)];
    assert_eq!(find_encoder(&all, CodecId::PcmS16le), Some(1));
    assert_eq!(find_encoder(&all, CodecId::Vp9), None);
    assert_eq!(find_encoder_by_name(&all, "pcm"), Some(0));
}

#[test]
fn builders_collect_options() {
    let b = DecoderBuilder::new(CodecParameters::new(CodecId::Vp9, MediaType::Video))
        .option("threads", "2")
        .option("threads", "4");
    assert_eq!(b.params().options.get_i64("threads"), Some(4));
    assert_eq!(b.params().codec_id, CodecId::Vp9);
    let e = EncoderBuilder::new(CodecId::PcmS16le, MediaType::Audio).option("x", "1");
    assert_eq!(e.options.get("x"), Some("1"));
    assert_eq!(e.time_base.den, 1);
}

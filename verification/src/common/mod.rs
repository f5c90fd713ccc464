//! Values that the codecs and the formats share.
pub mod approximation;
pub mod buffer;
pub mod channel_layout;
pub mod chroma_location;
pub mod codec_id;
pub mod color_primaries;
pub mod color_trc;
pub mod frame;
pub mod frame_side_data;
pub mod log;
pub mod media_type;
pub mod metadata;
pub mod packet;
pub mod pixel_format;
pub mod rational;
pub mod sample_format;
pub mod text;
pub mod timestamp;

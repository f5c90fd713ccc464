//! Codecs: what they are described, opened and chosen by.
pub mod bitstream;
pub mod decoder;
pub mod descriptor;
pub mod encoder;
pub mod options;
pub mod registry;
pub mod subtitle;

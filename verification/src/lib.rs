//! A media framework: shared values, codecs, containers, filters, scaling and resampling.
pub mod codec;
pub mod common;
pub mod error;
pub mod filter;
pub mod format;
pub mod resample;
pub mod scale;
pub mod vp9;

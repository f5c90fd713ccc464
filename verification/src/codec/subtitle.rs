//! Subtitles.
use vstd::prelude::*;

use crate::common::packet::Packet;
use crate::error::Result;

verus! {

/// A part of a subtitle.
#[derive(Debug, Clone)]
pub enum SubtitleRect {
    /// A picture.
    Bitmap { x: u32, y: u32, width: u32, height: u32, data: Vec<u8>, palette: Vec<u32> },
    /// Text.
    Text(String),
    /// Text with formatting marks.
    Ass(String),
}

/// A subtitle: when it is shown, and what.
#[derive(Debug, Clone)]
pub struct Subtitle {
    pub start_display_time: u32,
    pub end_display_time: u32,
    pub pts: i64,
    pub rects: Vec<SubtitleRect>,
}

/// A decoder of subtitles.
pub trait SubtitleDecoder: Send {
    fn decode(&mut self, packet: &Packet) -> Result<Option<Subtitle>>;

    fn flush(&mut self);
}

/// An encoder of subtitles.
pub trait SubtitleEncoder: Send {
    fn encode(&mut self, subtitle: &Subtitle) -> Result<Packet>;
}

} // verus!

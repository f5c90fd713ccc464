//! Containers: reading and writing them, and choosing among them.
pub mod bytes;
pub mod context;
pub mod demuxer;
pub mod io;
pub mod muxer;
pub mod protocol;
pub mod registry;

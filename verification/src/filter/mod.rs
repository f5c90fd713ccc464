//! Filters and their graphs.
pub mod graph;
pub mod pads;
pub mod registry;

pub use pads::{Filter, FilterDescriptor, FilterFlags, FilterPadDescriptor, FilterPadDirection};

//! Filters and what they are described by.
use vstd::prelude::*;

use crate::common::media_type::MediaType;
use crate::error::Result;

verus! {

/// Properties of a filter.
#[derive(Debug, Clone, Copy, PartialEq, Eq, Structural)]
pub struct FilterFlags {
    pub bits: u32,
}

impl FilterFlags {
    pub const DYNAMIC_INPUTS: u32 = 1;

    pub const DYNAMIC_OUTPUTS: u32 = 2;

    pub const SLICE_THREADS: u32 = 4;

    pub const METADATA_ONLY: u32 = 8;

    pub const SUPPORT_TIMELINE_GENERIC: u32 = 0x10000;

    pub const SUPPORT_TIMELINE_INTERNAL: u32 = 0x20000;

    /// No flag.
    pub fn empty() -> (r: FilterFlags)
        ensures
            r.bits == 0,
    {
        FilterFlags { bits: 0 }
    }

    /// Whether every one of given flags is set.
    pub fn contains(self, flags: u32) -> (r: bool)
        ensures
            r == (self.bits & flags == flags),
    {
        self.bits & flags == flags
    }

    /// These flags and given ones.
    pub fn union(self, flags: u32) -> (r: FilterFlags)
        ensures
            r.bits == self.bits | flags,
    {
        FilterFlags { bits: self.bits | flags }
    }
}

/// Direction of a pad.
#[derive(Debug, Clone, Copy, PartialEq, Eq, Structural)]
pub enum FilterPadDirection {
    Input,
    Output,
}

/// Description of a pad.
#[derive(Debug, Clone)]
pub struct FilterPadDescriptor {
    pub name: &'static str,
    pub media_type: MediaType,
    pub direction: FilterPadDirection,
}

/// Description of a filter.
#[derive(Debug, Clone)]
pub struct FilterDescriptor {
    pub name: &'static str,
    pub description: &'static str,
    pub inputs: &'static [FilterPadDescriptor],
    pub outputs: &'static [FilterPadDescriptor],
    pub flags: FilterFlags,
}

/// A filter.
pub trait Filter: Send {
    fn descriptor(&self) -> &FilterDescriptor;

    fn activate(&mut self) -> Result<()>;
}

} // verus!

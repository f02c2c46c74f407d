//! Executable load plans: the page-aligned regions of an image and the copy and
//! zero-fill actions that populate them.

use vstd::prelude::*;

verus! {

pub const PAGE_SIZE: usize = 4096;
/// Pages an image (its regions and its stack) may use at most.
pub const MAX_IMAGE_PAGES: usize = 256;

/// Access rights of a region.
#[derive(Debug, Clone, Copy, PartialEq, Eq, Structural)]
pub struct LoadPermissions {
    pub read: bool,
    pub write: bool,
    pub execute: bool,
}

impl LoadPermissions {
    pub fn writable(self) -> (r: bool)
        ensures
            r == self.write,
    {
        self.write
    }

    pub fn executable(self) -> (r: bool)
        ensures
            r == self.execute,
    {
        self.execute
    }
}

/// One step that fills part of a region.
#[derive(Debug, Clone, Copy, PartialEq, Eq, Structural)]
pub enum LoadAction {
    /// Copy `len` bytes of the image, from `source_offset`, to `target_address`.
    Copy { source_offset: usize, target_address: u64, len: usize },
    /// Zero `len` bytes at `target_address`.
    ZeroFill { target_address: u64, len: usize },
}

/// A page-aligned region of an image.
#[derive(Debug, Clone)]
pub struct LoadRegion {
    pub start: u64,
    pub size: usize,
    pub page_count: usize,
    pub permissions: LoadPermissions,
    pub actions: Vec<LoadAction>,
}

/// The regions of an image and its page budget.
#[derive(Debug, Clone)]
pub struct LoadPlan {
    pub image_name: String,
    pub source_path: String,
    pub entry_point: u64,
    pub regions: Vec<LoadRegion>,
    pub total_pages: usize,
    pub stack_pages: usize,
}

} // verus!

//! Images whose pages are backed by owned physical frames.

use vstd::prelude::*;
use crate::address_space::AddressSpaceId;
use crate::frame_ownership::OwnedFrame;
use crate::load_plan::LoadPermissions;

verus! {

/// One page of an image and the frame that backs it.
#[derive(Debug, Clone, Copy, PartialEq, Eq, Structural)]
pub struct BackedPage {
    pub virtual_address: u64,
    pub frame: OwnedFrame,
    pub permissions: LoadPermissions,
}

/// The backed pages of one region.
#[derive(Debug, Clone)]
pub struct FrameBackedRegion {
    pub pages: Vec<BackedPage>,
}

/// A frame-backed image.
#[derive(Debug, Clone)]
pub struct FrameBackedImage {
    pub address_space_id: AddressSpaceId,
    pub regions: Vec<FrameBackedRegion>,
    pub total_pages: usize,
}

/// The backed pages of `regions`, region by region.
pub open spec fn all_pages(regions: Seq<FrameBackedRegion>) -> Seq<BackedPage>
    decreases regions.len(),
{
    if regions.len() == 0 {
        Seq::empty()
    } else {
        all_pages(regions.drop_last()) + regions.last().pages@
    }
}

} // verus!

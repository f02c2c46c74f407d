//! Address-space identities and the state of an image's mapping.

use vstd::prelude::*;

verus! {

#[derive(Debug, Clone, Copy, PartialEq, Eq, Structural)]
pub struct AddressSpaceId(pub u64);

impl AddressSpaceId {
    pub fn from_raw(raw: u64) -> (r: Self)
        ensures
            r.0 == raw,
    {
        AddressSpaceId(raw)
    }

    pub fn as_u64(self) -> (r: u64)
        ensures
            r == self.0,
    {
        self.0
    }
}

/// How far an image's mapping has progressed.
#[derive(Debug, Clone, Copy, PartialEq, Eq, Structural)]
pub enum MappingState {
    /// Pages and frame tokens are assigned; no page table has been touched.
    MappedStub,
}

} // verus!

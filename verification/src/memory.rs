//! Address types handed through the dispatcher.

use vstd::prelude::*;

verus! {

/// A guest-physical address.  The dispatch core treats it as an opaque
/// orderable scalar with a `u64` projection.
#[derive(Clone, Copy, PartialEq, Eq, Structural, Debug)]
pub struct GuestPhysAddr(pub u64);

impl GuestPhysAddr {
    pub fn new(addr: u64) -> (r: Self)
        ensures
            r.0 == addr,
    {
        GuestPhysAddr(addr)
    }

    pub fn as_u64(&self) -> (r: u64)
        ensures
            r == self.0,
    {
        self.0
    }
}

/// An opaque mutable view of guest memory, passed through to device
/// handlers.  The dispatch core never inspects it; devices that emulate DMA
/// would.  At this layer it carries no state.
pub struct GuestAddressSpaceViewMut {}

impl GuestAddressSpaceViewMut {
    pub fn new() -> (r: Self) {
        GuestAddressSpaceViewMut {  }
    }
}

} // verus!

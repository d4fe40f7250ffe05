use vstd::prelude::*;

verus! {

/// A weak reference to a logical entity: a generation counter and a slot index.
///
/// A handle owns nothing. Whoever holds one validates it against the allocator
/// that issued it, or against a component index, before using it.
#[derive(Clone, Copy, Debug, PartialEq, Eq, Structural, Hash, PartialOrd, Ord)]
pub struct Handle {
    pub g: u32,
    pub i: u32,
}

impl Default for Handle {
    /// Generation 0 of slot 0.
    fn default() -> (h: Handle)
        ensures
            h == (Handle { g: 0, i: 0 }),
    {
        Handle { g: 0, i: 0 }
    }
}

impl Handle {
    pub fn new(g: u32, i: u32) -> (h: Handle)
        ensures
            h == (Handle { g, i }),
    {
        Handle { g, i }
    }

    /// The reserved sentinel: generation and slot are both `u32::MAX`.
    pub open spec fn sentinel() -> Handle {
        Handle { g: u32::MAX, i: u32::MAX }
    }

    /// The reserved sentinel as a value.
    pub fn invalid() -> (h: Handle)
        ensures
            h == Handle::sentinel(),
    {
        Handle { g: u32::MAX, i: u32::MAX }
    }
}

} // verus!

//! A memory segment destined for device flash.

use vstd::prelude::*;

verus! {

/// A contiguous block of firmware bytes together with the flash offset it is
/// written to.  A segment is immutable once constructed and is consumed by one
/// `write_segment` call.
#[derive(Clone, Debug, PartialEq, Eq)]
pub struct Segment {
    /// The target flash offset.
    pub addr: u32,
    /// The raw bytes to write.
    pub data: Vec<u8>,
}

impl Segment {
    /// Bundles a flash offset and its bytes into a segment.
    pub fn new(addr: u32, data: Vec<u8>) -> (r: Self)
        ensures
            r.addr == addr,
            r.data@ == data@,
    {
        Segment { addr, data }
    }
}

} // verus!

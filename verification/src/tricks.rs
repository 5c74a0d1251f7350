//! Small shared helpers.
use vstd::prelude::*;

verus! {

/// A size stored on disk as a 32-bit value but used as a `usize`.
#[derive(Copy, Clone, Eq, PartialEq, Structural, Debug)]
pub struct U32Size(pub usize);

impl U32Size {
    /// Read a stored 32-bit size as a `usize`.
    pub fn from_u32(v: u32) -> (r: U32Size)
        ensures
            r.0 == v,
    {
        U32Size(v as usize)
    }
}

} // verus!

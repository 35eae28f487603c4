//! Models of UPS queries and responses.

pub mod capacity;
pub mod cplus;
pub mod text;
pub mod wire;

use vstd::prelude::*;

verus! {

/// A response that is decoded from the bytes of a frame, start byte and
/// delimiter taken off.
pub trait FromBytes {
    type Err;

    /// Whether `r` is what the bytes `s` decode to.
    spec fn decodes_to(s: Seq<u8>, r: Result<Self, Self::Err>) -> bool where Self: Sized;

    fn from_bytes(s: &[u8]) -> (r: Result<Self, Self::Err>) where Self: Sized
        ensures
            Self::decodes_to(s@, r),
    ;
}

} // verus!

//! The payload that crosses the boundary with each callback invocation.

use vstd::prelude::*;

verus! {

/// A payload on the host side.
///
/// The native library passes a payload as an opaque handle of 64 bits. This
/// layer does not look into it: a payload is the handle it was made from, and
/// is turned back into that handle when it returns to the native side.
#[derive(Debug, PartialEq, Eq, Structural)]
pub struct Value {
    /// The bits of the native handle.
    pub raw: u64,
}

impl Value {
    /// Takes over a handle that the native library passed in.
    pub fn from_raw(raw: u64) -> (value: Value)
        ensures
            value == (Value { raw }),
    {
        Value { raw }
    }

    /// Gives the payload back to the native side as a handle.
    pub fn into_raw(self) -> (raw: u64)
        ensures
            raw == self.raw,
    {
        self.raw
    }
}

} // verus!

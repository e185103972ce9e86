//! Native handles passed to and from Java as `long` values.
use vstd::prelude::*;

verus! {

/// A native handle: the address of a boxed value, zero for none.
#[derive(Debug, Clone, Copy, PartialEq, Eq, Structural)]
pub struct NativeHandle {
    handle: i64,
}

impl NativeHandle {
    /// The handle's value.
    pub closed spec fn value(&self) -> i64 {
        self.handle
    }

    /// A handle with the given value.
    pub fn new(handle: i64) -> (r: NativeHandle)
        ensures
            r.value() == handle,
    {
        NativeHandle { handle }
    }

    /// Whether the handle is not zero.
    pub fn is_valid(&self) -> (r: bool)
        ensures
            r == (self.value() != 0),
    {
        self.handle != 0
    }

    /// The handle's value.
    pub fn raw(&self) -> (r: i64)
        ensures
            r == self.value(),
    {
        self.handle
    }
}

} // verus!

//! Failures that the primitives report to their callers.

use vstd::prelude::*;

verus! {

/// A failure reported by the kernel or by one of the primitives.
#[derive(Debug)]
pub enum Error {
    /// The kernel refused a request; the number is its error code.
    System(i32),
    /// A failure described in words.
    Custom(String),
}

} // verus!

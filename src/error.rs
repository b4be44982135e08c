//! The ways a write or a read of the slot can fail.
use vstd::prelude::*;

verus! {

/// Why `set` or `snapshot` failed. A failed call leaves the slot as it was.
#[derive(Clone, Copy, Debug, PartialEq, Eq, Structural)]
pub enum ErrorKind {
    /// The bytes written are not valid UTF-8.
    InvalidEncoding,
    /// The text written is not a decimal `i32`, white space around it aside.
    InvalidFormat,
    /// No live process has the stored identifier.
    NotFound,
}

} // verus!

//! The error carried out of a failed operating-system call.

use vstd::prelude::*;

verus! {

/// An operating-system failure, carrying the platform error code that the
/// failed call reported (for example "no such process" or a write error on
/// standard output).  The library performs no recovery of its own: every
/// failure surfaces as one of these values.
#[derive(Clone, Copy, Debug, PartialEq, Eq, Structural)]
pub struct OsError {
    /// The raw platform error code of the failed call.
    pub code: i32,
}

impl OsError {
    /// Wraps a raw platform error code.
    pub fn from_code(code: i32) -> (r: OsError)
        ensures
            r.code == code,
    {
        OsError { code }
    }

    /// The raw platform error code of the failed call.
    pub fn code(&self) -> (c: i32)
        ensures
            c == self.code,
    {
        self.code
    }
}

} // verus!

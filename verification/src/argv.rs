//! The printable argument block: an owned, inert copy of the byte range that
//! the retrieval call produced for one process's argument vector.

use crate::error::OsError;
use vstd::prelude::*;

verus! {

/// A printable representation of a process's arguments: the bytes of the
/// retrieved range, owned outright.  Separator style and skip count were
/// applied by the retrieval call that produced the bytes, so the block itself
/// only stores and writes them.
///
/// The default value owns no bytes at all; it is the valid "no arguments"
/// state, safe to print (it writes nothing) and to drop.
#[derive(Debug)]
pub struct Argv {
    bytes: Vec<u8>,
}

impl View for Argv {
    type V = Seq<u8>;

    closed spec fn view(&self) -> Seq<u8> {
        self.bytes@
    }
}

impl Argv {
    /// Takes ownership of an already-retrieved byte range.
    pub fn new(bytes: Vec<u8>) -> (r: Argv)
        ensures
            r@ == bytes@,
    {
        Argv { bytes }
    }

    /// The length of the printable range in bytes; `0` for the default value.
    pub fn len(&self) -> (n: usize)
        ensures
            n == self@.len(),
    {
        self.bytes.len()
    }

    /// Whether the block holds no bytes.
    pub fn is_empty(&self) -> (b: bool)
        ensures
            b == (self@.len() == 0),
    {
        self.bytes.len() == 0
    }

    /// Read-only access to the owned bytes.
    pub fn as_bytes(&self) -> (r: &Vec<u8>)
        ensures
            r@ == self@,
    {
        &self.bytes
    }

    /// Writes the whole block to standard output.  An empty block always
    /// succeeds and writes nothing; otherwise the operating system decides,
    /// and a failed write surfaces as its error code.
    pub fn print(&self) -> (r: Result<(), OsError>)
        ensures
            self@.len() == 0 ==> r is Ok,
            r is Err ==> self@.len() > 0,
    {
        if self.bytes.len() == 0 {
            Ok(())
        } else {
            match write_stdout(&self.bytes) {
                Ok(()) => Ok(()),
                Err(code) => Err(OsError { code }),
            }
        }
    }
}

impl Default for Argv {
    /// The empty block: no bytes, nothing to print, nothing to release.
    fn default() -> (r: Self)
        ensures
            r@ == Seq::<u8>::empty(),
    {
        Argv { bytes: Vec::new() }
    }
}

impl Clone for Argv {
    /// Deep copy: the clone owns a fresh buffer holding the same bytes, so it
    /// outlives the original independently.
    fn clone(&self) -> (r: Self)
        ensures
            r@ == self@,
    {
        Argv { bytes: copy_bytes(&self.bytes) }
    }
}

impl PartialEq for Argv {
    /// Two blocks are equal when they hold the same bytes; in particular any
    /// two empty blocks are equal.
    fn eq(&self, other: &Argv) -> (r: bool) {
        if self.bytes.len() != other.bytes.len() {
            return false;
        }
        let mut i: usize = 0;
        while i < self.bytes.len()
            invariant
                self.bytes@.len() == other.bytes@.len(),
                i <= self.bytes@.len(),
                forall|j: int| 0 <= j < i ==> self.bytes@[j] == other.bytes@[j],
            decreases self.bytes@.len() - i,
        {
            if self.bytes[i] != other.bytes[i] {
                return false;
            }
            i = i + 1;
        }
        proof {
            assert(self.bytes@ =~= other.bytes@);
        }
        true
    }
}

impl vstd::std_specs::cmp::PartialEqSpecImpl for Argv {
    open spec fn obeys_eq_spec() -> bool {
        true
    }

    open spec fn eq_spec(&self, other: &Argv) -> bool {
        self@ == other@
    }
}

/// An independently owned copy of a byte vector.
pub(crate) fn copy_bytes(v: &Vec<u8>) -> (r: Vec<u8>)
    ensures
        r@ == v@,
{
    let mut copy: Vec<u8> = Vec::new();
    let mut i: usize = 0;
    while i < v.len()
        invariant
            i <= v@.len(),
            copy@ == v@.subrange(0, i as int),
        decreases v@.len() - i,
    {
        copy.push(v[i]);
        i = i + 1;
        proof {
            assert(copy@ =~= v@.subrange(0, i as int));
        }
    }
    proof {
        assert(copy@ =~= v@);
    }
    copy
}

/// Relies on std::io::Write::write_all on the process's standard output: it
/// writes the whole buffer, and a failure carries the OS error code of the
/// write that failed.
#[verifier::external_body]
fn write_stdout(bytes: &Vec<u8>) -> (r: Result<(), i32>) {
    let mut out = std::io::stdout();
    match std::io::Write::write_all(&mut out, bytes.as_slice()) {
        Ok(()) => Ok(()),
        Err(e) => Err(e.raw_os_error().unwrap_or(0)),
    }
}

} // verus!

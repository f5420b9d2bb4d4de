//! Why an opcode stream could not be replayed.

use vstd::prelude::*;

verus! {

/// The failure of a whole extraction: no partial list of imports is ever returned.
#[derive(Debug, Clone, Copy, PartialEq, Eq, Structural)]
pub enum BindError {
    /// The stream is truncated or malformed.  `offset` is the position in the
    /// binary's bytes at which the read that failed began: of an opcode byte,
    /// of a variable-length integer, or of a symbol name.
    Decode { offset: usize },
    /// A bind names segment `index`, and the segment table has only `len` entries.
    SegmentOutOfRange { index: usize, len: usize },
    /// A bind names library `ordinal`, and the library table has only `len` entries.
    OrdinalOutOfRange { ordinal: usize, len: usize },
}

} // verus!

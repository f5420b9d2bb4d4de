//! What the interpreter is told about the binary around the opcode streams.

use vstd::prelude::*;

verus! {

/// A segment of the binary, as far as binds are concerned.
#[derive(Debug, Clone, Copy, PartialEq, Eq, Structural)]
pub struct Segment {
    /// Where the segment begins in the file.
    pub fileoff: u64,
    /// Where the segment begins in virtual memory.
    pub vmaddr: u64,
}

/// The width of a pointer in the binary.
#[derive(Debug, Clone, Copy, PartialEq, Eq, Structural)]
pub enum PointerWidth {
    /// Pointers of four bytes.
    Bits32,
    /// Pointers of eight bytes.
    Bits64,
}

impl PointerWidth {
    /// The number of bytes in a pointer.
    pub open spec fn spec_size(self) -> usize {
        match self {
            PointerWidth::Bits32 => 4,
            PointerWidth::Bits64 => 8,
        }
    }

    /// The number of bytes in a pointer: four or eight.
    #[verifier::when_used_as_spec(spec_size)]
    pub fn size(self) -> (n: usize)
        ensures
            n == self.spec_size(),
    {
        match self {
            PointerWidth::Bits32 => 4,
            PointerWidth::Bits64 => 8,
        }
    }
}

} // verus!

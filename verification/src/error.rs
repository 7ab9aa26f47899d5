//! What can go wrong while a file is read.

use vstd::prelude::*;

verus! {

/// A position in the file, counted in bytes from its start. The file stores
/// positions in 32 bits; the reader works with 64.
pub type Offset = u64;

/// The two kinds of failure: the bytes are there and break a rule of the
/// format, or the bytes are not there.
#[derive(Clone, Copy, Debug, PartialEq, Eq, Structural)]
pub enum ErrorKind {
    /// The data violates the format: the file is corrupt.
    InvalidData,
    /// Fewer bytes are available than the format promises: the file is
    /// incomplete.
    UnexpectedEof,
}

/// Why a read failed. Every failure ends the read: no directory is handed
/// out from a file that has one.
#[derive(Clone, Copy, Debug, PartialEq, Eq, Structural)]
pub enum Error {
    /// The first two bytes are neither "II" nor "MM".
    InvalidByteOrder { first: u8, second: u8 },
    /// The version field of the header does not hold 42.
    InvalidVersion { found: i16 },
    /// The offset of the first directory points into the header.
    FirstIfdOffsetTooSmall { offset: Offset },
    /// An offset that must lie on a word boundary is odd.
    OddOffset { offset: Offset },
    /// An entry has the reserved type code 0.
    InvalidFieldType,
    /// An entry announces no value at all.
    EmptyField,
    /// A read met the end of the file: `available` bytes were left where
    /// `requested` were needed.
    UnexpectedEof { requested: u64, available: u64 },
    /// The chain of directories comes back to a directory that it has
    /// already passed through, at `offset`.
    CyclicChain { offset: Offset },
    /// The entry that points to the sub-directory holds fewer than the four
    /// bytes of an offset.
    InvalidSubIfd { length: u64 },
}

impl Error {
    /// The kind of this failure.
    pub open spec fn spec_kind(&self) -> ErrorKind {
        match self {
            Error::UnexpectedEof { .. } => ErrorKind::UnexpectedEof,
            _ => ErrorKind::InvalidData,
        }
    }

    /// The kind of this failure: `UnexpectedEof` for a read that came back
    /// short, `InvalidData` for everything else.
    #[verifier::when_used_as_spec(spec_kind)]
    pub fn kind(&self) -> (r: ErrorKind)
        ensures
            r == self.spec_kind(),
    {
        match self {
            Error::UnexpectedEof { .. } => ErrorKind::UnexpectedEof,
            _ => ErrorKind::InvalidData,
        }
    }
}

} // verus!

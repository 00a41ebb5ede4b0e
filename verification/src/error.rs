//! The error taxonomy shared by every decoder.

use vstd::prelude::*;

verus! {

/// Why a decode was abandoned.
#[derive(Clone, Copy, Debug, PartialEq, Eq, Structural)]
pub enum DecodeError {
    /// A read or a sub-scope asked for more bytes than remain.
    TruncatedData,
    /// The root chunk's tag is not the one of the requested asset kind.
    UnexpectedFormat,
    /// A declared repetition count, times its element size, exceeds the bytes
    /// that remain.
    CountOutOfBounds,
    /// A nested chunk declares a body that does not fit inside its parent.
    MalformedChunk,
}

impl DecodeError {
    /// A short human-readable description of the error.
    pub fn describe(&self) -> (text: &'static str)
        ensures
            text@ == Self::description(*self),
    {
        match self {
            DecodeError::TruncatedData => "truncated data",
            DecodeError::UnexpectedFormat => "unexpected format",
            DecodeError::CountOutOfBounds => "count out of bounds",
            DecodeError::MalformedChunk => "malformed chunk",
        }
    }

    /// The text that [`DecodeError::describe`] returns for each error.
    pub open spec fn description(e: DecodeError) -> Seq<char> {
        match e {
            DecodeError::TruncatedData => "truncated data"@,
            DecodeError::UnexpectedFormat => "unexpected format"@,
            DecodeError::CountOutOfBounds => "count out of bounds"@,
            DecodeError::MalformedChunk => "malformed chunk"@,
        }
    }
}

} // verus!

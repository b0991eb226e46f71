//! The errors of the library and their wording.

use vstd::prelude::*;

verus! {

/// Result type used by every fallible method of the library.
pub type Result<T> = core::result::Result<T, Error>;

/// Errors surfaced by the decompressor.
#[derive(Debug, Clone, PartialEq, Eq)]
pub enum Error {
    /// The compressed input is corrupt or not a valid DEFLATE stream.
    BadData,
    /// The output buffer wasn't big enough, either for the requested decompression itself or
    /// for the resume path's dictionary prefix.
    InsufficientSpace,
    /// The decompressed output was shorter than the caller required. Kept for symmetry with
    /// upstream libdeflate; an engine that honours its calls never makes the walk and resume
    /// paths return it.
    ShortOutput,
    /// Out of memory (libdeflate's allocator returned NULL).
    OutOfMemory,
    /// A precondition was violated.
    InvalidInput(&'static str),
}

impl Error {
    /// The text shown to a user for this error.
    pub open spec fn spec_message(self) -> Seq<char> {
        match self {
            Error::BadData => "libdeflate: bad data"@,
            Error::InsufficientSpace => "libdeflate: insufficient output space"@,
            Error::ShortOutput => "libdeflate: short output"@,
            Error::OutOfMemory => "libdeflate: out of memory"@,
            Error::InvalidInput(reason) => "libdeflate: invalid input: "@ + reason@,
        }
    }

    /// Renders the error as a user would read it.
    pub fn message(&self) -> (text: String)
        ensures
            text@ == self.spec_message(),
    {
        match self {
            Error::BadData => "libdeflate: bad data".to_owned(),
            Error::InsufficientSpace => "libdeflate: insufficient output space".to_owned(),
            Error::ShortOutput => "libdeflate: short output".to_owned(),
            Error::OutOfMemory => "libdeflate: out of memory".to_owned(),
            Error::InvalidInput(reason) => {
                let mut text = "libdeflate: invalid input: ".to_owned();
                text.append(reason);
                text
            },
        }
    }
}

} // verus!

//! The failures that stop a conversion.
use vstd::prelude::*;

verus! {

broadcast use vstd::string::group_string_axioms;

/// What went wrong.
#[derive(Debug, Clone, Copy, PartialEq, Eq, Structural)]
pub enum ErrorKind {
    /// Reading, writing, seeking or resizing the underlying file failed.
    IOError,
    /// The bytes are too few to hold a header.
    SerializationError,
    /// The bitmap file header does not start with the bitmap id.
    InvalidBitmapID,
    /// The conversion record does not carry this format's signature.
    InvalidB2BSignature,
    /// The recorded padding is not shorter than the pixel data.
    BadPaddingSize,
    /// The input is larger than the 32-bit size fields of a bitmap allow.
    FileTooLarge,
}

/// A failure of a conversion, with a message for the user.
#[derive(Debug)]
pub struct Error {
    pub kind: ErrorKind,
    pub message: String,
}

/// The shared library result type.
pub type Result<T> = std::result::Result<T, Error>;

impl Error {
    pub fn new(kind: ErrorKind, error: &str) -> (r: Self)
        ensures
            r.kind == kind,
            r.message@ == error@,
    {
        Error { kind, message: error.to_string() }
    }

    pub fn kind(&self) -> (r: ErrorKind)
        ensures
            r == self.kind,
    {
        self.kind
    }
}

} // verus!

use vstd::prelude::*;

verus! {

/// Everything that can go wrong while decoding an HPROF buffer.
///
/// Every decode routine reports failure through this one type; none of the
/// decoding code panics or prints.
#[derive(Debug, Clone, Copy, PartialEq, Eq, Structural)]
pub enum Error {
    /// A read asked for more bytes than the buffer still holds. `requested`
    /// is the exact width of the failing read, `remaining` the true number
    /// of bytes left at that point.
    OutOfBounds { requested: usize, remaining: usize },
    /// The file header has no NUL terminator for its version string, or
    /// declares an identifier width other than 4 or 8.
    MalformedHeader,
    /// A text field is not valid UTF-8.
    InvalidUtf8,
    /// A field-type tag outside the set the format defines.
    UnknownJavaType(u8),
    /// A heap-dump sub-record tag outside the set the format defines.
    UnknownSubTag(u8),
    /// The bytes consumed inside a length-bounded region do not equal the
    /// declared length.
    LengthMismatch,
    /// Failure acquiring the underlying buffer; raised by callers that own
    /// the I/O, never by the decoder itself.
    Io,
}

impl Error {
    /// A short human-readable description of the error kind.
    pub fn describe(&self) -> (r: &'static str)
        ensures
            r@ == match self {
                Error::OutOfBounds { .. } => "the remaining data is not enough"@,
                Error::MalformedHeader => "malformed header"@,
                Error::InvalidUtf8 => "invalid utf-8 text"@,
                Error::UnknownJavaType(..) => "unknown java type"@,
                Error::UnknownSubTag(..) => "unknown subtag"@,
                Error::LengthMismatch => "length mismatch"@,
                Error::Io => "i/o error"@,
            },
    {
        match self {
            Error::OutOfBounds { .. } => "the remaining data is not enough",
            Error::MalformedHeader => "malformed header",
            Error::InvalidUtf8 => "invalid utf-8 text",
            Error::UnknownJavaType(..) => "unknown java type",
            Error::UnknownSubTag(..) => "unknown subtag",
            Error::LengthMismatch => "length mismatch",
            Error::Io => "i/o error",
        }
    }
}

/// Carries the one-byte tag that a type-width lookup did not recognize.
#[derive(Debug, Clone, Copy, PartialEq, Eq, Structural)]
pub struct UnknownTagError {
    pub tag: u8,
}

impl UnknownTagError {
    /// A short human-readable description of the failure.
    pub fn describe(&self) -> (r: &'static str)
        ensures
            r@ == "unknown tag"@,
    {
        "unknown tag"
    }
}

} // verus!

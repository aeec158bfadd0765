//! The error taxonomy of the codec.

use vstd::prelude::*;

verus! {

/// Everything that can go wrong while decoding or encoding a message.
///
/// Decoding reports the first three variants; encoding can only report
/// `OversizedText`, for a string whose UTF-16 code-unit count does not fit in
/// the 16-bit length prefix the wire format carries.
#[derive(Clone, Copy, Debug, PartialEq, Eq, Structural)]
pub enum CodecError {
    /// The leading byte of the buffer matches no known packet identifier.
    UnknownIdentifier(u8),
    /// A string field's 16-bit code units are not valid UTF-16.
    MalformedText,
    /// Fewer bytes were supplied than the field layout requires.
    TruncatedMessage,
    /// A string field has more than 65535 UTF-16 code units.
    OversizedText,
}

impl CodecError {
    /// A short human-readable description of the error.
    pub fn describe(&self) -> (r: &'static str)
        ensures
            r@.len() > 0,
    {
        proof {
            reveal_strlit("unknown packet identifier");
            reveal_strlit("invalid UTF-16 data");
            reveal_strlit("unexpected end of input");
            reveal_strlit("string too long for the wire format");
        }
        match self {
            CodecError::UnknownIdentifier(_) => "unknown packet identifier",
            CodecError::MalformedText => "invalid UTF-16 data",
            CodecError::TruncatedMessage => "unexpected end of input",
            CodecError::OversizedText => "string too long for the wire format",
        }
    }
}

} // verus!

//! What can go wrong while a frame is decoded.

use vstd::prelude::*;

verus! {

/// Why the byte source could not supply what a frame needs.
#[derive(Debug, Clone, Copy, PartialEq, Eq)]
pub enum IoCause {
    /// The source ended before the frame did.
    UnexpectedEof,
    /// Any other failure of the underlying source.
    Other,
}

/// How the inside of a payload of a known type is broken.
#[derive(Debug, Clone, Copy, PartialEq, Eq)]
pub enum PayloadFault {
    /// A length or count inside the payload reaches past the payload's end.
    LengthOverrun,
    /// A declared length disagrees with the number of bytes that follow it.
    LengthMismatch,
    /// A content payload carries a kind outside the enumerated kinds.
    UnknownPayloadKind(u8),
    /// A text field does not hold valid UTF-8.
    InvalidText,
}

/// The ways in which decoding one frame fails.
#[derive(Debug, Clone, Copy, PartialEq, Eq)]
pub enum DecodeError {
    /// The byte source failed or ended early.
    Io(IoCause),
    /// The frame was read in full but its checksum does not match.
    ChecksumMismatch { declared: u16, computed: u16 },
    /// The length field is below the minimum frame length, or the payload is
    /// shorter than the fixed part of its message type.
    Framing,
    /// The type byte is not in the registry.
    UnknownType(u8),
    /// The type is known but the payload's inner structure is invalid.
    MalformedPayload { msg_type: u8, detail: PayloadFault },
}

impl DecodeError {
    /// Whether the byte stream can no longer be trusted after this error.
    ///
    /// An unknown type or a malformed payload leaves the stream aligned, for
    /// the frame's length was known and the frame was read in full. A failed
    /// read, a length below the minimum and a checksum mismatch do not: the
    /// next frame might start anywhere.
    pub open spec fn fatal(self) -> bool {
        match self {
            DecodeError::Io(_) => true,
            DecodeError::ChecksumMismatch { .. } => true,
            DecodeError::Framing => true,
            DecodeError::UnknownType(_) => false,
            DecodeError::MalformedPayload { .. } => false,
        }
    }

    pub fn is_fatal(&self) -> (b: bool)
        ensures
            b == self.fatal(),
    {
        match self {
            DecodeError::Io(_) => true,
            DecodeError::ChecksumMismatch { .. } => true,
            DecodeError::Framing => true,
            DecodeError::UnknownType(_) => false,
            DecodeError::MalformedPayload { .. } => false,
        }
    }
}

} // verus!

use vstd::prelude::*;

verus! {

/// Why an octet buffer is not a BGP message.
#[derive(PartialEq, Eq, Structural, Debug, Clone, Copy, Hash)]
pub enum DecodeErrorKind {
    /// Fewer octets than a message header.
    MessageTooShort,
    /// The header's length field differs from the number of octets.
    LengthMismatch,
    /// The header's type code is not OPEN, UPDATE or KEEPALIVE.
    UnknownMessageType,
    /// An OPEN's version is outside `1..=4`.
    InvalidVersion,
    /// A length field reaches past the octets that remain.
    Truncated,
    /// An ORIGIN value other than IGP, EGP or INCOMPLETE.
    InvalidOrigin,
    /// An AS_PATH segment type other than AS_SET or AS_SEQUENCE.
    InvalidAsPathSegmentType,
    /// A prefix length above 32.
    InvalidPrefixLength,
    /// An attribute value whose length does not fit its type.
    MalformedAttribute,
}

/// A failure to read a BGP message from octets.
#[derive(PartialEq, Eq, Structural, Debug, Clone, Copy, Hash)]
pub struct ConvertBytesToBgpMessageError {
    pub kind: DecodeErrorKind,
}

/// A failure to write a BGP message as octets.
#[derive(PartialEq, Eq, Structural, Debug, Clone, Copy, Hash)]
pub struct ConvertbgpMessageToBytesError;

/// A configuration line that cannot be read.
#[derive(PartialEq, Eq, Structural, Debug, Clone, Copy, Hash)]
pub struct ConfigParseError;

/// A TCP connection to the remote peer that could not be opened or accepted.
#[derive(PartialEq, Eq, Structural, Debug, Clone, Copy, Hash)]
pub struct CreateConnectionError;

/// A prefix length above 32.
#[derive(PartialEq, Eq, Structural, Debug, Clone, Copy, Hash)]
pub struct ConstructIpv4NetworkError;

} // verus!

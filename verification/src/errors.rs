//! Errors reported by the packet codec.

use vstd::prelude::*;
use crate::header::PacketType;

verus! {

/// A reason an argument was rejected, either at construction or while
/// decoding its wire form.
#[derive(Debug, Clone, Copy, PartialEq, Eq, Structural)]
pub enum InvalidArgument {
    /// The argument name was empty.
    EmptyName,
    /// The argument name contained a delimiter (`=` or `*`).
    NameContainsDelimiter,
    /// The encoded argument contained no delimiter at all.
    NoDelimiter,
    /// Name, delimiter and value together exceed 255 bytes.
    TooLong,
    /// The encoded argument was not printable ASCII.
    NotAscii,
}

/// An error raised while serializing a packet or one of its components.
#[derive(Debug, Clone, Copy, PartialEq, Eq, Structural)]
pub enum SerializeError {
    /// The provided buffer was too small for the serialized form.
    NotEnoughSpace,
    /// A field's length exceeded the maximum its length field can encode.
    LengthOverflow,
}

/// An error raised while deserializing a packet or one of its components.
#[derive(Debug, Clone, Copy, PartialEq, Eq, Structural)]
pub enum DeserializeError {
    /// Unknown status byte in a reply body.
    InvalidStatus(u8),
    /// Unknown packet type tag in a header.
    InvalidPacketType(u8),
    /// Unknown bits in the header flag byte.
    InvalidHeaderFlags(u8),
    /// Unknown bits in a body flag byte.
    InvalidBodyFlags(u8),
    /// Unknown version byte in a header.
    InvalidVersion(u8),
    /// An argument's wire form was invalid.
    InvalidArgument(InvalidArgument),
    /// The header's type tag differs from the expected body kind.
    PacketTypeMismatch {
        /// The packet type the caller asked for.
        expected: PacketType,
        /// The packet type found on the wire.
        actual: PacketType,
    },
    /// A text field was not printable ASCII.
    BadText,
    /// The `UNENCRYPTED` header flag contradicts the presence of a key.
    IncorrectUnencryptedFlag,
    /// The buffer ended before the lengths encoded in the body allow.
    UnexpectedEnd,
}

impl From<InvalidArgument> for DeserializeError {
    fn from(value: InvalidArgument) -> (r: Self)
    {
        DeserializeError::InvalidArgument(value)
    }
}

impl vstd::std_specs::convert::FromSpecImpl<InvalidArgument> for DeserializeError {
    open spec fn obeys_from_spec() -> bool {
        true
    }

    open spec fn from_spec(value: InvalidArgument) -> Self {
        DeserializeError::InvalidArgument(value)
    }
}

} // verus!

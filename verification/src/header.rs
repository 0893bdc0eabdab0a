//! The twelve-byte packet header: protocol version, packet type tag, sequence
//! number, flags, session id and body length.

use vstd::prelude::*;
use crate::errors::DeserializeError;

verus! {

/// The big-endian four-byte encoding of a 32-bit integer.
pub open spec fn be32(x: u32) -> Seq<u8> {
    seq![
        (x / 0x1000000) as u8,
        ((x / 0x10000) % 0x100) as u8,
        ((x / 0x100) % 0x100) as u8,
        (x % 0x100) as u8,
    ]
}

/// The value read back from four big-endian bytes.
pub open spec fn be32_value(s: Seq<u8>) -> int {
    s[0] * 0x1000000 + s[1] * 0x10000 + s[2] * 0x100 + s[3]
}

/// Reading back the four big-endian bytes of `x` yields `x` again.
pub proof fn lemma_be32_roundtrip(x: u32)
    ensures
        be32_value(be32(x)) == x,
{
    assert(be32_value(be32(x)) == x) by (nonlinear_arith);
}

/// Splits a 32-bit integer into its four big-endian bytes.
pub fn u32_to_be_bytes(x: u32) -> (r: Vec<u8>)
    ensures
        r@ == be32(x),
{
    let b0 = (x >> 24) as u8;
    let b1 = ((x >> 16) & 0xff) as u8;
    let b2 = ((x >> 8) & 0xff) as u8;
    let b3 = (x & 0xff) as u8;
    proof {
        assert((x >> 24) as u8 == x / 0x1000000 && ((x >> 16) & 0xff) as u8 == (x / 0x10000)
            % 0x100 && ((x >> 8) & 0xff) as u8 == (x / 0x100) % 0x100 && (x & 0xff) as u8 == x
            % 0x100) by (bit_vector);
    }
    let mut r: Vec<u8> = Vec::new();
    r.push(b0);
    r.push(b1);
    r.push(b2);
    r.push(b3);
    proof {
        assert(r@ =~= be32(x));
    }
    r
}

/// Reads a 32-bit integer from four big-endian bytes.
pub fn u32_from_be_bytes(b0: u8, b1: u8, b2: u8, b3: u8) -> (x: u32)
    ensures
        x == be32_value(seq![b0, b1, b2, b3]),
        seq![b0, b1, b2, b3] == be32(x),
{
    let x = ((b0 as u32) << 24) | ((b1 as u32) << 16) | ((b2 as u32) << 8) | (b3 as u32);
    proof {
        assert((((b0 as u32) << 24) | ((b1 as u32) << 16) | ((b2 as u32) << 8) | (b3 as u32))
            == b0 * 0x1000000 + b1 * 0x10000 + b2 * 0x100 + b3 && (((b0 as u32) << 24) | ((
        b1 as u32) << 16) | ((b2 as u32) << 8) | (b3 as u32)) / 0x1000000 == b0 && ((((b0 as u32)
            << 24) | ((b1 as u32) << 16) | ((b2 as u32) << 8) | (b3 as u32)) / 0x10000) % 0x100
            == b1 && ((((b0 as u32) << 24) | ((b1 as u32) << 16) | ((b2 as u32) << 8) | (
        b3 as u32)) / 0x100) % 0x100 == b2 && (((b0 as u32) << 24) | ((b1 as u32) << 16) | ((
        b2 as u32) << 8) | (b3 as u32)) % 0x100 == b3) by (bit_vector);
        assert(seq![b0, b1, b2, b3] =~= be32(x));
    }
    x
}

/// The big-endian two-byte encoding of a 16-bit integer.
pub open spec fn be16(x: u16) -> Seq<u8> {
    seq![(x / 0x100) as u8, (x % 0x100) as u8]
}

/// The value read back from two big-endian bytes.
pub open spec fn be16_value(s: Seq<u8>) -> int {
    s[0] * 0x100 + s[1]
}

/// Reading back the two big-endian bytes of `x` yields `x` again.
pub proof fn lemma_be16_roundtrip(x: u16)
    ensures
        be16_value(be16(x)) == x,
{
    assert(be16_value(be16(x)) == x) by (nonlinear_arith);
}

/// Splits a 16-bit integer into its two big-endian bytes.
pub fn u16_to_be_bytes(x: u16) -> (r: Vec<u8>)
    ensures
        r@ == be16(x),
{
    let b0 = (x >> 8) as u8;
    let b1 = (x & 0xff) as u8;
    proof {
        assert((x >> 8) as u8 == x / 0x100 && (x & 0xff) as u8 == x % 0x100) by (bit_vector);
    }
    let mut r: Vec<u8> = Vec::new();
    r.push(b0);
    r.push(b1);
    proof {
        assert(r@ =~= be16(x));
    }
    r
}

/// Reads a 16-bit integer from two big-endian bytes.
pub fn u16_from_be_bytes(b0: u8, b1: u8) -> (x: u16)
    ensures
        x == be16_value(seq![b0, b1]),
        seq![b0, b1] == be16(x),
{
    let x = ((b0 as u16) << 8) | (b1 as u16);
    proof {
        assert((((b0 as u16) << 8) | (b1 as u16)) == b0 * 0x100 + b1 && (((b0 as u16) << 8) | (
        b1 as u16)) / 0x100 == b0 && (((b0 as u16) << 8) | (b1 as u16)) % 0x100 == b1)
            by (bit_vector);
        assert(seq![b0, b1] =~= be16(x));
    }
    x
}

/// Copies `data` over the front of `buffer`, leaving the bytes after it
/// unchanged; fails, leaving `buffer` untouched, when `buffer` is shorter
/// than `data`.
pub fn copy_into_prefix(buffer: &mut Vec<u8>, data: &Vec<u8>) -> (r: Result<
    usize,
    crate::errors::SerializeError,
>)
    ensures
        match r {
            Ok(n) => {
                &&& n == data@.len()
                &&& old(buffer)@.len() >= n
                &&& final(buffer)@ == data@ + old(buffer)@.skip(n as int)
            },
            Err(e) => {
                &&& e == crate::errors::SerializeError::NotEnoughSpace
                &&& old(buffer)@.len() < data@.len()
                &&& final(buffer)@ == old(buffer)@
            },
        },
{
    let n = data.len();
    if buffer.len() < n {
        return Err(crate::errors::SerializeError::NotEnoughSpace);
    }
    let mut i: usize = 0;
    while i < n
        invariant
            0 <= i <= n,
            n == data@.len(),
            buffer@.len() == old(buffer)@.len() >= n,
            forall|j: int| 0 <= j < i ==> buffer@[j] == data@[j],
            forall|j: int| i <= j < buffer@.len() ==> buffer@[j] == old(buffer)@[j],
        decreases n - i,
    {
        let b = data[i];
        buffer[i] = b;
        i += 1;
    }
    proof {
        assert(buffer@ =~= data@ + old(buffer)@.skip(n as int));
    }
    Ok(n)
}

/// The major protocol version; RFC 8907 defines exactly one.
#[derive(Debug, Clone, Copy, PartialEq, Eq, Structural)]
pub enum MajorVersion {
    /// The major version `0xc` fixed by RFC 8907.
    RFC8907,
}

/// The minor protocol version, which authentication flavors select.
#[derive(Debug, Clone, Copy, PartialEq, Eq, Structural)]
pub enum MinorVersion {
    /// Minor version 0, required by ASCII authentication.
    Default,
    /// Minor version 1, required by PAP, CHAP and MS-CHAP authentication.
    V1,
}

/// The full protocol version: a major and a minor version.
#[derive(Debug, Clone, Copy, PartialEq, Eq, Structural)]
pub struct Version {
    /// The major version.
    pub major: MajorVersion,
    /// The minor version.
    pub minor: MinorVersion,
}

impl Version {
    /// The single byte that carries the version on the wire: the major
    /// version in the high nibble, the minor version in the low nibble.
    pub open spec fn spec_byte(self) -> u8 {
        match self.minor {
            MinorVersion::Default => 0xc0,
            MinorVersion::V1 => 0xc1,
        }
    }

    /// Bundles a major and a minor version.
    pub fn of(major: MajorVersion, minor: MinorVersion) -> (r: Version)
        ensures
            r.major == major && r.minor == minor,
    {
        Version { major, minor }
    }

    /// Bundles a major and a minor version.
    pub fn new(major: MajorVersion, minor: MinorVersion) -> (r: Version)
        ensures
            r.major == major && r.minor == minor,
    {
        Version { major, minor }
    }

    /// The major version.
    pub fn major(&self) -> (r: MajorVersion)
        ensures
            r == self.major,
    {
        self.major
    }

    /// The minor version.
    pub fn minor(&self) -> (r: MinorVersion)
        ensures
            r == self.minor,
    {
        self.minor
    }

    /// The version byte as sent on the wire.
    pub fn wire_byte(&self) -> (b: u8)
        ensures
            b == self.spec_byte(),
    {
        match self.minor {
            MinorVersion::Default => 0xc0,
            MinorVersion::V1 => 0xc1,
        }
    }

    /// The version a byte on the wire denotes, if any: the high nibble must
    /// be `0xc` and the low nibble 0 or 1.
    pub open spec fn spec_from_byte(b: u8) -> Option<Version> {
        if b == 0xc0 {
            Some(Version { major: MajorVersion::RFC8907, minor: MinorVersion::Default })
        } else if b == 0xc1 {
            Some(Version { major: MajorVersion::RFC8907, minor: MinorVersion::V1 })
        } else {
            None
        }
    }

    /// Parses a version byte; fails on any byte but `0xc0` and `0xc1`.
    pub fn from_wire_byte(b: u8) -> (r: Result<Version, DeserializeError>)
        ensures
            Self::spec_from_byte(b) is Some ==> r == Ok::<Version, DeserializeError>(
                Self::spec_from_byte(b).unwrap(),
            ),
            Self::spec_from_byte(b) is None ==> r == Err::<Version, DeserializeError>(
                DeserializeError::InvalidVersion(b),
            ),
    {
        if b == 0xc0 {
            Ok(Version { major: MajorVersion::RFC8907, minor: MinorVersion::Default })
        } else if b == 0xc1 {
            Ok(Version { major: MajorVersion::RFC8907, minor: MinorVersion::V1 })
        } else {
            Err(DeserializeError::InvalidVersion(b))
        }
    }
}

impl Default for Version {
    /// The default version: major `0xc`, minor 0.
    fn default() -> (r: Self)
        ensures
            r.major == MajorVersion::RFC8907 && r.minor == MinorVersion::Default,
    {
        Version { major: MajorVersion::RFC8907, minor: MinorVersion::Default }
    }
}

/// The two header flag bits RFC 8907 defines: `UNENCRYPTED` (bit 0) and
/// `SINGLE_CONNECTION` (bit 2). Any other bit on the wire is an error.
#[derive(Debug, Clone, Copy, PartialEq, Eq, Structural)]
pub enum PacketFlags {
    /// No flag set.
    Neither,
    /// Only `UNENCRYPTED` (0x01) set: the body travels as cleartext.
    Unencrypted,
    /// Only `SINGLE_CONNECTION` (0x04) set: the sender asks to reuse the
    /// connection across sessions.
    SingleConnection,
    /// Both flags set.
    Both,
}

impl PacketFlags {
    /// The flag byte as sent on the wire.
    pub open spec fn spec_bits(self) -> u8 {
        match self {
            PacketFlags::Neither => 0x00,
            PacketFlags::Unencrypted => 0x01,
            PacketFlags::SingleConnection => 0x04,
            PacketFlags::Both => 0x05,
        }
    }

    /// Whether the `UNENCRYPTED` bit is set.
    pub open spec fn spec_unencrypted(self) -> bool {
        self == PacketFlags::Unencrypted || self == PacketFlags::Both
    }

    /// Whether the `SINGLE_CONNECTION` bit is set.
    pub open spec fn spec_single_connection(self) -> bool {
        self == PacketFlags::SingleConnection || self == PacketFlags::Both
    }

    /// The flag value a byte denotes, if its bits are all defined ones.
    pub open spec fn spec_from_bits(b: u8) -> Option<PacketFlags> {
        if b == 0x00 {
            Some(PacketFlags::Neither)
        } else if b == 0x01 {
            Some(PacketFlags::Unencrypted)
        } else if b == 0x04 {
            Some(PacketFlags::SingleConnection)
        } else if b == 0x05 {
            Some(PacketFlags::Both)
        } else {
            None
        }
    }

    /// The same flags with the `UNENCRYPTED` bit cleared.
    pub open spec fn spec_without_unencrypted(self) -> PacketFlags {
        if self.spec_single_connection() {
            PacketFlags::SingleConnection
        } else {
            PacketFlags::Neither
        }
    }

    /// The same flags with the `UNENCRYPTED` bit set.
    pub open spec fn spec_with_unencrypted(self) -> PacketFlags {
        if self.spec_single_connection() {
            PacketFlags::Both
        } else {
            PacketFlags::Unencrypted
        }
    }

    /// The empty flag set.
    pub fn empty() -> (r: PacketFlags)
        ensures
            r == PacketFlags::Neither,
    {
        PacketFlags::Neither
    }

    /// Both defined flags.
    pub fn all() -> (r: PacketFlags)
        ensures
            r == PacketFlags::Both,
    {
        PacketFlags::Both
    }

    /// The flag byte as sent on the wire.
    pub fn bits(&self) -> (b: u8)
        ensures
            b == self.spec_bits(),
    {
        match self {
            PacketFlags::Neither => 0x00,
            PacketFlags::Unencrypted => 0x01,
            PacketFlags::SingleConnection => 0x04,
            PacketFlags::Both => 0x05,
        }
    }

    /// Parses a flag byte; fails when an undefined bit is set.
    pub fn from_bits(b: u8) -> (r: Option<PacketFlags>)
        ensures
            r == Self::spec_from_bits(b),
    {
        if b == 0x00 {
            Some(PacketFlags::Neither)
        } else if b == 0x01 {
            Some(PacketFlags::Unencrypted)
        } else if b == 0x04 {
            Some(PacketFlags::SingleConnection)
        } else if b == 0x05 {
            Some(PacketFlags::Both)
        } else {
            None
        }
    }

    /// Whether the `UNENCRYPTED` bit is set.
    pub fn unencrypted(&self) -> (r: bool)
        ensures
            r == self.spec_unencrypted(),
    {
        matches!(self, PacketFlags::Unencrypted | PacketFlags::Both)
    }

    /// Whether the `SINGLE_CONNECTION` bit is set.
    pub fn single_connection(&self) -> (r: bool)
        ensures
            r == self.spec_single_connection(),
    {
        matches!(self, PacketFlags::SingleConnection | PacketFlags::Both)
    }

    /// The same flags with the `UNENCRYPTED` bit cleared.
    pub fn without_unencrypted(&self) -> (r: PacketFlags)
        ensures
            r == self.spec_without_unencrypted(),
            !r.spec_unencrypted(),
            r.spec_single_connection() == self.spec_single_connection(),
    {
        match self {
            PacketFlags::Neither | PacketFlags::Unencrypted => PacketFlags::Neither,
            PacketFlags::SingleConnection | PacketFlags::Both => PacketFlags::SingleConnection,
        }
    }

    /// The same flags with the `UNENCRYPTED` bit set.
    pub fn with_unencrypted(&self) -> (r: PacketFlags)
        ensures
            r == self.spec_with_unencrypted(),
            r.spec_unencrypted(),
            r.spec_single_connection() == self.spec_single_connection(),
    {
        match self {
            PacketFlags::Neither | PacketFlags::Unencrypted => PacketFlags::Unencrypted,
            PacketFlags::SingleConnection | PacketFlags::Both => PacketFlags::Both,
        }
    }
}

/// The packet type tag carried in header byte 1.
#[derive(Debug, Clone, Copy, PartialEq, Eq, Structural)]
pub enum PacketType {
    /// An authentication packet.
    Authentication,
    /// An authorization packet.
    Authorization,
    /// An accounting packet.
    Accounting,
}

impl PacketType {
    /// The tag byte as sent on the wire.
    pub open spec fn spec_byte(self) -> u8 {
        match self {
            PacketType::Authentication => 0x1,
            PacketType::Authorization => 0x2,
            PacketType::Accounting => 0x3,
        }
    }

    /// The packet type a tag byte denotes, if any.
    pub open spec fn spec_from_byte(b: u8) -> Option<PacketType> {
        if b == 0x1 {
            Some(PacketType::Authentication)
        } else if b == 0x2 {
            Some(PacketType::Authorization)
        } else if b == 0x3 {
            Some(PacketType::Accounting)
        } else {
            None
        }
    }

    /// The tag byte as sent on the wire.
    pub fn wire_byte(&self) -> (b: u8)
        ensures
            b == self.spec_byte(),
    {
        match self {
            PacketType::Authentication => 0x1,
            PacketType::Authorization => 0x2,
            PacketType::Accounting => 0x3,
        }
    }

    /// Parses a tag byte; fails on any byte but 1, 2 and 3.
    pub fn from_wire_byte(b: u8) -> (r: Result<PacketType, DeserializeError>)
        ensures
            Self::spec_from_byte(b) is Some ==> r == Ok::<PacketType, DeserializeError>(
                Self::spec_from_byte(b).unwrap(),
            ),
            Self::spec_from_byte(b) is None ==> r == Err::<PacketType, DeserializeError>(
                DeserializeError::InvalidPacketType(b),
            ),
    {
        if b == 0x1 {
            Ok(PacketType::Authentication)
        } else if b == 0x2 {
            Ok(PacketType::Authorization)
        } else if b == 0x3 {
            Ok(PacketType::Accounting)
        } else {
            Err(DeserializeError::InvalidPacketType(b))
        }
    }
}

/// The header fields that a sender chooses: version, sequence number, flags
/// and session id. The type tag and body length are filled in from the body
/// at serialization time.
#[derive(Debug, Clone, Copy, PartialEq, Eq, Structural)]
pub struct HeaderInfo {
    /// The protocol version.
    pub version: Version,
    /// The packet's sequence number: odd for client packets, even for
    /// server packets.
    pub sequence_number: u8,
    /// The header flags.
    pub flags: PacketFlags,
    /// The session's 32-bit identifier.
    pub session_id: u32,
}

/// The twelve header bytes for the given fields and body length.
pub open spec fn header_encoding(h: HeaderInfo, t: PacketType, body_len: u32) -> Seq<u8> {
    seq![h.version.spec_byte(), t.spec_byte(), h.sequence_number, h.flags.spec_bits()]
        + be32(h.session_id) + be32(body_len)
}

impl HeaderInfo {
    /// The number of bytes of a full packet header.
    pub fn header_size() -> (n: usize)
        ensures
            n == 12,
    {
        12
    }

    /// Bundles the sender-chosen header fields.
    pub fn new(version: Version, sequence_number: u8, flags: PacketFlags, session_id: u32) -> (
        r: HeaderInfo)
        ensures
            r == (HeaderInfo { version, sequence_number, flags, session_id }),
    {
        HeaderInfo { version, sequence_number, flags, session_id }
    }

    /// Writes the twelve header bytes for this header, the given type tag
    /// and the given body length.
    pub fn encode(&self, packet_type: PacketType, body_len: u32) -> (r: Vec<u8>)
        ensures
            r@ == header_encoding(*self, packet_type, body_len),
            r@.len() == 12,
    {
        let mut out: Vec<u8> = Vec::new();
        out.push(self.version.wire_byte());
        out.push(packet_type.wire_byte());
        out.push(self.sequence_number);
        out.push(self.flags.bits());
        let mut session = u32_to_be_bytes(self.session_id);
        out.append(&mut session);
        let mut len = u32_to_be_bytes(body_len);
        out.append(&mut len);
        proof {
            assert(out@ =~= header_encoding(*self, packet_type, body_len));
        }
        out
    }

    /// Reads the sender-chosen fields back from the first twelve bytes of a
    /// packet: the version byte, sequence number, flag byte and session id.
    /// Fails on an unknown version byte or flag byte.
    pub fn decode(buffer: &[u8]) -> (r: Result<HeaderInfo, DeserializeError>)
        requires
            buffer@.len() >= 12,
        ensures
            match r {
                Ok(h) => {
                    &&& Version::spec_from_byte(buffer@[0]) == Some(h.version)
                    &&& h.sequence_number == buffer@[2]
                    &&& PacketFlags::spec_from_bits(buffer@[3]) == Some(h.flags)
                    &&& h.session_id == be32_value(buffer@.subrange(4, 8))
                },
                Err(e) => {
                    ||| (Version::spec_from_byte(buffer@[0]) is None && e
                        == DeserializeError::InvalidVersion(buffer@[0]))
                    ||| (Version::spec_from_byte(buffer@[0]) is Some
                        && PacketFlags::spec_from_bits(buffer@[3]) is None && e
                        == DeserializeError::InvalidHeaderFlags(buffer@[3]))
                },
            },
    {
        let version = Version::from_wire_byte(buffer[0])?;
        let flags = match PacketFlags::from_bits(buffer[3]) {
            Some(f) => f,
            None => {
                return Err(DeserializeError::InvalidHeaderFlags(buffer[3]));
            },
        };
        let session_id = u32_from_be_bytes(buffer[4], buffer[5], buffer[6], buffer[7]);
        proof {
            assert(buffer@.subrange(4, 8) =~= seq![buffer@[4], buffer@[5], buffer@[6], buffer@[7]]);
        }
        Ok(HeaderInfo { version, sequence_number: buffer[2], flags, session_id })
    }
}

} // verus!

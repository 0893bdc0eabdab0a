//! Full packets: a twelve-byte header joined with one of the protocol's
//! body kinds, serialized as cleartext or under the MD5 pseudo-pad.

use vstd::prelude::*;
use crate::errors::{DeserializeError, SerializeError};
use crate::header::{
    HeaderInfo, MinorVersion, PacketFlags, PacketType, Version, be32, be32_value,
    copy_into_prefix, header_encoding, u32_from_be_bytes,
};
use crate::obfuscation::{apply_body_pad, pad_prefix, xor_with_pad};

verus! {

/// A kind of packet body: it belongs to one packet family, may demand a
/// minor protocol version, and has a well-defined wire form.
pub trait PacketBody: View + Sized {
    /// The packet family the body belongs to.
    spec fn spec_packet_type() -> PacketType;

    /// Well-formedness of the body's content.
    spec fn view_valid(v: Self::V) -> bool;

    /// The body's wire form.
    spec fn view_encoding(v: Self::V) -> Seq<u8>;

    /// The minor protocol version the body demands, if any.
    spec fn view_required_minor(v: Self::V) -> Option<MinorVersion>;

    /// A valid body's wire form is nonempty and bounded, so it fits the
    /// header's length field.
    proof fn lemma_encoding_len(v: Self::V)
        requires
            Self::view_valid(v),
        ensures
            0 < Self::view_encoding(v).len() <= 0x1000000,
    ;

    /// The packet family's type tag.
    fn packet_type() -> (t: PacketType)
        ensures
            t == Self::spec_packet_type(),
    ;

    /// The minor protocol version the body demands, if any.
    fn required_minor_version(&self) -> (r: Option<MinorVersion>)
        ensures
            r == Self::view_required_minor(self@),
    ;

    /// The length of the body's wire form.
    fn wire_size(&self) -> (n: usize)
        requires
            Self::view_valid(self@),
        ensures
            n == Self::view_encoding(self@).len(),
    ;

    /// Appends the body's wire form to `out`.
    fn append_encoding(&self, out: &mut Vec<u8>)
        requires
            Self::view_valid(self@),
        ensures
            final(out)@ == old(out)@ + Self::view_encoding(self@),
    ;

    /// Writes the body's wire form over the front of `buffer`, leaving the
    /// bytes after it unchanged; fails when `buffer` is shorter than the
    /// wire form.
    fn serialize_into_buffer(&self, buffer: &mut Vec<u8>) -> (r: Result<usize, SerializeError>)
        requires
            Self::view_valid(self@),
        ensures
            match r {
                Ok(n) => {
                    &&& n == Self::view_encoding(self@).len()
                    &&& old(buffer)@.len() >= n
                    &&& final(buffer)@ == Self::view_encoding(self@) + old(buffer)@.skip(n as int)
                },
                Err(e) => {
                    &&& e == SerializeError::NotEnoughSpace
                    &&& old(buffer)@.len() < Self::view_encoding(self@).len()
                    &&& final(buffer)@ == old(buffer)@
                },
            },
    {
        let mut enc: Vec<u8> = Vec::new();
        self.append_encoding(&mut enc);
        copy_into_prefix(buffer, &enc)
    }
}

/// A body kind the client can also parse off the wire: the three reply
/// bodies. Decoding tolerates trailing bytes after the claimed length;
/// every decoded body re-encodes to the bytes it was read from.
pub trait DeserializableBody: PacketBody {
    /// The meaning of a body wire image, parsed from the front of `bytes`.
    spec fn decode(bytes: Seq<u8>) -> Result<Self::V, DeserializeError>;

    /// Whatever decodes is a valid body.
    proof fn lemma_decode_valid(bytes: Seq<u8>)
        requires
            Self::decode(bytes) is Ok,
        ensures
            Self::view_valid(Self::decode(bytes).unwrap()),
    ;

    /// Round trip: decoding a valid body's wire form yields that body.
    proof fn lemma_body_roundtrip(v: Self::V)
        requires
            Self::view_valid(v),
        ensures
            Self::decode(Self::view_encoding(v)) == Ok::<Self::V, DeserializeError>(v),
    ;

    /// Parses a body from the front of `buffer`.
    fn deserialize_from_buffer(buffer: &[u8]) -> (r: Result<Self, DeserializeError>)
        ensures
            match r {
                Ok(b) => Self::decode(buffer@) == Ok::<Self::V, DeserializeError>(b@),
                Err(e) => Self::decode(buffer@) == Err::<Self::V, DeserializeError>(e),
            },
    ;
}

/// A full protocol packet: header fields and a body of one kind.
#[derive(Debug, PartialEq, Eq)]
pub struct Packet<B> {
    header: HeaderInfo,
    body: B,
}

impl<B: PacketBody> Packet<B> {
    /// The packet's header fields.
    pub closed spec fn spec_header(&self) -> HeaderInfo {
        self.header
    }

    /// The packet's body.
    pub closed spec fn spec_body(&self) -> B {
        self.body
    }

    /// The body is well formed and the header's minor version matches what
    /// the body demands.
    pub open spec fn valid(&self) -> bool {
        &&& B::view_valid(self.spec_body()@)
        &&& match B::view_required_minor(self.spec_body()@) {
            Some(m) => self.spec_header().version.minor == m,
            None => true,
        }
    }

    /// The packet's cleartext wire form: the twelve header bytes carrying
    /// the body's length, then the body.
    pub open spec fn encoding(&self) -> Seq<u8> {
        header_encoding(
            self.spec_header(),
            B::spec_packet_type(),
            B::view_encoding(self.spec_body()@).len() as u32,
        ) + B::view_encoding(self.spec_body()@)
    }

    /// Assembles a header and a body into a packet; refuses a header whose
    /// minor version differs from the one the body demands.
    pub fn new(header: HeaderInfo, body: B) -> (r: Option<Packet<B>>)
        ensures
            match B::view_required_minor(body@) {
                Some(m) => if header.version.minor == m {
                    r is Some
                } else {
                    r is None
                },
                None => r is Some,
            },
            r is Some ==> r.unwrap().spec_header() == header && r.unwrap().spec_body() == body,
    {
        match body.required_minor_version() {
            Some(minor) => {
                if header.version.minor == minor {
                    Some(Packet { header, body })
                } else {
                    None
                }
            },
            None => Some(Packet { header, body }),
        }
    }

    /// The packet's header fields.
    pub fn header(&self) -> (r: &HeaderInfo)
        ensures
            r == self.spec_header(),
    {
        &self.header
    }

    /// The packet's body.
    pub fn body(&self) -> (r: &B)
        ensures
            r == self.spec_body(),
    {
        &self.body
    }

    /// The protocol version the packet is sent under.
    pub fn version(&self) -> (r: Version)
        ensures
            r == self.spec_header().version,
    {
        self.header.version
    }

    /// The packet's size on the wire: twelve header bytes plus the body.
    pub fn wire_size(&self) -> (n: usize)
        requires
            self.valid(),
        ensures
            n == self.encoding().len(),
            n == 12 + B::view_encoding(self.spec_body()@).len(),
    {
        proof {
            B::lemma_encoding_len(self.spec_body()@);
        }
        12 + self.body.wire_size()
    }

    /// Builds the packet's cleartext wire form.
    fn build_encoding(&self) -> (r: Vec<u8>)
        requires
            self.valid(),
        ensures
            r@ == self.encoding(),
    {
        proof {
            B::lemma_encoding_len(self.spec_body()@);
        }
        let mut body_enc: Vec<u8> = Vec::new();
        self.body.append_encoding(&mut body_enc);
        let mut out = self.header.encode(B::packet_type(), body_enc.len() as u32);
        out.append(&mut body_enc);
        out
    }

    /// Writes the packet's cleartext wire form, exactly as its fields
    /// stand, over the front of `buffer`; fails when `buffer` is shorter
    /// than the wire form.
    pub fn serialize_into_buffer(&self, buffer: &mut Vec<u8>) -> (r: Result<usize, SerializeError>)
        requires
            self.valid(),
        ensures
            match r {
                Ok(n) => {
                    &&& n == self.encoding().len()
                    &&& old(buffer)@.len() >= n
                    &&& final(buffer)@ == self.encoding() + old(buffer)@.skip(n as int)
                },
                Err(e) => {
                    &&& e == SerializeError::NotEnoughSpace
                    &&& old(buffer)@.len() < self.encoding().len()
                    &&& final(buffer)@ == old(buffer)@
                },
            },
    {
        let enc = self.build_encoding();
        copy_into_prefix(buffer, &enc)
    }

    /// The packet as it leaves with a configured key: the `UNENCRYPTED`
    /// flag cleared and the body XORed with the MD5 pseudo-pad drawn from
    /// session id, key, version byte and sequence number.
    pub open spec fn obfuscated_encoding(&self, key: Seq<u8>) -> Seq<u8> {
        let h = HeaderInfo {
            version: self.spec_header().version,
            sequence_number: self.spec_header().sequence_number,
            flags: self.spec_header().flags.spec_without_unencrypted(),
            session_id: self.spec_header().session_id,
        };
        let body = B::view_encoding(self.spec_body()@);
        header_encoding(h, B::spec_packet_type(), body.len() as u32) + xor_with_pad(
            pad_prefix(h.session_id, key, h.version.spec_byte(), h.sequence_number),
            body,
        )
    }

    /// The packet as it leaves without a key: the `UNENCRYPTED` flag set
    /// and the body in cleartext.
    pub open spec fn unobfuscated_encoding(&self) -> Seq<u8> {
        let h = HeaderInfo {
            version: self.spec_header().version,
            sequence_number: self.spec_header().sequence_number,
            flags: self.spec_header().flags.spec_with_unencrypted(),
            session_id: self.spec_header().session_id,
        };
        header_encoding(h, B::spec_packet_type(), B::view_encoding(self.spec_body()@).len() as u32)
            + B::view_encoding(self.spec_body()@)
    }

    /// Serializes the packet for a connection with a shared key: clears the
    /// `UNENCRYPTED` flag and obfuscates the body. Writes over the front of
    /// `buffer`; fails when `buffer` is shorter than the wire form.
    pub fn serialize(self, secret_key: &[u8], buffer: &mut Vec<u8>) -> (r: Result<
        usize,
        SerializeError,
    >)
        requires
            self.valid(),
        ensures
            match r {
                Ok(n) => {
                    &&& n == self.obfuscated_encoding(secret_key@).len()
                    &&& n == 12 + B::view_encoding(self.spec_body()@).len()
                    &&& old(buffer)@.len() >= n
                    &&& final(buffer)@ == self.obfuscated_encoding(secret_key@) + old(
                        buffer,
                    )@.skip(n as int)
                },
                Err(e) => {
                    &&& e == SerializeError::NotEnoughSpace
                    &&& old(buffer)@.len() < self.obfuscated_encoding(secret_key@).len()
                    &&& final(buffer)@ == old(buffer)@
                },
            },
    {
        proof {
            B::lemma_encoding_len(self.spec_body()@);
        }
        let cleared = HeaderInfo {
            version: self.header.version,
            sequence_number: self.header.sequence_number,
            flags: self.header.flags.without_unencrypted(),
            session_id: self.header.session_id,
        };
        let mut body_enc: Vec<u8> = Vec::new();
        self.body.append_encoding(&mut body_enc);
        apply_body_pad(
            cleared.session_id,
            secret_key,
            cleared.version.wire_byte(),
            cleared.sequence_number,
            &mut body_enc,
        );
        let mut out = cleared.encode(B::packet_type(), self.body.wire_size() as u32);
        out.append(&mut body_enc);
        proof {
            assert(out@ =~= self.obfuscated_encoding(secret_key@));
        }
        copy_into_prefix(buffer, &out)
    }

    /// Serializes the packet for a connection without a key: sets the
    /// `UNENCRYPTED` flag and leaves the body as cleartext. Writes over the
    /// front of `buffer`; fails when `buffer` is shorter than the wire
    /// form.
    pub fn serialize_unobfuscated(self, buffer: &mut Vec<u8>) -> (r: Result<usize, SerializeError>)
        requires
            self.valid(),
        ensures
            match r {
                Ok(n) => {
                    &&& n == self.unobfuscated_encoding().len()
                    &&& n == 12 + B::view_encoding(self.spec_body()@).len()
                    &&& old(buffer)@.len() >= n
                    &&& final(buffer)@ == self.unobfuscated_encoding() + old(buffer)@.skip(
                        n as int,
                    )
                },
                Err(e) => {
                    &&& e == SerializeError::NotEnoughSpace
                    &&& old(buffer)@.len() < self.unobfuscated_encoding().len()
                    &&& final(buffer)@ == old(buffer)@
                },
            },
    {
        proof {
            B::lemma_encoding_len(self.spec_body()@);
        }
        let flagged = Packet {
            header: HeaderInfo {
                version: self.header.version,
                sequence_number: self.header.sequence_number,
                flags: self.header.flags.with_unencrypted(),
                session_id: self.header.session_id,
            },
            body: self.body,
        };
        proof {
            assert(flagged.encoding() =~= self.unobfuscated_encoding());
        }
        flagged.serialize_into_buffer(buffer)
    }
}

/// The meaning of a received wire image, parsed as a packet of family `B`:
/// the version byte, flag byte, type tag and length field are validated,
/// the `UNENCRYPTED` flag must contradict the key's presence in neither
/// direction, the body is deobfuscated when a key is in use, and the body
/// bytes are decoded.
pub open spec fn decode_packet<B: DeserializableBody>(key: Option<Seq<u8>>, bytes: Seq<u8>) -> Result<
    (HeaderInfo, B::V),
    DeserializeError,
> {
    if bytes.len() < 12 {
        Err(DeserializeError::UnexpectedEnd)
    } else {
        match Version::spec_from_byte(bytes[0]) {
            None => Err(DeserializeError::InvalidVersion(bytes[0])),
            Some(version) => match PacketFlags::spec_from_bits(bytes[3]) {
                None => Err(DeserializeError::InvalidHeaderFlags(bytes[3])),
                Some(flags) => match PacketType::spec_from_byte(bytes[1]) {
                    None => Err(DeserializeError::InvalidPacketType(bytes[1])),
                    Some(t) => {
                        if t != B::spec_packet_type() {
                            Err(
                                DeserializeError::PacketTypeMismatch {
                                    expected: B::spec_packet_type(),
                                    actual: t,
                                },
                            )
                        } else if (key is Some) == flags.spec_unencrypted() {
                            Err(DeserializeError::IncorrectUnencryptedFlag)
                        } else {
                            let session_id = be32_value(bytes.subrange(4, 8));
                            let body_len = be32_value(bytes.subrange(8, 12));
                            if bytes.len() - 12 < body_len {
                                Err(DeserializeError::UnexpectedEnd)
                            } else {
                                let wire_body = bytes.subrange(12, 12 + body_len);
                                let clear_body = match key {
                                    Some(k) => xor_with_pad(
                                        pad_prefix(session_id as u32, k, bytes[0], bytes[2]),
                                        wire_body,
                                    ),
                                    None => wire_body,
                                };
                                match B::decode(clear_body) {
                                    Err(e) => Err(e),
                                    Ok(v) => match B::view_required_minor(v) {
                                        Some(m) => if m != version.minor {
                                            Err(DeserializeError::InvalidVersion(bytes[0]))
                                        } else {
                                            Ok(
                                                (
                                                    HeaderInfo {
                                                        version,
                                                        sequence_number: bytes[2],
                                                        flags,
                                                        session_id: session_id as u32,
                                                    },
                                                    v,
                                                ),
                                            )
                                        },
                                        None => Ok(
                                            (
                                                HeaderInfo {
                                                    version,
                                                    sequence_number: bytes[2],
                                                    flags,
                                                    session_id: session_id as u32,
                                                },
                                                v,
                                            ),
                                        ),
                                    },
                                }
                            }
                        }
                    },
                },
            },
        }
    }
}

impl<B: DeserializableBody> Packet<B> {
    /// The shared parsing path behind both receive directions.
    fn deserialize_inner(key: Option<&[u8]>, buffer: &[u8]) -> (r: Result<
        Packet<B>,
        DeserializeError,
    >)
        ensures
            match r {
                Ok(p) => decode_packet::<B>(
                    match key {
                        Some(k) => Some(k@),
                        None => None,
                    },
                    buffer@,
                ) == Ok::<(HeaderInfo, B::V), DeserializeError>((p.spec_header(), p.spec_body()@))
                    && p.valid(),
                Err(e) => decode_packet::<B>(
                    match key {
                        Some(k) => Some(k@),
                        None => None,
                    },
                    buffer@,
                ) == Err::<(HeaderInfo, B::V), DeserializeError>(e),
            },
    {
        let ghost key_s: Option<Seq<u8>> = match key {
            Some(k) => Some(k@),
            None => None,
        };
        if buffer.len() < 12 {
            return Err(DeserializeError::UnexpectedEnd);
        }
        let version = Version::from_wire_byte(buffer[0])?;
        let flags = match PacketFlags::from_bits(buffer[3]) {
            Some(f) => f,
            None => {
                return Err(DeserializeError::InvalidHeaderFlags(buffer[3]));
            },
        };
        let actual_type = PacketType::from_wire_byte(buffer[1])?;
        let expected_type = B::packet_type();
        if actual_type != expected_type {
            return Err(
                DeserializeError::PacketTypeMismatch { expected: expected_type, actual: actual_type },
            );
        }
        let key_present = key.is_some();
        let flag_unencrypted = flags.unencrypted();
        if key_present == flag_unencrypted {
            return Err(DeserializeError::IncorrectUnencryptedFlag);
        }
        let session_id = u32_from_be_bytes(buffer[4], buffer[5], buffer[6], buffer[7]);
        let body_len_u32 = u32_from_be_bytes(buffer[8], buffer[9], buffer[10], buffer[11]);
        proof {
            assert(buffer@.subrange(4, 8) =~= seq![buffer@[4], buffer@[5], buffer@[6], buffer@[7]]);
            assert(buffer@.subrange(8, 12) =~= seq![
                buffer@[8],
                buffer@[9],
                buffer@[10],
                buffer@[11],
            ]);
        }
        let body_len = body_len_u32 as usize;
        if buffer.len() - 12 < body_len {
            return Err(DeserializeError::UnexpectedEnd);
        }
        let wire_body = vstd::slice::slice_subrange(buffer, 12, 12 + body_len);
        let mut body_vec = vstd::slice::slice_to_vec(wire_body);
        match key {
            Some(k) => {
                apply_body_pad(session_id, k, buffer[0], buffer[2], &mut body_vec);
            },
            None => {},
        }
        let body = B::deserialize_from_buffer(body_vec.as_slice())?;
        match body.required_minor_version() {
            Some(m) => {
                if m != version.minor {
                    return Err(DeserializeError::InvalidVersion(buffer[0]));
                }
            },
            None => {},
        }
        proof {
            B::lemma_decode_valid(body_vec@);
        }
        let header = HeaderInfo { version, sequence_number: buffer[2], flags, session_id };
        Ok(Packet { header, body })
    }

    /// Receives a packet sent under a shared key: demands the
    /// `UNENCRYPTED` flag clear, removes the pseudo-pad, and parses the
    /// body.
    pub fn deserialize(secret_key: &[u8], buffer: &[u8]) -> (r: Result<Packet<B>, DeserializeError>)
        ensures
            match r {
                Ok(p) => decode_packet::<B>(Some(secret_key@), buffer@) == Ok::<
                    (HeaderInfo, B::V),
                    DeserializeError,
                >((p.spec_header(), p.spec_body()@)) && p.valid(),
                Err(e) => decode_packet::<B>(Some(secret_key@), buffer@) == Err::<
                    (HeaderInfo, B::V),
                    DeserializeError,
                >(e),
            },
    {
        Self::deserialize_inner(Some(secret_key), buffer)
    }

    /// Receives a cleartext packet: demands the `UNENCRYPTED` flag set and
    /// parses the body as it stands.
    pub fn deserialize_unobfuscated(buffer: &[u8]) -> (r: Result<Packet<B>, DeserializeError>)
        ensures
            match r {
                Ok(p) => decode_packet::<B>(None, buffer@) == Ok::<
                    (HeaderInfo, B::V),
                    DeserializeError,
                >((p.spec_header(), p.spec_body()@)) && p.valid(),
                Err(e) => decode_packet::<B>(None, buffer@) == Err::<
                    (HeaderInfo, B::V),
                    DeserializeError,
                >(e),
            },
    {
        Self::deserialize_inner(None, buffer)
    }
}

/// For all serialized packets, bytes 8..12 read big-endian equal the
/// length of the remaining bytes of the packet. This holds of the plain
/// wire form and of both forms the send paths produce.
pub proof fn lemma_length_field<B: PacketBody>(p: &Packet<B>, key: Seq<u8>)
    requires
        B::view_valid(p.spec_body()@),
    ensures
        be32_value(p.encoding().subrange(8, 12)) == p.encoding().len() - 12,
        be32_value(p.obfuscated_encoding(key).subrange(8, 12)) == p.obfuscated_encoding(
            key,
        ).len() - 12,
        be32_value(p.unobfuscated_encoding().subrange(8, 12)) == p.unobfuscated_encoding().len()
            - 12,
{
    B::lemma_encoding_len(p.spec_body()@);
    let len = B::view_encoding(p.spec_body()@).len() as u32;
    crate::header::lemma_be32_roundtrip(len);
    assert(p.encoding().subrange(8, 12) =~= be32(len));
    assert(p.obfuscated_encoding(key).subrange(8, 12) =~= be32(len));
    assert(p.unobfuscated_encoding().subrange(8, 12) =~= be32(len));
}

/// For all exchanges with a key, the serialized header byte at offset 3
/// has the `UNENCRYPTED` bit clear; without a key it is set.
pub proof fn lemma_unencrypted_flag<B: PacketBody>(p: &Packet<B>, key: Seq<u8>)
    requires
        B::view_valid(p.spec_body()@),
    ensures
        p.obfuscated_encoding(key)[3] & 0x01 == 0,
        p.unobfuscated_encoding()[3] & 0x01 == 1,
{
    assert(p.obfuscated_encoding(key)[3] == p.spec_header().flags.spec_without_unencrypted(
    ).spec_bits());
    assert(p.unobfuscated_encoding()[3] == p.spec_header().flags.spec_with_unencrypted(
    ).spec_bits());
    assert((0u8 & 0x01) == 0 && (4u8 & 0x01) == 0 && (1u8 & 0x01) == 1 && (5u8 & 0x01) == 1)
        by (bit_vector);
}

/// Round trip over the wire with a key: receiving what the send path
/// produced yields the packet again, its header carrying the cleared
/// `UNENCRYPTED` flag the bytes went out with.
pub proof fn lemma_packet_roundtrip<B: DeserializableBody>(p: &Packet<B>, key: Seq<u8>)
    requires
        p.valid(),
    ensures
        decode_packet::<B>(Some(key), p.obfuscated_encoding(key)) == Ok::<
            (HeaderInfo, B::V),
            DeserializeError,
        >(
            (
                HeaderInfo {
                    version: p.spec_header().version,
                    sequence_number: p.spec_header().sequence_number,
                    flags: p.spec_header().flags.spec_without_unencrypted(),
                    session_id: p.spec_header().session_id,
                },
                p.spec_body()@,
            ),
        ),
{
    B::lemma_encoding_len(p.spec_body()@);
    let h = HeaderInfo {
        version: p.spec_header().version,
        sequence_number: p.spec_header().sequence_number,
        flags: p.spec_header().flags.spec_without_unencrypted(),
        session_id: p.spec_header().session_id,
    };
    let body = B::view_encoding(p.spec_body()@);
    let len = body.len() as u32;
    let bytes = p.obfuscated_encoding(key);
    assert(bytes.len() == 12 + body.len());
    assert(bytes[0] == h.version.spec_byte());
    assert(bytes[1] == B::spec_packet_type().spec_byte());
    assert(bytes[2] == h.sequence_number);
    assert(bytes[3] == h.flags.spec_bits());
    assert(Version::spec_from_byte(bytes[0]) == Some(h.version));
    assert(PacketFlags::spec_from_bits(bytes[3]) == Some(h.flags));
    assert(PacketType::spec_from_byte(bytes[1]) == Some(B::spec_packet_type()));
    assert(!h.flags.spec_unencrypted());
    crate::header::lemma_be32_roundtrip(h.session_id);
    crate::header::lemma_be32_roundtrip(len);
    assert(bytes.subrange(4, 8) =~= be32(h.session_id));
    assert(bytes.subrange(8, 12) =~= be32(len));
    assert(be32_value(bytes.subrange(4, 8)) == h.session_id);
    assert(be32_value(bytes.subrange(8, 12)) == len);
    let prefix = pad_prefix(h.session_id, key, h.version.spec_byte(), h.sequence_number);
    assert(bytes.subrange(12, 12 + len as int) =~= xor_with_pad(prefix, body));
    crate::obfuscation::lemma_obfuscation_involution(prefix, body);
    assert(xor_with_pad(prefix, bytes.subrange(12, 12 + len as int)) == body);
    B::lemma_body_roundtrip(p.spec_body()@);
}

/// Round trip over the wire without a key: receiving the cleartext form
/// the send path produced yields the packet again, its header carrying
/// the set `UNENCRYPTED` flag.
pub proof fn lemma_packet_roundtrip_unobfuscated<B: DeserializableBody>(p: &Packet<B>)
    requires
        p.valid(),
    ensures
        decode_packet::<B>(None, p.unobfuscated_encoding()) == Ok::<
            (HeaderInfo, B::V),
            DeserializeError,
        >(
            (
                HeaderInfo {
                    version: p.spec_header().version,
                    sequence_number: p.spec_header().sequence_number,
                    flags: p.spec_header().flags.spec_with_unencrypted(),
                    session_id: p.spec_header().session_id,
                },
                p.spec_body()@,
            ),
        ),
{
    B::lemma_encoding_len(p.spec_body()@);
    let h = HeaderInfo {
        version: p.spec_header().version,
        sequence_number: p.spec_header().sequence_number,
        flags: p.spec_header().flags.spec_with_unencrypted(),
        session_id: p.spec_header().session_id,
    };
    let body = B::view_encoding(p.spec_body()@);
    let len = body.len() as u32;
    let bytes = p.unobfuscated_encoding();
    assert(bytes.len() == 12 + body.len());
    assert(bytes[0] == h.version.spec_byte());
    assert(bytes[1] == B::spec_packet_type().spec_byte());
    assert(bytes[2] == h.sequence_number);
    assert(bytes[3] == h.flags.spec_bits());
    assert(Version::spec_from_byte(bytes[0]) == Some(h.version));
    assert(PacketFlags::spec_from_bits(bytes[3]) == Some(h.flags));
    assert(PacketType::spec_from_byte(bytes[1]) == Some(B::spec_packet_type()));
    assert(h.flags.spec_unencrypted());
    crate::header::lemma_be32_roundtrip(h.session_id);
    crate::header::lemma_be32_roundtrip(len);
    assert(bytes.subrange(4, 8) =~= be32(h.session_id));
    assert(bytes.subrange(8, 12) =~= be32(len));
    assert(be32_value(bytes.subrange(4, 8)) == h.session_id);
    assert(be32_value(bytes.subrange(8, 12)) == len);
    assert(bytes.subrange(12, 12 + len as int) =~= body);
    B::lemma_body_roundtrip(p.spec_body()@);
}

} // verus!

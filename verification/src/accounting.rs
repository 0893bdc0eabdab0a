//! Accounting packet bodies: REQUEST and REPLY.

use vstd::prelude::*;
use crate::arguments::{
    Arguments, ArgumentView, args_lengths, args_lengths_encoding, args_values_encoding,
};
use crate::errors::DeserializeError;
use crate::fields::{AuthenticationContext, AuthenticationMethod, UserInformation};
use crate::header::{MinorVersion, PacketType, be16, be16_value, u16_from_be_bytes};
use crate::packet::{DeserializableBody, PacketBody};
use crate::text::{FieldText, text_bytes_ok};

verus! {

/// The record kind of an accounting request; only the four combinations
/// the RFC allows are representable.
#[derive(Debug, Clone, Copy, PartialEq, Eq, Structural)]
pub enum Flags {
    /// A task starts.
    StartRecord,
    /// A task is complete.
    StopRecord,
    /// The task is still running; no updated arguments.
    WatchdogNoUpdate,
    /// An update on a long-running task with new argument values.
    WatchdogUpdate,
}

impl Flags {
    /// The flag byte on the wire.
    pub open spec fn spec_bits(self) -> u8 {
        match self {
            Flags::StartRecord => 0x02,
            Flags::StopRecord => 0x04,
            Flags::WatchdogNoUpdate => 0x08,
            Flags::WatchdogUpdate => 0x0a,
        }
    }

    /// The flag byte on the wire.
    pub fn bits(&self) -> (b: u8)
        ensures
            b == self.spec_bits(),
    {
        match self {
            Flags::StartRecord => 0x02,
            Flags::StopRecord => 0x04,
            Flags::WatchdogNoUpdate => 0x08,
            Flags::WatchdogUpdate => 0x0a,
        }
    }
}

/// The status a server reports in an accounting reply.
#[derive(Debug, Clone, Copy, PartialEq, Eq, Structural)]
pub enum Status {
    /// The record was logged.
    Success,
    /// Something went wrong while logging the record.
    Error,
    /// Forward to an alternative daemon; RFC 8907 deprecates it.
    Follow,
}

impl Status {
    /// The status's byte value on the wire.
    pub open spec fn spec_byte(self) -> u8 {
        match self {
            Status::Success => 0x01,
            Status::Error => 0x02,
            Status::Follow => 0x21,
        }
    }

    /// The status a byte on the wire denotes, if any.
    pub open spec fn spec_from_byte(b: u8) -> Option<Status> {
        if b == 0x01 {
            Some(Status::Success)
        } else if b == 0x02 {
            Some(Status::Error)
        } else if b == 0x21 {
            Some(Status::Follow)
        } else {
            None
        }
    }

    /// The status's byte value on the wire.
    pub fn wire_byte(&self) -> (b: u8)
        ensures
            b == self.spec_byte(),
    {
        match self {
            Status::Success => 0x01,
            Status::Error => 0x02,
            Status::Follow => 0x21,
        }
    }

    /// Parses a status byte; fails on any undefined value.
    pub fn from_wire_byte(b: u8) -> (r: Result<Status, DeserializeError>)
        ensures
            Self::spec_from_byte(b) is Some ==> r == Ok::<Status, DeserializeError>(
                Self::spec_from_byte(b).unwrap(),
            ),
            Self::spec_from_byte(b) is None ==> r == Err::<Status, DeserializeError>(
                DeserializeError::InvalidStatus(b),
            ),
    {
        if b == 0x01 {
            Ok(Status::Success)
        } else if b == 0x02 {
            Ok(Status::Error)
        } else if b == 0x21 {
            Ok(Status::Follow)
        } else {
            Err(DeserializeError::InvalidStatus(b))
        }
    }
}

/// The mathematical content of an accounting REQUEST body.
pub ghost struct RequestView {
    /// The record kind.
    pub flags: Flags,
    /// How the user authenticated.
    pub authentication_method: AuthenticationMethod,
    /// Privilege level, authentication type and service.
    pub authentication: AuthenticationContext,
    /// The user name's bytes.
    pub user: Seq<u8>,
    /// The port's bytes.
    pub port: Seq<u8>,
    /// The remote address's bytes.
    pub remote_address: Seq<u8>,
    /// The record's arguments.
    pub arguments: Seq<ArgumentView>,
}

impl RequestView {
    /// The invariant of every accounting REQUEST the library builds.
    pub open spec fn valid(self) -> bool {
        &&& self.user.len() <= 255
        &&& self.port.len() <= 255
        &&& self.remote_address.len() <= 255
        &&& text_bytes_ok(self.port)
        &&& text_bytes_ok(self.remote_address)
        &&& self.arguments.len() <= 255
        &&& forall|i: int| 0 <= i < self.arguments.len() ==> (#[trigger] self.arguments[i]).valid()
    }

    /// The wire form: flag byte, method, the three context bytes, three
    /// user information lengths, the argument count and length table, the
    /// user information fields, then the encoded arguments.
    pub open spec fn encoding(self) -> Seq<u8> {
        seq![self.flags.spec_bits(), self.authentication_method.spec_byte()]
            + self.authentication.encoding() + seq![
            self.user.len() as u8,
            self.port.len() as u8,
            self.remote_address.len() as u8,
        ] + args_lengths_encoding(self.arguments) + self.user + self.port + self.remote_address
            + args_values_encoding(self.arguments)
    }
}

/// An accounting REQUEST body: a start, stop or watchdog record for a
/// task.
pub struct Request {
    /// The record kind.
    pub flags: Flags,
    /// How the user authenticated.
    pub authentication_method: AuthenticationMethod,
    /// Privilege level, authentication type and service.
    pub authentication: AuthenticationContext,
    /// The user the record concerns.
    pub user_information: UserInformation,
    /// The record's arguments.
    pub arguments: Arguments,
}

impl View for Request {
    type V = RequestView;

    open spec fn view(&self) -> RequestView {
        RequestView {
            flags: self.flags,
            authentication_method: self.authentication_method,
            authentication: self.authentication,
            user: self.user_information.spec_user(),
            port: self.user_information.spec_port(),
            remote_address: self.user_information.spec_remote_address(),
            arguments: self.arguments@,
        }
    }
}

impl Request {
    /// Assembles an accounting request body from its fields.
    pub fn new(
        flags: Flags,
        authentication_method: AuthenticationMethod,
        authentication: AuthenticationContext,
        user_information: UserInformation,
        arguments: Arguments,
    ) -> (r: Request)
        ensures
            r@ == (RequestView {
                flags,
                authentication_method,
                authentication,
                user: user_information.spec_user(),
                port: user_information.spec_port(),
                remote_address: user_information.spec_remote_address(),
                arguments: arguments@,
            }),
    {
        Request { flags, authentication_method, authentication, user_information, arguments }
    }
}

impl PacketBody for Request {
    open spec fn spec_packet_type() -> PacketType {
        PacketType::Accounting
    }

    open spec fn view_valid(v: RequestView) -> bool {
        v.valid()
    }

    open spec fn view_encoding(v: RequestView) -> Seq<u8> {
        v.encoding()
    }

    open spec fn view_required_minor(v: RequestView) -> Option<MinorVersion> {
        None
    }

    proof fn lemma_encoding_len(v: RequestView) {
        crate::arguments::lemma_args_values_encoding_len(v.arguments);
    }

    fn packet_type() -> PacketType {
        PacketType::Accounting
    }

    fn required_minor_version(&self) -> Option<MinorVersion> {
        None
    }

    fn wire_size(&self) -> usize {
        proof {
            assert(self@.arguments == self.arguments@);
            crate::arguments::lemma_args_values_encoding_len(self.arguments@);
        }
        5 + self.user_information.wire_size() + self.arguments.wire_size()
    }

    fn append_encoding(&self, out: &mut Vec<u8>) {
        out.push(self.flags.bits());
        out.push(self.authentication_method.wire_byte());
        self.authentication.serialize_header_information(out);
        self.user_information.serialize_header_information(out);
        self.arguments.append_lengths(out);
        self.user_information.serialize_body_information(out);
        self.arguments.append_values(out);
        proof {
            assert(final(out)@ =~= old(out)@ + Self::view_encoding(self@));
        }
    }
}

/// The mathematical content of an accounting REPLY body.
pub ghost struct ReplyView {
    /// The reported status.
    pub status: Status,
    /// The message meant for the user; printable ASCII.
    pub server_message: Seq<u8>,
    /// Administrative data for the client.
    pub data: Seq<u8>,
}

impl ReplyView {
    /// The server message is printable ASCII and both variable fields fit
    /// their two-byte lengths.
    pub open spec fn valid(self) -> bool {
        &&& text_bytes_ok(self.server_message)
        &&& self.server_message.len() <= 0xffff
        &&& self.data.len() <= 0xffff
    }

    /// The wire form: two two-byte lengths, the status byte, then the
    /// server message and the data.
    pub open spec fn encoding(self) -> Seq<u8> {
        be16(self.server_message.len() as u16) + be16(self.data.len() as u16) + seq![
            self.status.spec_byte(),
        ] + self.server_message + self.data
    }
}

/// The meaning of an accounting REPLY wire image: the body must reach the
/// length its two length fields claim, the status byte must be defined,
/// and the server message must be printable ASCII. Trailing bytes beyond
/// the claimed length are ignored.
pub open spec fn decode_reply(s: Seq<u8>) -> Result<ReplyView, DeserializeError> {
    if s.len() < 5 {
        Err(DeserializeError::UnexpectedEnd)
    } else {
        let sml = be16_value(s.subrange(0, 2));
        let dl = be16_value(s.subrange(2, 4));
        if s.len() < 5 + sml + dl {
            Err(DeserializeError::UnexpectedEnd)
        } else {
            match Status::spec_from_byte(s[4]) {
                None => Err(DeserializeError::InvalidStatus(s[4])),
                Some(status) => {
                    let sm = s.subrange(5, 5 + sml);
                    if !text_bytes_ok(sm) {
                        Err(DeserializeError::BadText)
                    } else {
                        Ok(
                            ReplyView {
                                status,
                                server_message: sm,
                                data: s.subrange(5 + sml, 5 + sml + dl),
                            },
                        )
                    }
                },
            }
        }
    }
}

/// An accounting REPLY body received from a server.
#[derive(Debug, PartialEq, Eq)]
pub struct Reply {
    /// The reported status.
    pub status: Status,
    /// The message meant for the user.
    pub server_message: FieldText,
    /// Administrative data for the client.
    pub data: Vec<u8>,
}

impl View for Reply {
    type V = ReplyView;

    open spec fn view(&self) -> ReplyView {
        ReplyView {
            status: self.status,
            server_message: self.server_message@,
            data: self.data@,
        }
    }
}

impl Reply {
    /// The body length the first four bytes claim: the fixed fields plus
    /// the two announced lengths; `None` when even the fixed fields are
    /// missing.
    pub fn claimed_length(buffer: &[u8]) -> (r: Option<usize>)
        ensures
            r is Some <==> buffer@.len() >= 5,
            r is Some ==> r.unwrap() == 5 + be16_value(buffer@.subrange(0, 2)) + be16_value(
                buffer@.subrange(2, 4),
            ),
    {
        if buffer.len() < 5 {
            return None;
        }
        let sml = u16_from_be_bytes(buffer[0], buffer[1]);
        let dl = u16_from_be_bytes(buffer[2], buffer[3]);
        proof {
            assert(buffer@.subrange(0, 2) =~= seq![buffer@[0], buffer@[1]]);
            assert(buffer@.subrange(2, 4) =~= seq![buffer@[2], buffer@[3]]);
        }
        Some(5 + sml as usize + dl as usize)
    }
}

impl PacketBody for Reply {
    open spec fn spec_packet_type() -> PacketType {
        PacketType::Accounting
    }

    open spec fn view_valid(v: ReplyView) -> bool {
        v.valid()
    }

    open spec fn view_encoding(v: ReplyView) -> Seq<u8> {
        v.encoding()
    }

    open spec fn view_required_minor(v: ReplyView) -> Option<MinorVersion> {
        None
    }

    proof fn lemma_encoding_len(v: ReplyView) {
    }

    fn packet_type() -> PacketType {
        PacketType::Accounting
    }

    fn required_minor_version(&self) -> Option<MinorVersion> {
        None
    }

    fn wire_size(&self) -> usize {
        5 + self.server_message.len() + self.data.len()
    }

    fn append_encoding(&self, out: &mut Vec<u8>) {
        let mut sml_bytes = crate::header::u16_to_be_bytes(self.server_message.len() as u16);
        out.append(&mut sml_bytes);
        let mut dl_bytes = crate::header::u16_to_be_bytes(self.data.len() as u16);
        out.append(&mut dl_bytes);
        out.push(self.status.wire_byte());
        let mut sm = vstd::slice::slice_to_vec(self.server_message.as_bytes());
        out.append(&mut sm);
        let mut data_copy = self.data.clone();
        out.append(&mut data_copy);
        proof {
            assert(final(out)@ =~= old(out)@ + Self::view_encoding(self@));
        }
    }
}

impl DeserializableBody for Reply {
    open spec fn decode(bytes: Seq<u8>) -> Result<ReplyView, DeserializeError> {
        decode_reply(bytes)
    }

    proof fn lemma_decode_valid(bytes: Seq<u8>) {
    }

    proof fn lemma_body_roundtrip(v: ReplyView) {
        let s = v.encoding();
        crate::header::lemma_be16_roundtrip(v.server_message.len() as u16);
        crate::header::lemma_be16_roundtrip(v.data.len() as u16);
        assert(s.subrange(0, 2) =~= be16(v.server_message.len() as u16));
        assert(s.subrange(2, 4) =~= be16(v.data.len() as u16));
        let sml = be16_value(s.subrange(0, 2));
        let dl = be16_value(s.subrange(2, 4));
        assert(sml == v.server_message.len());
        assert(dl == v.data.len());
        assert(s.subrange(5, 5 + sml) =~= v.server_message);
        assert(s.subrange(5 + sml, 5 + sml + dl) =~= v.data);
    }

    fn deserialize_from_buffer(buffer: &[u8]) -> Result<Self, DeserializeError> {
        let claimed = match Self::claimed_length(buffer) {
            Some(n) => n,
            None => {
                return Err(DeserializeError::UnexpectedEnd);
            },
        };
        if buffer.len() < claimed {
            return Err(DeserializeError::UnexpectedEnd);
        }
        let sml = u16_from_be_bytes(buffer[0], buffer[1]) as usize;
        let dl = u16_from_be_bytes(buffer[2], buffer[3]) as usize;
        proof {
            assert(buffer@.subrange(0, 2) =~= seq![buffer@[0], buffer@[1]]);
            assert(buffer@.subrange(2, 4) =~= seq![buffer@[2], buffer@[3]]);
        }
        let status = Status::from_wire_byte(buffer[4])?;
        let sm_bytes = vstd::slice::slice_subrange(buffer, 5, 5 + sml);
        let server_message = match FieldText::try_from_bytes(sm_bytes) {
            Some(t) => t,
            None => {
                return Err(DeserializeError::BadText);
            },
        };
        let data_bytes = vstd::slice::slice_subrange(buffer, 5 + sml, 5 + sml + dl);
        let data = vstd::slice::slice_to_vec(data_bytes);
        Ok(Reply { status, server_message, data })
    }
}

} // verus!

//! Authentication packet bodies: START, CONTINUE and REPLY.

use vstd::prelude::*;
use crate::errors::DeserializeError;
use crate::fields::{AuthenticationContext, AuthenticationType, UserInformation};
use crate::header::{MinorVersion, PacketType, be16, be16_value, u16_from_be_bytes};
use crate::packet::{DeserializableBody, PacketBody};
use crate::text::{FieldText, text_bytes_ok};

verus! {

/// The action requested when an authentication session starts.
#[derive(Debug, Clone, Copy, PartialEq, Eq, Structural)]
pub enum Action {
    /// A login request.
    Login,
    /// A password change request.
    ChangePassword,
    /// An outbound authentication request; RFC 8907 advises against it.
    SendAuth,
}

impl Action {
    /// The action's byte value on the wire.
    pub open spec fn spec_byte(self) -> u8 {
        match self {
            Action::Login => 0x01,
            Action::ChangePassword => 0x02,
            Action::SendAuth => 0x04,
        }
    }

    /// The action's byte value on the wire.
    pub fn wire_byte(&self) -> (b: u8)
        ensures
            b == self.spec_byte(),
    {
        match self {
            Action::Login => 0x01,
            Action::ChangePassword => 0x02,
            Action::SendAuth => 0x04,
        }
    }
}

/// The status a server reports in an authentication reply.
#[derive(Debug, Clone, Copy, PartialEq, Eq, Structural)]
pub enum Status {
    /// Authentication succeeded.
    Pass,
    /// Authentication failed.
    Fail,
    /// The server asks for more domain-specific data.
    GetData,
    /// The server asks for the user name.
    GetUser,
    /// The server asks for the password.
    GetPassword,
    /// The server asks the client to restart the session.
    Restart,
    /// A server-side error while authenticating.
    Error,
    /// Forward to an alternative daemon; RFC 8907 deprecates it.
    Follow,
}

impl Status {
    /// The status's byte value on the wire.
    pub open spec fn spec_byte(self) -> u8 {
        match self {
            Status::Pass => 0x01,
            Status::Fail => 0x02,
            Status::GetData => 0x03,
            Status::GetUser => 0x04,
            Status::GetPassword => 0x05,
            Status::Restart => 0x06,
            Status::Error => 0x07,
            Status::Follow => 0x21,
        }
    }

    /// The status a byte on the wire denotes, if any.
    pub open spec fn spec_from_byte(b: u8) -> Option<Status> {
        if b == 0x01 {
            Some(Status::Pass)
        } else if b == 0x02 {
            Some(Status::Fail)
        } else if b == 0x03 {
            Some(Status::GetData)
        } else if b == 0x04 {
            Some(Status::GetUser)
        } else if b == 0x05 {
            Some(Status::GetPassword)
        } else if b == 0x06 {
            Some(Status::Restart)
        } else if b == 0x07 {
            Some(Status::Error)
        } else if b == 0x21 {
            Some(Status::Follow)
        } else {
            None
        }
    }

    /// The status's byte value on the wire.
    pub fn wire_byte(&self) -> (b: u8)
        ensures
            b == self.spec_byte(),
    {
        match self {
            Status::Pass => 0x01,
            Status::Fail => 0x02,
            Status::GetData => 0x03,
            Status::GetUser => 0x04,
            Status::GetPassword => 0x05,
            Status::Restart => 0x06,
            Status::Error => 0x07,
            Status::Follow => 0x21,
        }
    }

    /// Parses a status byte; fails on any undefined value.
    pub fn from_wire_byte(b: u8) -> (r: Result<Status, DeserializeError>)
        ensures
            Self::spec_from_byte(b) is Some ==> r == Ok::<Status, DeserializeError>(
                Self::spec_from_byte(b).unwrap(),
            ),
            Self::spec_from_byte(b) is None ==> r == Err::<Status, DeserializeError>(
                DeserializeError::InvalidStatus(b),
            ),
    {
        if b == 0x01 {
            Ok(Status::Pass)
        } else if b == 0x02 {
            Ok(Status::Fail)
        } else if b == 0x03 {
            Ok(Status::GetData)
        } else if b == 0x04 {
            Ok(Status::GetUser)
        } else if b == 0x05 {
            Ok(Status::GetPassword)
        } else if b == 0x06 {
            Ok(Status::Restart)
        } else if b == 0x07 {
            Ok(Status::Error)
        } else if b == 0x21 {
            Ok(Status::Follow)
        } else {
            Err(DeserializeError::InvalidStatus(b))
        }
    }
}

/// The mathematical content of a START body.
pub ghost struct StartView {
    /// The requested action.
    pub action: Action,
    /// Privilege level, authentication type and service.
    pub authentication: AuthenticationContext,
    /// The user name's bytes.
    pub user: Seq<u8>,
    /// The port's bytes.
    pub port: Seq<u8>,
    /// The remote address's bytes.
    pub remote_address: Seq<u8>,
    /// The authentication data; empty when absent.
    pub data: Seq<u8>,
}

impl StartView {
    /// The invariant of every START the library builds: user information
    /// fields fit their one-byte lengths, the data fits its one-byte
    /// length, and the authentication type is set.
    pub open spec fn valid(self) -> bool {
        &&& self.user.len() <= 255
        &&& self.port.len() <= 255
        &&& self.remote_address.len() <= 255
        &&& text_bytes_ok(self.port)
        &&& text_bytes_ok(self.remote_address)
        &&& self.data.len() <= 255
        &&& self.authentication.authentication_type != AuthenticationType::NotSet
    }

    /// The wire form: action, privilege level, type, service, four length
    /// bytes, then user, port, remote address and data.
    pub open spec fn encoding(self) -> Seq<u8> {
        seq![self.action.spec_byte()] + self.authentication.encoding() + seq![
            self.user.len() as u8,
            self.port.len() as u8,
            self.remote_address.len() as u8,
            self.data.len() as u8,
        ] + self.user + self.port + self.remote_address + self.data
    }
}

/// An authentication START body, which opens an authentication session.
pub struct Start {
    action: Action,
    authentication: AuthenticationContext,
    user_information: UserInformation,
    data: Option<Vec<u8>>,
}

impl View for Start {
    type V = StartView;

    closed spec fn view(&self) -> StartView {
        StartView {
            action: self.action,
            authentication: self.authentication,
            user: self.user_information.spec_user(),
            port: self.user_information.spec_port(),
            remote_address: self.user_information.spec_remote_address(),
            data: match self.data {
                Some(d) => d@,
                None => Seq::empty(),
            },
        }
    }
}

impl Start {
    /// Builds a START body; refuses data longer than 255 bytes and an
    /// unset authentication type.
    pub fn new(
        action: Action,
        authentication: AuthenticationContext,
        user_information: UserInformation,
        data: Option<&[u8]>,
    ) -> (r: Option<Start>)
        requires
            user_information.valid(),
        ensures
            r is Some <==> (match data {
                Some(d) => d@.len() <= 255,
                None => true,
            } && authentication.authentication_type != AuthenticationType::NotSet),
            r is Some ==> {
                &&& r.unwrap()@ == (StartView {
                    action,
                    authentication,
                    user: user_information.spec_user(),
                    port: user_information.spec_port(),
                    remote_address: user_information.spec_remote_address(),
                    data: match data {
                        Some(d) => d@,
                        None => Seq::empty(),
                    },
                })
                &&& r.unwrap()@.valid()
            },
    {
        let data_ok = match data {
            Some(d) => d.len() <= 255,
            None => true,
        };
        let type_set = !matches!(
            authentication.authentication_type,
            AuthenticationType::NotSet,
        );
        if data_ok && type_set {
            let stored: Option<Vec<u8>> = match data {
                Some(d) => Some(vstd::slice::slice_to_vec(d)),
                None => None,
            };
            Some(Start { action, authentication, user_information, data: stored })
        } else {
            None
        }
    }
}

impl PacketBody for Start {
    open spec fn spec_packet_type() -> PacketType {
        PacketType::Authentication
    }

    open spec fn view_valid(v: StartView) -> bool {
        v.valid()
    }

    open spec fn view_encoding(v: StartView) -> Seq<u8> {
        v.encoding()
    }

    /// ASCII authentication runs under the default minor version; PAP,
    /// CHAP and MS-CHAP run under minor version 1.
    open spec fn view_required_minor(v: StartView) -> Option<MinorVersion> {
        match v.authentication.authentication_type {
            AuthenticationType::Ascii => Some(MinorVersion::Default),
            _ => Some(MinorVersion::V1),
        }
    }

    proof fn lemma_encoding_len(v: StartView) {
    }

    fn packet_type() -> PacketType {
        PacketType::Authentication
    }

    fn required_minor_version(&self) -> Option<MinorVersion> {
        match self.authentication.authentication_type {
            AuthenticationType::Ascii => Some(MinorVersion::Default),
            _ => Some(MinorVersion::V1),
        }
    }

    fn wire_size(&self) -> usize {
        let data_len = match &self.data {
            Some(d) => d.len(),
            None => 0,
        };
        5 + self.user_information.wire_size() + data_len
    }

    fn append_encoding(&self, out: &mut Vec<u8>) {
        out.push(self.action.wire_byte());
        self.authentication.serialize_header_information(out);
        self.user_information.serialize_header_information(out);
        let data_len = match &self.data {
            Some(d) => d.len(),
            None => 0,
        };
        out.push(data_len as u8);
        self.user_information.serialize_body_information(out);
        match &self.data {
            Some(d) => {
                let mut data_copy = d.clone();
                out.append(&mut data_copy);
            },
            None => {},
        }
        proof {
            assert(final(out)@ =~= old(out)@ + Self::view_encoding(self@));
        }
    }
}

/// The mathematical content of a CONTINUE body.
pub ghost struct ContinueView {
    /// The user's answer to the server's last prompt; empty when absent.
    pub user_message: Seq<u8>,
    /// Additional data; empty when absent.
    pub data: Seq<u8>,
    /// Whether the client aborts the session.
    pub abort: bool,
}

impl ContinueView {
    /// Both variable fields fit their two-byte lengths.
    pub open spec fn valid(self) -> bool {
        &&& self.user_message.len() <= 0xffff
        &&& self.data.len() <= 0xffff
    }

    /// The wire form: two two-byte lengths, the flag byte, then the user
    /// message and the data.
    pub open spec fn encoding(self) -> Seq<u8> {
        be16(self.user_message.len() as u16) + be16(self.data.len() as u16) + seq![
            if self.abort {
                1u8
            } else {
                0u8
            },
        ] + self.user_message + self.data
    }
}

/// An authentication CONTINUE body, sent in answer to a server prompt.
pub struct Continue {
    user_message: Option<Vec<u8>>,
    data: Option<Vec<u8>>,
    abort: bool,
}

impl View for Continue {
    type V = ContinueView;

    closed spec fn view(&self) -> ContinueView {
        ContinueView {
            user_message: match self.user_message {
                Some(m) => m@,
                None => Seq::empty(),
            },
            data: match self.data {
                Some(d) => d@,
                None => Seq::empty(),
            },
            abort: self.abort,
        }
    }
}

impl Continue {
    /// Builds a CONTINUE body; refuses a user message or data field longer
    /// than 65535 bytes.
    pub fn new(user_message: Option<&[u8]>, data: Option<&[u8]>, abort: bool) -> (r: Option<
        Continue,
    >)
        ensures
            r is Some <==> (match user_message {
                Some(m) => m@.len() <= 0xffff,
                None => true,
            } && match data {
                Some(d) => d@.len() <= 0xffff,
                None => true,
            }),
            r is Some ==> {
                &&& r.unwrap()@ == (ContinueView {
                    user_message: match user_message {
                        Some(m) => m@,
                        None => Seq::empty(),
                    },
                    data: match data {
                        Some(d) => d@,
                        None => Seq::empty(),
                    },
                    abort,
                })
                &&& r.unwrap()@.valid()
            },
    {
        let message_ok = match user_message {
            Some(m) => m.len() <= 0xffff,
            None => true,
        };
        let data_ok = match data {
            Some(d) => d.len() <= 0xffff,
            None => true,
        };
        if message_ok && data_ok {
            let stored_message: Option<Vec<u8>> = match user_message {
                Some(m) => Some(vstd::slice::slice_to_vec(m)),
                None => None,
            };
            let stored_data: Option<Vec<u8>> = match data {
                Some(d) => Some(vstd::slice::slice_to_vec(d)),
                None => None,
            };
            Some(Continue { user_message: stored_message, data: stored_data, abort })
        } else {
            None
        }
    }
}

impl PacketBody for Continue {
    open spec fn spec_packet_type() -> PacketType {
        PacketType::Authentication
    }

    open spec fn view_valid(v: ContinueView) -> bool {
        v.valid()
    }

    open spec fn view_encoding(v: ContinueView) -> Seq<u8> {
        v.encoding()
    }

    open spec fn view_required_minor(v: ContinueView) -> Option<MinorVersion> {
        None
    }

    proof fn lemma_encoding_len(v: ContinueView) {
    }

    fn packet_type() -> PacketType {
        PacketType::Authentication
    }

    fn required_minor_version(&self) -> Option<MinorVersion> {
        None
    }

    fn wire_size(&self) -> usize {
        let message_len = match &self.user_message {
            Some(m) => m.len(),
            None => 0,
        };
        let data_len = match &self.data {
            Some(d) => d.len(),
            None => 0,
        };
        5 + message_len + data_len
    }

    fn append_encoding(&self, out: &mut Vec<u8>) {
        let message_len = match &self.user_message {
            Some(m) => m.len(),
            None => 0,
        };
        let data_len = match &self.data {
            Some(d) => d.len(),
            None => 0,
        };
        let mut message_len_bytes = crate::header::u16_to_be_bytes(message_len as u16);
        out.append(&mut message_len_bytes);
        let mut data_len_bytes = crate::header::u16_to_be_bytes(data_len as u16);
        out.append(&mut data_len_bytes);
        out.push(if self.abort {
            1
        } else {
            0
        });
        match &self.user_message {
            Some(m) => {
                let mut message_copy = m.clone();
                out.append(&mut message_copy);
            },
            None => {},
        }
        match &self.data {
            Some(d) => {
                let mut data_copy = d.clone();
                out.append(&mut data_copy);
            },
            None => {},
        }
        proof {
            assert(final(out)@ =~= old(out)@ + Self::view_encoding(self@));
        }
    }
}

/// The mathematical content of an authentication REPLY body.
pub ghost struct ReplyView {
    /// The reported status.
    pub status: Status,
    /// The message meant for the user; printable ASCII.
    pub server_message: Seq<u8>,
    /// Domain-specific data for the client.
    pub data: Seq<u8>,
    /// Whether the client must not echo the user's next input.
    pub no_echo: bool,
}

impl ReplyView {
    /// The server message is printable ASCII and both variable fields fit
    /// their two-byte lengths.
    pub open spec fn valid(self) -> bool {
        &&& text_bytes_ok(self.server_message)
        &&& self.server_message.len() <= 0xffff
        &&& self.data.len() <= 0xffff
    }

    /// The wire form: status, flag byte, two two-byte lengths, then the
    /// server message and the data.
    pub open spec fn encoding(self) -> Seq<u8> {
        seq![
            self.status.spec_byte(),
            if self.no_echo {
                1u8
            } else {
                0u8
            },
        ] + be16(self.server_message.len() as u16) + be16(self.data.len() as u16)
            + self.server_message + self.data
    }
}

/// The meaning of an authentication REPLY wire image: the body must reach
/// the length its two length fields claim, the status and flag bytes must
/// be defined values, and the server message must be printable ASCII.
/// Trailing bytes beyond the claimed length are ignored.
pub open spec fn decode_reply(s: Seq<u8>) -> Result<ReplyView, DeserializeError> {
    if s.len() < 6 {
        Err(DeserializeError::UnexpectedEnd)
    } else {
        let sml = be16_value(s.subrange(2, 4));
        let dl = be16_value(s.subrange(4, 6));
        if s.len() < 6 + sml + dl {
            Err(DeserializeError::UnexpectedEnd)
        } else {
            match Status::spec_from_byte(s[0]) {
                None => Err(DeserializeError::InvalidStatus(s[0])),
                Some(status) => {
                    if s[1] != 0 && s[1] != 1 {
                        Err(DeserializeError::InvalidBodyFlags(s[1]))
                    } else {
                        let sm = s.subrange(6, 6 + sml);
                        if !text_bytes_ok(sm) {
                            Err(DeserializeError::BadText)
                        } else {
                            Ok(
                                ReplyView {
                                    status,
                                    server_message: sm,
                                    data: s.subrange(6 + sml, 6 + sml + dl),
                                    no_echo: s[1] == 1,
                                },
                            )
                        }
                    }
                },
            }
        }
    }
}

/// An authentication REPLY body received from a server.
#[derive(Debug, PartialEq, Eq)]
pub struct Reply {
    /// The reported status.
    pub status: Status,
    /// The message meant for the user.
    pub server_message: FieldText,
    /// Domain-specific data for the client.
    pub data: Vec<u8>,
    /// Whether the client must not echo the user's next input.
    pub no_echo: bool,
}

impl View for Reply {
    type V = ReplyView;

    open spec fn view(&self) -> ReplyView {
        ReplyView {
            status: self.status,
            server_message: self.server_message@,
            data: self.data@,
            no_echo: self.no_echo,
        }
    }
}

impl Reply {
    /// The body length the first six bytes claim: the fixed fields plus
    /// the two announced lengths; `None` when even the fixed fields are
    /// missing.
    pub fn claimed_length(buffer: &[u8]) -> (r: Option<usize>)
        ensures
            r is Some <==> buffer@.len() >= 6,
            r is Some ==> r.unwrap() == 6 + be16_value(buffer@.subrange(2, 4)) + be16_value(
                buffer@.subrange(4, 6),
            ),
    {
        if buffer.len() < 6 {
            return None;
        }
        let sml = u16_from_be_bytes(buffer[2], buffer[3]);
        let dl = u16_from_be_bytes(buffer[4], buffer[5]);
        proof {
            assert(buffer@.subrange(2, 4) =~= seq![buffer@[2], buffer@[3]]);
            assert(buffer@.subrange(4, 6) =~= seq![buffer@[4], buffer@[5]]);
        }
        Some(6 + sml as usize + dl as usize)
    }
}

impl PacketBody for Reply {
    open spec fn spec_packet_type() -> PacketType {
        PacketType::Authentication
    }

    open spec fn view_valid(v: ReplyView) -> bool {
        v.valid()
    }

    open spec fn view_encoding(v: ReplyView) -> Seq<u8> {
        v.encoding()
    }

    open spec fn view_required_minor(v: ReplyView) -> Option<MinorVersion> {
        None
    }

    proof fn lemma_encoding_len(v: ReplyView) {
    }

    fn packet_type() -> PacketType {
        PacketType::Authentication
    }

    fn required_minor_version(&self) -> Option<MinorVersion> {
        None
    }

    fn wire_size(&self) -> usize {
        6 + self.server_message.len() + self.data.len()
    }

    fn append_encoding(&self, out: &mut Vec<u8>) {
        out.push(self.status.wire_byte());
        out.push(if self.no_echo {
            1
        } else {
            0
        });
        let mut sml_bytes = crate::header::u16_to_be_bytes(self.server_message.len() as u16);
        out.append(&mut sml_bytes);
        let mut dl_bytes = crate::header::u16_to_be_bytes(self.data.len() as u16);
        out.append(&mut dl_bytes);
        let mut sm = vstd::slice::slice_to_vec(self.server_message.as_bytes());
        out.append(&mut sm);
        let mut data_copy = self.data.clone();
        out.append(&mut data_copy);
        proof {
            assert(final(out)@ =~= old(out)@ + Self::view_encoding(self@));
        }
    }
}

impl DeserializableBody for Reply {
    open spec fn decode(bytes: Seq<u8>) -> Result<ReplyView, DeserializeError> {
        decode_reply(bytes)
    }

    proof fn lemma_decode_valid(bytes: Seq<u8>) {
    }

    proof fn lemma_body_roundtrip(v: ReplyView) {
        let s = v.encoding();
        crate::header::lemma_be16_roundtrip(v.server_message.len() as u16);
        crate::header::lemma_be16_roundtrip(v.data.len() as u16);
        assert(s.subrange(2, 4) =~= be16(v.server_message.len() as u16));
        assert(s.subrange(4, 6) =~= be16(v.data.len() as u16));
        let sml = be16_value(s.subrange(2, 4));
        let dl = be16_value(s.subrange(4, 6));
        assert(sml == v.server_message.len());
        assert(dl == v.data.len());
        assert(s.subrange(6, 6 + sml) =~= v.server_message);
        assert(s.subrange(6 + sml, 6 + sml + dl) =~= v.data);
    }

    fn deserialize_from_buffer(buffer: &[u8]) -> Result<Self, DeserializeError> {
        let claimed = match Self::claimed_length(buffer) {
            Some(n) => n,
            None => {
                return Err(DeserializeError::UnexpectedEnd);
            },
        };
        if buffer.len() < claimed {
            return Err(DeserializeError::UnexpectedEnd);
        }
        let status = Status::from_wire_byte(buffer[0])?;
        let flag_byte = buffer[1];
        if flag_byte != 0 && flag_byte != 1 {
            return Err(DeserializeError::InvalidBodyFlags(flag_byte));
        }
        let sml = u16_from_be_bytes(buffer[2], buffer[3]) as usize;
        let dl = u16_from_be_bytes(buffer[4], buffer[5]) as usize;
        proof {
            assert(buffer@.subrange(2, 4) =~= seq![buffer@[2], buffer@[3]]);
            assert(buffer@.subrange(4, 6) =~= seq![buffer@[4], buffer@[5]]);
        }
        let sm_bytes = vstd::slice::slice_subrange(buffer, 6, 6 + sml);
        let server_message = match FieldText::try_from_bytes(sm_bytes) {
            Some(t) => t,
            None => {
                return Err(DeserializeError::BadText);
            },
        };
        let data_bytes = vstd::slice::slice_subrange(buffer, 6 + sml, 6 + sml + dl);
        let data = vstd::slice::slice_to_vec(data_bytes);
        Ok(Reply { status, server_message, data, no_echo: flag_byte == 1 })
    }
}

} // verus!

//! The pure decision logic of the session engine and the exchange drivers:
//! header construction, sequence numbering, reply interpretation, CHAP data,
//! authorization argument reconciliation and accounting record arguments.

use vstd::prelude::*;
use crate::arguments::{Argument, ArgumentView, spec_new_argument};
use crate::authentication;
use crate::authorization;
use crate::errors::{DeserializeError, InvalidArgument, SerializeError};
use crate::fields::{AuthenticationMethod, PrivilegeLevel, UserInformation};
use crate::header::{HeaderInfo, MajorVersion, MinorVersion, PacketFlags, Version};
use crate::obfuscation::{md5_digest, md5_of};
use crate::text::FieldText;
use vstd::string::StringSliceAdditionalSpecFns;

verus! {

/// An error of the protocol client that involves no transport I/O; the
/// caller wraps transport failures around it.
#[derive(Debug, PartialEq, Eq)]
pub enum ClientError {
    /// The server reported an error; its message and data are kept for
    /// diagnostics.
    ProtocolError {
        /// The data the server returned.
        data: Vec<u8>,
        /// The message the server returned.
        message: FieldText,
    },
    /// A packet could not be serialized.
    SerializeError(SerializeError),
    /// A received packet was invalid.
    InvalidPacketReceived(DeserializeError),
    /// A reply carried a sequence number other than the expected even
    /// successor of the request's.
    SequenceMismatch {
        /// The sequence number the session expected.
        expected: u8,
        /// The sequence number the reply carried.
        actual: u8,
    },
    /// A packet field could not be encoded.
    InvalidPacketField,
    /// A session context field could not be encoded.
    InvalidContext,
    /// More than 255 arguments were supplied.
    TooManyArguments,
    /// An argument was rejected.
    BadArgument(InvalidArgument),
}

/// The information shared by all exchanges of a session: user, port,
/// remote address, privilege level and the authentication method reported
/// in authorization and accounting requests.
#[derive(Debug, PartialEq, Eq)]
pub struct SessionContext {
    /// The user's name, as UTF-8 bytes.
    pub user: Vec<u8>,
    /// The client port's name.
    pub port: Vec<u8>,
    /// The remote address.
    pub remote_address: Vec<u8>,
    /// The privilege level of the session.
    pub privilege_level: PrivilegeLevel,
    /// The method reported in authorization and accounting requests.
    pub authentication_method: AuthenticationMethod,
}

impl SessionContext {
    /// The context's fields can be encoded in a request body: none is over
    /// 255 bytes, and port and remote address are printable ASCII.
    pub open spec fn encodable(&self) -> bool {
        &&& self.user@.len() <= 255
        &&& self.port@.len() <= 255
        &&& self.remote_address@.len() <= 255
        &&& crate::text::text_bytes_ok(self.port@)
        &&& crate::text::text_bytes_ok(self.remote_address@)
    }

    /// Bundles the context into the user information triple of a request
    /// body; fails exactly when a field is over 255 bytes or port or
    /// remote address is not printable ASCII.
    pub fn as_user_information(&self) -> (r: Result<UserInformation, ClientError>)
        ensures
            r is Ok <==> self.encodable(),
            match r {
                Ok(u) => {
                    &&& u.spec_user() == self.user@
                    &&& u.spec_port() == self.port@
                    &&& u.spec_remote_address() == self.remote_address@
                    &&& u.valid()
                },
                Err(e) => e == ClientError::InvalidContext && !self.encodable(),
            },
    {
        let port = match FieldText::try_from_bytes(self.port.as_slice()) {
            Some(t) => t,
            None => {
                return Err(ClientError::InvalidContext);
            },
        };
        let remote = match FieldText::try_from_bytes(self.remote_address.as_slice()) {
            Some(t) => t,
            None => {
                return Err(ClientError::InvalidContext);
            },
        };
        if self.user.len() > 255 || self.port.len() > 255 || self.remote_address.len() > 255 {
            return Err(ClientError::InvalidContext);
        }
        match UserInformation::from_parts(self.user.as_slice(), port, remote) {
            Some(u) => Ok(u),
            None => Err(ClientError::InvalidContext),
        }
    }
}

/// A builder for [`SessionContext`] values, with the defaults the library
/// has always used: an empty user, port `rust_client` and remote address
/// `tacacs_plus_rs`.
pub struct SessionContextBuilder {
    user: Vec<u8>,
    port: Vec<u8>,
    remote_address: Vec<u8>,
    privilege_level: PrivilegeLevel,
    authentication_method: AuthenticationMethod,
}

/// The byte spelling of the default port name, `rust_client`.
pub open spec fn default_port_bytes() -> Seq<u8> {
    seq![0x72u8, 0x75, 0x73, 0x74, 0x5f, 0x63, 0x6c, 0x69, 0x65, 0x6e, 0x74]
}

/// The byte spelling of the default remote address, `tacacs_plus_rs`.
pub open spec fn default_remote_bytes() -> Seq<u8> {
    seq![0x74u8, 0x61, 0x63, 0x61, 0x63, 0x73, 0x5f, 0x70, 0x6c, 0x75, 0x73, 0x5f, 0x72, 0x73]
}

impl SessionContextBuilder {
    /// A builder holding the defaults.
    pub fn new() -> (r: SessionContextBuilder)
        ensures
            r.spec_user() == Seq::<u8>::empty(),
            r.spec_port() == default_port_bytes(),
            r.spec_remote_address() == default_remote_bytes(),
            r.spec_privilege_level().spec_level() == 0,
            r.spec_method() == AuthenticationMethod::NotSet,
    {
        let mut port: Vec<u8> = Vec::new();
        port.push(0x72);
        port.push(0x75);
        port.push(0x73);
        port.push(0x74);
        port.push(0x5f);
        port.push(0x63);
        port.push(0x6c);
        port.push(0x69);
        port.push(0x65);
        port.push(0x6e);
        port.push(0x74);
        let mut remote: Vec<u8> = Vec::new();
        remote.push(0x74);
        remote.push(0x61);
        remote.push(0x63);
        remote.push(0x61);
        remote.push(0x63);
        remote.push(0x73);
        remote.push(0x5f);
        remote.push(0x70);
        remote.push(0x6c);
        remote.push(0x75);
        remote.push(0x73);
        remote.push(0x5f);
        remote.push(0x72);
        remote.push(0x73);
        proof {
            assert(port@ =~= default_port_bytes());
            assert(remote@ =~= default_remote_bytes());
        }
        SessionContextBuilder {
            user: Vec::new(),
            port,
            remote_address: remote,
            privilege_level: PrivilegeLevel::default(),
            authentication_method: AuthenticationMethod::NotSet,
        }
    }

    /// The user set so far.
    pub closed spec fn spec_user(&self) -> Seq<u8> {
        self.user@
    }

    /// The port set so far.
    pub closed spec fn spec_port(&self) -> Seq<u8> {
        self.port@
    }

    /// The remote address set so far.
    pub closed spec fn spec_remote_address(&self) -> Seq<u8> {
        self.remote_address@
    }

    /// The privilege level set so far.
    pub closed spec fn spec_privilege_level(&self) -> PrivilegeLevel {
        self.privilege_level
    }

    /// The authentication method set so far.
    pub closed spec fn spec_method(&self) -> AuthenticationMethod {
        self.authentication_method
    }

    /// Sets the user name.
    pub fn user(self, user: &str) -> (r: SessionContextBuilder)
        ensures
            r.spec_user() == user.spec_bytes(),
            r.spec_port() == self.spec_port(),
            r.spec_remote_address() == self.spec_remote_address(),
            r.spec_privilege_level() == self.spec_privilege_level(),
            r.spec_method() == self.spec_method(),
    {
        SessionContextBuilder {
            user: vstd::slice::slice_to_vec(user.as_bytes()),
            ..self
        }
    }

    /// Sets the port.
    pub fn port(self, port: &str) -> (r: SessionContextBuilder)
        ensures
            r.spec_port() == port.spec_bytes(),
            r.spec_user() == self.spec_user(),
            r.spec_remote_address() == self.spec_remote_address(),
            r.spec_privilege_level() == self.spec_privilege_level(),
            r.spec_method() == self.spec_method(),
    {
        SessionContextBuilder {
            port: vstd::slice::slice_to_vec(port.as_bytes()),
            ..self
        }
    }

    /// Sets the remote address.
    pub fn remote_address(self, remote_address: &str) -> (r: SessionContextBuilder)
        ensures
            r.spec_remote_address() == remote_address.spec_bytes(),
            r.spec_user() == self.spec_user(),
            r.spec_port() == self.spec_port(),
            r.spec_privilege_level() == self.spec_privilege_level(),
            r.spec_method() == self.spec_method(),
    {
        SessionContextBuilder {
            remote_address: vstd::slice::slice_to_vec(remote_address.as_bytes()),
            ..self
        }
    }

    /// Sets the privilege level.
    pub fn privilege_level(self, privilege_level: PrivilegeLevel) -> (r: SessionContextBuilder)
        ensures
            r.spec_privilege_level() == privilege_level,
            r.spec_user() == self.spec_user(),
            r.spec_port() == self.spec_port(),
            r.spec_remote_address() == self.spec_remote_address(),
            r.spec_method() == self.spec_method(),
    {
        SessionContextBuilder { privilege_level, ..self }
    }

    /// Sets the authentication method reported in authorization and
    /// accounting requests.
    pub fn authentication_method(self, authentication_method: AuthenticationMethod) -> (r:
        SessionContextBuilder)
        ensures
            r.spec_method() == authentication_method,
            r.spec_user() == self.spec_user(),
            r.spec_port() == self.spec_port(),
            r.spec_remote_address() == self.spec_remote_address(),
            r.spec_privilege_level() == self.spec_privilege_level(),
    {
        SessionContextBuilder { authentication_method, ..self }
    }

    /// Finishes the context.
    pub fn build(self) -> (r: SessionContext)
        ensures
            r.user@ == self.spec_user(),
            r.port@ == self.spec_port(),
            r.remote_address@ == self.spec_remote_address(),
            r.privilege_level == self.spec_privilege_level(),
            r.authentication_method == self.spec_method(),
    {
        SessionContext {
            user: self.user,
            port: self.port,
            remote_address: self.remote_address,
            privilege_level: self.privilege_level,
            authentication_method: self.authentication_method,
        }
    }
}

/// The sequence number of the `round`-th client packet of a session,
/// counting rounds from zero: the odd numbers 1, 3, 5, ...
pub open spec fn client_sequence_number(round: nat) -> nat {
    2 * round + 1
}

/// The sequence number of the `round`-th server reply: the even numbers
/// 2, 4, 6, ...
pub open spec fn server_sequence_number(round: nat) -> nat {
    2 * round + 2
}

/// Sequence numbers within a session form the strictly increasing sequence
/// 1, 2, 3, ...: client packets carry the odd numbers, server replies the
/// even ones, and each reply is followed by the next client packet.
pub proof fn lemma_sequence_numbers(round: nat)
    ensures
        client_sequence_number(round) % 2 == 1,
        server_sequence_number(round) % 2 == 0,
        server_sequence_number(round) == client_sequence_number(round) + 1,
        client_sequence_number(round + 1) == server_sequence_number(round) + 1,
{
    assert(client_sequence_number(round) % 2 == 1 && server_sequence_number(round) % 2 == 0) by (
    nonlinear_arith);
}

/// The per-session sequence counter: it hands out the client sequence
/// number of each round and the even number the reply must carry.
pub struct SequenceCounter {
    next_client: u8,
}

impl SequenceCounter {
    /// The next client sequence number.
    pub closed spec fn spec_next(&self) -> u8 {
        self.next_client
    }

    /// The counter always holds an odd next number.
    pub open spec fn wf(&self) -> bool {
        self.spec_next() % 2 == 1
    }

    /// A fresh session counts from one.
    pub fn new() -> (r: SequenceCounter)
        ensures
            r.spec_next() == client_sequence_number(0),
            r.wf(),
    {
        SequenceCounter { next_client: 1 }
    }

    /// Whether another round can be numbered without overflowing the
    /// one-byte sequence counter.
    pub fn has_next(&self) -> (r: bool)
        ensures
            r == (self.spec_next() <= 253),
    {
        self.next_client <= 253
    }

    /// Takes the sequence numbers of the next round: the client packet's
    /// odd number and the expected reply's even number, one greater.
    pub fn next_round(&mut self) -> (r: (u8, u8))
        requires
            old(self).wf(),
            old(self).spec_next() <= 253,
        ensures
            r.0 == old(self).spec_next(),
            r.1 == r.0 + 1,
            r.0 % 2 == 1,
            r.1 % 2 == 0,
            final(self).spec_next() == old(self).spec_next() + 2,
            final(self).wf(),
    {
        let client = self.next_client;
        self.next_client += 2;
        (client, client + 1)
    }
}

/// Builds the header of a fresh client packet: version `0xc` with the
/// given minor version, the given sequence number and session id, and the
/// `SINGLE_CONNECTION` flag, joined by `UNENCRYPTED` only when no key is
/// configured.
pub fn make_header(minor_version: MinorVersion, sequence_number: u8, has_secret: bool, session_id:
    u32) -> (r: HeaderInfo)
    ensures
        r.version.major == MajorVersion::RFC8907,
        r.version.minor == minor_version,
        r.sequence_number == sequence_number,
        r.session_id == session_id,
        r.flags == if has_secret {
            PacketFlags::SingleConnection
        } else {
            PacketFlags::Both
        },
        r.flags.spec_single_connection(),
        r.flags.spec_unencrypted() == !has_secret,
{
    let flags = if has_secret {
        PacketFlags::SingleConnection
    } else {
        PacketFlags::Both
    };
    HeaderInfo {
        version: Version::of(MajorVersion::RFC8907, minor_version),
        sequence_number,
        flags,
        session_id,
    }
}

/// The single-connection latch: only the first server reply, sequence
/// number 2, may establish single-connection mode; after that the flag is
/// latched and later replies cannot change it.
pub fn update_single_connection(
    established: bool,
    reply_flags: PacketFlags,
    reply_sequence_number: u8,
) -> (r: bool)
    ensures
        r == (established || (reply_sequence_number == 2 && reply_flags.spec_single_connection())),
{
    established || (reply_sequence_number == 2 && reply_flags.single_connection())
}

/// The receive path's sequence check: a reply must carry exactly the even
/// successor of the request's sequence number; any other value is a
/// protocol error naming both numbers.
pub fn check_reply_sequence(expected_sequence_number: u8, header: &HeaderInfo) -> (r: Result<
    (),
    ClientError,
>)
    ensures
        r is Ok <==> header.sequence_number == expected_sequence_number,
        r is Err ==> r == Err::<(), ClientError>(
            ClientError::SequenceMismatch {
                expected: expected_sequence_number,
                actual: header.sequence_number,
            },
        ),
{
    if header.sequence_number == expected_sequence_number {
        Ok(())
    } else {
        Err(
            ClientError::SequenceMismatch {
                expected: expected_sequence_number,
                actual: header.sequence_number,
            },
        )
    }
}

/// After an exchange the transport is kept only when the server agreed to
/// single-connection mode; otherwise it is closed and the next exchange
/// reconnects.
pub fn keep_connection_after_exchange(single_connection_established: bool) -> (r: bool)
    ensures
        r == single_connection_established,
{
    single_connection_established
}

/// The simplified outcome of an authentication exchange.
#[derive(Debug, Clone, Copy, PartialEq, Eq, Structural)]
pub enum AuthenticationStatus {
    /// The server accepted the credentials.
    Pass,
    /// The server rejected the credentials, asked for a restart, or asked
    /// the client to follow another daemon; all are reported as failure.
    Fail,
}

/// A server's answer to an authentication exchange: the simplified status,
/// the server's message and its extra data.
#[derive(Debug, PartialEq, Eq)]
pub struct AuthenticationResponse {
    /// Whether the authentication passed.
    pub status: AuthenticationStatus,
    /// The message the server sent for the user.
    pub message: FieldText,
    /// The extra data the server sent.
    pub data: Vec<u8>,
}

/// Interprets the reply that ends a single-round authentication exchange:
/// PASS passes; FAIL, RESTART and FOLLOW fail; everything else, the
/// prompting statuses included, is a protocol error carrying the server's
/// message and data.
pub fn interpret_authentication_reply(reply: &authentication::Reply) -> (r: Result<
    AuthenticationResponse,
    ClientError,
>)
    ensures
        match r {
            Ok(response) => {
                &&& response.message@ == reply@.server_message
                &&& response.data@ == reply@.data
                &&& (response.status == AuthenticationStatus::Pass <==> reply@.status
                    == authentication::Status::Pass)
                &&& (reply@.status == authentication::Status::Pass || reply@.status
                    == authentication::Status::Fail || reply@.status
                    == authentication::Status::Restart || reply@.status
                    == authentication::Status::Follow)
            },
            Err(e) => {
                &&& !(reply@.status == authentication::Status::Pass || reply@.status
                    == authentication::Status::Fail || reply@.status
                    == authentication::Status::Restart || reply@.status
                    == authentication::Status::Follow)
                &&& e matches ClientError::ProtocolError { data, message } && data@ == reply@.data
                    && message@ == reply@.server_message
            },
        },
{
    match reply.status {
        authentication::Status::Pass => Ok(
            AuthenticationResponse {
                status: AuthenticationStatus::Pass,
                message: reply.server_message.clone(),
                data: reply.data.clone(),
            },
        ),
        authentication::Status::Fail | authentication::Status::Restart
            | authentication::Status::Follow => Ok(
            AuthenticationResponse {
                status: AuthenticationStatus::Fail,
                message: reply.server_message.clone(),
                data: reply.data.clone(),
            },
        ),
        _ => Err(
            ClientError::ProtocolError {
                data: reply.data.clone(),
                message: reply.server_message.clone(),
            },
        ),
    }
}

/// The next step of the multi-turn ASCII login conversation.
#[derive(Debug, Clone, Copy, PartialEq, Eq, Structural)]
pub enum AsciiLoginStep {
    /// The server asks for the user name; answer with a CONTINUE.
    SendUser,
    /// The server asks for the password; answer with a CONTINUE.
    SendPassword,
    /// The server asks for more data; answer with a CONTINUE.
    SendData,
    /// The conversation is over with the given outcome.
    Finished(AuthenticationStatus),
}

/// Decides the next step of an ASCII login from the server's reply:
/// GETUSER, GETPASS and GETDATA prompt for another CONTINUE; PASS ends in
/// success; FAIL, RESTART and FOLLOW end in failure; ERROR is a protocol
/// error carrying the server's message and data.
pub fn ascii_login_step(reply: &authentication::Reply) -> (r: Result<AsciiLoginStep, ClientError>)
    ensures
        match r {
            Ok(step) => step == (match reply@.status {
                authentication::Status::GetUser => AsciiLoginStep::SendUser,
                authentication::Status::GetPassword => AsciiLoginStep::SendPassword,
                authentication::Status::GetData => AsciiLoginStep::SendData,
                authentication::Status::Pass => AsciiLoginStep::Finished(
                    AuthenticationStatus::Pass,
                ),
                _ => AsciiLoginStep::Finished(AuthenticationStatus::Fail),
            }) && reply@.status != authentication::Status::Error,
            Err(e) => reply@.status == authentication::Status::Error && (e matches
                ClientError::ProtocolError { data, message } && data@ == reply@.data && message@
                == reply@.server_message),
        },
{
    match reply.status {
        authentication::Status::GetUser => Ok(AsciiLoginStep::SendUser),
        authentication::Status::GetPassword => Ok(AsciiLoginStep::SendPassword),
        authentication::Status::GetData => Ok(AsciiLoginStep::SendData),
        authentication::Status::Pass => Ok(AsciiLoginStep::Finished(AuthenticationStatus::Pass)),
        authentication::Status::Error => Err(
            ClientError::ProtocolError {
                data: reply.data.clone(),
                message: reply.server_message.clone(),
            },
        ),
        _ => Ok(AsciiLoginStep::Finished(AuthenticationStatus::Fail)),
    }
}

/// The CHAP data field: the PPP id, the challenge, then the MD5 digest of
/// PPP id, password and challenge in that order.
pub fn chap_start_data(ppp_id: u8, challenge: &Vec<u8>, password: &Vec<u8>) -> (r: Vec<u8>)
    ensures
        r@ == seq![ppp_id] + challenge@ + md5_of(seq![ppp_id] + password@ + challenge@),
{
    let mut hash_input: Vec<u8> = Vec::new();
    hash_input.push(ppp_id);
    let mut password_copy = password.clone();
    hash_input.append(&mut password_copy);
    let mut challenge_copy = challenge.clone();
    hash_input.append(&mut challenge_copy);
    proof {
        assert(hash_input@ =~= seq![ppp_id] + password@ + challenge@);
    }
    let mut digest = md5_digest(&hash_input);
    let mut out: Vec<u8> = Vec::new();
    out.push(ppp_id);
    let mut challenge_copy2 = challenge.clone();
    out.append(&mut challenge_copy2);
    out.append(&mut digest);
    proof {
        assert(out@ =~= seq![ppp_id] + challenge@ + md5_of(seq![ppp_id] + password@ + challenge@));
    }
    out
}

/// Whether some argument of `s` has the given name.
pub open spec fn has_name(s: Seq<ArgumentView>, name: Seq<u8>) -> bool {
    exists|i: int| 0 <= i < s.len() && (#[trigger] s[i]).name == name
}

/// The first argument of `s` named `name`, searching from `i`.
pub open spec fn find_by_name(s: Seq<ArgumentView>, name: Seq<u8>, i: int) -> int
    decreases s.len() - i,
{
    if i < 0 || i >= s.len() {
        s.len() as int
    } else if s[i].name == name {
        i
    } else {
        find_by_name(s, name, i + 1)
    }
}

/// The replacement of one request argument under PassReplace: the server's
/// first argument of the same name when there is one, the request's own
/// argument otherwise.
pub open spec fn replaced_argument(a: ArgumentView, server: Seq<ArgumentView>) -> ArgumentView {
    if has_name(server, a.name) {
        server[find_by_name(server, a.name, 0)]
    } else {
        a
    }
}

/// The server arguments whose names appear nowhere in the request; under
/// PassReplace they are appended after the request's arguments.
pub open spec fn extra_server_arguments(server: Seq<ArgumentView>, request: Seq<ArgumentView>)
    -> Seq<ArgumentView>
    decreases server.len(),
{
    if server.len() == 0 {
        Seq::empty()
    } else if has_name(request, server.first().name) {
        extra_server_arguments(server.drop_first(), request)
    } else {
        seq![server.first()] + extra_server_arguments(server.drop_first(), request)
    }
}

/// The effective arguments after a passed authorization. PassAdd keeps the
/// request's arguments and appends the server's as additions. PassReplace
/// lets the server's arguments supersede same-named request arguments and
/// appends the server's remaining arguments.
pub open spec fn spec_reconcile(
    status: authorization::Status,
    request: Seq<ArgumentView>,
    server: Seq<ArgumentView>,
) -> Seq<ArgumentView> {
    if status == authorization::Status::PassAdd {
        request + server
    } else {
        Seq::new(request.len(), |i: int| replaced_argument(request[i], server))
            + extra_server_arguments(server, request)
    }
}

/// What `find_by_name` returns when a name is present.
proof fn lemma_find_by_name(s: Seq<ArgumentView>, name: Seq<u8>, i: int)
    requires
        0 <= i <= s.len(),
    ensures
        i <= find_by_name(s, name, i) <= s.len(),
        find_by_name(s, name, i) < s.len() ==> s[find_by_name(s, name, i)].name == name,
        forall|j: int| i <= j < find_by_name(s, name, i) ==> (#[trigger] s[j]).name != name,
        (exists|j: int| i <= j < s.len() && (#[trigger] s[j]).name == name) ==> find_by_name(
            s,
            name,
            i,
        ) < s.len(),
    decreases s.len() - i,
{
    if i < s.len() && s[i].name != name {
        lemma_find_by_name(s, name, i + 1);
    }
}

/// Looks for the first argument of `args` whose name equals `name`.
fn find_argument_by_name(args: &Vec<Argument>, name: &FieldText) -> (r: Option<usize>)
    ensures
        match r {
            Some(i) => {
                &&& i < args@.len()
                &&& args@.map_values(|a: Argument| a@)[i as int].name == name@
                &&& i == find_by_name(args@.map_values(|a: Argument| a@), name@, 0)
                &&& has_name(args@.map_values(|a: Argument| a@), name@)
            },
            None => !has_name(args@.map_values(|a: Argument| a@), name@),
        },
{
    let ghost views = args@.map_values(|a: Argument| a@);
    let n = args.len();
    let mut i: usize = 0;
    while i < n
        invariant
            0 <= i <= n,
            n == args@.len(),
            views == args@.map_values(|a: Argument| a@),
            forall|j: int| 0 <= j < i ==> (#[trigger] views[j]).name != name@,
        decreases n - i,
    {
        proof {
            assert(args@[i as int]@ == views[i as int]);
        }
        if args[i].name() == name {
            proof {
                lemma_find_by_name(views, name@, 0);
            }
            return Some(i);
        }
        i += 1;
    }
    None
}

/// Reconciles a passed authorization's arguments: under PassAdd the
/// request's arguments stay in effect and the server's are additions;
/// under PassReplace the server's arguments supersede same-named request
/// arguments and its remaining arguments are appended.
pub fn reconcile_arguments(
    status: authorization::Status,
    request: &Vec<Argument>,
    server: &Vec<Argument>,
) -> (r: Vec<Argument>)
    requires
        status == authorization::Status::PassAdd || status == authorization::Status::PassReplace,
    ensures
        r@.map_values(|a: Argument| a@) == spec_reconcile(
            status,
            request@.map_values(|a: Argument| a@),
            server@.map_values(|a: Argument| a@),
        ),
{
    let ghost request_views = request@.map_values(|a: Argument| a@);
    let ghost server_views = server@.map_values(|a: Argument| a@);
    let mut out: Vec<Argument> = Vec::new();
    if matches!(status, authorization::Status::PassAdd) {
        let mut i: usize = 0;
        let n = request.len();
        while i < n
            invariant
                0 <= i <= n,
                n == request@.len(),
                request_views == request@.map_values(|a: Argument| a@),
                out@.len() == i,
                forall|j: int| 0 <= j < i ==> #[trigger] out@[j]@ == request_views[j],
            decreases n - i,
        {
            proof {
                assert(request@[i as int]@ == request_views[i as int]);
            }
            out.push(request[i].clone());
            i += 1;
        }
        let mut j: usize = 0;
        let m = server.len();
        while j < m
            invariant
                0 <= j <= m,
                m == server@.len(),
                n == request@.len(),
                server_views == server@.map_values(|a: Argument| a@),
                request_views == request@.map_values(|a: Argument| a@),
                out@.len() == n + j,
                forall|k: int| 0 <= k < n ==> #[trigger] out@[k]@ == request_views[k],
                forall|k: int| 0 <= k < j ==> #[trigger] out@[n + k]@ == server_views[k],
            decreases m - j,
        {
            proof {
                assert(server@[j as int]@ == server_views[j as int]);
            }
            out.push(server[j].clone());
            j += 1;
        }
        proof {
            assert forall|k: int| 0 <= k < n + m implies out@.map_values(|a: Argument| a@)[k]
                == (request_views + server_views)[k] by {
                assert(out@.map_values(|a: Argument| a@)[k] == out@[k]@);
                if k >= n {
                    assert(out@[n + (k - n)]@ == server_views[k - n]);
                }
            }
            assert(out@.map_values(|a: Argument| a@) =~= request_views + server_views);
        }
        out
    } else {
        let n = request.len();
        let mut i: usize = 0;
        while i < n
            invariant
                0 <= i <= n,
                n == request@.len(),
                request_views == request@.map_values(|a: Argument| a@),
                server_views == server@.map_values(|a: Argument| a@),
                out@.len() == i,
                forall|j: int| 0 <= j < i ==> #[trigger] out@[j]@ == replaced_argument(
                    request_views[j],
                    server_views,
                ),
            decreases n - i,
        {
            proof {
                assert(request@[i as int]@ == request_views[i as int]);
            }
            match find_argument_by_name(server, request[i].name()) {
                Some(k) => {
                    proof {
                        assert(server@[k as int]@ == server_views[k as int]);
                    }
                    out.push(server[k].clone());
                },
                None => {
                    out.push(request[i].clone());
                },
            }
            i += 1;
        }
        let m = server.len();
        let mut j: usize = 0;
        let ghost replaced_part = Seq::new(
            request_views.len(),
            |i: int| replaced_argument(request_views[i], server_views),
        );
        proof {
            assert(out@.map_values(|a: Argument| a@) =~= replaced_part);
            assert(server_views.skip(0) =~= server_views);
        }
        while j < m
            invariant
                0 <= j <= m,
                m == server@.len(),
                server_views == server@.map_values(|a: Argument| a@),
                request_views == request@.map_values(|a: Argument| a@),
                replaced_part == Seq::new(
                    request_views.len(),
                    |i: int| replaced_argument(request_views[i], server_views),
                ),
                out@.map_values(|a: Argument| a@) + extra_server_arguments(
                    server_views.skip(j as int),
                    request_views,
                ) == replaced_part + extra_server_arguments(server_views, request_views),
            decreases m - j,
        {
            proof {
                assert(server@[j as int]@ == server_views[j as int]);
                assert(server_views.skip(j as int).first() == server_views[j as int]);
                assert(server_views.skip(j as int).drop_first() =~= server_views.skip(j + 1));
            }
            let present = find_argument_by_name(request, server[j].name());
            let ghost before = out@;
            if present.is_none() {
                out.push(server[j].clone());
                proof {
                    assert(out@.map_values(|a: Argument| a@) =~= before.map_values(
                        |a: Argument| a@,
                    ) + seq![server_views[j as int]]);
                    assert(before.map_values(|a: Argument| a@) + (seq![server_views[j as int]]
                        + extra_server_arguments(server_views.skip(j + 1), request_views))
                        =~= out@.map_values(|a: Argument| a@) + extra_server_arguments(
                        server_views.skip(j + 1),
                        request_views,
                    ));
                }
            }
            j += 1;
        }
        proof {
            assert(server_views.skip(m as int) =~= Seq::<ArgumentView>::empty());
            assert(out@.map_values(|a: Argument| a@) + Seq::<ArgumentView>::empty()
                =~= out@.map_values(|a: Argument| a@));
            assert(out@.map_values(|a: Argument| a@) =~= spec_reconcile(
                status,
                request_views,
                server_views,
            ));
        }
        out
    }
}

/// Interprets an authorization reply: PassAdd and PassReplace succeed with
/// the reconciled argument list, Fail reports failure with the server's
/// arguments dropped, and Error and Follow are protocol errors carrying
/// the server's message and data.
pub fn authorization_outcome(request: &Vec<Argument>, reply: &authorization::Reply) -> (r: Result<
    (AuthenticationStatus, Vec<Argument>),
    ClientError,
>)
    ensures
        match r {
            Ok((status, arguments)) => {
                &&& (reply@.status == authorization::Status::PassAdd || reply@.status
                    == authorization::Status::PassReplace || reply@.status
                    == authorization::Status::Fail)
                &&& (status == AuthenticationStatus::Pass <==> (reply@.status
                    == authorization::Status::PassAdd || reply@.status
                    == authorization::Status::PassReplace))
                &&& (status == AuthenticationStatus::Pass ==> arguments@.map_values(
                    |a: Argument| a@,
                ) == spec_reconcile(
                    reply@.status,
                    request@.map_values(|a: Argument| a@),
                    reply@.arguments,
                ))
                &&& (status == AuthenticationStatus::Fail ==> arguments@.len() == 0)
            },
            Err(e) => {
                &&& (reply@.status == authorization::Status::Error || reply@.status
                    == authorization::Status::Follow)
                &&& e matches ClientError::ProtocolError { data, message } && data@ == reply@.data
                    && message@ == reply@.server_message
            },
        },
{
    match reply.status {
        authorization::Status::PassAdd | authorization::Status::PassReplace => {
            let reconciled = reconcile_arguments(reply.status, request, &reply.arguments);
            proof {
                assert(reply.arguments@.map_values(|a: Argument| a@) =~= reply@.arguments);
            }
            Ok((AuthenticationStatus::Pass, reconciled))
        },
        authorization::Status::Fail => Ok((AuthenticationStatus::Fail, Vec::new())),
        authorization::Status::Error | authorization::Status::Follow => Err(
            ClientError::ProtocolError {
                data: reply.data.clone(),
                message: reply.server_message.clone(),
            },
        ),
    }
}

/// The byte spelling of the accounting argument name `task_id`.
pub open spec fn task_id_name() -> Seq<u8> {
    seq![0x74u8, 0x61, 0x73, 0x6b, 0x5f, 0x69, 0x64]
}

/// The byte spelling of the accounting argument name `start_time`.
pub open spec fn start_time_name() -> Seq<u8> {
    seq![0x73u8, 0x74, 0x61, 0x72, 0x74, 0x5f, 0x74, 0x69, 0x6d, 0x65]
}

/// The byte spelling of the accounting argument name `elapsed_time`.
pub open spec fn elapsed_time_name() -> Seq<u8> {
    seq![0x65u8, 0x6c, 0x61, 0x70, 0x73, 0x65, 0x64, 0x5f, 0x74, 0x69, 0x6d, 0x65]
}

/// The byte spelling of the accounting argument name `stop_time`.
pub open spec fn stop_time_name() -> Seq<u8> {
    seq![0x73u8, 0x74, 0x6f, 0x70, 0x5f, 0x74, 0x69, 0x6d, 0x65]
}

/// The kind of accounting record a task sends.
#[derive(Debug, Clone, Copy, PartialEq, Eq, Structural)]
pub enum TaskRecord {
    /// The record that opens a task; it carries `task_id` and
    /// `start_time`.
    Start,
    /// A watchdog update; it carries `task_id` and `elapsed_time`.
    Update,
    /// The record that closes a task; it carries `task_id` and
    /// `stop_time`.
    Stop,
}

impl TaskRecord {
    /// The accounting flags the record kind is sent under.
    pub open spec fn spec_flags(self) -> crate::accounting::Flags {
        match self {
            TaskRecord::Start => crate::accounting::Flags::StartRecord,
            TaskRecord::Update => crate::accounting::Flags::WatchdogUpdate,
            TaskRecord::Stop => crate::accounting::Flags::StopRecord,
        }
    }

    /// The name of the timing argument the record kind carries.
    pub open spec fn spec_time_name(self) -> Seq<u8> {
        match self {
            TaskRecord::Start => start_time_name(),
            TaskRecord::Update => elapsed_time_name(),
            TaskRecord::Stop => stop_time_name(),
        }
    }

    /// The accounting flags the record kind is sent under.
    pub fn flags(&self) -> (r: crate::accounting::Flags)
        ensures
            r == self.spec_flags(),
    {
        match self {
            TaskRecord::Start => crate::accounting::Flags::StartRecord,
            TaskRecord::Update => crate::accounting::Flags::WatchdogUpdate,
            TaskRecord::Stop => crate::accounting::Flags::StopRecord,
        }
    }

    /// The name of the timing argument the record kind carries, as a
    /// text field.
    fn time_name_text(&self) -> (r: FieldText)
        ensures
            r@ == self.spec_time_name(),
            r.valid(),
    {
        let mut bytes: Vec<u8> = Vec::new();
        match self {
            TaskRecord::Start => {
                bytes.push(0x73);
                bytes.push(0x74);
                bytes.push(0x61);
                bytes.push(0x72);
                bytes.push(0x74);
                bytes.push(0x5f);
                bytes.push(0x74);
                bytes.push(0x69);
                bytes.push(0x6d);
                bytes.push(0x65);
                proof {
                    assert(bytes@ =~= start_time_name());
                }
            },
            TaskRecord::Update => {
                bytes.push(0x65);
                bytes.push(0x6c);
                bytes.push(0x61);
                bytes.push(0x70);
                bytes.push(0x73);
                bytes.push(0x65);
                bytes.push(0x64);
                bytes.push(0x5f);
                bytes.push(0x74);
                bytes.push(0x69);
                bytes.push(0x6d);
                bytes.push(0x65);
                proof {
                    assert(bytes@ =~= elapsed_time_name());
                }
            },
            TaskRecord::Stop => {
                bytes.push(0x73);
                bytes.push(0x74);
                bytes.push(0x6f);
                bytes.push(0x70);
                bytes.push(0x5f);
                bytes.push(0x74);
                bytes.push(0x69);
                bytes.push(0x6d);
                bytes.push(0x65);
                proof {
                    assert(bytes@ =~= stop_time_name());
                }
            },
        }
        FieldText::try_from_bytes(bytes.as_slice()).unwrap()
    }
}

/// The `task_id` name as a text field.
fn task_id_name_text() -> (r: FieldText)
    ensures
        r@ == task_id_name(),
        r.valid(),
{
    let mut bytes: Vec<u8> = Vec::new();
    bytes.push(0x74);
    bytes.push(0x61);
    bytes.push(0x73);
    bytes.push(0x6b);
    bytes.push(0x5f);
    bytes.push(0x69);
    bytes.push(0x64);
    proof {
        assert(bytes@ =~= task_id_name());
    }
    FieldText::try_from_bytes(bytes.as_slice()).unwrap()
}

/// Builds the argument list of an accounting record: a mandatory
/// `task_id` carrying the task's id, the record kind's mandatory timing
/// argument (`start_time`, `elapsed_time` or `stop_time`) carrying the
/// given time value, then the caller's arguments, in order. Fails when a
/// value makes an argument too long.
pub fn task_record_arguments(
    record: TaskRecord,
    task_id: &FieldText,
    time_value: &FieldText,
    extra: &Vec<Argument>,
) -> (r: Result<Vec<Argument>, ClientError>)
    requires
        task_id.valid(),
        time_value.valid(),
    ensures
        match r {
            Ok(v) => {
                &&& spec_new_argument(task_id_name(), task_id@, true) is Ok
                &&& spec_new_argument(record.spec_time_name(), time_value@, true) is Ok
                &&& v@.map_values(|a: Argument| a@) == seq![
                    spec_new_argument(task_id_name(), task_id@, true).unwrap(),
                    spec_new_argument(record.spec_time_name(), time_value@, true).unwrap(),
                ] + extra@.map_values(|a: Argument| a@)
            },
            Err(e) => {
                &&& (spec_new_argument(task_id_name(), task_id@, true) is Err || spec_new_argument(
                    record.spec_time_name(),
                    time_value@,
                    true,
                ) is Err)
                &&& e matches ClientError::BadArgument(_)
            },
        },
{
    let id_argument = match Argument::new(task_id_name_text(), task_id.clone(), true) {
        Ok(a) => a,
        Err(e) => {
            return Err(ClientError::BadArgument(e));
        },
    };
    let time_argument = match Argument::new(record.time_name_text(), time_value.clone(), true) {
        Ok(a) => a,
        Err(e) => {
            return Err(ClientError::BadArgument(e));
        },
    };
    let mut out: Vec<Argument> = Vec::new();
    out.push(id_argument);
    out.push(time_argument);
    let n = extra.len();
    let mut i: usize = 0;
    while i < n
        invariant
            0 <= i <= n,
            n == extra@.len(),
            out@.len() == 2 + i,
            out@[0]@ == id_argument@,
            out@[1]@ == time_argument@,
            forall|j: int| 0 <= j < i ==> #[trigger] out@[j + 2]@ == extra@[j]@,
        decreases n - i,
    {
        out.push(extra[i].clone());
        i += 1;
    }
    proof {
        let combined = seq![id_argument@, time_argument@] + extra@.map_values(|a: Argument| a@);
        assert forall|k: int| 0 <= k < 2 + n implies out@.map_values(|a: Argument| a@)[k]
            == combined[k] by {
            assert(out@.map_values(|a: Argument| a@)[k] == out@[k]@);
            if k >= 2 {
                assert(out@[(k - 2) + 2]@ == extra@[k - 2]@);
                assert(combined[k] == extra@.map_values(|a: Argument| a@)[k - 2]);
            }
        }
        assert(out@.map_values(|a: Argument| a@) =~= combined);
    }
    Ok(out)
}

/// Interprets an accounting reply: SUCCESS concludes the record; ERROR and
/// FOLLOW are protocol errors carrying the server's message and data.
pub fn interpret_accounting_reply(reply: &crate::accounting::Reply) -> (r: Result<
    (FieldText, Vec<u8>),
    ClientError,
>)
    ensures
        match r {
            Ok((message, data)) => {
                &&& reply@.status == crate::accounting::Status::Success
                &&& message@ == reply@.server_message
                &&& data@ == reply@.data
            },
            Err(e) => {
                &&& reply@.status != crate::accounting::Status::Success
                &&& e matches ClientError::ProtocolError { data, message } && data@ == reply@.data
                    && message@ == reply@.server_message
            },
        },
{
    match reply.status {
        crate::accounting::Status::Success => Ok(
            (reply.server_message.clone(), reply.data.clone()),
        ),
        _ => Err(
            ClientError::ProtocolError {
                data: reply.data.clone(),
                message: reply.server_message.clone(),
            },
        ),
    }
}

/// Relies on `rand::random`: a 32-bit session id drawn from the process's
/// entropy source; nothing is promised of its value.
#[verifier::external_body]
pub fn generate_session_id() -> u32 {
    rand::random::<u32>()
}

/// Relies on `uuid::Uuid::new_v4` and its display form: a fresh random
/// task id; nothing is promised of its value, and callers validate it
/// before use.
#[verifier::external_body]
pub fn fresh_task_id() -> String {
    uuid::Uuid::new_v4().to_string()
}

} // verus!

//! Authorization packet bodies: REQUEST and REPLY, with their argument
//! lists.

use vstd::prelude::*;
use crate::arguments::{
    Argument, Arguments, ArgumentView, args_lengths, args_lengths_encoding, args_values_encoding,
    decode_args, decode_argument, lemma_args_roundtrip, lemma_decode_args_valid, lemma_lengths_sum_append,
    lemma_lengths_sum_bounds, lemma_lengths_sum_of_args, lemma_lengths_sum_singleton, lengths_sum,
};
use crate::errors::DeserializeError;
use crate::fields::{AuthenticationContext, AuthenticationMethod, UserInformation};
use crate::header::{MinorVersion, PacketType, be16, be16_value, u16_from_be_bytes};
use crate::packet::{DeserializableBody, PacketBody};
use crate::text::{FieldText, text_bytes_ok};

verus! {

/// The status a server reports in an authorization reply.
#[derive(Debug, Clone, Copy, PartialEq, Eq, Structural)]
pub enum Status {
    /// Authorization passed; the server's arguments are additions.
    PassAdd,
    /// Authorization passed; the server's arguments supersede the
    /// request's.
    PassReplace,
    /// Authorization was denied.
    Fail,
    /// A server-side error while authorizing.
    Error,
    /// Forward to an alternative daemon; RFC 8907 deprecates it.
    Follow,
}

impl Status {
    /// The status's byte value on the wire.
    pub open spec fn spec_byte(self) -> u8 {
        match self {
            Status::PassAdd => 0x01,
            Status::PassReplace => 0x02,
            Status::Fail => 0x10,
            Status::Error => 0x11,
            Status::Follow => 0x21,
        }
    }

    /// The status a byte on the wire denotes, if any.
    pub open spec fn spec_from_byte(b: u8) -> Option<Status> {
        if b == 0x01 {
            Some(Status::PassAdd)
        } else if b == 0x02 {
            Some(Status::PassReplace)
        } else if b == 0x10 {
            Some(Status::Fail)
        } else if b == 0x11 {
            Some(Status::Error)
        } else if b == 0x21 {
            Some(Status::Follow)
        } else {
            None
        }
    }

    /// The status's byte value on the wire.
    pub fn wire_byte(&self) -> (b: u8)
        ensures
            b == self.spec_byte(),
    {
        match self {
            Status::PassAdd => 0x01,
            Status::PassReplace => 0x02,
            Status::Fail => 0x10,
            Status::Error => 0x11,
            Status::Follow => 0x21,
        }
    }

    /// Parses a status byte; fails on any undefined value.
    pub fn from_wire_byte(b: u8) -> (r: Result<Status, DeserializeError>)
        ensures
            Self::spec_from_byte(b) is Some ==> r == Ok::<Status, DeserializeError>(
                Self::spec_from_byte(b).unwrap(),
            ),
            Self::spec_from_byte(b) is None ==> r == Err::<Status, DeserializeError>(
                DeserializeError::InvalidStatus(b),
            ),
    {
        if b == 0x01 {
            Ok(Status::PassAdd)
        } else if b == 0x02 {
            Ok(Status::PassReplace)
        } else if b == 0x10 {
            Ok(Status::Fail)
        } else if b == 0x11 {
            Ok(Status::Error)
        } else if b == 0x21 {
            Ok(Status::Follow)
        } else {
            Err(DeserializeError::InvalidStatus(b))
        }
    }
}

/// The mathematical content of an authorization REQUEST body.
pub ghost struct RequestView {
    /// How the user authenticated.
    pub method: AuthenticationMethod,
    /// Privilege level, authentication type and service.
    pub authentication_context: AuthenticationContext,
    /// The user name's bytes.
    pub user: Seq<u8>,
    /// The port's bytes.
    pub port: Seq<u8>,
    /// The remote address's bytes.
    pub remote_address: Seq<u8>,
    /// The request's arguments.
    pub arguments: Seq<ArgumentView>,
}

impl RequestView {
    /// The invariant of every REQUEST the library builds.
    pub open spec fn valid(self) -> bool {
        &&& self.user.len() <= 255
        &&& self.port.len() <= 255
        &&& self.remote_address.len() <= 255
        &&& text_bytes_ok(self.port)
        &&& text_bytes_ok(self.remote_address)
        &&& self.arguments.len() <= 255
        &&& forall|i: int| 0 <= i < self.arguments.len() ==> (#[trigger] self.arguments[i]).valid()
    }

    /// The wire form: method, the three context bytes, three user
    /// information lengths, the argument count and length table, the user
    /// information fields, then the encoded arguments.
    pub open spec fn encoding(self) -> Seq<u8> {
        seq![self.method.spec_byte()] + self.authentication_context.encoding() + seq![
            self.user.len() as u8,
            self.port.len() as u8,
            self.remote_address.len() as u8,
        ] + args_lengths_encoding(self.arguments) + self.user + self.port + self.remote_address
            + args_values_encoding(self.arguments)
    }
}

/// An authorization REQUEST body.
pub struct Request {
    /// How the user authenticated.
    pub method: AuthenticationMethod,
    /// Privilege level, authentication type and service.
    pub authentication_context: AuthenticationContext,
    /// The user the request concerns.
    pub user_information: UserInformation,
    /// The request's arguments.
    pub arguments: Arguments,
}

impl View for Request {
    type V = RequestView;

    open spec fn view(&self) -> RequestView {
        RequestView {
            method: self.method,
            authentication_context: self.authentication_context,
            user: self.user_information.spec_user(),
            port: self.user_information.spec_port(),
            remote_address: self.user_information.spec_remote_address(),
            arguments: self.arguments@,
        }
    }
}

impl Request {
    /// Assembles an authorization request body from its fields.
    pub fn new(
        method: AuthenticationMethod,
        authentication_context: AuthenticationContext,
        user_information: UserInformation,
        arguments: Arguments,
    ) -> (r: Request)
        ensures
            r@ == (RequestView {
                method,
                authentication_context,
                user: user_information.spec_user(),
                port: user_information.spec_port(),
                remote_address: user_information.spec_remote_address(),
                arguments: arguments@,
            }),
    {
        Request { method, authentication_context, user_information, arguments }
    }
}

impl PacketBody for Request {
    open spec fn spec_packet_type() -> PacketType {
        PacketType::Authorization
    }

    open spec fn view_valid(v: RequestView) -> bool {
        v.valid()
    }

    open spec fn view_encoding(v: RequestView) -> Seq<u8> {
        v.encoding()
    }

    open spec fn view_required_minor(v: RequestView) -> Option<MinorVersion> {
        None
    }

    proof fn lemma_encoding_len(v: RequestView) {
        lemma_lengths_sum_of_args(v.arguments);
        lemma_lengths_sum_bounds(args_lengths(v.arguments));
    }

    fn packet_type() -> PacketType {
        PacketType::Authorization
    }

    fn required_minor_version(&self) -> Option<MinorVersion> {
        None
    }

    fn wire_size(&self) -> usize {
        proof {
            assert(self@.arguments == self.arguments@);
            crate::arguments::lemma_args_values_encoding_len(self.arguments@);
        }
        4 + self.user_information.wire_size() + self.arguments.wire_size()
    }

    fn append_encoding(&self, out: &mut Vec<u8>) {
        out.push(self.method.wire_byte());
        self.authentication_context.serialize_header_information(out);
        self.user_information.serialize_header_information(out);
        self.arguments.append_lengths(out);
        self.user_information.serialize_body_information(out);
        self.arguments.append_values(out);
        proof {
            assert(final(out)@ =~= old(out)@ + Self::view_encoding(self@));
        }
    }
}

/// The mathematical content of an authorization REPLY body.
pub ghost struct ReplyView {
    /// The reported status.
    pub status: Status,
    /// The message meant for the user; printable ASCII.
    pub server_message: Seq<u8>,
    /// Administrative data for the client.
    pub data: Seq<u8>,
    /// The server's arguments.
    pub arguments: Seq<ArgumentView>,
}

impl ReplyView {
    /// The server message is printable ASCII, the variable fields fit
    /// their length fields, and the arguments are valid.
    pub open spec fn valid(self) -> bool {
        &&& text_bytes_ok(self.server_message)
        &&& self.server_message.len() <= 0xffff
        &&& self.data.len() <= 0xffff
        &&& self.arguments.len() <= 255
        &&& forall|i: int| 0 <= i < self.arguments.len() ==> (#[trigger] self.arguments[i]).valid()
    }

    /// The wire form: status, argument count, two two-byte lengths, the
    /// argument length table, the server message, the data, then the
    /// encoded arguments.
    pub open spec fn encoding(self) -> Seq<u8> {
        seq![self.status.spec_byte(), self.arguments.len() as u8] + be16(
            self.server_message.len() as u16,
        ) + be16(self.data.len() as u16) + args_lengths(self.arguments) + self.server_message
            + self.data + args_values_encoding(self.arguments)
    }
}

/// The meaning of an authorization REPLY wire image: the fixed fields, the
/// argument length table and the lengths they claim must all lie within
/// the buffer, the status byte must be defined, the server message must be
/// printable ASCII, and every argument must decode. Trailing bytes beyond
/// the claimed total are ignored.
pub open spec fn decode_reply(s: Seq<u8>) -> Result<ReplyView, DeserializeError> {
    if s.len() < 6 {
        Err(DeserializeError::UnexpectedEnd)
    } else {
        let argcnt = s[1] as int;
        if s.len() < 6 + argcnt {
            Err(DeserializeError::UnexpectedEnd)
        } else {
            let sml = be16_value(s.subrange(2, 4));
            let dl = be16_value(s.subrange(4, 6));
            let lens = s.subrange(6, 6 + argcnt);
            let total = 6 + argcnt + sml + dl + lengths_sum(lens);
            if s.len() < total {
                Err(DeserializeError::UnexpectedEnd)
            } else {
                match Status::spec_from_byte(s[0]) {
                    None => Err(DeserializeError::InvalidStatus(s[0])),
                    Some(status) => {
                        let sm = s.subrange(6 + argcnt, 6 + argcnt + sml);
                        if !text_bytes_ok(sm) {
                            Err(DeserializeError::BadText)
                        } else {
                            let values = s.subrange(6 + argcnt + sml + dl, total);
                            match decode_args(lens, values) {
                                Err(e) => Err(DeserializeError::InvalidArgument(e)),
                                Ok(arguments) => Ok(
                                    ReplyView {
                                        status,
                                        server_message: sm,
                                        data: s.subrange(6 + argcnt + sml, 6 + argcnt + sml + dl),
                                        arguments,
                                    },
                                ),
                            }
                        }
                    },
                }
            }
        }
    }
}

/// An authorization REPLY body received from a server.
#[derive(Debug, PartialEq, Eq)]
pub struct Reply {
    /// The reported status.
    pub status: Status,
    /// The message meant for the user.
    pub server_message: FieldText,
    /// Administrative data for the client.
    pub data: Vec<u8>,
    /// The server's arguments, in wire order.
    pub arguments: Vec<Argument>,
}

impl View for Reply {
    type V = ReplyView;

    open spec fn view(&self) -> ReplyView {
        ReplyView {
            status: self.status,
            server_message: self.server_message@,
            data: self.data@,
            arguments: self.arguments@.map_values(|a: Argument| a@),
        }
    }
}

/// An iterator over the arguments of an authorization reply, yielding them
/// in wire order.
pub struct ArgumentsIterator<'a> {
    reply: &'a Reply,
    index: usize,
}

impl<'a> ArgumentsIterator<'a> {
    /// The position of the next argument to yield.
    pub closed spec fn next_index(&self) -> usize {
        self.index
    }

    /// The reply iterated over.
    pub closed spec fn spec_reply(&self) -> &'a Reply {
        self.reply
    }

    /// The number of arguments not yet yielded.
    pub fn len(&self) -> (n: usize)
        ensures
            n == if self.next_index() <= self.spec_reply()@.arguments.len() {
                self.spec_reply()@.arguments.len() - self.next_index()
            } else {
                0
            },
    {
        let count = self.reply.arguments.len();
        if self.index > count {
            0
        } else {
            count - self.index
        }
    }

    /// The next argument in wire order, or `None` when all have been
    /// yielded.
    pub fn next(&mut self) -> (r: Option<Argument>)
        ensures
            old(self).next_index() < old(self).spec_reply()@.arguments.len() ==> {
                &&& r is Some
                &&& r.unwrap()@ == old(self).spec_reply()@.arguments[old(self).next_index() as int]
                &&& final(self).next_index() == old(self).next_index() + 1
                &&& final(self).spec_reply() == old(self).spec_reply()
            },
            old(self).next_index() >= old(self).spec_reply()@.arguments.len() ==> r is None
                && final(self).next_index() == old(self).next_index() && final(self).spec_reply()
                == old(self).spec_reply(),
    {
        if self.index < self.reply.arguments.len() {
            let argument = self.reply.arguments[self.index].clone();
            self.index += 1;
            Some(argument)
        } else {
            None
        }
    }
}

impl Reply {
    /// The body length a buffer's fixed fields and length table claim, or
    /// an error when the buffer cannot even hold them.
    pub fn claimed_length(buffer: &[u8]) -> (r: Result<usize, DeserializeError>)
        ensures
            buffer@.len() >= 6 && buffer@.len() >= 6 + buffer@[1] ==> r == Ok::<
                usize,
                DeserializeError,
            >(
                (6 + buffer@[1] + be16_value(buffer@.subrange(2, 4)) + be16_value(
                    buffer@.subrange(4, 6),
                ) + lengths_sum(buffer@.subrange(6, 6 + buffer@[1]))) as usize,
            ),
            buffer@.len() < 6 || buffer@.len() < 6 + buffer@[1] ==> r == Err::<
                usize,
                DeserializeError,
            >(DeserializeError::UnexpectedEnd),
    {
        if buffer.len() < 6 {
            return Err(DeserializeError::UnexpectedEnd);
        }
        let argcnt = buffer[1] as usize;
        if buffer.len() < 6 + argcnt {
            return Err(DeserializeError::UnexpectedEnd);
        }
        let sml = u16_from_be_bytes(buffer[2], buffer[3]) as usize;
        let dl = u16_from_be_bytes(buffer[4], buffer[5]) as usize;
        proof {
            assert(buffer@.subrange(2, 4) =~= seq![buffer@[2], buffer@[3]]);
            assert(buffer@.subrange(4, 6) =~= seq![buffer@[4], buffer@[5]]);
        }
        let ghost lens_seq = buffer@.subrange(6, 6 + argcnt as int);
        let mut lens_total: usize = 0;
        let mut i: usize = 0;
        while i < argcnt
            invariant
                0 <= i <= argcnt,
                argcnt == buffer@[1],
                buffer@.len() >= 6 + argcnt,
                lens_seq == buffer@.subrange(6, 6 + argcnt as int),
                lens_total == lengths_sum(lens_seq.take(i as int)),
                lens_total <= 255 * i,
            decreases argcnt - i,
        {
            proof {
                assert(lens_seq.take(i + 1) =~= lens_seq.take(i as int) + seq![lens_seq[i as int]]);
                lemma_lengths_sum_append(lens_seq.take(i as int), seq![lens_seq[i as int]]);
                lemma_lengths_sum_singleton(lens_seq[i as int]);
                assert(lens_seq[i as int] == buffer@[6 + i]);
            }
            lens_total += buffer[6 + i] as usize;
            i += 1;
        }
        proof {
            assert(lens_seq.take(argcnt as int) =~= lens_seq);
        }
        Ok(6 + argcnt + sml + dl + lens_total)
    }

    /// Returns an iterator over the reply's arguments.
    pub fn iter_arguments(&self) -> (r: ArgumentsIterator<'_>)
        ensures
            r.next_index() == 0,
            r.spec_reply()@ == self@,
    {
        ArgumentsIterator { reply: self, index: 0 }
    }
}

impl PacketBody for Reply {
    open spec fn spec_packet_type() -> PacketType {
        PacketType::Authorization
    }

    open spec fn view_valid(v: ReplyView) -> bool {
        v.valid()
    }

    open spec fn view_encoding(v: ReplyView) -> Seq<u8> {
        v.encoding()
    }

    open spec fn view_required_minor(v: ReplyView) -> Option<MinorVersion> {
        None
    }

    proof fn lemma_encoding_len(v: ReplyView) {
        lemma_lengths_sum_of_args(v.arguments);
        lemma_lengths_sum_bounds(args_lengths(v.arguments));
    }

    fn packet_type() -> PacketType {
        PacketType::Authorization
    }

    fn required_minor_version(&self) -> Option<MinorVersion> {
        None
    }

    fn wire_size(&self) -> usize {
        proof {
            lemma_lengths_sum_of_args(self@.arguments);
            lemma_lengths_sum_bounds(args_lengths(self@.arguments));
        }
        let mut values_total: usize = 0;
        let count = self.arguments.len();
        let mut i: usize = 0;
        while i < count
            invariant
                0 <= i <= count,
                count == self@.arguments.len(),
                Self::view_valid(self@),
                self@.arguments == self.arguments@.map_values(|a: Argument| a@),
                values_total == args_values_encoding(self@.arguments.take(i as int)).len(),
                values_total <= 255 * i,
            decreases count - i,
        {
            proof {
                assert(self.arguments@[i as int]@ == self@.arguments[i as int]);
                assert(self@.arguments[i as int].valid());
                assert(self@.arguments.take(i + 1) =~= self@.arguments.take(i as int) + seq![
                    self@.arguments[i as int],
                ]);
                crate::arguments::lemma_args_values_encoding_append(
                    self@.arguments.take(i as int),
                    seq![self@.arguments[i as int]],
                );
                crate::arguments::lemma_args_values_encoding_singleton(
                    self@.arguments[i as int],
                );
            }
            values_total += self.arguments[i].encoded_length() as usize;
            i += 1;
        }
        proof {
            assert(self@.arguments.take(count as int) =~= self@.arguments);
        }
        6 + count + self.server_message.len() + self.data.len() + values_total
    }

    fn append_encoding(&self, out: &mut Vec<u8>) {
        out.push(self.status.wire_byte());
        out.push(self.arguments.len() as u8);
        let mut sml_bytes = crate::header::u16_to_be_bytes(self.server_message.len() as u16);
        out.append(&mut sml_bytes);
        let mut dl_bytes = crate::header::u16_to_be_bytes(self.data.len() as u16);
        out.append(&mut dl_bytes);
        let count = self.arguments.len();
        let mut i: usize = 0;
        let ghost mid = out@;
        while i < count
            invariant
                0 <= i <= count,
                count == self@.arguments.len(),
                Self::view_valid(self@),
                self@.arguments == self.arguments@.map_values(|a: Argument| a@),
                out@ == mid + args_lengths(self@.arguments).take(i as int),
            decreases count - i,
        {
            proof {
                assert(self.arguments@[i as int]@ == self@.arguments[i as int]);
                assert(self@.arguments[i as int].valid());
            }
            out.push(self.arguments[i].encoded_length());
            proof {
                assert(out@ =~= mid + args_lengths(self@.arguments).take(i + 1));
            }
            i += 1;
        }
        proof {
            assert(args_lengths(self@.arguments).take(count as int) =~= args_lengths(
                self@.arguments,
            ));
        }
        let mut sm = vstd::slice::slice_to_vec(self.server_message.as_bytes());
        out.append(&mut sm);
        let mut data_copy = self.data.clone();
        out.append(&mut data_copy);
        let mut j: usize = 0;
        let ghost before_values = out@;
        while j < count
            invariant
                0 <= j <= count,
                count == self@.arguments.len(),
                Self::view_valid(self@),
                self@.arguments == self.arguments@.map_values(|a: Argument| a@),
                out@ == before_values + args_values_encoding(self@.arguments.take(j as int)),
            decreases count - j,
        {
            proof {
                assert(self.arguments@[j as int]@ == self@.arguments[j as int]);
                assert(self@.arguments[j as int].valid());
                assert(self@.arguments.take(j + 1) =~= self@.arguments.take(j as int) + seq![
                    self@.arguments[j as int],
                ]);
                crate::arguments::lemma_args_values_encoding_append(
                    self@.arguments.take(j as int),
                    seq![self@.arguments[j as int]],
                );
                crate::arguments::lemma_args_values_encoding_singleton(
                    self@.arguments[j as int],
                );
            }
            self.arguments[j].serialize(out);
            j += 1;
        }
        proof {
            assert(self@.arguments.take(count as int) =~= self@.arguments);
            assert(final(out)@ =~= old(out)@ + Self::view_encoding(self@));
        }
    }
}

impl DeserializableBody for Reply {
    open spec fn decode(bytes: Seq<u8>) -> Result<ReplyView, DeserializeError> {
        decode_reply(bytes)
    }

    proof fn lemma_decode_valid(bytes: Seq<u8>) {
        let argcnt = bytes[1] as int;
        let lens = bytes.subrange(6, 6 + argcnt);
        let sml = be16_value(bytes.subrange(2, 4));
        let dl = be16_value(bytes.subrange(4, 6));
        let total = 6 + argcnt + sml + dl + lengths_sum(lens);
        let values = bytes.subrange(6 + argcnt + sml + dl, total);
        lemma_decode_args_valid(lens, values);
        crate::arguments::lemma_decode_args_len(lens, values);
        lemma_lengths_sum_bounds(lens);
    }

    proof fn lemma_body_roundtrip(v: ReplyView) {
        let s = v.encoding();
        let argcnt = v.arguments.len() as int;
        crate::header::lemma_be16_roundtrip(v.server_message.len() as u16);
        crate::header::lemma_be16_roundtrip(v.data.len() as u16);
        assert(s[1] == argcnt as u8);
        assert(s.subrange(2, 4) =~= be16(v.server_message.len() as u16));
        assert(s.subrange(4, 6) =~= be16(v.data.len() as u16));
        let sml = be16_value(s.subrange(2, 4));
        let dl = be16_value(s.subrange(4, 6));
        assert(sml == v.server_message.len());
        assert(dl == v.data.len());
        assert(s.subrange(6, 6 + argcnt) =~= args_lengths(v.arguments));
        let lens = s.subrange(6, 6 + argcnt);
        lemma_lengths_sum_of_args(v.arguments);
        let total = 6 + argcnt + sml + dl + lengths_sum(lens);
        assert(total == s.len());
        assert(s.subrange(6 + argcnt, 6 + argcnt + sml) =~= v.server_message);
        assert(s.subrange(6 + argcnt + sml, 6 + argcnt + sml + dl) =~= v.data);
        assert(s.subrange(6 + argcnt + sml + dl, total) =~= args_values_encoding(v.arguments));
        lemma_args_roundtrip(v.arguments);
    }

    #[verifier::loop_isolation(false)]
    #[verifier::rlimit(100)]
    fn deserialize_from_buffer(buffer: &[u8]) -> Result<Self, DeserializeError> {
        let total = Self::claimed_length(buffer)?;
        let argcnt = buffer[1] as usize;
        proof {
            assert(buffer@.subrange(2, 4) =~= seq![buffer@[2], buffer@[3]]);
            assert(buffer@.subrange(4, 6) =~= seq![buffer@[4], buffer@[5]]);
            crate::arguments::lemma_lengths_sum_bounds(
                buffer@.subrange(6, 6 + argcnt as int),
            );
        }
        if buffer.len() < total {
            return Err(DeserializeError::UnexpectedEnd);
        }
        let status = Status::from_wire_byte(buffer[0])?;
        let sml = u16_from_be_bytes(buffer[2], buffer[3]) as usize;
        let dl = u16_from_be_bytes(buffer[4], buffer[5]) as usize;
        let sm_start = 6 + argcnt;
        let sm_bytes = vstd::slice::slice_subrange(buffer, sm_start, sm_start + sml);
        let server_message = match FieldText::try_from_bytes(sm_bytes) {
            Some(t) => t,
            None => {
                return Err(DeserializeError::BadText);
            },
        };
        let data_bytes = vstd::slice::slice_subrange(buffer, sm_start + sml, sm_start + sml + dl);
        let data = vstd::slice::slice_to_vec(data_bytes);
        let values_start = sm_start + sml + dl;
        let ghost lens_seq = buffer@.subrange(6, 6 + argcnt as int);
        let ghost values_seq = buffer@.subrange(values_start as int, total as int);
        proof {
            assert(values_seq.len() == lengths_sum(lens_seq));
        }
        let mut parsed: Vec<Argument> = Vec::new();
        let mut i: usize = 0;
        let mut off: usize = 0;
        proof {
            assert(lens_seq.skip(0) =~= lens_seq);
            assert(values_seq.skip(0) =~= values_seq);
            assert(lens_seq.take(0) =~= Seq::<u8>::empty());
            assert(parsed@.map_values(|a: Argument| a@) =~= Seq::<ArgumentView>::empty());
            if decode_args(lens_seq, values_seq) is Ok {
                assert(parsed@.map_values(|a: Argument| a@) + decode_args(
                    lens_seq,
                    values_seq,
                ).unwrap() =~= decode_args(lens_seq, values_seq).unwrap());
            }
        }
        while i < argcnt
            invariant
                0 <= i <= argcnt,
                parsed@.len() == i,
                lens_seq == buffer@.subrange(6, 6 + argcnt as int),
                values_seq == buffer@.subrange(values_start as int, total as int),
                lens_seq.len() == argcnt,
                values_seq.len() == lengths_sum(lens_seq),
                buffer@.len() >= total,
                argcnt <= 255,
                buffer@.len() >= 6 + argcnt,
                values_start == 6 + argcnt + sml + dl,
                values_start + values_seq.len() == total,
                total == values_start + lengths_sum(lens_seq),
                off == lengths_sum(lens_seq.take(i as int)),
                off <= values_seq.len(),
                decode_args(lens_seq.skip(i as int), values_seq.skip(off as int)) is Ok
                    ==> decode_args(lens_seq, values_seq) == Ok::<
                    Seq<ArgumentView>,
                    crate::errors::InvalidArgument,
                >(
                    parsed@.map_values(|a: Argument| a@) + decode_args(
                        lens_seq.skip(i as int),
                        values_seq.skip(off as int),
                    ).unwrap(),
                ),
                decode_args(lens_seq.skip(i as int), values_seq.skip(off as int)) is Err
                    ==> decode_args(lens_seq, values_seq) == decode_args(
                    lens_seq.skip(i as int),
                    values_seq.skip(off as int),
                ),
            decreases argcnt - i,
        {
            proof {
                assert(lens_seq.skip(i as int).len() > 0);
                assert(lens_seq.skip(i as int)[0] == lens_seq[i as int]);
                assert(lens_seq.take(i + 1) =~= lens_seq.take(i as int) + seq![
                    lens_seq[i as int],
                ]);
                lemma_lengths_sum_append(lens_seq.take(i as int), seq![lens_seq[i as int]]);
                lemma_lengths_sum_singleton(lens_seq[i as int]);
                assert(lens_seq =~= lens_seq.take(i as int) + lens_seq.skip(i as int));
                lemma_lengths_sum_append(lens_seq.take(i as int), lens_seq.skip(i as int));
                assert(lens_seq.skip(i as int) =~= seq![lens_seq[i as int]] + lens_seq.skip(
                    i + 1,
                ));
                lemma_lengths_sum_append(seq![lens_seq[i as int]], lens_seq.skip(i + 1));
                lemma_lengths_sum_bounds(lens_seq.skip(i + 1));
            }
            let l = buffer[6 + i] as usize;
            proof {
                assert(lens_seq[i as int] == buffer@[6 + i]);
                assert(off + l <= values_seq.len());
            }
            let raw = vstd::slice::slice_subrange(
                buffer,
                values_start + off,
                values_start + off + l,
            );
            proof {
                assert(raw@ =~= values_seq.skip(off as int).take(l as int));
            }
            let argument = match Argument::deserialize(raw) {
                Ok(a) => a,
                Err(e) => {
                    proof {
                        assert(decode_args(lens_seq.skip(i as int), values_seq.skip(off as int))
                            == Err::<Seq<ArgumentView>, crate::errors::InvalidArgument>(e));
                        assert(decode_args(lens_seq, values_seq) == Err::<
                            Seq<ArgumentView>,
                            crate::errors::InvalidArgument,
                        >(e));
                        let s = buffer@;
                        assert(s.len() >= 6);
                        assert(s[1] == argcnt);
                        assert(s.len() >= 6 + argcnt);
                        assert(be16_value(s.subrange(2, 4)) == sml);
                        assert(be16_value(s.subrange(4, 6)) == dl);
                        assert(s.subrange(6, 6 + argcnt as int) == lens_seq);
                        assert(total == 6 + argcnt + sml + dl + lengths_sum(lens_seq));
                        assert(s.len() >= total);
                        assert(Status::spec_from_byte(s[0]) == Some(status));
                        assert(text_bytes_ok(s.subrange(6 + argcnt, 6 + argcnt + sml)));
                        assert(s.subrange(6 + argcnt + sml + dl, total as int) == values_seq);
                        assert(decode_reply(s) == Err::<ReplyView, DeserializeError>(
                            DeserializeError::InvalidArgument(e),
                        ));
                    }
                    return Err(DeserializeError::InvalidArgument(e));
                },
            };
            let ghost old_parsed = parsed@;
            let ghost old_i = i as int;
            let ghost old_off = off as int;
            parsed.push(argument);
            off += l;
            i += 1;
            proof {
                assert(parsed@.map_values(|a: Argument| a@) =~= old_parsed.map_values(
                    |a: Argument| a@,
                ) + seq![argument@]);
                let prev_lens = lens_seq.skip(old_i);
                let prev_vals = values_seq.skip(old_off);
                let lens_rest = lens_seq.skip(old_i + 1);
                let vals_rest = values_seq.skip(old_off + l);
                assert(prev_lens.drop_first() =~= lens_rest);
                assert(prev_vals.skip(l as int) =~= vals_rest);
                assert(prev_vals.take(l as int) =~= raw@);
                assert(decode_argument(prev_vals.take(l as int)) == Ok::<
                    ArgumentView,
                    crate::errors::InvalidArgument,
                >(argument@));
                if decode_args(lens_rest, vals_rest) is Ok {
                    let rest = decode_args(lens_rest, vals_rest).unwrap();
                    assert(decode_args(prev_lens, prev_vals) == Ok::<
                        Seq<ArgumentView>,
                        crate::errors::InvalidArgument,
                    >(seq![argument@] + rest));
                    assert(old_parsed.map_values(|a: Argument| a@) + (seq![argument@] + rest)
                        =~= parsed@.map_values(|a: Argument| a@) + rest);
                } else {
                    assert(decode_args(prev_lens, prev_vals) == decode_args(
                        lens_rest,
                        vals_rest,
                    ));
                }
                assert(lens_seq.take(old_i + 1) =~= lens_seq.take(old_i) + seq![
                    lens_seq[old_i],
                ]);
            }
        }
        proof {
            assert(lens_seq.skip(argcnt as int) =~= Seq::<u8>::empty());
            assert(decode_args(
                lens_seq.skip(argcnt as int),
                values_seq.skip(off as int),
            ) == Ok::<Seq<ArgumentView>, crate::errors::InvalidArgument>(Seq::empty()));
            assert(parsed@.map_values(|a: Argument| a@) + Seq::<ArgumentView>::empty()
                =~= parsed@.map_values(|a: Argument| a@));
        }
        Ok(Reply { status, server_message, data, arguments: parsed })
    }
}

} // verus!

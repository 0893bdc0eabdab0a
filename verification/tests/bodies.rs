use tacacs_plus::accounting;
use tacacs_plus::arguments::{Argument, Arguments};
use tacacs_plus::authorization;
use tacacs_plus::errors::{DeserializeError, InvalidArgument};
use tacacs_plus::fields::{
    AuthenticationContext, AuthenticationMethod, AuthenticationService, AuthenticationType,
    PrivilegeLevel, UserInformation,
};
use tacacs_plus::header::{HeaderInfo, PacketFlags, Version};
use tacacs_plus::packet::{DeserializableBody, Packet, PacketBody};
use tacacs_plus::FieldText;

fn assert_ascii(s: &str) -> FieldText {
    FieldText::try_from_str(s).expect("string should be printable ASCII")
}

#[test]
fn serialize_request_body_with_argument() {
    let argument_array = [Argument::new(
        assert_ascii("service"),
        assert_ascii("tacacs-test"),
        true,
    )
    .expect("argument should be valid")];

    let arguments = Arguments::new(&argument_array).expect("argument array should be valid");

    let request = accounting::Request {
        flags: accounting::Flags::StartRecord,
        authentication_method: AuthenticationMethod::Guest,
        authentication: AuthenticationContext {
            privilege_level: PrivilegeLevel::new(0).unwrap(),
            authentication_type: AuthenticationType::Ascii,
            service: AuthenticationService::Login,
        },
        user_information: UserInformation::new(
            "guest",
            assert_ascii("tty0"),
            assert_ascii("127.10.0.100"),
        )
        .unwrap(),
        arguments,
    };

    let mut buffer = vec![0u8; 50];
    request
        .serialize_into_buffer(&mut buffer)
        .expect("buffer should have been large enough");

    let mut expected: Vec<u8> = Vec::new();
    expected.extend_from_slice(&[
        0x02, // just start flag set
        0x08, // Guest authentication method
        0,    // privilege level 0 (minimum)
        0x01, // ASCII authentication type
        0x01, // authentication service: login
        5,    // user length
        4,    // port length
        12,   // remote address length
        1,    // argument count
        19,   // argument 1 length
    ]);

    expected.extend_from_slice(b"guest"); // user
    expected.extend_from_slice(b"tty0"); // port
    expected.extend_from_slice(b"127.10.0.100"); // remote address
    expected.extend_from_slice(b"service=tacacs-test"); // argument

    assert_eq!(buffer, expected.as_slice());
}

#[test]
fn serialize_full_request_packet() {
    let arguments_array = [
        Argument::new(assert_ascii("task_id"), assert_ascii("1234"), true).unwrap(),
        Argument::new(assert_ascii("service"), assert_ascii("fullpacket"), true).unwrap(),
    ];

    let arguments = Arguments::new(&arguments_array)
        .expect("Arguments construction shouldn't fail; length is short enough");

    let body = accounting::Request {
        flags: accounting::Flags::WatchdogNoUpdate,
        authentication_method: AuthenticationMethod::NotSet,
        authentication: AuthenticationContext {
            privilege_level: PrivilegeLevel::new(10).unwrap(),
            authentication_type: AuthenticationType::NotSet,
            service: AuthenticationService::Pt,
        },
        user_information: UserInformation::new(
            "secret",
            assert_ascii("tty6"),
            assert_ascii("10.10.10.10"),
        )
        .unwrap(),
        arguments,
    };

    let session_id: u32 = 298734923;
    let header = HeaderInfo::new(Version::default(), 1, PacketFlags::empty(), session_id);

    let packet = Packet::new(header, body).unwrap();

    let mut buffer = vec![0xffu8; 100];
    let packet_size = packet
        .serialize_unobfuscated(&mut buffer)
        .expect("packet serialization failed");

    let mut expected: Vec<u8> = Vec::new();

    // HEADER
    expected.extend_from_slice(&[
        0xc << 4, // version
        0x3,      // accounting packet
        1,        // sequence number
        1,        // unencrypted flag set (updated in serialize_unobfuscated)
    ]);
    expected.extend_from_slice(session_id.to_be_bytes().as_slice());
    expected.extend_from_slice(62_u32.to_be_bytes().as_slice()); // body length

    // BODY
    expected.extend_from_slice(&[
        0x08, // watchdog flag set (no update)
        0x00, // authentication method: not set
        10,   // privilege level
        0x00, // authentication type: not set
        0x05, // authentication service: PT
        6,    // user length
        4,    // port length
        11,   // remote address length
        2,    // argument count
        12,   // argument 1 length
        18,   // argument 2 length
    ]);

    // user information
    expected.extend_from_slice(b"secret");
    expected.extend_from_slice(b"tty6"); // port
    expected.extend_from_slice(b"10.10.10.10"); // remote address

    // arguments
    expected.extend_from_slice(b"task_id=1234");
    expected.extend_from_slice(b"service=fullpacket");

    assert_eq!(&buffer[..packet_size], expected.as_slice());
}

#[test]
fn deserialize_reply_all_fields() {
    let mut body_raw: Vec<u8> = Vec::new();

    body_raw.extend_from_slice(&[
        0, 47, // server message length
        0, 2,    // data length,
        0x02, // status: error
    ]);

    let server_message = [b'A'; 47];
    body_raw.extend_from_slice(&server_message);

    // data
    body_raw.extend_from_slice(&[0xa4, 0x42]);

    assert_eq!(
        Ok(accounting::Reply {
            status: accounting::Status::Error,
            server_message: FieldText::try_from_bytes(server_message.as_slice()).unwrap(),
            data: vec![0xa4, 0x42],
        }),
        accounting::Reply::deserialize_from_buffer(body_raw.as_slice())
    );
}

#[test]
fn deserialize_full_reply_packet() {
    let session_id: u32 = 49241163;

    let mut raw_packet: Vec<u8> = Vec::new();

    // HEADER
    raw_packet.extend_from_slice(&[
        (0xc << 4) | 1, // version
        3,              // accounting packet
        2,              // sequence number
        5,              // both unencrypted and single connection flags set
    ]);
    raw_packet.extend_from_slice(session_id.to_be_bytes().as_slice());
    raw_packet.extend_from_slice(25_u32.to_be_bytes().as_slice());

    // BODY
    raw_packet.extend_from_slice(&[
        0, 5, // server message length
        0, 15, // data length
        2,  // status: error
    ]);

    raw_packet.extend_from_slice(b"hello"); // server message
    raw_packet.extend_from_slice(b"fifteen letters"); // data

    let expected_header = HeaderInfo::new(
        Version::of(
            tacacs_plus::header::MajorVersion::RFC8907,
            tacacs_plus::header::MinorVersion::V1,
        ),
        2,
        PacketFlags::all(),
        session_id,
    );

    let expected_body = accounting::Reply {
        status: accounting::Status::Error,
        server_message: assert_ascii("hello"),
        data: b"fifteen letters".to_vec(),
    };

    let expected_packet = Packet::new(expected_header, expected_body).unwrap();

    assert_eq!(
        Packet::<accounting::Reply>::deserialize_unobfuscated(raw_packet.as_slice()),
        Ok(expected_packet)
    );
}

#[test]
fn serialize_request_packet_obfuscated() {
    let auth_context = AuthenticationContext {
        privilege_level: PrivilegeLevel::new(12).unwrap(),
        authentication_type: AuthenticationType::Chap,
        service: AuthenticationService::NoService,
    };
    let user_info = UserInformation::new(
        "whoknows",
        assert_ascii("67"),
        assert_ascii("127.3.244.2"),
    )
    .unwrap();

    let arguments_array = [
        Argument::new(assert_ascii("task_id"), assert_ascii("1"), true).unwrap(),
        Argument::new(assert_ascii("start_time"), assert_ascii("3"), false).unwrap(),
    ];
    let arguments = Arguments::new(&arguments_array).unwrap();

    let body = accounting::Request::new(
        accounting::Flags::StartRecord,
        AuthenticationMethod::Kerberos4,
        auth_context,
        user_info,
        arguments,
    );

    let session_id: u32 = 234897234;
    let header = HeaderInfo::new(Version::default(), 1, PacketFlags::all(), session_id);

    let packet = Packet::new(header, body).unwrap();

    let key = b"supersecurekey";
    let mut buffer = vec![0xffu8; 70];
    let serialized_length = packet
        .serialize(key, &mut buffer)
        .expect("packet serialization should succeed");

    // assemble expected packet serialization result
    let mut expected: Vec<u8> = Vec::new();

    // HEADER
    expected.extend_from_slice(&[
        0xc << 4, // version (minor version 0)
        3,        // accounting packet
        1,        // sequence number
        4,        // single connection flag set (unencrypted flag should be unset by serialize())
    ]);

    expected.extend_from_slice(&session_id.to_be_bytes());
    expected.extend_from_slice(&53_u32.to_be_bytes());

    // BODY: unobfuscated
    expected.extend_from_slice(&[
        2,    // START flag, to indicate start of record
        0x11, // authentication method: kerberos 4
        12,   // privilege level
        3,    // authentication type: CHAP
        0,    // authentication service: none
        8,    // user length
        2,    // port length
        11,   // remote address length
        2,    // argument count
        9,    // argument 1 length
        12,   // argument 2 length
    ]);

    // user information
    expected.extend_from_slice(b"whoknows");
    expected.extend_from_slice(b"67");
    expected.extend_from_slice(b"127.3.244.2");

    // arguments
    expected.extend_from_slice(b"task_id=1");
    expected.extend_from_slice(b"start_time*3");

    // obfuscation of body
    // pad generated independently, for diversity of MD5 implementations
    let pseudopad: [u8; 53] = [
        0x9a, 0xf1, 0x53, 0x19, 0x92, 0x4a, 0x13, 0x3b, 0x73, 0x01, 0xe2, 0xad, 0x76, 0xd4, 0xd5,
        0xd5, 0xa1, 0x89, 0xbc, 0x5b, 0xb3, 0x1f, 0xd1, 0x3d, 0xb2, 0xb8, 0xfb, 0x6d, 0xfb, 0xd0,
        0x5f, 0x13, 0xbe, 0x0c, 0xfd, 0x8a, 0xc5, 0x28, 0x28, 0x61, 0x79, 0xf6, 0xeb, 0x19, 0x21,
        0xc0, 0x02, 0x7f, 0x83, 0xd9, 0x5f, 0xe2, 0x96,
    ];
    for (out, pad) in expected[12..serialized_length].iter_mut().zip(pseudopad) {
        *out ^= pad;
    }

    // ensure obfuscation is correct
    assert_eq!(&buffer[..serialized_length], &expected[..serialized_length]);
}

#[test]
fn serialize_request_no_arguments() {
    let authentication_context = AuthenticationContext {
        privilege_level: PrivilegeLevel::new(1).unwrap(),
        authentication_type: AuthenticationType::Ascii,
        service: AuthenticationService::Enable,
    };

    let user_information = UserInformation::new(
        "testuser",
        assert_ascii("tcp49"),
        assert_ascii("127.0.0.1"),
    )
    .expect("client information should have been valid");

    let request = authorization::Request {
        method: AuthenticationMethod::Enable,
        authentication_context,
        user_information,
        arguments: Arguments::new(&[]).unwrap(),
    };

    let mut buffer = vec![0u8; 40];
    request
        .serialize_into_buffer(&mut buffer)
        .expect("buffer should have been big enough");

    let mut expected: Vec<u8> = Vec::new();
    expected.extend_from_slice(&[
        0x04, // authentication method: enable
        1,    // privilege level: 1
        0x01, // authentication type: ASCII
        0x02, // authentication service: enable
        8,    // user length
        5,    // port length
        9,    // remote address length
        0,    // argument count (no arguments supplied)
    ]);

    expected.extend_from_slice(b"testuser"); // user
    expected.extend_from_slice(b"tcp49"); // port
    expected.extend_from_slice(b"127.0.0.1"); // remote address

    assert_eq!(&buffer[..30], expected.as_slice());
}

#[test]
fn serialize_request_one_argument() {
    let authentication_context = AuthenticationContext {
        privilege_level: PrivilegeLevel::new(15).expect("15 should be a valid privilege level"),
        authentication_type: AuthenticationType::MsChapV2,
        service: AuthenticationService::FwProxy,
    };

    let user_information = UserInformation::new(
        "testuser",
        assert_ascii("ttyAMA0"),
        assert_ascii("127.1.2.2"),
    )
    .expect("client information should have been valid");

    let argument_array = [Argument::new(
        assert_ascii("service"),
        assert_ascii("serialization-test"),
        true,
    )
    .expect("argument should be valid")];

    let arguments = Arguments::new(&argument_array).expect("single argument array should be valid");

    let request = authorization::Request {
        method: AuthenticationMethod::TacacsPlus,
        authentication_context,
        user_information,
        arguments,
    };

    let mut buffer = vec![0u8; 60];
    let serialized_length = request
        .serialize_into_buffer(&mut buffer)
        .expect("buffer should be large enough");

    let mut expected: Vec<u8> = Vec::new();
    expected.extend_from_slice(&[
        0x06, // authentication method: TACACS+
        15,   // privilege level
        0x06, // authentication type: MSCHAPv2
        0x09, // authentication service: firewall proxy
        8,    // user length
        7,    // port length
        9,    // remote address length
        1,    // one argument
        26,   // argument 1 length
    ]);

    // user information
    expected.extend_from_slice(b"testuser");
    expected.extend_from_slice(b"ttyAMA0");
    expected.extend_from_slice(b"127.1.2.2");

    // service argument
    expected.extend_from_slice(b"service=serialization-test");

    assert_eq!(&buffer[..serialized_length], expected.as_slice());
}

#[test]
fn tests_serialize_full_request_packet() {
    let session_id: u32 = 578263403;
    let header = HeaderInfo {
        version: Version::default(),
        sequence_number: 1,
        flags: PacketFlags::Unencrypted,
        session_id,
    };

    let arguments_list = [Argument::new(
        assert_ascii("service"),
        assert_ascii("fulltest"),
        true,
    )
    .unwrap()];
    let arguments = Arguments::new(&arguments_list).expect("argument list should be of proper length");

    let body = authorization::Request {
        method: AuthenticationMethod::Kerberos5,
        authentication_context: AuthenticationContext {
            privilege_level: PrivilegeLevel::new(14).unwrap(),
            authentication_type: AuthenticationType::NotSet,
            service: AuthenticationService::Enable,
        },
        user_information: UserInformation::new(
            "requestor",
            assert_ascii("tcp23"),
            assert_ascii("127.254.1.2"),
        )
        .unwrap(),
        arguments,
    };

    let packet = Packet::new(header, body).unwrap();

    let mut buffer = vec![0x43u8; 70];
    let serialized_length = packet
        .serialize_into_buffer(&mut buffer)
        .expect("packet serialization should have succeeded");

    let mut expected: Vec<u8> = Vec::new();

    // HEADER
    expected.extend_from_slice(&[
        0xc << 4, // version
        2,        // authorization packet
        1,        // sequence number
        1,        // unencrypted flag set
    ]);

    expected.extend_from_slice(session_id.to_be_bytes().as_slice());
    expected.extend_from_slice(50_u32.to_be_bytes().as_slice()); // body length

    // BODY
    expected.extend_from_slice(&[
        2,  // authentication method: Kerberos 5
        14, // privilege level
        0,  // authentication type: not set
        2,  // authentication service: enable
        9,  // user length
        5,  // port length
        11, // remote address length
        1,  // argument count
        16, // argument 1 length
    ]);

    // user information
    expected.extend_from_slice(b"requestor");
    expected.extend_from_slice(b"tcp23");
    expected.extend_from_slice(b"127.254.1.2");

    // service argument
    expected.extend_from_slice(b"service=fulltest");

    assert_eq!(&buffer[..serialized_length], expected.as_slice());
}

#[test]
fn deserialize_reply_no_arguments() {
    let mut raw_bytes: Vec<u8> = Vec::new();
    raw_bytes.extend_from_slice(&[
        0x01, // status: pass/add
        0,    // no arguments
        0, 15, // server message length
        0, 6, // data length
    ]);

    raw_bytes.extend_from_slice(b"this is a reply"); // server message
    raw_bytes.extend_from_slice(&[123, 91, 3, 4, 21, 168]); // data

    let parsed = authorization::Reply::deserialize_from_buffer(raw_bytes.as_slice())
        .expect("packet parsing should have succeeded");

    // field checks
    assert_eq!(parsed.status, authorization::Status::PassAdd);
    assert_eq!(parsed.server_message, assert_ascii("this is a reply"));
    assert_eq!(parsed.data, &[123, 91, 3, 4, 21, 168]);

    // ensure iterator has no elements & reports a length of 0
    let mut argument_iter = parsed.iter_arguments();
    assert_eq!(argument_iter.len(), 0);
    assert_eq!(argument_iter.next(), None);
}

#[test]
fn deserialize_reply_two_arguments() {
    let mut raw_bytes: Vec<u8> = Vec::new();
    raw_bytes.extend_from_slice(&[
        0x01, // status: pass/add
        2,    // two arguments
        0, 5, // server message length
        0, 5,  // data length
        13, // argument 1 length
        13, // argument 2 length
    ]);

    raw_bytes.extend_from_slice(b"hello"); // server message
    raw_bytes.extend_from_slice(b"world"); // data

    // arguments
    raw_bytes.extend_from_slice(b"service=greet");
    raw_bytes.extend_from_slice(b"person*world!");

    let expected_arguments = [
        Argument::new(assert_ascii("service"), assert_ascii("greet"), true).unwrap(),
        Argument::new(assert_ascii("person"), assert_ascii("world!"), false).unwrap(),
    ];

    let parsed = authorization::Reply::deserialize_from_buffer(raw_bytes.as_slice())
        .expect("argument parsing should have succeeded");

    assert_eq!(parsed.status, authorization::Status::PassAdd);
    assert_eq!(parsed.server_message, assert_ascii("hello"));
    assert_eq!(parsed.data, b"world");

    // ensure argument iteration works properly
    let mut arguments_iter = parsed.iter_arguments();

    // check the reported remaining count
    assert_eq!(arguments_iter.len(), 2);

    // check actual arguments
    assert_eq!(arguments_iter.next().as_ref(), Some(&expected_arguments[0]));
    assert_eq!(arguments_iter.next().as_ref(), Some(&expected_arguments[1]));
    assert_eq!(arguments_iter.next(), None);
}

#[test]
fn tests_deserialize_full_reply_packet() {
    let mut raw_packet: Vec<u8> = Vec::new();

    let session_id: u32 = 92837492;

    // HEADER
    raw_packet.extend_from_slice(&[
        0xc << 4,    // major/minor version
        0x2,         // type: authorization
        4,           // sequence number
        0x01 | 0x04, // both flags set
    ]);

    raw_packet.extend_from_slice(session_id.to_be_bytes().as_slice());
    raw_packet.extend_from_slice(45_u32.to_be_bytes().as_slice()); // body length

    // BODY
    raw_packet.extend_from_slice(&[
        0x10, // status: fail
        1,    // argument count
        0, 23, // server message length
        0, 4,  // data length
        11, // argument length
    ]);

    raw_packet.extend_from_slice(b"something went wrong :("); // server message
    raw_packet.extend_from_slice(&[0x88; 4]); // data
    raw_packet.extend_from_slice(b"service=nah");

    let expected_argument =
        Argument::new(assert_ascii("service"), assert_ascii("nah"), true).unwrap();

    let expected_header = HeaderInfo {
        version: Version::default(),
        sequence_number: 4,
        flags: PacketFlags::Both,
        session_id: 92837492,
    };

    let parsed: Packet<authorization::Reply> =
        Packet::<authorization::Reply>::deserialize_unobfuscated(raw_packet.as_slice())
            .expect("packet deserialization should succeed");

    assert_eq!(parsed.header(), &expected_header);

    assert_eq!(parsed.body().status, authorization::Status::Fail);
    assert_eq!(
        parsed.body().server_message,
        assert_ascii("something went wrong :(")
    );
    assert_eq!(parsed.body().data, b"\x88\x88\x88\x88");

    // argument check: iterator should yield only 1 argument and then none
    let mut argument_iter = parsed.body().iter_arguments();

    assert_eq!(argument_iter.len(), 1);

    assert_eq!(argument_iter.next().as_ref(), Some(&expected_argument));
    assert_eq!(argument_iter.next(), None);
}

#[test]
fn argument_construction_errors() {
    assert_eq!(
        Argument::new(assert_ascii(""), assert_ascii("x"), true),
        Err(InvalidArgument::EmptyName)
    );
    assert_eq!(
        Argument::new(assert_ascii("a=b"), assert_ascii("x"), true),
        Err(InvalidArgument::NameContainsDelimiter)
    );
    assert_eq!(
        Argument::new(assert_ascii("a*b"), assert_ascii("x"), false),
        Err(InvalidArgument::NameContainsDelimiter)
    );
    let long_value: String = "v".repeat(250);
    assert_eq!(
        Argument::new(
            assert_ascii("longname"),
            assert_ascii(long_value.as_str()),
            true
        ),
        Err(InvalidArgument::TooLong)
    );
}

#[test]
fn argument_deserialize_errors() {
    assert_eq!(
        Argument::deserialize(b"nodelimiter"),
        Err(InvalidArgument::NoDelimiter)
    );
    assert_eq!(
        Argument::deserialize(b"=leading"),
        Err(InvalidArgument::EmptyName)
    );
    assert_eq!(
        Argument::deserialize(&[0x80, 0x3d, 0x41]),
        Err(InvalidArgument::NotAscii)
    );
    let long = [b'a'; 300];
    assert_eq!(Argument::deserialize(&long), Err(InvalidArgument::TooLong));
}

#[test]
fn header_parse_errors() {
    // bad version nibble
    let mut raw = vec![0xd0u8, 3, 2, 1, 0, 0, 0, 0, 0, 0, 0, 0];
    assert_eq!(
        Packet::<accounting::Reply>::deserialize(b"k", &raw),
        Err(DeserializeError::InvalidVersion(0xd0))
    );
    // undefined header flag bit
    raw = vec![0xc0, 3, 2, 2, 0, 0, 0, 0, 0, 0, 0, 0];
    assert_eq!(
        Packet::<accounting::Reply>::deserialize(b"k", &raw),
        Err(DeserializeError::InvalidHeaderFlags(2))
    );
    // undefined packet type tag
    raw = vec![0xc0, 9, 2, 0, 0, 0, 0, 0, 0, 0, 0, 0];
    assert_eq!(
        Packet::<accounting::Reply>::deserialize(b"k", &raw),
        Err(DeserializeError::InvalidPacketType(9))
    );
    // truncated header
    raw = vec![0xc0, 3, 2];
    assert_eq!(
        Packet::<accounting::Reply>::deserialize(b"k", &raw),
        Err(DeserializeError::UnexpectedEnd)
    );
}

#[test]
fn authorization_reply_bad_argument_and_text() {
    // argument region holds a delimiterless argument
    let mut raw: Vec<u8> = Vec::new();
    raw.extend_from_slice(&[0x01, 1, 0, 2, 0, 0, 3]);
    raw.extend_from_slice(b"ok");
    raw.extend_from_slice(b"bad");
    assert_eq!(
        authorization::Reply::deserialize_from_buffer(raw.as_slice()),
        Err(DeserializeError::InvalidArgument(InvalidArgument::NoDelimiter))
    );

    // server message holds a non-printable byte
    let mut raw2: Vec<u8> = Vec::new();
    raw2.extend_from_slice(&[0x01, 0, 0, 1, 0, 0]);
    raw2.push(0x07);
    assert_eq!(
        authorization::Reply::deserialize_from_buffer(raw2.as_slice()),
        Err(DeserializeError::BadText)
    );
}

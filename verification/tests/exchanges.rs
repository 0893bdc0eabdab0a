use tacacs_plus::accounting;
use tacacs_plus::arguments::Argument;
use tacacs_plus::authentication;
use tacacs_plus::authorization;
use tacacs_plus::fields::{
    AuthenticationContext, AuthenticationService, AuthenticationType, PrivilegeLevel,
};
use tacacs_plus::header::{MinorVersion, PacketFlags};
use tacacs_plus::obfuscation::apply_body_pad;
use tacacs_plus::packet::{DeserializableBody, Packet, PacketBody};
use tacacs_plus::session::{
    ascii_login_step, authorization_outcome, chap_start_data, check_reply_sequence,
    interpret_accounting_reply, interpret_authentication_reply, keep_connection_after_exchange,
    make_header, task_record_arguments, update_single_connection, AsciiLoginStep,
    AuthenticationStatus, ClientError, SequenceCounter, SessionContext, SessionContextBuilder,
    TaskRecord,
};
use tacacs_plus::authentication::Start;
use tacacs_plus::FieldText;

fn assert_ascii(s: &str) -> FieldText {
    FieldText::try_from_str(s).expect("string should be printable ASCII")
}

const SECRET: &[u8] = b"very secure key that is super secret";

fn pap_context() -> SessionContext {
    SessionContextBuilder::new().user("someuser").build()
}

#[test]
fn pap_login_success() {
    let context = pap_context();
    assert_eq!(context.port, b"rust_client".to_vec());
    assert_eq!(context.remote_address, b"tacacs_plus_rs".to_vec());

    let session_id: u32 = 0x1020_3040;
    let mut counter = SequenceCounter::new();
    let (client_seq, server_seq) = counter.next_round();
    assert_eq!((client_seq, server_seq), (1, 2));

    // client start packet: PAP login carrying the password
    let start = Start::new(
        authentication::Action::Login,
        AuthenticationContext {
            privilege_level: context.privilege_level,
            authentication_type: AuthenticationType::Pap,
            service: AuthenticationService::Login,
        },
        context.as_user_information().expect("context should encode"),
        Some(b"hunter2"),
    )
    .expect("start construction should succeed");
    let start_packet = Packet::new(
        make_header(MinorVersion::V1, client_seq, true, session_id),
        start,
    )
    .expect("start packet should assemble");
    let mut wire = vec![0u8; start_packet.wire_size()];
    let sent = start_packet
        .serialize(SECRET, &mut wire)
        .expect("start packet should serialize");
    // single round: one packet out, UNENCRYPTED clear
    assert_eq!(wire[3] & 0x01, 0);
    assert_eq!(sent, wire.len());

    // the server passes the login; its reply travels under the same key
    let reply_body = authentication::Reply {
        status: authentication::Status::Pass,
        server_message: assert_ascii("login accepted"),
        data: Vec::new(),
        no_echo: false,
    };
    let reply_packet = Packet::new(
        make_header(MinorVersion::V1, server_seq, true, session_id),
        reply_body,
    )
    .expect("reply packet should assemble");
    let mut reply_wire = vec![0u8; reply_packet.wire_size()];
    reply_packet
        .serialize(SECRET, &mut reply_wire)
        .expect("reply packet should serialize");

    // client side: receive, check sequencing, interpret
    let received = Packet::<authentication::Reply>::deserialize(SECRET, &reply_wire)
        .expect("reply should deserialize under the shared key");
    assert_eq!(received.header().sequence_number, server_seq);
    assert_eq!(received.header().session_id, session_id);

    let response =
        interpret_authentication_reply(received.body()).expect("PASS should not be an error");
    assert_eq!(response.status, AuthenticationStatus::Pass);
    assert_eq!(response.message, assert_ascii("login accepted"));

    // connection policy: server agreed to single connection on reply 2
    let established = update_single_connection(false, *&received.header().flags, server_seq);
    assert!(established);
    assert!(keep_connection_after_exchange(established));
}

#[test]
fn pap_login_failure_reported_as_fail() {
    let reply = authentication::Reply {
        status: authentication::Status::Fail,
        server_message: assert_ascii("bad password"),
        data: Vec::new(),
        no_echo: false,
    };
    let response = interpret_authentication_reply(&reply).expect("FAIL is a normal outcome");
    assert_eq!(response.status, AuthenticationStatus::Fail);

    let error_reply = authentication::Reply {
        status: authentication::Status::Error,
        server_message: assert_ascii("server broke"),
        data: vec![1, 2, 3],
        no_echo: false,
    };
    interpret_authentication_reply(&error_reply).expect_err("ERROR is a protocol error");
}

#[test]
fn ascii_login_steps() {
    let prompt = |status: authentication::Status| authentication::Reply {
        status,
        server_message: assert_ascii("Username:"),
        data: Vec::new(),
        no_echo: false,
    };
    assert_eq!(
        ascii_login_step(&prompt(authentication::Status::GetUser)).unwrap(),
        AsciiLoginStep::SendUser
    );
    assert_eq!(
        ascii_login_step(&prompt(authentication::Status::GetPassword)).unwrap(),
        AsciiLoginStep::SendPassword
    );
    assert_eq!(
        ascii_login_step(&prompt(authentication::Status::GetData)).unwrap(),
        AsciiLoginStep::SendData
    );
    assert_eq!(
        ascii_login_step(&prompt(authentication::Status::Pass)).unwrap(),
        AsciiLoginStep::Finished(AuthenticationStatus::Pass)
    );
    assert_eq!(
        ascii_login_step(&prompt(authentication::Status::Restart)).unwrap(),
        AsciiLoginStep::Finished(AuthenticationStatus::Fail)
    );
    ascii_login_step(&prompt(authentication::Status::Error)).expect_err("ERROR is surfaced");
}

#[test]
fn chap_data_layout() {
    // MD5("abc") with ppp id 'a', password "b", challenge "c"
    let data = chap_start_data(0x61, &b"c".to_vec(), &b"b".to_vec());
    let mut expected = vec![0x61u8];
    expected.extend_from_slice(b"c");
    expected.extend_from_slice(&[
        0x90, 0x01, 0x50, 0x98, 0x3c, 0xd2, 0x4f, 0xb0, 0xd6, 0x96, 0x3f, 0x7d, 0x28, 0xe1, 0x7f,
        0x72,
    ]);
    assert_eq!(data, expected);
}

#[test]
fn authorization_failure_on_mandatory_mismatch() {
    let request = vec![
        Argument::new(assert_ascii("service"), assert_ascii("authorizeme"), true).unwrap(),
        Argument::new(assert_ascii("number"), assert_ascii("3"), true).unwrap(),
    ];
    let reply = authorization::Reply {
        status: authorization::Status::Fail,
        server_message: assert_ascii(""),
        data: Vec::new(),
        arguments: Vec::new(),
    };
    let (status, arguments) =
        authorization_outcome(&request, &reply).expect("FAIL is a normal outcome");
    assert_eq!(status, AuthenticationStatus::Fail);
    assert!(arguments.is_empty());
}

#[test]
fn authorization_pass_replace() {
    let request = vec![Argument::new(
        assert_ascii("thing"),
        assert_ascii("this will be replaced"),
        false,
    )
    .unwrap()];
    let reply = authorization::Reply {
        status: authorization::Status::PassReplace,
        server_message: assert_ascii(""),
        data: Vec::new(),
        arguments: vec![Argument::new(
            assert_ascii("thing"),
            assert_ascii("not important"),
            false,
        )
        .unwrap()],
    };
    let (status, arguments) =
        authorization_outcome(&request, &reply).expect("PassReplace is a pass");
    assert_eq!(status, AuthenticationStatus::Pass);

    // the server's value supersedes the request's, and no duplicate remains
    assert_eq!(arguments.len(), 1);
    assert_eq!(arguments[0].name().as_bytes(), b"thing");
    assert_eq!(arguments[0].value().as_bytes(), b"not important");
}

#[test]
fn authorization_pass_add_keeps_request_arguments() {
    let request = vec![Argument::new(
        assert_ascii("service"),
        assert_ascii("shell"),
        true,
    )
    .unwrap()];
    let reply = authorization::Reply {
        status: authorization::Status::PassAdd,
        server_message: assert_ascii(""),
        data: Vec::new(),
        arguments: vec![Argument::new(
            assert_ascii("priv-lvl"),
            assert_ascii("15"),
            false,
        )
        .unwrap()],
    };
    let (status, arguments) = authorization_outcome(&request, &reply).expect("PassAdd is a pass");
    assert_eq!(status, AuthenticationStatus::Pass);
    assert_eq!(arguments.len(), 2);
    // request argument stays in effect, still required
    assert_eq!(arguments[0].name().as_bytes(), b"service");
    assert!(arguments[0].is_required());
    // server's argument is an addition
    assert_eq!(arguments[1].name().as_bytes(), b"priv-lvl");
}

#[test]
fn accounting_task_lifecycle() {
    let task_id = assert_ascii("0e1b4c86-12f0-4f4a-92d4-9e7ab2b0e1d7");
    let none: Vec<Argument> = Vec::new();

    let start =
        task_record_arguments(TaskRecord::Start, &task_id, &assert_ascii("100"), &none).unwrap();
    let update =
        task_record_arguments(TaskRecord::Update, &task_id, &assert_ascii("5"), &none).unwrap();
    let stop =
        task_record_arguments(TaskRecord::Stop, &task_id, &assert_ascii("105"), &none).unwrap();

    // the three records carry the same task_id value
    for record in [&start, &update, &stop] {
        assert_eq!(record[0].name().as_bytes(), b"task_id");
        assert_eq!(
            record[0].value().as_bytes(),
            b"0e1b4c86-12f0-4f4a-92d4-9e7ab2b0e1d7"
        );
        assert!(record[0].is_required());
    }
    assert_eq!(start[1].name().as_bytes(), b"start_time");
    assert_eq!(update[1].name().as_bytes(), b"elapsed_time");
    assert_eq!(stop[1].name().as_bytes(), b"stop_time");

    // record kinds map to the right wire flags
    assert_eq!(TaskRecord::Start.flags(), accounting::Flags::StartRecord);
    assert_eq!(TaskRecord::Update.flags(), accounting::Flags::WatchdogUpdate);
    assert_eq!(TaskRecord::Stop.flags(), accounting::Flags::StopRecord);

    // each record is answered by a SUCCESS reply
    let success = accounting::Reply {
        status: accounting::Status::Success,
        server_message: assert_ascii("ok"),
        data: Vec::new(),
    };
    for _ in 0..3 {
        let (message, data) = interpret_accounting_reply(&success).expect("SUCCESS concludes");
        assert_eq!(message, assert_ascii("ok"));
        assert!(data.is_empty());
    }

    let error = accounting::Reply {
        status: accounting::Status::Error,
        server_message: assert_ascii("log failed"),
        data: Vec::new(),
    };
    interpret_accounting_reply(&error).expect_err("ERROR is a protocol error");
}

#[test]
fn reply_sequence_mismatch_is_protocol_error() {
    let expected_header = make_header(MinorVersion::Default, 2, true, 77);
    assert!(check_reply_sequence(2, &expected_header).is_ok());

    let stale_header = make_header(MinorVersion::Default, 4, true, 77);
    assert_eq!(
        check_reply_sequence(2, &stale_header),
        Err(ClientError::SequenceMismatch { expected: 2, actual: 4 })
    );
}

#[test]
fn context_encoding_failures() {
    // non-printable port bytes cannot be encoded
    let mut bad_port = SessionContextBuilder::new().user("u").build();
    bad_port.port = vec![0x07];
    assert_eq!(
        bad_port.as_user_information().err(),
        Some(ClientError::InvalidContext)
    );

    // an over-long user name cannot be encoded
    let mut long_user = SessionContextBuilder::new().build();
    long_user.user = vec![b'a'; 300];
    assert_eq!(
        long_user.as_user_information().err(),
        Some(ClientError::InvalidContext)
    );

    // the defaults encode fine
    assert!(SessionContextBuilder::new().build().as_user_information().is_ok());
}

#[test]
fn sequence_numbers_increase_strictly() {
    let mut counter = SequenceCounter::new();
    let (c1, s1) = counter.next_round();
    let (c2, s2) = counter.next_round();
    let (c3, s3) = counter.next_round();
    assert_eq!([c1, s1, c2, s2, c3, s3], [1, 2, 3, 4, 5, 6]);
    assert!(c1 % 2 == 1 && c2 % 2 == 1 && c3 % 2 == 1);
    assert!(s1 % 2 == 0 && s2 % 2 == 0 && s3 % 2 == 0);
}

#[test]
fn single_connection_latch_only_on_first_reply() {
    // reply 2 with the flag set establishes the mode
    assert!(update_single_connection(false, PacketFlags::SingleConnection, 2));
    // later replies cannot establish it
    assert!(!update_single_connection(false, PacketFlags::SingleConnection, 4));
    // and cannot revoke it once latched
    assert!(update_single_connection(true, PacketFlags::Neither, 4));
    assert!(!keep_connection_after_exchange(false));
}

#[test]
fn length_field_matches_remaining_bytes() {
    let start = Start::new(
        authentication::Action::Login,
        AuthenticationContext {
            privilege_level: PrivilegeLevel::of(0).unwrap(),
            authentication_type: AuthenticationType::Pap,
            service: AuthenticationService::Login,
        },
        pap_context().as_user_information().unwrap(),
        Some(b"pw"),
    )
    .unwrap();
    let packet = Packet::new(make_header(MinorVersion::V1, 1, true, 7), start).unwrap();
    let mut wire = vec![0u8; packet.wire_size()];
    let n = packet.serialize(SECRET, &mut wire).unwrap();
    let length_field = u32::from_be_bytes([wire[8], wire[9], wire[10], wire[11]]);
    assert_eq!(length_field as usize, n - 12);
}

#[test]
fn unencrypted_flag_tracks_key_presence() {
    let make_start = || {
        Start::new(
            authentication::Action::Login,
            AuthenticationContext {
                privilege_level: PrivilegeLevel::of(1).unwrap(),
                authentication_type: AuthenticationType::Pap,
                service: AuthenticationService::Login,
            },
            pap_context().as_user_information().unwrap(),
            Some(b"pw"),
        )
        .unwrap()
    };

    let with_key = Packet::new(make_header(MinorVersion::V1, 1, true, 9), make_start()).unwrap();
    let mut wire = vec![0u8; with_key.wire_size()];
    with_key.serialize(SECRET, &mut wire).unwrap();
    assert_eq!(wire[3] & 0x01, 0, "with a key the UNENCRYPTED bit is clear");

    let without_key =
        Packet::new(make_header(MinorVersion::V1, 1, false, 9), make_start()).unwrap();
    let mut wire2 = vec![0u8; without_key.wire_size()];
    without_key.serialize_unobfuscated(&mut wire2).unwrap();
    assert_eq!(wire2[3] & 0x01, 1, "without a key the UNENCRYPTED bit is set");
}

#[test]
fn obfuscation_involution() {
    let original: Vec<u8> = (0u8..=41).collect();
    let mut body = original.clone();
    apply_body_pad(0xdead_beef, b"some key", 0xc1, 3, &mut body);
    assert_ne!(body, original, "the pad must change the body");
    apply_body_pad(0xdead_beef, b"some key", 0xc1, 3, &mut body);
    assert_eq!(body, original, "applying the pad twice restores the body");
}

#[test]
fn reply_roundtrips() {
    // authentication reply
    let auth = authentication::Reply {
        status: authentication::Status::GetPassword,
        server_message: assert_ascii("Password:"),
        data: vec![9, 8, 7],
        no_echo: true,
    };
    let mut enc: Vec<u8> = Vec::new();
    auth.append_encoding(&mut enc);
    assert_eq!(
        authentication::Reply::deserialize_from_buffer(&enc).as_ref(),
        Ok(&auth)
    );

    // accounting reply
    let acct = accounting::Reply {
        status: accounting::Status::Follow,
        server_message: assert_ascii("elsewhere"),
        data: vec![1],
    };
    let mut enc2: Vec<u8> = Vec::new();
    acct.append_encoding(&mut enc2);
    assert_eq!(
        accounting::Reply::deserialize_from_buffer(&enc2).as_ref(),
        Ok(&acct)
    );

    // authorization reply with arguments, yielded back in order
    let authz = authorization::Reply {
        status: authorization::Status::PassAdd,
        server_message: assert_ascii("fine"),
        data: vec![2, 3],
        arguments: vec![
            Argument::new(assert_ascii("first"), assert_ascii("1"), true).unwrap(),
            Argument::new(assert_ascii("second"), assert_ascii("2"), false).unwrap(),
            Argument::new(assert_ascii("first"), assert_ascii("3"), true).unwrap(),
        ],
    };
    let mut enc3: Vec<u8> = Vec::new();
    authz.append_encoding(&mut enc3);
    let parsed = authorization::Reply::deserialize_from_buffer(&enc3).unwrap();
    assert_eq!(parsed.status, authz.status);
    assert_eq!(parsed.server_message, authz.server_message);
    assert_eq!(parsed.data, authz.data);
    let mut iter = parsed.iter_arguments();
    assert_eq!(iter.len(), 3);
    assert_eq!(iter.next().as_ref(), Some(&authz.arguments[0]));
    assert_eq!(iter.next().as_ref(), Some(&authz.arguments[1]));
    assert_eq!(iter.next().as_ref(), Some(&authz.arguments[2]));
    assert_eq!(iter.next(), None);
}

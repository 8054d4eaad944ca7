use qemu_qmp_test::json::Json;
use qemu_qmp_test::messages::client::{capabilities, EncodeError, Message};
use qemu_qmp_test::messages::server::{parse, ParseFailure, ReceivedMessage};

const GREETING: &str = r#"{"QMP": {"version": {"qemu": {"micro": 3, "minor": 0, "major": 8}, "package": ""}, "capabilities": ["oob"]}}"#;

fn s(text: &str) -> String {
    text.to_string()
}

#[test]
fn it_parses() {
    match parse(s(GREETING)).unwrap() {
        ReceivedMessage::Greeting(p) => assert_eq!(p.qmp.version.qemu.micro, 3),
        other => panic!("not a greeting: {:?}", other),
    }
}

#[test]
fn server_it_parses() {
    match parse(s(GREETING)).unwrap() {
        ReceivedMessage::Greeting(p) => {
            assert_eq!(p.qmp.version.qemu.micro, 3);
            assert_eq!(p.qmp.version.qemu.minor, 0);
            assert_eq!(p.qmp.version.qemu.major, 8);
            assert_eq!(p.qmp.version.package, "");
            assert_eq!(p.qmp.capabilities, vec![s("oob")]);
        }
        other => panic!("not a greeting: {:?}", other),
    }
}

#[test]
fn empty_capabilities() {
    let text = capabilities(1).encode().unwrap();
    let result = Message::decode(&text).unwrap();
    let enable = result.arguments.iter().find(|(k, _)| k == "enable").map(|(_, v)| v);
    assert_eq!(enable, Some(&Json::Array(vec![Json::Str(s("oob"))])));
}

#[test]
fn sets_an_id() {
    // The IDs should start at 1
    let mut session = qemu_qmp_test::session::Session::<()>::new();
    let id = session.next_id().unwrap();
    let result = Message::decode(&capabilities(id).encode().unwrap()).unwrap();
    assert_eq!(result.id, 1)
}

#[test]
fn identifies_received_messages() {
    // if this doesn't panic we assume the message parsed correctly
    let _message: ReceivedMessage = parse(s(GREETING)).unwrap();
}

#[test]
fn parses_return_values() {
    let message = String::from(r#"{"return": {}}"#);
    if let ReceivedMessage::Return(data) = parse(message).unwrap() {
        assert_eq!(data.ret, Json::Object(vec![]));
    };
}

#[test]
fn return_message_ids_are_optional() {
    let message = String::from(r#"{"return": {}, "id": 3}"#);

    if let ReceivedMessage::Return(ret) = parse(message).unwrap() {
        assert_eq!(ret.id, Some(3));
    } else {
        panic!("parse didn't find a return")
    }
}

#[test]
fn size_of_received_message_is_box() {
    assert_eq!(16, std::mem::size_of::<ReceivedMessage>());
}

#[test]
fn parses_event_message() {
    let message = String::from(
        r#"{"timestamp": {"seconds": 1693429073, "microseconds": 944495},
  "event": "RTC_CHANGE", 
  "data": {"offset": 1, "qom-path": "/machine/unattached/device[7]"}}"#,
    );

    if let ReceivedMessage::Event(e) = parse(message).unwrap() {
        assert_eq!(e.timestamp.microseconds, 944495);
        assert_eq!(e.timestamp.seconds, 1693429073);
        assert_eq!(e.event, "RTC_CHANGE");
        assert_eq!(
            e.data,
            Json::Object(vec![
                (s("offset"), Json::PosInt(1)),
                (s("qom-path"), Json::Str(s("/machine/unattached/device[7]"))),
            ])
        );
    } else {
        panic!("didn't parse event correctly");
    }
}

#[test]
fn capabilities_encode_exactly() {
    let text = capabilities(1).encode().unwrap();
    assert_eq!(text, r#"{"execute":"qmp_capabilities","arguments":{"enable":["oob"]},"id":1}"#);
}

#[test]
fn encode_keeps_argument_order_and_escapes() {
    let m = Message::new(
        s("set \"x\""),
        vec![(s("z"), Json::NegInt(-4)), (s("a"), Json::Float(s("1.5"))), (s("m"), Json::Null)],
        42,
    );
    assert_eq!(
        m.encode().unwrap(),
        r#"{"execute":"set \"x\"","arguments":{"z":-4,"a":1.5,"m":null},"id":42}"#
    );
}

#[test]
fn encode_rejects_a_number_json_cannot_hold() {
    let m = Message::new(s("x"), vec![(s("n"), Json::Float(s("not a number")))], 1);
    assert!(matches!(m.encode(), Err(EncodeError::Unrepresentable)));
}

#[test]
fn command_round_trips_through_text() {
    let args = || {
        vec![
            (s("device"), Json::Str(s("ide0"))),
            (s("flags"), Json::Array(vec![Json::Bool(true), Json::PosInt(u64::MAX)])),
        ]
    };
    let text = Message::new(s("eject"), args(), 9).encode().unwrap();
    let back = Message::decode(&text).unwrap();
    assert_eq!(back.execute, "eject");
    assert_eq!(back.arguments, args());
    assert_eq!(back.id, 9);
}

#[test]
fn reply_wrapping_arguments_round_trips() {
    let m = capabilities(7);
    let id = m.id;
    let args = Json::Object(m.arguments);
    match parse(s(r#"{"return":{"enable":["oob"]},"id":7}"#)).unwrap() {
        ReceivedMessage::Return(r) => {
            assert_eq!(r.ret, args);
            assert_eq!(r.id, Some(id));
        }
        other => panic!("not a reply: {:?}", other),
    }
}

#[test]
fn reply_with_null_id_has_no_id() {
    match parse(s(r#"{"return": 5, "id": null}"#)).unwrap() {
        ReceivedMessage::Return(r) => {
            assert_eq!(r.ret, Json::PosInt(5));
            assert_eq!(r.id, None);
        }
        other => panic!("not a reply: {:?}", other),
    }
}

#[test]
fn reply_with_negative_id_is_no_message() {
    let e = parse(s(r#"{"return": {}, "id": -1}"#)).unwrap_err();
    assert!(matches!(e.cause, ParseFailure::UnknownShape));
    assert_eq!(e.line, r#"{"return": {}, "id": -1}"#);
}

#[test]
fn greeting_takes_precedence_over_reply() {
    let line = r#"{"return": 1, "QMP": {"version": {"qemu": {"micro": 0, "minor": 1, "major": 9}, "package": "p"}, "capabilities": []}}"#;
    assert!(matches!(parse(s(line)).unwrap(), ReceivedMessage::Greeting(_)));
}

#[test]
fn negative_timestamp_is_kept() {
    let line = r#"{"timestamp": {"seconds": -2, "microseconds": 0}, "event": "E", "data": null}"#;
    match parse(s(line)).unwrap() {
        ReceivedMessage::Event(e) => {
            assert_eq!(e.timestamp.seconds, -2);
            assert_eq!(e.data, Json::Null);
        }
        other => panic!("not an event: {:?}", other),
    }
}

#[test]
fn invalid_json_is_a_parse_error() {
    let e = parse(s("BADJSON")).unwrap_err();
    assert!(matches!(e.cause, ParseFailure::NotJson));
    assert_eq!(e.line, "BADJSON");
}

#[test]
fn unknown_shape_is_a_parse_error() {
    let e = parse(s(r#"{"hello": 1}"#)).unwrap_err();
    assert!(matches!(e.cause, ParseFailure::UnknownShape));
}

#[test]
fn greeting_with_a_non_string_capability_is_no_greeting() {
    let line = r#"{"QMP": {"version": {"qemu": {"micro": 3, "minor": 0, "major": 8}, "package": ""}, "capabilities": [1]}}"#;
    assert!(parse(s(line)).is_err());
}

#[test]
fn parse_reads_numbers_by_kind() {
    let line = r#"{"return": [0, -7, 2.5, 18446744073709551615, "t", true, {"k": []}]}"#;
    let j = match parse(s(line)).unwrap() {
        ReceivedMessage::Return(r) => r.ret,
        other => panic!("not a reply: {:?}", other),
    };
    assert_eq!(
        j,
        Json::Array(vec![
            Json::PosInt(0),
            Json::NegInt(-7),
            Json::Float(s("2.5")),
            Json::PosInt(u64::MAX),
            Json::Str(s("t")),
            Json::Bool(true),
            Json::Object(vec![(s("k"), Json::Array(vec![]))]),
        ])
    );
    assert!(matches!(parse(s("{")).unwrap_err().cause, ParseFailure::NotJson));
}

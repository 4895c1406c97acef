use osquery_client::decode::Decoded;
use osquery_client::error::{ProtocolError, RpcError};
use osquery_client::frame::{decode_reply, encode_call, Method, Outcome, Reply, Request};
use osquery_client::message::{decode_header, MessageHeader, MessageKind};
use osquery_client::reply::{field_by_id, rows_from_value, text_from_value, ApplicationException};
use osquery_client::schema::{
    rows_to_value, text_to_value, Column, ExtensionInfo, ExtensionRegistry, ExtensionResponse,
    ExtensionStatus, RegistryCategory, RegistryItem, Row,
};
use osquery_client::value::{Entry, Field, FieldValue, WireType};
use thrift::protocol::{TBinaryInputProtocol, TInputProtocol, TMessageType, TType};

fn wire_text(s: &str) -> FieldValue {
    FieldValue::Binary(s.as_bytes().to_vec())
}

fn header(kind: u8, name: &str, sequence: i32) -> Vec<u8> {
    let mut out = vec![0x80, 0x01, 0x00, kind];
    out.extend_from_slice(&(name.len() as i32).to_be_bytes());
    out.extend_from_slice(name.as_bytes());
    out.extend_from_slice(&sequence.to_be_bytes());
    out
}

fn message(kind: u8, name: &str, sequence: i32, body: &FieldValue) -> Vec<u8> {
    let mut out = header(kind, name, sequence);
    assert!(body.is_well_formed());
    body.encode(&mut out);
    out
}

fn status_struct(code: i32, text: Option<&str>, uuid: Option<i64>) -> FieldValue {
    let mut fields = vec![Field { id: 1, value: FieldValue::I32(code) }];
    if let Some(t) = text {
        fields.push(Field { id: 2, value: wire_text(t) });
    }
    if let Some(u) = uuid {
        fields.push(Field { id: 3, value: FieldValue::I64(u) });
    }
    FieldValue::Struct(fields)
}

fn result_of(value: FieldValue) -> FieldValue {
    FieldValue::Struct(vec![Field { id: 0, value }])
}

fn row(columns: &[(&str, &str)]) -> Row {
    Row {
        columns: columns
            .iter()
            .map(|(n, v)| Column { name: n.to_string(), value: v.to_string() })
            .collect(),
    }
}

fn protocol(e: ProtocolError) -> Outcome {
    Outcome::Finished(Err(RpcError::Protocol(e)))
}

fn info() -> ExtensionInfo {
    ExtensionInfo {
        name: "thrust".to_string(),
        version: "0.0.1".to_string(),
        sdk_version: "0.0.0".to_string(),
        min_sdk_version: "0.0.0".to_string(),
    }
}

#[test]
fn method_names_on_the_wire() {
    assert_eq!(Method::RegisterExtension.as_str(), "registerExtension");
    assert_eq!(Method::Ping.as_str(), "ping");
    assert_eq!(Method::DeregisterExtension.as_str(), "deregisterExtension");
    assert_eq!(Method::Query.as_str(), "query");
}

#[test]
fn message_kind_codes() {
    assert_eq!(MessageKind::from_code(1), Some(MessageKind::Call));
    assert_eq!(MessageKind::from_code(2), Some(MessageKind::Reply));
    assert_eq!(MessageKind::from_code(3), Some(MessageKind::Exception));
    assert_eq!(MessageKind::from_code(4), Some(MessageKind::OneWay));
    assert_eq!(MessageKind::from_code(0), None);
    assert_eq!(MessageKind::from_code(5), None);
}

#[test]
fn ping_call_frame_is_exact() {
    let frame = encode_call(7, &Request::Ping).unwrap();
    let mut expected = vec![0x80, 0x01, 0x00, 0x01, 0, 0, 0, 4];
    expected.extend_from_slice(b"ping");
    expected.extend_from_slice(&[0, 0, 0, 7, 0]);
    assert_eq!(frame, expected);
}

#[test]
fn query_call_frame_is_exact() {
    let frame = encode_call(-2, &Request::Query { sql: "select 1".to_string() }).unwrap();
    let mut expected = vec![0x80, 0x01, 0x00, 0x01, 0, 0, 0, 5];
    expected.extend_from_slice(b"query");
    expected.extend_from_slice(&[0xff, 0xff, 0xff, 0xfe]);
    expected.extend_from_slice(&[11, 0, 1, 0, 0, 0, 8]);
    expected.extend_from_slice(b"select 1");
    expected.push(0);
    assert_eq!(frame, expected);
}

#[test]
fn deregister_call_frame_is_exact() {
    let frame = encode_call(3, &Request::Deregister { uuid: 42 }).unwrap();
    let mut expected = vec![0x80, 0x01, 0x00, 0x01, 0, 0, 0, 19];
    expected.extend_from_slice(b"deregisterExtension");
    expected.extend_from_slice(&[0, 0, 0, 3]);
    expected.extend_from_slice(&[10, 0, 1, 0, 0, 0, 0, 0, 0, 0, 42, 0]);
    assert_eq!(frame, expected);
}

#[test]
fn thrift_reads_the_register_call() {
    let request = Request::Register { info: info(), registry: ExtensionRegistry::empty() };
    assert_eq!(request.method(), Method::RegisterExtension);
    let frame = encode_call(1, &request).unwrap();
    let mut p = TBinaryInputProtocol::new(&frame[..], true);
    let m = p.read_message_begin().unwrap();
    assert_eq!(m.name, "registerExtension");
    assert_eq!(m.message_type, TMessageType::Call);
    assert_eq!(m.sequence_number, 1);
    let f = p.read_field_begin().unwrap();
    assert_eq!((f.field_type, f.id), (TType::Struct, Some(1)));
    for (id, expected) in [(1, "thrust"), (2, "0.0.1"), (3, "0.0.0"), (4, "0.0.0")] {
        let f = p.read_field_begin().unwrap();
        assert_eq!((f.field_type, f.id), (TType::String, Some(id)));
        assert_eq!(p.read_string().unwrap(), expected);
    }
    assert_eq!(p.read_field_begin().unwrap().field_type, TType::Stop);
    let f = p.read_field_begin().unwrap();
    assert_eq!((f.field_type, f.id), (TType::Map, Some(2)));
    let map = p.read_map_begin().unwrap();
    assert_eq!((map.key_type, map.value_type, map.size), (Some(TType::String), Some(TType::Map), 0));
    assert_eq!(p.read_field_begin().unwrap().field_type, TType::Stop);
    assert!(p.read_byte().is_err());
}

#[test]
fn thrift_reads_a_registry_with_plugins() {
    let registry = ExtensionRegistry {
        categories: vec![RegistryCategory {
            name: "table".to_string(),
            items: vec![RegistryItem {
                name: "foobar".to_string(),
                metadata: vec![row(&[("name", "foo"), ("type", "TEXT")]), row(&[])],
            }],
        }],
    };
    let frame = encode_call(9, &Request::Register { info: info(), registry }).unwrap();
    let mut p = TBinaryInputProtocol::new(&frame[..], true);
    p.read_message_begin().unwrap();
    let f = p.read_field_begin().unwrap();
    p.skip(f.field_type).unwrap();
    let f = p.read_field_begin().unwrap();
    assert_eq!((f.field_type, f.id), (TType::Map, Some(2)));
    let categories = p.read_map_begin().unwrap();
    assert_eq!(categories.size, 1);
    assert_eq!(p.read_string().unwrap(), "table");
    let items = p.read_map_begin().unwrap();
    assert_eq!((items.key_type, items.value_type, items.size), (Some(TType::String), Some(TType::List), 1));
    assert_eq!(p.read_string().unwrap(), "foobar");
    let rows = p.read_list_begin().unwrap();
    assert_eq!((rows.element_type, rows.size), (TType::Map, 2));
    let first = p.read_map_begin().unwrap();
    assert_eq!((first.key_type, first.value_type, first.size), (Some(TType::String), Some(TType::String), 2));
    assert_eq!(p.read_string().unwrap(), "name");
    assert_eq!(p.read_string().unwrap(), "foo");
    assert_eq!(p.read_string().unwrap(), "type");
    assert_eq!(p.read_string().unwrap(), "TEXT");
    let second = p.read_map_begin().unwrap();
    assert_eq!(second.size, 0);
    assert_eq!(p.read_field_begin().unwrap().field_type, TType::Stop);
    assert!(p.read_byte().is_err());
}

#[test]
fn encoding_the_same_info_twice_gives_the_same_bytes() {
    let a = info();
    let once = {
        let mut out = Vec::new();
        a.to_value().encode(&mut out);
        out
    };
    let twice = {
        let mut out = Vec::new();
        a.to_value().encode(&mut out);
        out
    };
    assert_eq!(once, twice);
    let mut expected = Vec::new();
    for (id, s) in [(1u8, "thrust"), (2, "0.0.1"), (3, "0.0.0"), (4, "0.0.0")] {
        expected.extend_from_slice(&[11, 0, id, 0, 0, 0, s.len() as u8]);
        expected.extend_from_slice(s.as_bytes());
    }
    expected.push(0);
    assert_eq!(once, expected);
    let request = Request::Register { info: info(), registry: ExtensionRegistry::empty() };
    assert_eq!(encode_call(5, &request).unwrap(), encode_call(5, &request).unwrap());
}

#[test]
fn header_is_read_back() {
    let bytes = header(2, "query", 77);
    assert_eq!(
        decode_header(&bytes, 0),
        Decoded::Complete {
            value: MessageHeader { kind: MessageKind::Reply, name: "query".to_string(), sequence: 77 },
            next: bytes.len()
        }
    );
    for cut in 0..bytes.len() {
        assert_eq!(decode_header(&bytes[..cut], 0), Decoded::Incomplete);
    }
}

#[test]
fn sequence_number_survives_the_exchange() {
    for n in [0, 1, -1, 123456, i32::MAX, i32::MIN] {
        let call = encode_call(n, &Request::Ping).unwrap();
        match decode_header(&call, 0) {
            Decoded::Complete { value, .. } => {
                assert_eq!(value.sequence, n);
                assert_eq!(value.kind, MessageKind::Call);
                assert_eq!(value.name, "ping");
            }
            other => panic!("{:?}", other),
        }
        let reply = message(2, "ping", n, &result_of(status_struct(0, Some("OK"), None)));
        assert_eq!(
            decode_reply(&reply, Method::Ping, n),
            Outcome::Finished(Ok(Reply::Status(ExtensionStatus {
                code: 0,
                message: Some("OK".to_string()),
                uuid: None
            })))
        );
    }
}

#[test]
fn sequence_mismatch_is_an_error() {
    let reply = message(2, "ping", 5, &result_of(status_struct(0, None, None)));
    assert_eq!(decode_reply(&reply, Method::Ping, 6), protocol(ProtocolError::SequenceMismatch));
    let head = header(2, "ping", 5);
    assert_eq!(decode_reply(&head, Method::Ping, 6), protocol(ProtocolError::SequenceMismatch));
}

#[test]
fn wrong_method_is_an_error() {
    let reply = message(2, "query", 5, &result_of(status_struct(0, None, None)));
    assert_eq!(decode_reply(&reply, Method::Ping, 5), protocol(ProtocolError::WrongMethod));
}

#[test]
fn call_and_oneway_are_unexpected() {
    let body = result_of(status_struct(0, None, None));
    assert_eq!(
        decode_reply(&message(1, "ping", 5, &body), Method::Ping, 5),
        protocol(ProtocolError::UnexpectedMessageKind)
    );
    assert_eq!(
        decode_reply(&message(4, "ping", 5, &body), Method::Ping, 5),
        protocol(ProtocolError::UnexpectedMessageKind)
    );
}

#[test]
fn bad_version_is_an_error() {
    let mut reply = message(2, "ping", 5, &result_of(status_struct(0, None, None)));
    reply[1] = 0x02;
    assert_eq!(decode_reply(&reply, Method::Ping, 5), protocol(ProtocolError::BadVersion));
    reply[1] = 0x01;
    reply[0] = 0x00;
    assert_eq!(decode_reply(&reply, Method::Ping, 5), protocol(ProtocolError::BadVersion));
    assert_eq!(decode_header(&[0, 0, 0, 4], 0), Decoded::Malformed(ProtocolError::BadVersion));
}

#[test]
fn unknown_message_kind_is_an_error() {
    let reply = message(9, "ping", 5, &result_of(status_struct(0, None, None)));
    assert_eq!(decode_reply(&reply, Method::Ping, 5), protocol(ProtocolError::UnknownMessageKind));
}

#[test]
fn name_that_is_not_utf8_is_an_error() {
    let mut reply = vec![0x80, 0x01, 0x00, 0x02, 0, 0, 0, 2, 0xff, 0xfe];
    reply.extend_from_slice(&[0, 0, 0, 5, 0]);
    assert_eq!(decode_reply(&reply, Method::Ping, 5), protocol(ProtocolError::InvalidUtf8));
}

#[test]
fn negative_name_length_is_an_error() {
    let reply = vec![0x80, 0x01, 0x00, 0x02, 0xff, 0xff, 0xff, 0xff];
    assert_eq!(decode_reply(&reply, Method::Ping, 5), protocol(ProtocolError::NegativeLength));
}

#[test]
fn nonzero_status_is_a_reply() {
    for (method, name) in [
        (Method::RegisterExtension, "registerExtension"),
        (Method::DeregisterExtension, "deregisterExtension"),
        (Method::Ping, "ping"),
    ] {
        let reply = message(2, name, 3, &result_of(status_struct(1, Some("failed"), Some(0))));
        assert_eq!(
            decode_reply(&reply, method, 3),
            Outcome::Finished(Ok(Reply::Status(ExtensionStatus {
                code: 1,
                message: Some("failed".to_string()),
                uuid: Some(0)
            })))
        );
    }
    let response = FieldValue::Struct(vec![
        Field { id: 1, value: status_struct(-7, Some("no such table"), None) },
        Field { id: 2, value: FieldValue::ListOf(WireType::MapOf, vec![]) },
    ]);
    let reply = message(2, "query", 3, &result_of(response));
    assert_eq!(
        decode_reply(&reply, Method::Query, 3),
        Outcome::Finished(Ok(Reply::Response(ExtensionResponse {
            status: ExtensionStatus {
                code: -7,
                message: Some("no such table".to_string()),
                uuid: None
            },
            response: vec![]
        })))
    );
}

#[test]
fn query_rows_keep_their_order() {
    let rows = vec![
        row(&[("pid", "1"), ("name", "init")]),
        row(&[]),
        row(&[("pid", "2"), ("name", "kthreadd"), ("name", "again")]),
    ];
    let response = FieldValue::Struct(vec![
        Field { id: 1, value: status_struct(0, Some("OK"), None) },
        Field { id: 2, value: rows_to_value(&rows) },
    ]);
    let reply = message(2, "query", 11, &result_of(response));
    assert_eq!(
        decode_reply(&reply, Method::Query, 11),
        Outcome::Finished(Ok(Reply::Response(ExtensionResponse {
            status: ExtensionStatus { code: 0, message: Some("OK".to_string()), uuid: None },
            response: rows
        })))
    );
}

#[test]
fn unknown_fields_are_ignored() {
    let plain = status_struct(0, Some("OK"), Some(42));
    let expected = ExtensionStatus::from_value(&plain).unwrap();
    assert_eq!(
        expected,
        ExtensionStatus { code: 0, message: Some("OK".to_string()), uuid: Some(42) }
    );
    let extras = [
        FieldValue::I32(99),
        wire_text("later"),
        FieldValue::ListOf(WireType::Struct, vec![FieldValue::Struct(vec![])]),
        FieldValue::MapOf(
            WireType::Binary,
            WireType::Double,
            vec![Entry { key: wire_text("k"), value: FieldValue::Double(7) }],
        ),
    ];
    let mut position = 0;
    for extra in extras {
        let mut fields = vec![
            Field { id: 1, value: FieldValue::I32(0) },
            Field { id: 2, value: wire_text("OK") },
            Field { id: 3, value: FieldValue::I64(42) },
        ];
        fields.insert(position, Field { id: 17, value: extra });
        position += 1;
        let body = FieldValue::Struct(vec![
            Field { id: 5, value: FieldValue::Bool(true) },
            Field { id: 0, value: FieldValue::Struct(fields) },
        ]);
        let reply = message(2, "registerExtension", 1, &body);
        assert_eq!(
            decode_reply(&reply, Method::RegisterExtension, 1),
            Outcome::Finished(Ok(Reply::Status(ExtensionStatus {
                code: 0,
                message: Some("OK".to_string()),
                uuid: Some(42)
            })))
        );
    }
}

#[test]
fn the_last_of_two_fields_with_one_identifier_counts() {
    let fields = vec![
        Field { id: 1, value: FieldValue::I32(1) },
        Field { id: 4, value: FieldValue::Bool(true) },
        Field { id: 1, value: FieldValue::I32(2) },
    ];
    assert_eq!(field_by_id(&fields, 1), Some(&FieldValue::I32(2)));
    assert_eq!(field_by_id(&fields, 4), Some(&FieldValue::Bool(true)));
    assert_eq!(field_by_id(&fields, 2), None);
    assert_eq!(field_by_id(&vec![], 1), None);
}

#[test]
fn wrong_type_of_a_known_field_is_a_mismatch() {
    let code_as_i64 = FieldValue::Struct(vec![Field { id: 1, value: FieldValue::I64(0) }]);
    assert_eq!(ExtensionStatus::from_value(&code_as_i64), Err(ProtocolError::TypeMismatch));
    let message_as_i32 = FieldValue::Struct(vec![
        Field { id: 1, value: FieldValue::I32(0) },
        Field { id: 2, value: FieldValue::I32(0) },
    ]);
    assert_eq!(ExtensionStatus::from_value(&message_as_i32), Err(ProtocolError::TypeMismatch));
    let uuid_as_text = FieldValue::Struct(vec![
        Field { id: 1, value: FieldValue::I32(0) },
        Field { id: 3, value: wire_text("42") },
    ]);
    assert_eq!(ExtensionStatus::from_value(&uuid_as_text), Err(ProtocolError::TypeMismatch));
    assert_eq!(ExtensionStatus::from_value(&FieldValue::I32(0)), Err(ProtocolError::TypeMismatch));
    let reply = message(2, "ping", 1, &result_of(code_as_i64));
    assert_eq!(decode_reply(&reply, Method::Ping, 1), protocol(ProtocolError::TypeMismatch));
    let rows_as_set = FieldValue::Struct(vec![
        Field { id: 1, value: status_struct(0, None, None) },
        Field { id: 2, value: FieldValue::SetOf(WireType::MapOf, vec![]) },
    ]);
    assert_eq!(ExtensionResponse::from_value(&rows_as_set), Err(ProtocolError::TypeMismatch));
    let row_of_numbers = FieldValue::ListOf(
        WireType::MapOf,
        vec![FieldValue::MapOf(
            WireType::Binary,
            WireType::I32,
            vec![Entry { key: wire_text("pid"), value: FieldValue::I32(1) }],
        )],
    );
    assert_eq!(rows_from_value(&row_of_numbers), Err(ProtocolError::TypeMismatch));
    assert_eq!(Row::from_value(&FieldValue::Bool(true)), Err(ProtocolError::TypeMismatch));
    let status_reply_to_query = message(2, "query", 1, &result_of(FieldValue::I32(1)));
    assert_eq!(
        decode_reply(&status_reply_to_query, Method::Query, 1),
        protocol(ProtocolError::TypeMismatch)
    );
}

#[test]
fn missing_required_field_is_an_error() {
    let no_code = FieldValue::Struct(vec![Field { id: 2, value: wire_text("OK") }]);
    assert_eq!(ExtensionStatus::from_value(&no_code), Err(ProtocolError::MissingField));
    let no_rows = FieldValue::Struct(vec![Field { id: 1, value: status_struct(0, None, None) }]);
    assert_eq!(ExtensionResponse::from_value(&no_rows), Err(ProtocolError::MissingField));
    let no_status = FieldValue::Struct(vec![Field {
        id: 2,
        value: FieldValue::ListOf(WireType::MapOf, vec![]),
    }]);
    assert_eq!(ExtensionResponse::from_value(&no_status), Err(ProtocolError::MissingField));
    let no_result = message(2, "ping", 1, &FieldValue::Struct(vec![]));
    assert_eq!(decode_reply(&no_result, Method::Ping, 1), protocol(ProtocolError::MissingField));
}

#[test]
fn text_that_is_not_utf8_is_an_error() {
    assert_eq!(
        text_from_value(&FieldValue::Binary(vec![0xc3, 0x28])),
        Err(ProtocolError::InvalidUtf8)
    );
    assert_eq!(text_from_value(&FieldValue::Binary(vec![0xc3, 0xa9])), Ok("é".to_string()));
    assert_eq!(text_from_value(&FieldValue::Binary(vec![])), Ok(String::new()));
    assert_eq!(text_from_value(&FieldValue::I32(1)), Err(ProtocolError::TypeMismatch));
    assert_eq!(text_to_value("é"), FieldValue::Binary(vec![0xc3, 0xa9]));
    let status = FieldValue::Struct(vec![
        Field { id: 1, value: FieldValue::I32(0) },
        Field { id: 2, value: FieldValue::Binary(vec![0xff]) },
    ]);
    assert_eq!(ExtensionStatus::from_value(&status), Err(ProtocolError::InvalidUtf8));
}

#[test]
fn unknown_type_in_the_body_is_an_error() {
    let mut reply = header(2, "ping", 1);
    reply.extend_from_slice(&[0x10, 0, 1]);
    assert_eq!(decode_reply(&reply, Method::Ping, 1), protocol(ProtocolError::UnknownType));
}

#[test]
fn exception_message_becomes_an_application_exception() {
    let body = FieldValue::Struct(vec![
        Field { id: 1, value: wire_text("Invalid method name: 'query'") },
        Field { id: 2, value: FieldValue::I32(1) },
    ]);
    let reply = message(3, "query", 4, &body);
    assert_eq!(
        decode_reply(&reply, Method::Query, 4),
        Outcome::Finished(Err(RpcError::ApplicationException(ApplicationException {
            message: "Invalid method name: 'query'".to_string(),
            kind: 1
        })))
    );
    let bare = message(3, "query", 4, &FieldValue::Struct(vec![]));
    assert_eq!(
        decode_reply(&bare, Method::Query, 4),
        Outcome::Finished(Err(RpcError::ApplicationException(ApplicationException {
            message: String::new(),
            kind: 0
        })))
    );
    let wrong = FieldValue::Struct(vec![Field { id: 2, value: wire_text("1") }]);
    assert_eq!(ApplicationException::from_value(&wrong), Err(ProtocolError::TypeMismatch));
}

#[test]
fn every_strict_prefix_of_a_reply_is_pending() {
    let rows = vec![row(&[("version", "5.0.1")])];
    let response = FieldValue::Struct(vec![
        Field { id: 1, value: status_struct(0, Some("OK"), None) },
        Field { id: 2, value: rows_to_value(&rows) },
    ]);
    let reply = message(2, "query", 2, &result_of(response));
    for cut in 0..reply.len() {
        assert_eq!(decode_reply(&reply[..cut], Method::Query, 2), Outcome::Pending, "cut {}", cut);
    }
    assert!(matches!(decode_reply(&reply, Method::Query, 2), Outcome::Finished(Ok(_))));
}

#[test]
fn kind_is_checked_before_sequence_and_name() {
    let body = result_of(status_struct(0, None, None));
    assert_eq!(
        decode_reply(&message(1, "query", 8, &body), Method::Ping, 5),
        protocol(ProtocolError::UnexpectedMessageKind)
    );
    assert_eq!(
        decode_reply(&message(2, "query", 8, &body), Method::Ping, 5),
        protocol(ProtocolError::SequenceMismatch)
    );
    assert_eq!(
        decode_reply(&message(3, "ping", 8, &FieldValue::Struct(vec![])), Method::Ping, 5),
        protocol(ProtocolError::SequenceMismatch)
    );
}

#[test]
fn a_row_is_read_as_a_mapping() {
    let r = row(&[("pid", "1"), ("name", "init"), ("pid", "2")]);
    assert_eq!(r.get("pid"), Some(&"2".to_string()));
    assert_eq!(r.get("name"), Some(&"init".to_string()));
    assert_eq!(r.get("uid"), None);
    assert_eq!(row(&[]).get("pid"), None);
    assert_eq!(
        r.to_value(),
        FieldValue::MapOf(
            WireType::Binary,
            WireType::Binary,
            vec![
                Entry { key: wire_text("pid"), value: wire_text("1") },
                Entry { key: wire_text("name"), value: wire_text("init") },
                Entry { key: wire_text("pid"), value: wire_text("2") },
            ]
        )
    );
    assert_eq!(Row::from_value(&r.to_value()), Ok(r));
}

#[test]
fn request_arguments_are_numbered_fields() {
    assert_eq!(Request::Ping.to_args(), FieldValue::Struct(vec![]));
    assert_eq!(
        Request::Deregister { uuid: -1 }.to_args(),
        FieldValue::Struct(vec![Field { id: 1, value: FieldValue::I64(-1) }])
    );
    assert_eq!(
        Request::Query { sql: "x".to_string() }.to_args(),
        FieldValue::Struct(vec![Field { id: 1, value: wire_text("x") }])
    );
    assert_eq!(Request::Ping.method(), Method::Ping);
    assert_eq!(Request::Deregister { uuid: 0 }.method(), Method::DeregisterExtension);
    assert_eq!(Request::Query { sql: String::new() }.method(), Method::Query);
    assert_eq!(
        ExtensionRegistry::empty().to_value(),
        FieldValue::MapOf(WireType::Binary, WireType::MapOf, vec![])
    );
}

#[test]
fn to_bytes_of_a_value() {
    assert_eq!(FieldValue::I32(1).to_bytes(), Some(vec![0, 0, 0, 1]));
    assert_eq!(
        FieldValue::Struct(vec![Field { id: 2, value: wire_text("a") }]).to_bytes(),
        Some(vec![11, 0, 2, 0, 0, 0, 1, b'a', 0])
    );
    assert_eq!(FieldValue::ListOf(WireType::I32, vec![FieldValue::Bool(true)]).to_bytes(), None);
}

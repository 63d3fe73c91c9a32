use iggy_common::login_user::LoginUser;
use iggy_common::BytesSerializable;
use iggy_common::Identifier;
use iggy_dissector::catalog::CommandCatalog;
use iggy_dissector::catalog::CommandDescriptor;
use iggy_dissector::dissector::Dissector;
use iggy_dissector::fault::Fault;
use iggy_dissector::frame::Direction;
use iggy_dissector::payload::decode_payload;
use iggy_dissector::payload::Field;
use iggy_dissector::payload::FieldDef;
use iggy_dissector::payload::Schema;
use iggy_dissector::payload::Value;
use iggy_dissector::wire::read_u32_le;
use iggy_dissector::wire::read_u64_le;
use iggy_dissector::wire::read_u8;

fn field(name: &'static str, value: Value) -> Field {
    Field { name, value }
}

fn text(name: &'static str, value: &str) -> Field {
    field(name, Value::Text(value.to_string()))
}

fn truncated(name: &'static str) -> Field {
    field(name, Value::Fault(Fault::TruncatedPayload))
}

fn login_request() -> Schema {
    CommandDescriptor::login_user().request
}

fn create_topic_request() -> Schema {
    CommandDescriptor::create_topic().request
}

#[test]
fn integers_are_little_endian() {
    let bytes = [0x01, 0x02, 0x03, 0x04, 0x05, 0x06, 0x07, 0x08, 0x09];
    assert_eq!(read_u8(&bytes, 0), Some(0x01));
    assert_eq!(read_u8(&bytes, 8), Some(0x09));
    assert_eq!(read_u8(&bytes, 9), None);
    assert_eq!(read_u32_le(&bytes, 0), Some(0x0403_0201));
    assert_eq!(read_u32_le(&bytes, 5), Some(0x0908_0706));
    assert_eq!(read_u32_le(&bytes, 6), None);
    assert_eq!(read_u32_le(&[0xff, 0xff, 0xff, 0xff], 0), Some(u32::MAX));
    assert_eq!(read_u64_le(&bytes, 0), Some(0x0807_0605_0403_0201));
    assert_eq!(read_u64_le(&bytes, 1), Some(0x0908_0706_0504_0302));
    assert_eq!(read_u64_le(&bytes, 2), None);
    assert_eq!(read_u64_le(&[0xff; 8], 0), Some(u64::MAX));
    assert_eq!(read_u32_le(&bytes, usize::MAX), None);
    assert_eq!(read_u64_le(&bytes, usize::MAX - 3), None);
}

#[test]
fn empty_schema_gives_no_fields() {
    assert!(decode_payload(&Schema::empty(), &[]).is_empty());
    assert!(decode_payload(&Schema::empty(), &[1, 2, 3]).is_empty());
    assert!(decode_payload(&CommandDescriptor::ping().request, &[]).is_empty());
    assert!(decode_payload(&CommandDescriptor::get_stats().response, &[]).is_empty());
}

#[test]
fn login_user_request_decodes_what_the_client_encodes() {
    let command = LoginUser {
        username: "testuser".to_string(),
        password: "testpass".to_string(),
        version: Some("1.0.0".to_string()),
        context: Some("test".to_string()),
    };
    let fields = decode_payload(&login_request(), &command.to_bytes());
    assert_eq!(
        fields,
        vec![
            field("username_len", Value::U8(8)),
            text("username", "testuser"),
            field("password_len", Value::U8(8)),
            text("password", "testpass"),
            field("version_len", Value::U32(5)),
            text("version", "1.0.0"),
            field("context_len", Value::U32(4)),
            text("context", "test"),
        ]
    );
}

#[test]
fn login_user_request_with_absent_version_and_context() {
    let command = LoginUser {
        username: "üser".to_string(),
        password: "pässword".to_string(),
        version: None,
        context: None,
    };
    let fields = decode_payload(&login_request(), &command.to_bytes());
    assert_eq!(
        fields,
        vec![
            field("username_len", Value::U8(5)),
            text("username", "üser"),
            field("password_len", Value::U8(9)),
            text("password", "pässword"),
            field("version_len", Value::U32(0)),
            text("version", ""),
            field("context_len", Value::U32(0)),
            text("context", ""),
        ]
    );
}

#[test]
fn optional_trailing_fields_may_be_absent() {
    let payload = [3, b'a', b'b', b'c', 2, b'p', b'w'];
    let fields = decode_payload(&login_request(), &payload);
    assert_eq!(
        fields,
        vec![
            field("username_len", Value::U8(3)),
            text("username", "abc"),
            field("password_len", Value::U8(2)),
            text("password", "pw"),
        ]
    );
    let mut with_version = payload.to_vec();
    with_version.extend_from_slice(&[1, 0, 0, 0, b'7']);
    let fields = decode_payload(&login_request(), &with_version);
    assert_eq!(fields.len(), 6);
    assert_eq!(fields[4], field("version_len", Value::U32(1)));
    assert_eq!(fields[5], text("version", "7"));
}

#[test]
fn payload_shorter_than_its_schema_is_marked_truncated() {
    assert_eq!(decode_payload(&login_request(), &[]), vec![truncated("username_len")]);
    assert_eq!(
        decode_payload(&login_request(), &[4, b'i', b'g']),
        vec![field("username_len", Value::U8(4)), truncated("username")]
    );
    assert_eq!(
        decode_payload(&login_request(), &[2, b'i', b'g']),
        vec![
            field("username_len", Value::U8(2)),
            text("username", "ig"),
            truncated("password_len")
        ]
    );
    assert_eq!(
        decode_payload(&login_request(), &[1, b'i', 1, b'g', 5, 0]),
        vec![
            field("username_len", Value::U8(1)),
            text("username", "i"),
            field("password_len", Value::U8(1)),
            text("password", "g"),
            truncated("version_len")
        ]
    );
    assert_eq!(
        decode_payload(&login_request(), &[1, b'i', 1, b'g', 5, 0, 0, 0, b'1', b'.']),
        vec![
            field("username_len", Value::U8(1)),
            text("username", "i"),
            field("password_len", Value::U8(1)),
            text("password", "g"),
            field("version_len", Value::U32(5)),
            truncated("version")
        ]
    );
    assert_eq!(
        decode_payload(&CommandDescriptor::login_user().response, &[1, 0, 0]),
        vec![truncated("user_id")]
    );
    assert_eq!(
        decode_payload(&CommandDescriptor::login_user().response, &[]),
        vec![truncated("user_id")]
    );
}

#[test]
fn text_length_of_four_bytes_may_exceed_the_payload() {
    let payload = [0, 0, 0xff, 0xff, 0xff, 0xff, b'x'];
    assert_eq!(
        decode_payload(&login_request(), &payload),
        vec![
            field("username_len", Value::U8(0)),
            text("username", ""),
            field("password_len", Value::U8(0)),
            text("password", ""),
            field("version_len", Value::U32(u32::MAX)),
            truncated("version")
        ]
    );
}

#[test]
fn invalid_utf8_marks_one_field_and_leaves_its_siblings() {
    let payload = [2, 0xff, 0xfe, 2, b'o', b'k', 1, 0, 0, 0, 0xc0];
    assert_eq!(
        decode_payload(&login_request(), &payload),
        vec![
            field("username_len", Value::U8(2)),
            field("username", Value::Fault(Fault::InvalidEncoding)),
            field("password_len", Value::U8(2)),
            text("password", "ok"),
            field("version_len", Value::U32(1)),
            field("version", Value::Fault(Fault::InvalidEncoding)),
        ]
    );
}

#[test]
fn user_id_of_login_response() {
    assert_eq!(
        decode_payload(&CommandDescriptor::login_user().response, &[0x2a, 0, 0, 1]),
        vec![field("user_id", Value::U32(0x0100_002a))]
    );
    assert_eq!(
        decode_payload(&CommandDescriptor::login_user().response, &[1, 0, 0, 0, 9, 9]),
        vec![field("user_id", Value::U32(1))]
    );
}

#[test]
fn identifier_kinds() {
    let mut named = Identifier::named("stream").unwrap().to_bytes().to_vec();
    named.extend_from_slice(&[1, b't', 4, 0, 0, 0, 2]);
    named.extend_from_slice(&[1, 0, 0, 0, 0, 0, 0, 0]);
    named.extend_from_slice(&[0xff; 8]);
    named.extend_from_slice(&[3, 7, 0, 0, 0]);
    assert_eq!(
        decode_payload(&create_topic_request(), &named),
        vec![
            field("stream_id_kind", Value::U8(2)),
            field("stream_id_len", Value::U8(6)),
            text("stream_id_value", "stream"),
            field("name_len", Value::U8(1)),
            text("name", "t"),
            field("partitions_count", Value::U32(4)),
            field("compression_algorithm", Value::U8(2)),
            field("message_expiry", Value::U64(1)),
            field("max_topic_size", Value::U64(u64::MAX)),
            field("replication_factor", Value::U8(3)),
            field("topic_id", Value::U32(7)),
        ]
    );
    let numeric = Identifier::numeric(0x0102_0304).unwrap().to_bytes();
    let fields = decode_payload(&create_topic_request(), &numeric);
    assert_eq!(
        fields,
        vec![
            field("stream_id_kind", Value::U8(1)),
            field("stream_id_len", Value::U8(4)),
            field("stream_id_value", Value::U32(0x0102_0304)),
            truncated("name_len"),
        ]
    );
    assert_eq!(
        decode_payload(&create_topic_request(), &[9, 2, 0xaa, 0xbb, 0]),
        vec![
            field("stream_id_kind", Value::U8(9)),
            field("stream_id_len", Value::U8(2)),
            field("stream_id_value", Value::Fault(Fault::InvalidEncoding)),
            field("name_len", Value::U8(0)),
            text("name", ""),
            truncated("partitions_count"),
        ]
    );
}

#[test]
fn truncated_identifiers() {
    assert_eq!(decode_payload(&create_topic_request(), &[]), vec![truncated("stream_id_kind")]);
    assert_eq!(
        decode_payload(&create_topic_request(), &[2]),
        vec![field("stream_id_kind", Value::U8(2)), truncated("stream_id_len")]
    );
    assert_eq!(
        decode_payload(&create_topic_request(), &[2, 3, b'a', b'b']),
        vec![
            field("stream_id_kind", Value::U8(2)),
            field("stream_id_len", Value::U8(3)),
            truncated("stream_id_value")
        ]
    );
    assert_eq!(
        decode_payload(&create_topic_request(), &[1, 4, 1, 0, 0]),
        vec![
            field("stream_id_kind", Value::U8(1)),
            field("stream_id_len", Value::U8(4)),
            truncated("stream_id_value")
        ]
    );
}

#[test]
fn create_topic_optional_fields() {
    let mut payload = vec![1, 4, 5, 0, 0, 0, 2, b't', b'p', 3, 0, 0, 0, 1];
    payload.extend_from_slice(&60u64.to_le_bytes());
    payload.extend_from_slice(&1000u64.to_le_bytes());
    let fields = decode_payload(&create_topic_request(), &payload);
    assert_eq!(fields.len(), 9);
    assert_eq!(fields[8], field("max_topic_size", Value::U64(1000)));
    payload.push(2);
    let fields = decode_payload(&create_topic_request(), &payload);
    assert_eq!(fields.len(), 10);
    assert_eq!(fields[9], field("replication_factor", Value::U8(2)));
    payload.extend_from_slice(&[1, 0]);
    let fields = decode_payload(&create_topic_request(), &payload);
    assert_eq!(fields.len(), 11);
    assert_eq!(fields[10], truncated("topic_id"));
}

#[test]
fn create_topic_response_fields() {
    let mut payload = Vec::new();
    payload.extend_from_slice(&3u32.to_le_bytes());
    payload.extend_from_slice(&0x0102_0304_0506_0708u64.to_le_bytes());
    payload.push(6);
    payload.extend_from_slice(b"orders");
    payload.extend_from_slice(&12u32.to_le_bytes());
    payload.extend_from_slice(&4096u64.to_le_bytes());
    payload.extend_from_slice(&77u64.to_le_bytes());
    assert_eq!(
        decode_payload(&CommandDescriptor::create_topic().response, &payload),
        vec![
            field("topic_id", Value::U32(3)),
            field("created_at", Value::U64(0x0102_0304_0506_0708)),
            field("name_len", Value::U8(6)),
            text("name", "orders"),
            field("partitions_count", Value::U32(12)),
            field("size", Value::U64(4096)),
            field("messages_count", Value::U64(77)),
        ]
    );
    payload.truncate(payload.len() - 1);
    let fields = decode_payload(&CommandDescriptor::create_topic().response, &payload);
    assert_eq!(fields.len(), 7);
    assert_eq!(fields[6], truncated("messages_count"));
}

#[test]
fn required_beyond_the_schema_counts_as_all_required() {
    let schema = Schema { fields: vec![FieldDef::U8 { name: "a" }], required: 5 };
    assert_eq!(decode_payload(&schema, &[]), vec![truncated("a")]);
    assert_eq!(decode_payload(&schema, &[1, 2]), vec![field("a", Value::U8(1))]);
    let optional = Schema { fields: vec![FieldDef::U8 { name: "a" }], required: 0 };
    assert!(decode_payload(&optional, &[]).is_empty());
}

#[test]
fn standard_catalog_holds_the_four_commands() {
    let catalog = CommandCatalog::standard();
    assert_eq!(catalog.lookup(1), Some(&CommandDescriptor::ping()));
    assert_eq!(catalog.lookup(10), Some(&CommandDescriptor::get_stats()));
    assert_eq!(catalog.lookup(38), Some(&CommandDescriptor::login_user()));
    assert_eq!(catalog.lookup(302), Some(&CommandDescriptor::create_topic()));
    assert_eq!(catalog.lookup(38).unwrap().name, "LoginUser");
    assert_eq!(catalog.lookup(302).unwrap().name, "CreateTopic");
    assert_eq!(catalog.lookup(0), None);
    assert_eq!(catalog.lookup(2), None);
    assert_eq!(catalog.lookup(9999), None);
    assert_eq!(CommandCatalog::empty().lookup(1), None);
}

#[test]
fn catalog_takes_new_commands_and_replaces_old_ones() {
    let mut catalog = CommandCatalog::standard();
    let logout = CommandDescriptor {
        code: 39,
        name: "LogoutUser",
        request: Schema::empty(),
        response: Schema::empty(),
    };
    catalog.register(logout.clone());
    assert_eq!(catalog.lookup(39), Some(&logout));
    assert_eq!(catalog.lookup(38), Some(&CommandDescriptor::login_user()));
    let get_stream = CommandDescriptor {
        code: 200,
        name: "GetStream",
        request: Schema {
            fields: vec![FieldDef::Identifier {
                kind_name: "stream_id_kind",
                len_name: "stream_id_len",
                value_name: "stream_id_value",
            }],
            required: 1,
        },
        response: Schema {
            fields: vec![
                FieldDef::U32 { name: "id" },
                FieldDef::U64 { name: "created_at" },
                FieldDef::U32 { name: "topics_count" },
            ],
            required: 3,
        },
    };
    catalog.register(get_stream);
    let ping = CommandDescriptor {
        code: 1,
        name: "Ping",
        request: Schema::empty(),
        response: Schema { fields: vec![FieldDef::U8 { name: "pong" }], required: 0 },
    };
    catalog.register(ping.clone());
    assert_eq!(catalog.lookup(1), Some(&ping));

    let mut dissector = Dissector::new(catalog, 4096);
    let mut request = vec![10, 0, 0, 0, 200, 0, 0, 0];
    request.extend_from_slice(&Identifier::numeric(9).unwrap().to_bytes());
    let dissection = dissector.on_bytes(Direction::Request, &request);
    assert_eq!(dissection.messages.len(), 1);
    assert_eq!(dissection.messages[0].command_name, Some("GetStream"));
    assert_eq!(dissection.messages[0].fields[2], field("stream_id_value", Value::U32(9)));
    let mut response = vec![0, 0, 0, 0, 16, 0, 0, 0];
    response.extend_from_slice(&9u32.to_le_bytes());
    response.extend_from_slice(&5u64.to_le_bytes());
    response.extend_from_slice(&2u32.to_le_bytes());
    let dissection = dissector.on_bytes(Direction::Response, &response);
    assert_eq!(dissection.messages[0].command_name, Some("GetStream"));
    assert_eq!(
        dissection.messages[0].fields,
        vec![
            field("id", Value::U32(9)),
            field("created_at", Value::U64(5)),
            field("topics_count", Value::U32(2)),
        ]
    );
    assert_eq!(dissector.catalog().lookup(39).unwrap().name, "LogoutUser");
}

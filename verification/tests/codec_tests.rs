use ws_messaging::codec::{encode_message, parse_broker_message};
use ws_messaging::codec::decode_binary_message;
use ws_messaging::hex;
use ws_messaging::message::BrokerMessage;
use ws_messaging::provider::WebSocketMessagingProvider;

#[test]
fn test_parse_broker_message() {
    let json = r#"{"subject": "test.topic", "body": "hello", "reply_to": "session-123"}"#;
    let msg = parse_broker_message(json, "sess-1");
    assert_eq!(msg.subject, "test.topic");
    assert_eq!(msg.reply_to, Some("session-123".to_string()));
}

#[test]
fn test_parse_broker_message_no_reply() {
    let json = r#"{"subject": "test.topic", "body": "hello"}"#;
    let msg = parse_broker_message(json, "sess-1");
    assert_eq!(msg.subject, "test.topic");
    assert_eq!(msg.reply_to, Some("sess-1".to_string()));
}

#[test]
fn test_parse_broker_message_wraps_non_json() {
    let msg = parse_broker_message("not json at all", "sess-1");
    assert_eq!(msg.subject, "message");
    assert_eq!(msg.body, b"not json at all".to_vec());
    assert_eq!(msg.reply_to, Some("sess-1".to_string()));
}

#[test]
fn test_message_parsing() {
    let json_msg = r#"{"subject": "test.topic", "body": "hello world", "reply_to": "sess-123"}"#;
    let parsed = WebSocketMessagingProvider::parse_message_static(json_msg, "default-session");

    assert_eq!(parsed.subject, "test.topic");
    assert_eq!(parsed.reply_to, Some("sess-123".to_string()));

    let plain_msg = "plain text message";
    let parsed_plain =
        WebSocketMessagingProvider::parse_message_static(plain_msg, "default-session");

    assert_eq!(parsed_plain.subject, "message");
    assert_eq!(parsed_plain.reply_to, Some("default-session".to_string()));
}

#[test]
fn test_message_encoding() {
    let msg = BrokerMessage {
        subject: "test.subject".to_string(),
        body: b"test body".to_vec(),
        reply_to: Some("session-xyz".to_string()),
    };

    let text = WebSocketMessagingProvider::encode_message_static(&msg);

    let json: serde_json::Value = serde_json::from_str(&text).unwrap();
    assert_eq!(json["subject"], "test.subject");
    assert_eq!(json["reply_to"], "session-xyz");
    assert!(json.get("body").is_some());
}

#[test]
fn test_message_creation() {
    let message = BrokerMessage {
        subject: "test.subject".to_string(),
        body: b"test payload".to_vec(),
        reply_to: Some("reply.subject".to_string()),
    };

    assert_eq!(message.subject, "test.subject");
    assert_eq!(message.body, b"test payload".to_vec());
    assert_eq!(message.reply_to, Some("reply.subject".to_string()));
}

#[test]
fn test_reply_to_handling() {
    let msg = BrokerMessage {
        subject: "test.request".to_string(),
        body: b"request data".to_vec(),
        reply_to: Some("session-123".to_string()),
    };
    assert_eq!(msg.reply_to, Some("session-123".to_string()));

    let msg2 = BrokerMessage {
        subject: "test.publish".to_string(),
        body: b"publish data".to_vec(),
        reply_to: None,
    };
    assert_eq!(msg2.reply_to, None);
}

#[test]
fn test_hex_codec() {
    assert_eq!(hex::encode(&vec![0xde, 0xad, 0xbe, 0xef]), "deadbeef");
    assert_eq!(hex::encode(&Vec::new()), "");
    assert_eq!(hex::hex_to_bytes("deadbeef"), Some(vec![0xde, 0xad, 0xbe, 0xef]));
    assert_eq!(hex::hex_to_bytes("DEADBEEF"), Some(vec![0xde, 0xad, 0xbe, 0xef]));
    assert_eq!(hex::hex_to_bytes("abc"), None);
    assert_eq!(hex::hex_to_bytes("zz"), None);
}

#[test]
fn test_encoded_frame_exact_text() {
    let msg = BrokerMessage {
        subject: "t".to_string(),
        body: b"hi".to_vec(),
        reply_to: None,
    };
    assert_eq!(
        encode_message(&msg),
        r#"{"subject":"t","body":"6869","reply_to":null}"#
    );

    let with_reply = BrokerMessage {
        subject: "t".to_string(),
        body: Vec::new(),
        reply_to: Some("s-1".to_string()),
    };
    assert_eq!(
        encode_message(&with_reply),
        r#"{"subject":"t","body":"","reply_to":"s-1"}"#
    );
}

#[test]
fn test_round_trip_through_real_parser() {
    let msg = BrokerMessage {
        subject: "t".to_string(),
        body: b"hi".to_vec(),
        reply_to: Some("r-1".to_string()),
    };
    let frame = encode_message(&msg);
    let back = parse_broker_message(&frame, "other-session");
    assert_eq!(back.subject, "t");
    assert_eq!(back.body, b"hi".to_vec());
    assert_eq!(back.reply_to, Some("r-1".to_string()));
}

#[test]
fn test_round_trip_escaped_subject() {
    let msg = BrokerMessage {
        subject: "a\"b\\c\nd".to_string(),
        body: vec![0, 1, 254, 255],
        reply_to: None,
    };
    let frame = encode_message(&msg);
    let back = parse_broker_message(&frame, "sess-9");
    assert_eq!(back.subject, "a\"b\\c\nd");
    assert_eq!(back.body, vec![0, 1, 254, 255]);
    assert_eq!(back.reply_to, Some("sess-9".to_string()));
}

#[test]
fn test_body_array_items_truncated() {
    let msg = parse_broker_message(r#"{"subject":"a","body":[104,105,300]}"#, "s");
    assert_eq!(msg.body, vec![104, 105, 44]);

    let mixed = parse_broker_message(r#"{"subject":"a","body":[104,"x",105,-3,1.5]}"#, "s");
    assert_eq!(mixed.body, vec![104, 105]);
}

#[test]
fn test_body_string_hex_or_passthrough() {
    let hexed = parse_broker_message(r#"{"subject":"a","body":"6869"}"#, "s");
    assert_eq!(hexed.body, b"hi".to_vec());

    let raw = parse_broker_message(r#"{"subject":"a","body":"hello"}"#, "s");
    assert_eq!(raw.body, b"hello".to_vec());

    let upper = parse_broker_message(r#"{"subject":"a","body":"6A"}"#, "s");
    assert_eq!(upper.body, vec![0x6a]);
}

#[test]
fn test_duplicate_copies_every_field() {
    let msg = BrokerMessage {
        subject: "s".to_string(),
        body: vec![1, 2, 3],
        reply_to: Some("r".to_string()),
    };
    let copy = msg.duplicate();
    assert_eq!(copy.subject, msg.subject);
    assert_eq!(copy.body, msg.body);
    assert_eq!(copy.reply_to, msg.reply_to);

    let info = ws_messaging::session::SessionInfo::new("sess-1".to_string(), 42);
    let info2 = info.duplicate();
    assert_eq!(info2.session_id, "sess-1");
    assert_eq!(info2.connected_at, 42);
}

#[test]
fn test_missing_fields_take_defaults() {
    let msg = parse_broker_message(r#"{"other": 5}"#, "sess-2");
    assert_eq!(msg.subject, "default");
    assert_eq!(msg.body, br#"{"other": 5}"#.to_vec());
    assert_eq!(msg.reply_to, Some("sess-2".to_string()));

    let non_obj = parse_broker_message("[1,2,3]", "sess-3");
    assert_eq!(non_obj.subject, "default");
    assert_eq!(non_obj.body, b"[1,2,3]".to_vec());
    assert_eq!(non_obj.reply_to, Some("sess-3".to_string()));
}

#[test]
fn test_binary_frames() {
    let not_utf8 = decode_binary_message(vec![0xff, 0xfe, 0x00], "sess-b");
    assert_eq!(not_utf8.subject, "binary.message");
    assert_eq!(not_utf8.body, vec![0xff, 0xfe, 0x00]);
    assert_eq!(not_utf8.reply_to, Some("sess-b".to_string()));

    let utf8_json = decode_binary_message(br#"{"subject":"bin","body":"6869"}"#.to_vec(), "sess-b");
    assert_eq!(utf8_json.subject, "bin");
    assert_eq!(utf8_json.body, b"hi".to_vec());
}

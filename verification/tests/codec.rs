use bililive::packet::{Auth, Data, Operation, RawPacket};
use std::io::Write;

fn frame_bytes(proto_code: u16, opcode: u32, body: &[u8]) -> Vec<u8> {
    let size = (16 + body.len()) as u32;
    let mut v = Vec::new();
    v.extend_from_slice(&size.to_be_bytes());
    v.extend_from_slice(&16u16.to_be_bytes());
    v.extend_from_slice(&proto_code.to_be_bytes());
    v.extend_from_slice(&opcode.to_be_bytes());
    v.extend_from_slice(&1u32.to_be_bytes());
    v.extend_from_slice(body);
    v
}

fn make_frame(proto_code: u16, body: &[u8]) -> RawPacket {
    RawPacket::from_buffer(&frame_bytes(proto_code, 5, body))
}

fn compress(data: &[u8]) -> Vec<u8> {
    let mut writer = brotli::CompressorWriter::new(Vec::new(), 4096, 5, 22);
    writer.write_all(data).unwrap();
    writer.flush().unwrap();
    writer.into_inner()
}

#[test]
fn round_trip_encode_serialize_parse() {
    let frame = RawPacket::build(Operation::SendMsg, b"hello world".to_vec());
    let expected = frame.clone();
    let bytes = frame.ser();
    let parsed = RawPacket::from_buffer(&bytes);
    assert_eq!(parsed, expected);
}

#[test]
fn round_trip_empty_body() {
    let frame = RawPacket::build(Operation::Heartbeat, Vec::new());
    let expected = frame.clone();
    let parsed = RawPacket::from_buffer(&frame.ser());
    assert_eq!(parsed, expected);
}

#[test]
fn heartbeat_serializes_to_fixed_bytes() {
    let bytes = RawPacket::heartbeat().ser();
    let mut expected = vec![0u8, 0, 0, 31, 0, 16, 0, 1, 0, 0, 0, 2, 0, 0, 0, 1];
    expected.extend_from_slice(b"[object Object]");
    assert_eq!(bytes.len(), 31);
    assert_eq!(bytes, expected);
}

#[test]
fn popularity_counter_decodes() {
    let datas = make_frame(1, &[0x00, 0x00, 0x00, 0x2A]).get_datas();
    assert_eq!(datas.len(), 1);
    assert!(matches!(datas[0], Data::Popularity(42)));
}

#[test]
fn popularity_ignores_extra_bytes() {
    let datas = make_frame(1, &[0x00, 0x00, 0x01, 0x00, 0xFF, 0xFF]).get_datas();
    assert_eq!(datas.len(), 1);
    assert!(matches!(datas[0], Data::Popularity(256)));
}

#[test]
fn truncated_popularity_body_decodes_to_nothing() {
    assert!(make_frame(1, &[0x00, 0x2A]).get_datas().is_empty());
    assert!(make_frame(1, &[]).get_datas().is_empty());
}

#[test]
fn structured_body_decodes_to_json_bytes() {
    let datas = make_frame(0, br#"{"cmd":"DANMU_MSG"}"#).get_datas();
    assert_eq!(datas.len(), 1);
    match &datas[0] {
        Data::Json(b) => assert_eq!(b.as_slice(), br#"{"cmd":"DANMU_MSG"}"#),
        other => panic!("expected a structured payload, got {:?}", other),
    }
}

#[test]
fn garbage_structured_body_decodes_to_nothing() {
    assert!(make_frame(0, b"not json at all {").get_datas().is_empty());
    assert!(make_frame(0, &[0xFF, 0xFE, 0x00]).get_datas().is_empty());
}

#[test]
fn legacy_compressed_body_decodes_to_nothing() {
    assert!(make_frame(2, b"anything").get_datas().is_empty());
}

#[test]
fn unsupported_payload_kind_decodes_to_nothing() {
    assert!(make_frame(7, b"whatever").get_datas().is_empty());
    assert!(make_frame(255, &[]).get_datas().is_empty());
}

#[test]
fn garbage_compressed_body_decodes_to_nothing() {
    assert!(make_frame(3, b"definitely not brotli").get_datas().is_empty());
}

#[test]
fn nested_compressed_frames_decode_in_order() {
    let mut concat = frame_bytes(0, 5, br#"{"a":1}"#);
    concat.extend_from_slice(&frame_bytes(0, 5, br#"{"b":2}"#));
    let datas = make_frame(3, &compress(&concat)).get_datas();
    assert_eq!(datas.len(), 2);
    match (&datas[0], &datas[1]) {
        (Data::Json(a), Data::Json(b)) => {
            assert_eq!(a.as_slice(), br#"{"a":1}"#);
            assert_eq!(b.as_slice(), br#"{"b":2}"#);
        }
        other => panic!("expected two structured payloads, got {:?}", other),
    }
}

#[test]
fn doubly_nested_compression_unfolds() {
    let inner = frame_bytes(1, 3, &[0, 0, 0, 9]);
    let level_one = frame_bytes(3, 5, &compress(&inner));
    let datas = make_frame(3, &compress(&level_one)).get_datas();
    assert_eq!(datas.len(), 1);
    assert!(matches!(datas[0], Data::Popularity(9)));
}

#[test]
fn compressed_bundle_with_malformed_tail_keeps_leading_frames() {
    let mut concat = frame_bytes(1, 3, &[0, 0, 0, 1]);
    concat.extend_from_slice(&[0, 0, 0, 2]);
    let datas = make_frame(3, &compress(&concat)).get_datas();
    assert_eq!(datas.len(), 1);
    assert!(matches!(datas[0], Data::Popularity(1)));
}

#[test]
fn auth_message_serializes_to_json() {
    let auth = Auth::new(0, 510, Some(String::from("SECRET-REDACTED")));
    let expected: &[u8] =
        br#"{"uid":0,"roomid":510,"protover":3,"platform":"web","type":2,"key":"SECRET-REDACTED"}"#;
    assert_eq!(auth.ser(), expected.to_vec());
}

#[test]
fn auth_message_without_token_writes_null() {
    let auth = Auth::new(7, 42, None);
    let expected: &[u8] =
        br#"{"uid":7,"roomid":42,"protover":3,"platform":"web","type":2,"key":null}"#;
    assert_eq!(auth.ser(), expected.to_vec());
}

#[test]
fn auth_message_escapes_token_characters() {
    let auth = Auth::new(1, 2, Some(String::from("a\"b\\c\nd")));
    let expected: &[u8] =
        b"{\"uid\":1,\"roomid\":2,\"protover\":3,\"platform\":\"web\",\"type\":2,\"key\":\"a\\\"b\\\\c\\u000ad\"}";
    assert_eq!(auth.ser(), expected.to_vec());
}

#[test]
fn large_ids_render_in_decimal() {
    let auth = Auth::new(u64::MAX, 1234567890, None);
    let expected = format!(
        "{{\"uid\":{},\"roomid\":1234567890,\"protover\":3,\"platform\":\"web\",\"type\":2,\"key\":null}}",
        u64::MAX
    );
    assert_eq!(auth.ser(), expected.into_bytes());
}

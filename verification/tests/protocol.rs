use std::collections::BTreeMap;

use bytes::BytesMut;
use clipchamp::buffer::buffer_len;
use clipchamp::protocol::{content_hash, CodecError, MessageCodec, DEFAULT_MAX_FRAME_SIZE, PROTOCOL_VERSION};
use serde::de::DeserializeOwned;
use serde::Serialize;
use uuid::Uuid;

/// An externally tagged enum variant with fields, as serde's derive writes
/// it: a one-entry map from the variant's name to its fields.
fn variant<T>(name: &str, fields: T) -> BTreeMap<String, T> {
    let mut m = BTreeMap::new();
    m.insert(name.to_string(), fields);
    m
}

/// Frames the MessagePack form of `msg`, reads the frame back, and checks
/// that the payload decodes to a value with the same encoding.
fn roundtrip<T: Serialize + DeserializeOwned>(msg: T) {
    let payload = rmp_serde::to_vec(&msg).unwrap();
    let mut codec = MessageCodec::default();
    let mut buf = BytesMut::new();
    codec.encode(&payload, &mut buf).unwrap();
    let decoded = codec.decode(&mut buf).unwrap().unwrap();
    let back: T = rmp_serde::from_slice(&decoded).unwrap();
    let re_encoded = rmp_serde::to_vec(&back).unwrap();
    let orig_encoded = rmp_serde::to_vec(&msg).unwrap();
    assert_eq!(orig_encoded, re_encoded);
    assert!(buf.is_empty());
}

#[test]
fn test_hello_roundtrip() {
    roundtrip(variant("Hello", (Uuid::new_v4(), PROTOCOL_VERSION)));
}

#[test]
fn test_clipboard_update_roundtrip() {
    let data = b"hello world".to_vec();
    let hash = content_hash(&data);
    roundtrip(variant("ClipboardUpdate", ("Text".to_string(), data, hash, Uuid::new_v4())));
}

#[test]
fn test_ping_pong_roundtrip() {
    roundtrip("Ping".to_string());
    roundtrip("Pong".to_string());
}

#[test]
fn test_history_roundtrip() {
    roundtrip(variant("HistoryRequest", (10usize,)));
    roundtrip(variant(
        "HistoryResponse",
        (vec![(1usize, "Text".to_string(), [0u8; 32], Uuid::new_v4(), "hello...".to_string(), 11usize, 1234567890u64)],),
    ));
}

#[test]
fn test_partial_frame() {
    let mut codec = MessageCodec::default();
    let mut full = BytesMut::new();
    codec.encode(&rmp_serde::to_vec("Ping").unwrap(), &mut full).unwrap();

    let mut partial = full.split_to(2);
    assert!(codec.decode(&mut partial).unwrap().is_none());

    partial.extend_from_slice(&full);
    let decoded = codec.decode(&mut partial).unwrap();
    assert!(decoded.is_some());
}

#[test]
fn frame_header_is_big_endian_length() {
    let mut codec = MessageCodec::new(1024);
    let mut buf = BytesMut::new();
    let payload = vec![7u8; 258];
    codec.encode(&payload, &mut buf).unwrap();
    assert_eq!(&buf[..4], &[0, 0, 1, 2]);
    assert_eq!(buf.len(), 262);
    assert_eq!(buffer_len(&buf), 262);
    assert_eq!(&buf[4..], &payload[..]);
}

#[test]
fn encode_appends_to_existing_bytes() {
    let mut codec = MessageCodec::new(16);
    let mut buf = BytesMut::from(&b"xy"[..]);
    codec.encode(b"abc", &mut buf).unwrap();
    assert_eq!(&buf[..], b"xy\x00\x00\x00\x03abc");
}

#[test]
fn encode_rejects_oversized_payload() {
    let mut codec = MessageCodec::new(4);
    let mut buf = BytesMut::from(&b"keep"[..]);
    let r = codec.encode(b"12345", &mut buf);
    assert_eq!(r, Err(CodecError::MessageTooLarge { size: 5 }));
    assert_eq!(&buf[..], b"keep");
    assert_eq!(codec.encode(b"1234", &mut buf), Ok(()));
}

#[test]
fn decode_rejects_oversized_header() {
    let mut codec = MessageCodec::new(4);
    let mut buf = BytesMut::from(&[0u8, 0, 0, 5, 1, 2, 3, 4, 5][..]);
    assert_eq!(codec.decode(&mut buf).unwrap_err(), CodecError::FrameTooLarge { length: 5 });
    assert_eq!(buf.len(), 9);
}

#[test]
fn decode_waits_for_header_and_body() {
    let mut codec = MessageCodec::default();
    let mut buf = BytesMut::from(&[0u8, 0, 0][..]);
    assert!(codec.decode(&mut buf).unwrap().is_none());
    assert_eq!(&buf[..], &[0, 0, 0]);
    buf.extend_from_slice(&[3, 9, 9]);
    assert!(codec.decode(&mut buf).unwrap().is_none());
    assert_eq!(&buf[..], &[0, 0, 0, 3, 9, 9]);
    buf.extend_from_slice(&[9]);
    let p = codec.decode(&mut buf).unwrap().unwrap();
    assert_eq!(&p[..], &[9, 9, 9]);
    assert!(buf.is_empty());
}

#[test]
fn decode_takes_one_frame_and_leaves_the_next() {
    let mut codec = MessageCodec::default();
    let mut buf = BytesMut::new();
    codec.encode(b"first", &mut buf).unwrap();
    codec.encode(b"", &mut buf).unwrap();
    codec.encode(b"third", &mut buf).unwrap();
    assert_eq!(&codec.decode(&mut buf).unwrap().unwrap()[..], b"first");
    assert_eq!(&codec.decode(&mut buf).unwrap().unwrap()[..], b"");
    assert_eq!(&codec.decode(&mut buf).unwrap().unwrap()[..], b"third");
    assert!(codec.decode(&mut buf).unwrap().is_none());
}

#[test]
fn default_codec_limit_is_16_mib() {
    assert_eq!(DEFAULT_MAX_FRAME_SIZE, 16 * 1024 * 1024);
    let mut codec = MessageCodec::default();
    let mut buf = BytesMut::from(&[1u8, 0, 0, 1][..]);
    assert_eq!(codec.decode(&mut buf).unwrap_err(), CodecError::FrameTooLarge { length: 16 * 1024 * 1024 + 1 });
    let mut buf = BytesMut::from(&[1u8, 0, 0, 0][..]);
    assert!(codec.decode(&mut buf).unwrap().is_none());
}

#[test]
fn content_hash_is_blake3() {
    let empty = content_hash(b"");
    assert_eq!(
        empty[..4],
        [0xaf, 0x13, 0x49, 0xb9],
    );
    assert_eq!(content_hash(b"hello world"), content_hash(b"hello world"));
    assert_ne!(content_hash(b"hello world"), content_hash(b"hello worle"));
    assert_eq!(content_hash(b"abc"), *blake3::hash(b"abc").as_bytes());
}

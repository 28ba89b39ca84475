use kafkalite::kafka::message_decoder::{decode_bytes_preview, decode_message, to_hex, RawHeader, RawMessage};

#[test]
fn decodes_utf8_text() {
    let (preview, encoding, truncated) = decode_bytes_preview(b"hello", 512);
    assert_eq!(preview, "hello");
    assert_eq!(encoding, "utf8");
    assert!(!truncated);
}

#[test]
fn truncates_large_payload() {
    let bytes = vec![b'a'; 20];
    let (preview, _, truncated) = decode_bytes_preview(&bytes, 10);
    assert_eq!(preview.len(), 10);
    assert!(truncated);
}

#[test]
fn empty_payload_is_empty_utf8() {
    let (preview, encoding, truncated) = decode_bytes_preview(b"", 512);
    assert_eq!(preview, "");
    assert_eq!(encoding, "utf8");
    assert!(!truncated);
}

#[test]
fn zero_limit_truncates_to_empty() {
    let (preview, encoding, truncated) = decode_bytes_preview(b"abc", 0);
    assert_eq!(preview, "");
    assert_eq!(encoding, "utf8");
    assert!(truncated);
}

#[test]
fn text_with_newlines_and_tabs_stays_text() {
    let (preview, encoding, _) = decode_bytes_preview("a\tb\r\nc é".as_bytes(), 512);
    assert_eq!(preview, "a\tb\r\nc é");
    assert_eq!(encoding, "utf8");
}

#[test]
fn short_binary_is_hex() {
    let (preview, encoding, truncated) = decode_bytes_preview(&[0x00, 0xff, 0x10], 512);
    assert_eq!(preview, "00ff10");
    assert_eq!(encoding, "hex");
    assert!(!truncated);
}

#[test]
fn control_characters_make_hex() {
    let (preview, encoding, _) = decode_bytes_preview(&[b'h', 0x07, b'i'], 512);
    assert_eq!(preview, "680769");
    assert_eq!(encoding, "hex");
}

#[test]
fn invalid_utf8_is_hex() {
    let (preview, encoding, _) = decode_bytes_preview(&[0xc3, 0x28], 512);
    assert_eq!(preview, "c328");
    assert_eq!(encoding, "hex");
}

#[test]
fn long_binary_is_base64() {
    let bytes = vec![0u8; 65];
    let (preview, encoding, truncated) = decode_bytes_preview(&bytes, 512);
    assert_eq!(encoding, "base64");
    assert!(!truncated);
    assert_eq!(preview, "A".repeat(87) + "=");
}

#[test]
fn sixty_four_binary_bytes_are_still_hex() {
    let bytes = vec![1u8; 64];
    let (preview, encoding, _) = decode_bytes_preview(&bytes, 512);
    assert_eq!(encoding, "hex");
    assert_eq!(preview, "01".repeat(64));
}

#[test]
fn truncation_cutting_a_character_gives_hex() {
    let (preview, encoding, truncated) = decode_bytes_preview("é".as_bytes(), 1);
    assert_eq!(preview, "c3");
    assert_eq!(encoding, "hex");
    assert!(truncated);
}

#[test]
fn hex_of_bytes() {
    assert_eq!(to_hex(&[]), "");
    assert_eq!(to_hex(&[0xab, 0x01, 0x9f]), "ab019f");
}

#[test]
fn message_is_decoded_with_header_limit() {
    let raw = RawMessage {
        topic: "orders".to_string(),
        partition: 3,
        offset: 42,
        timestamp: Some(1700),
        key: Some(b"k1".to_vec()),
        payload: None,
        headers: vec![
            RawHeader { key: "h".to_string(), value: Some(vec![b'x'; 300]) },
            RawHeader { key: "none".to_string(), value: None },
        ],
    };
    let dto = decode_message(&raw, 1000);
    assert_eq!(dto.topic, "orders");
    assert_eq!(dto.partition, 3);
    assert_eq!(dto.offset, 42);
    assert_eq!(dto.timestamp, Some(1700));
    assert_eq!(dto.key, Some("k1".to_string()));
    assert_eq!(dto.value_preview, "");
    assert_eq!(dto.value_encoding, "utf8");
    assert_eq!(dto.value_size, 0);
    assert!(!dto.truncated);
    assert_eq!(dto.headers.len(), 2);
    assert_eq!(dto.headers[0].key, "h");
    assert_eq!(dto.headers[0].value, Some("x".repeat(256)));
    assert_eq!(dto.headers[1].value, None);
}

#[test]
fn message_payload_is_measured_before_truncation() {
    let raw = RawMessage {
        topic: "t".to_string(),
        partition: 0,
        offset: 0,
        timestamp: None,
        key: None,
        payload: Some(b"abcdef".to_vec()),
        headers: vec![],
    };
    let dto = decode_message(&raw, 4);
    assert_eq!(dto.value_preview, "abcd");
    assert_eq!(dto.value_size, 6);
    assert!(dto.truncated);
    assert_eq!(dto.key, None);
    assert_eq!(dto.headers.len(), 0);
}

#[test]
fn base64_uses_the_standard_alphabet_and_padding() {
    let mut bytes: Vec<u8> = [0xfbu8, 0xff, 0xbf].repeat(22);
    bytes.push(0x3e);
    let (preview, encoding, _) = decode_bytes_preview(&bytes, 512);
    assert_eq!(encoding, "base64");
    assert_eq!(preview, "+/+/".repeat(22) + "Pg==");
}

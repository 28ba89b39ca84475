use kafkalite::error::{code_of, AppError};
use kafkalite::kafka::connection_manager::map_kafka_error;
use kafkalite::text::{
    concat_text, contains, i64_to_string, is_control, is_whitespace, join_strings, same_text,
    starts_with, trim, u64_to_string, utf8_prefix_of,
};

#[test]
fn trims_unicode_white_space() {
    assert_eq!(trim("  a b \t\n"), "a b");
    assert_eq!(trim("\u{3000}x\u{a0}"), "x");
    assert_eq!(trim("   "), "");
    assert_eq!(trim(""), "");
}

#[test]
fn control_and_white_space_classes() {
    assert!(is_control('\u{0}'));
    assert!(is_control('\u{9f}'));
    assert!(!is_control('a'));
    assert!(!is_control('\u{a0}'));
    assert!(is_whitespace('\u{2028}'));
    assert!(!is_whitespace('x'));
}

#[test]
fn searches_text() {
    assert!(contains("a partition eof here", "partition eof"));
    assert!(contains("abc", ""));
    assert!(!contains("ab", "abc"));
    assert!(starts_with("__consumer_offsets", "__"));
    assert!(!starts_with("_x", "__"));
    assert!(same_text("héllo", "héllo"));
    assert!(!same_text("a", "ab"));
}

#[test]
fn formats_decimals() {
    assert_eq!(u64_to_string(0), "0");
    assert_eq!(u64_to_string(10000), "10000");
    assert_eq!(u64_to_string(u64::MAX), u64::MAX.to_string());
    assert_eq!(i64_to_string(-42), "-42");
    assert_eq!(i64_to_string(i64::MIN), i64::MIN.to_string());
    assert_eq!(i64_to_string(7), "7");
}

#[test]
fn lowercases_like_std() {
    let e = AppError::InvalidRequest("Topic NOT Found: t".to_string());
    assert_eq!(code_of(&e), "TOPIC_NOT_FOUND");
    assert_eq!(map_kafka_error("SASL Authentication failed".to_string()), AppError::KafkaAuth("SASL Authentication failed".to_string()));
}

#[test]
fn joins_and_concatenates() {
    let items = vec!["a:9092".to_string(), "b:9092".to_string()];
    assert_eq!(join_strings(&items, ','), "a:9092,b:9092");
    assert_eq!(join_strings(&vec![], ','), "");
    assert_eq!(concat_text("ab", "cd"), "abcd");
}

#[test]
fn takes_utf8_prefixes() {
    assert_eq!(utf8_prefix_of("0123456789", 8), "01234567");
    assert_eq!(utf8_prefix_of("abc", 8), "abc");
    assert_eq!(utf8_prefix_of("ééééx", 8), "éééé");
}

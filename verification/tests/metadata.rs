use near_sdk::serde_json::Value;
use near_whitelist::metadata::{decode_metadata, metadata_from_document};
use near_whitelist::Contract;
use near_whitelist::EValueType;

#[test]
fn metadata_catalogue_is_fixed() {
    let entries = Contract::get_metadata_structure();
    let expected = [
        ("description", "Description"),
        ("telegram_username", "Telegram Username"),
        ("twitter_url", "Twitter URL"),
        ("website_url", "Website URL"),
        ("audit_report_url", "Audit Report URL"),
    ];
    assert_eq!(entries.len(), 5);
    for (entry, (key, label)) in entries.iter().zip(expected.iter()) {
        assert_eq!(entry.key, *key);
        assert_eq!(entry.label, *label);
        assert_eq!(entry.value_type, EValueType::STRING);
        assert_eq!(entry.is_required, false);
    }
}

#[test]
fn empty_object_decodes_to_no_fields() {
    let m = decode_metadata("{}").unwrap();
    assert_eq!(m.description, None);
    assert_eq!(m.telegram_username, None);
    assert_eq!(m.twitter_url, None);
    assert_eq!(m.website_url, None);
    assert_eq!(m.audit_report_url, None);
}

#[test]
fn text_fields_decode() {
    let m = decode_metadata(
        "{\"description\":\"A project\",\"telegram_username\":\"tg\",\"twitter_url\":\"https://t\",\
         \"website_url\":\"https://w\",\"audit_report_url\":\"https://a\"}",
    )
    .unwrap();
    assert_eq!(m.description.as_deref(), Some("A project"));
    assert_eq!(m.telegram_username.as_deref(), Some("tg"));
    assert_eq!(m.twitter_url.as_deref(), Some("https://t"));
    assert_eq!(m.website_url.as_deref(), Some("https://w"));
    assert_eq!(m.audit_report_url.as_deref(), Some("https://a"));
}

#[test]
fn null_and_unknown_members_are_accepted() {
    let m = decode_metadata("{\"description\":null,\"extra\":[1,2],\"twitter_url\":\"\"}").unwrap();
    assert_eq!(m.description, None);
    assert_eq!(m.twitter_url.as_deref(), Some(""));
    assert_eq!(m.website_url, None);
}

#[test]
fn malformed_metadata_is_refused() {
    assert!(decode_metadata("").is_none());
    assert!(decode_metadata("not json").is_none());
    assert!(decode_metadata("{").is_none());
    assert!(decode_metadata("{} trailing").is_none());
    assert!(decode_metadata("null").is_none());
    assert!(decode_metadata("\"text\"").is_none());
    assert!(decode_metadata("42").is_none());
    assert!(decode_metadata("[]").is_none());
    assert!(decode_metadata("{\"description\":5}").is_none());
    assert!(decode_metadata("{\"website_url\":{}}").is_none());
    assert!(decode_metadata("{\"audit_report_url\":true}").is_none());
    assert!(decode_metadata("{\"telegram_username\":[\"a\"]}").is_none());
}

#[test]
fn documents_decode_by_their_shape() {
    let doc: Value = near_sdk::serde_json::from_str("{\"description\":\"d\"}").unwrap();
    let m = metadata_from_document(&doc).unwrap();
    assert_eq!(m.description.as_deref(), Some("d"));
    assert!(metadata_from_document(&Value::Null).is_none());
    assert!(metadata_from_document(&Value::String("x".to_string())).is_none());
    assert!(metadata_from_document(&Value::Array(Vec::new())).is_none());
    let doc: Value = near_sdk::serde_json::from_str("{\"description\":false}").unwrap();
    assert!(metadata_from_document(&doc).is_none());
}

use todo_core::form::{add_text, delete_id};

#[test]
fn text_plain_value() {
    assert_eq!(add_text(b"text=buy+milk"), Some(b"buy milk".to_vec()));
}

#[test]
fn text_empty_value_is_accepted() {
    assert_eq!(add_text(b"text="), Some(Vec::new()));
}

#[test]
fn text_key_alone_has_empty_value() {
    assert_eq!(add_text(b"text"), Some(Vec::new()));
}

#[test]
fn text_percent_escapes_decode() {
    assert_eq!(add_text(b"text=a%26b%3Cc"), Some(b"a&b<c".to_vec()));
    assert_eq!(add_text(b"text=%E3%81%82"), Some(vec![0xE3, 0x81, 0x82]));
}

#[test]
fn text_found_among_other_fields() {
    assert_eq!(add_text(b"foo=1&text=hi&bar=2"), Some(b"hi".to_vec()));
}

#[test]
fn first_matching_pair_wins() {
    assert_eq!(add_text(b"text=a&text=b"), Some(b"a".to_vec()));
}

#[test]
fn missing_text_field_is_rejected() {
    assert_eq!(add_text(b"foo=1"), None);
    assert_eq!(add_text(b""), None);
}

#[test]
fn malformed_escape_is_rejected() {
    assert_eq!(add_text(b"text=%2"), None);
    assert_eq!(add_text(b"text=%zz"), None);
}

#[test]
fn id_decimal_value() {
    assert_eq!(delete_id(b"id=42"), Some(42));
    assert_eq!(delete_id(b"id=0"), Some(0));
}

#[test]
fn id_non_numeric_is_rejected() {
    assert_eq!(delete_id(b"id=abc"), None);
    assert_eq!(delete_id(b"id=12x"), None);
    assert_eq!(delete_id(b"id="), None);
}

#[test]
fn id_range_bounds() {
    assert_eq!(delete_id(b"id=4294967295"), Some(u32::MAX));
    assert_eq!(delete_id(b"id=4294967296"), None);
    assert_eq!(delete_id(b"id=99999999999999999999"), None);
}

#[test]
fn id_field_must_be_named_id() {
    assert_eq!(delete_id(b"text=5"), None);
}

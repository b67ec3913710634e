use user_service::UserId;

#[test]
fn test_generated_id_has_canonical_form() {
    let id = UserId::new();
    let text = id.to_string();
    assert_eq!(text.len(), 36);
    let chars: Vec<char> = text.chars().collect();
    assert_eq!(chars[8], '-');
    assert_eq!(chars[13], '-');
    assert_eq!(chars[18], '-');
    assert_eq!(chars[23], '-');
    for (i, c) in chars.iter().enumerate() {
        if i != 8 && i != 13 && i != 18 && i != 23 {
            assert!(c.is_ascii_hexdigit() && !c.is_ascii_uppercase());
        }
    }
}

#[test]
fn test_round_trip_from_generated_id() {
    let id = UserId::new();
    let text = id.to_string();
    let parsed = UserId::from_string(text.clone()).unwrap();
    assert_eq!(parsed, id);
    assert_eq!(parsed.to_string(), text);
}

#[test]
fn test_round_trip_from_canonical_text() {
    let text = "01234567-89ab-cdef-0123-456789abcdef".to_string();
    let parsed = UserId::from_string(text.clone()).unwrap();
    assert_eq!(parsed.to_string(), text);
}

#[test]
fn test_parse_rejects_malformed_text() {
    assert!(UserId::from_string("".to_string()).is_err());
    assert!(UserId::from_string("not-a-uuid".to_string()).is_err());
    // Wrong length.
    assert!(UserId::from_string("01234567-89ab-cdef-0123-456789abcde".to_string()).is_err());
    // Hyphen out of place.
    assert!(UserId::from_string("0123456789-ab-cdef-0123-456789abcdef".to_string()).is_err());
    // A non-hexadecimal character.
    assert!(UserId::from_string("0123456g-89ab-cdef-0123-456789abcdef".to_string()).is_err());
    let err = UserId::from_string("zzz".to_string()).unwrap_err();
    assert_eq!(err, "Invalid UUID format");
}

#[test]
fn test_parse_rejects_non_canonical_case() {
    // Only the canonical lower-case form round-trips through
    // `to_string`, so upper-case digits are rejected.
    assert!(UserId::from_string("01234567-89AB-CDEF-0123-456789ABCDEF".to_string()).is_err());
}

#[test]
fn test_generated_ids_are_distinct() {
    let a = UserId::new();
    let b = UserId::new();
    assert_ne!(a, b);
    assert_ne!(a.to_string(), b.to_string());
}

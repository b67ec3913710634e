use user_service::{DomainError, Email};

#[test]
fn test_valid_email() {
    let email = Email::new("user@example.com".to_string()).unwrap();
    assert_eq!(email.as_str(), "user@example.com");
}

#[test]
fn test_invalid_email_empty() {
    let result = Email::new("".to_string());
    assert!(result.is_err());
}

#[test]
fn test_invalid_email_no_at() {
    let result = Email::new("userexample.com".to_string());
    assert!(result.is_err());
}

#[test]
fn test_email_case_insensitive() {
    let email1 = Email::new("User@Example.COM".to_string()).unwrap();
    let email2 = Email::new("user@example.com".to_string()).unwrap();
    assert_eq!(email1, email2);
}

#[test]
fn test_email_is_normalized_to_lowercase() {
    let email = Email::new("User@Example.COM".to_string()).unwrap();
    assert_eq!(email.as_str(), "user@example.com");
}

#[test]
fn test_email_length_bounds() {
    // Exactly five characters is too short; six is accepted.
    assert!(Email::new("a@b.c".to_string()).is_err());
    assert!(Email::new("a@b.cd".to_string()).is_ok());
    // 256 or more characters are rejected.
    let long_local = "a".repeat(250);
    let long = format!("{}@example.com", long_local);
    assert!(long.len() >= 256);
    assert!(Email::new(long).is_err());
    // 255 characters are still accepted.
    let local = "a".repeat(243);
    let just_under = format!("{}@example.com", local);
    assert_eq!(just_under.len(), 255);
    assert!(Email::new(just_under).is_ok());
}

#[test]
fn test_email_requires_exactly_one_at() {
    assert!(Email::new("a@@b.com".to_string()).is_err());
    assert!(Email::new("a@b@c.com".to_string()).is_err());
}

#[test]
fn test_invalid_email_error_kind() {
    let result = Email::new("no-at-sign".to_string());
    assert!(matches!(result, Err(DomainError::InvalidEmail(_))));
    let err = Email::new("no-at-sign".to_string()).unwrap_err();
    assert_eq!(err.message(), "Invalid email: Invalid email format");
    let empty_err = Email::new("".to_string()).unwrap_err();
    assert_eq!(empty_err.message(), "Invalid email: Email cannot be empty");
}

#[test]
fn test_is_valid_email_checker() {
    assert!(Email::is_valid_email("user@example.com"));
    assert!(!Email::is_valid_email(""));
    assert!(!Email::is_valid_email("userexample.com"));
    assert!(!Email::is_valid_email("a@b.c"));
}

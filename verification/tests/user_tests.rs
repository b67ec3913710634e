use user_service::{DomainError, Email, User};

#[test]
fn user_test_create_user_success() {
    let email = Email::new("user@example.com".to_string()).unwrap();
    let user = User::new(email, "John Doe".to_string()).unwrap();

    assert_eq!(user.name(), "John Doe");
    assert_eq!(user.email().as_str(), "user@example.com");
}

#[test]
fn test_create_user_with_empty_name() {
    let email = Email::new("user@example.com".to_string()).unwrap();
    let result = User::new(email, "".to_string());

    assert!(result.is_err());
}

#[test]
fn test_update_user_name() {
    let email = Email::new("user@example.com".to_string()).unwrap();
    let mut user = User::new(email, "John Doe".to_string()).unwrap();

    let updated_at = user.updated_at();
    user.update_name("Jane Doe".to_string()).unwrap();

    assert_eq!(user.name(), "Jane Doe");
    assert_ne!(user.updated_at(), updated_at);
}

#[test]
fn test_update_user_email() {
    let email = Email::new("user@example.com".to_string()).unwrap();
    let mut user = User::new(email, "John Doe".to_string()).unwrap();

    let new_email = Email::new("jane@example.com".to_string()).unwrap();
    user.update_email(new_email).unwrap();

    assert_eq!(user.email().as_str(), "jane@example.com");
}

#[test]
fn test_whitespace_name_rejected_on_create() {
    let email = Email::new("user@example.com".to_string()).unwrap();
    let result = User::new(email, "   ".to_string());
    assert!(matches!(result, Err(DomainError::InvalidUserData(_))));
}

#[test]
fn test_whitespace_name_rejected_on_rename() {
    let email = Email::new("user@example.com".to_string()).unwrap();
    let mut user = User::new(email, "John Doe".to_string()).unwrap();
    let result = user.update_name("   ".to_string());
    assert!(matches!(result, Err(DomainError::InvalidUserData(_))));
    assert_eq!(user.name(), "John Doe");
}

#[test]
fn test_name_is_stored_trimmed() {
    let email = Email::new("user@example.com".to_string()).unwrap();
    let user = User::new(email, "  Bob  ".to_string()).unwrap();
    assert_eq!(user.name(), "Bob");
}

#[test]
fn test_update_preserves_identity() {
    let email = Email::new("user@example.com".to_string()).unwrap();
    let mut user = User::new(email, "John Doe".to_string()).unwrap();
    let id = user.id().to_string();
    let created_at = user.created_at();
    let updated_at = user.updated_at();
    assert_eq!(created_at, updated_at);

    user.update_name("Jane Doe".to_string()).unwrap();
    assert_eq!(user.id().to_string(), id);
    assert_eq!(user.created_at(), created_at);
    assert!(user.updated_at() >= updated_at);

    let after_rename = user.updated_at();
    let new_email = Email::new("jane@example.com".to_string()).unwrap();
    user.update_email(new_email).unwrap();
    assert_eq!(user.id().to_string(), id);
    assert_eq!(user.created_at(), created_at);
    assert!(user.updated_at() >= after_rename);
}

#[test]
fn test_user_equality_is_by_identifier() {
    let email = Email::new("user@example.com".to_string()).unwrap();
    let mut user = User::new(email, "John Doe".to_string()).unwrap();
    let snapshot = user.clone();
    user.update_name("Jane Doe".to_string()).unwrap();
    // Same identifier, different fields: still the same entity.
    assert_eq!(user, snapshot);

    let other_email = Email::new("user@example.com".to_string()).unwrap();
    let other = User::new(other_email, "John Doe".to_string()).unwrap();
    // Same fields, fresh identifier: a different entity.
    assert_ne!(user, other);
}

#[test]
fn test_from_existing_rechecks_name() {
    let email = Email::new("user@example.com".to_string()).unwrap();
    let user = User::new(email, "John Doe".to_string()).unwrap();
    let id = *user.id();

    let email2 = Email::new("user@example.com".to_string()).unwrap();
    let rebuilt = User::from_existing(id, email2, " John Doe ".to_string(), 5, 9).unwrap();
    assert_eq!(rebuilt.name(), "John Doe");
    assert_eq!(rebuilt.created_at(), 5);
    assert_eq!(rebuilt.updated_at(), 9);
    assert_eq!(rebuilt.id(), user.id());

    let email3 = Email::new("user@example.com".to_string()).unwrap();
    assert!(User::from_existing(id, email3, " ".to_string(), 5, 9).is_err());
}

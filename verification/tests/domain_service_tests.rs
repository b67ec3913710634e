use user_service::{DomainError, Email, InMemoryUserRepository, UserDomainService, UserId};

#[test]
fn user_service_test_create_user_success() {
    let repository = InMemoryUserRepository::new();
    let mut service = UserDomainService::new(repository);

    let email = Email::new("test@example.com".to_string()).unwrap();
    let user = service.create_user(email, "Test User".to_string()).unwrap();

    assert_eq!(user.name(), "Test User");
}

#[test]
fn test_create_user_duplicate_email() {
    let repository = InMemoryUserRepository::new();
    let mut service = UserDomainService::new(repository);

    let email = Email::new("test@example.com".to_string()).unwrap();
    service.create_user(email.clone(), "Existing User".to_string()).unwrap();

    let result = service.create_user(email, "New User".to_string());

    assert!(matches!(result, Err(DomainError::UserAlreadyExists)));
}

#[test]
fn test_uniqueness_across_addresses() {
    let repository = InMemoryUserRepository::new();
    let mut service = UserDomainService::new(repository);

    let email = Email::new("a@b.com".to_string()).unwrap();
    service.create_user(email, "Existing".to_string()).unwrap();

    let taken = Email::new("a@b.com".to_string()).unwrap();
    let result = service.create_user(taken, "X".to_string());
    assert!(matches!(result, Err(DomainError::UserAlreadyExists)));

    let free = Email::new("c@d.com".to_string()).unwrap();
    let created = service.create_user(free, "X".to_string());
    assert!(created.is_ok());
}

#[test]
fn test_two_creations_same_email_one_succeeds() {
    // Both calls go through the same exclusively borrowed store, so
    // the existence check and the insertion cannot interleave: exactly
    // one call wins and the other reports the conflict.
    let repository = InMemoryUserRepository::new();
    let mut service = UserDomainService::new(repository);

    let first = Email::new("race@example.com".to_string()).unwrap();
    let second = Email::new("race@example.com".to_string()).unwrap();
    let r1 = service.create_user(first, "First".to_string());
    let r2 = service.create_user(second, "Second".to_string());

    assert!(r1.is_ok());
    assert!(matches!(r2, Err(DomainError::UserAlreadyExists)));
}

#[test]
fn test_update_user_not_found() {
    let repository = InMemoryUserRepository::new();
    let mut service = UserDomainService::new(repository);

    let fresh = UserId::new();
    let result = service.update_user(fresh, None, Some("Name".to_string()));
    assert!(matches!(result, Err(DomainError::UserNotFound)));
}

#[test]
fn test_delete_user_not_found() {
    let repository = InMemoryUserRepository::new();
    let mut service = UserDomainService::new(repository);

    let fresh = UserId::new();
    let result = service.delete_user(fresh);
    assert!(matches!(result, Err(DomainError::UserNotFound)));
}

#[test]
fn test_update_user_changes_and_preserves_fields() {
    let repository = InMemoryUserRepository::new();
    let mut service = UserDomainService::new(repository);

    let email = Email::new("old@example.com".to_string()).unwrap();
    let user = service.create_user(email, "Old Name".to_string()).unwrap();
    let id = *user.id();
    let created_at = user.created_at();

    let new_email = Email::new("new@example.com".to_string()).unwrap();
    let updated = service
        .update_user(id, Some(new_email), Some("New Name".to_string()))
        .unwrap();

    assert_eq!(updated.id(), &id);
    assert_eq!(updated.created_at(), created_at);
    assert_eq!(updated.email().as_str(), "new@example.com");
    assert_eq!(updated.name(), "New Name");
}

#[test]
fn test_update_user_rejects_taken_email() {
    let repository = InMemoryUserRepository::new();
    let mut service = UserDomainService::new(repository);

    let email_a = Email::new("a@b.com".to_string()).unwrap();
    service.create_user(email_a, "A".to_string()).unwrap();
    let email_b = Email::new("c@d.com".to_string()).unwrap();
    let user_b = service.create_user(email_b, "B".to_string()).unwrap();

    let taken = Email::new("a@b.com".to_string()).unwrap();
    let result = service.update_user(*user_b.id(), Some(taken), None);
    assert!(matches!(result, Err(DomainError::UserAlreadyExists)));
}

#[test]
fn test_update_user_keeps_own_email() {
    let repository = InMemoryUserRepository::new();
    let mut service = UserDomainService::new(repository);

    let email = Email::new("a@b.com".to_string()).unwrap();
    let user = service.create_user(email, "A".to_string()).unwrap();

    // Re-assigning a user's own address is not a conflict.
    let same = Email::new("a@b.com".to_string()).unwrap();
    let updated = service.update_user(*user.id(), Some(same), None).unwrap();
    assert_eq!(updated.email().as_str(), "a@b.com");
}

#[test]
fn test_update_user_rejects_empty_name() {
    let repository = InMemoryUserRepository::new();
    let mut service = UserDomainService::new(repository);

    let email = Email::new("a@b.com".to_string()).unwrap();
    let user = service.create_user(email, "A".to_string()).unwrap();

    let result = service.update_user(*user.id(), None, Some("   ".to_string()));
    assert!(matches!(result, Err(DomainError::InvalidUserData(_))));
}

#[test]
fn test_delete_then_delete_again() {
    let repository = InMemoryUserRepository::new();
    let mut service = UserDomainService::new(repository);

    let email = Email::new("a@b.com".to_string()).unwrap();
    let user = service.create_user(email, "A".to_string()).unwrap();
    let id = *user.id();

    assert!(service.delete_user(id).is_ok());
    // The record is gone, so the domain-level delete reports the miss.
    assert!(matches!(service.delete_user(id), Err(DomainError::UserNotFound)));
}

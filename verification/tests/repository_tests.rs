use user_service::{Email, InMemoryUserRepository, User, UserId, UserRepository};

#[test]
fn test_save_and_find_user() {
    let mut repository = InMemoryUserRepository::new();

    let email = Email::new("test@example.com".to_string()).unwrap();
    let user = User::new(email, "Test User".to_string()).unwrap();

    repository.save(&user).unwrap();

    let found_user = repository.find_by_id(user.id()).unwrap();
    assert!(found_user.is_some());
    assert_eq!(found_user.unwrap().id(), user.id());
}

#[test]
fn test_find_by_email() {
    let mut repository = InMemoryUserRepository::new();

    let email = Email::new("test@example.com".to_string()).unwrap();
    let user = User::new(email, "Test User".to_string()).unwrap();

    repository.save(&user).unwrap();

    let found_user = repository.find_by_email(user.email()).unwrap();
    assert!(found_user.is_some());
    assert_eq!(found_user.unwrap().email(), user.email());
}

#[test]
fn test_delete_user() {
    let mut repository = InMemoryUserRepository::new();

    let email = Email::new("test@example.com".to_string()).unwrap();
    let user = User::new(email, "Test User".to_string()).unwrap();

    repository.save(&user).unwrap();
    assert!(repository.find_by_id(user.id()).unwrap().is_some());

    repository.delete(user.id()).unwrap();
    assert!(repository.find_by_id(user.id()).unwrap().is_none());
}

#[test]
fn test_delete_absent_id_is_a_no_op() {
    let mut repository = InMemoryUserRepository::new();

    let email = Email::new("test@example.com".to_string()).unwrap();
    let user = User::new(email, "Test User".to_string()).unwrap();
    repository.save(&user).unwrap();

    // Removing an identifier that was never stored succeeds and
    // leaves the stored record in place.
    let absent = UserId::new();
    assert!(repository.delete(&absent).is_ok());
    assert!(repository.find_by_id(user.id()).unwrap().is_some());

    // Removing it twice is just as harmless.
    assert!(repository.delete(&absent).is_ok());
}

#[test]
fn test_save_overwrites_by_identifier() {
    let mut repository = InMemoryUserRepository::new();

    let email = Email::new("test@example.com".to_string()).unwrap();
    let mut user = User::new(email, "Test User".to_string()).unwrap();
    repository.save(&user).unwrap();

    user.update_name("Renamed User".to_string()).unwrap();
    repository.save(&user).unwrap();

    let found = repository.find_by_id(user.id()).unwrap().unwrap();
    assert_eq!(found.name(), "Renamed User");
}

#[test]
fn test_seed_and_clear() {
    let mut repository = InMemoryUserRepository::new();

    let email_a = Email::new("a@b.com".to_string()).unwrap();
    let user_a = User::new(email_a, "A".to_string()).unwrap();
    let email_b = Email::new("c@d.com".to_string()).unwrap();
    let user_b = User::new(email_b, "B".to_string()).unwrap();

    repository.seed(vec![user_a.clone(), user_b.clone()]);
    assert!(repository.find_by_id(user_a.id()).unwrap().is_some());
    assert!(repository.find_by_id(user_b.id()).unwrap().is_some());

    repository.clear();
    assert!(repository.find_by_id(user_a.id()).unwrap().is_none());
    assert!(repository.find_by_id(user_b.id()).unwrap().is_none());
}

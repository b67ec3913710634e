use user_service::{
    ApplicationError, CreateUserRequest, CreateUserUseCase, DeleteUserUseCase, GetUserUseCase,
    InMemoryUserRepository, UpdateUserRequest, UpdateUserUseCase, UserApplicationService, UserId,
};

#[test]
fn test_create_user_service() {
    let repository = InMemoryUserRepository::new();
    let mut service = UserApplicationService::new(repository);

    let request = CreateUserRequest {
        email: "test@example.com".to_string(),
        name: "Test User".to_string(),
    };

    let response = service.create_user(request);

    assert!(response.success);
    assert!(response.data.is_some());
    let user = response.data.unwrap();
    assert_eq!(user.email, "test@example.com");
    assert_eq!(user.name, "Test User");
}

#[test]
fn create_user_test_create_user_success() {
    let repository = InMemoryUserRepository::new();
    let mut use_case = CreateUserUseCase::new(repository);

    let result = use_case.execute("test@example.com".to_string(), "Test User".to_string());

    assert!(result.is_ok());
    let user = result.unwrap();
    assert_eq!(user.name(), "Test User");
    assert_eq!(user.email().as_str(), "test@example.com");
}

#[test]
fn test_create_user_invalid_email() {
    let repository = InMemoryUserRepository::new();
    let mut use_case = CreateUserUseCase::new(repository);

    let result = use_case.execute("invalid-email".to_string(), "Test User".to_string());

    assert!(result.is_err());
    assert!(matches!(result.unwrap_err(), ApplicationError::InvalidEmail(_)));
}

#[test]
fn test_get_user_use_case_round_trip() {
    let repository = InMemoryUserRepository::new();
    let mut create = CreateUserUseCase::new(repository);
    let user = create
        .execute("test@example.com".to_string(), "Test User".to_string())
        .unwrap();

    // The use cases cannot share one in-memory store, so look the
    // record up through a store seeded with the same user.
    let mut seeded = InMemoryUserRepository::new();
    seeded.seed(vec![user.clone()]);
    let get = GetUserUseCase::new(seeded);

    let response = get.execute(user.id().to_string()).unwrap();
    assert_eq!(response.id, user.id().to_string());
    assert_eq!(response.email, "test@example.com");
    assert_eq!(response.name, "Test User");

    let by_email = get.get_by_email("test@example.com".to_string()).unwrap();
    assert_eq!(by_email.id, user.id().to_string());
}

#[test]
fn test_get_user_use_case_errors() {
    let repository = InMemoryUserRepository::new();
    let get = GetUserUseCase::new(repository);

    let bad_id = get.execute("nonsense".to_string());
    assert!(matches!(bad_id.unwrap_err(), ApplicationError::InvalidUserId(_)));

    let missing = get.execute(UserId::new().to_string());
    assert!(matches!(missing.unwrap_err(), ApplicationError::UserNotFound));

    let bad_email = get.get_by_email("nonsense".to_string());
    assert!(matches!(bad_email.unwrap_err(), ApplicationError::InvalidEmail(_)));

    let no_owner = get.get_by_email("a@b.com".to_string());
    assert!(matches!(no_owner.unwrap_err(), ApplicationError::UserNotFound));
}

#[test]
fn test_update_user_use_case_errors() {
    let repository = InMemoryUserRepository::new();
    let mut update = UpdateUserUseCase::new(repository);

    let bad_id = update.execute("nonsense".to_string(), None, None);
    assert!(matches!(bad_id.unwrap_err(), ApplicationError::InvalidUserId(_)));

    let missing = update.execute(UserId::new().to_string(), None, Some("Name".to_string()));
    assert!(matches!(
        missing.unwrap_err(),
        ApplicationError::DomainError(user_service::DomainError::UserNotFound)
    ));
}

#[test]
fn test_delete_user_use_case_errors() {
    let repository = InMemoryUserRepository::new();
    let mut delete = DeleteUserUseCase::new(repository);

    let bad_id = delete.execute("nonsense".to_string());
    assert!(matches!(bad_id.unwrap_err(), ApplicationError::InvalidUserId(_)));

    let missing = delete.execute(UserId::new().to_string());
    assert!(matches!(
        missing.unwrap_err(),
        ApplicationError::DomainError(user_service::DomainError::UserNotFound)
    ));
}

#[test]
fn test_not_found_paths_for_fresh_id() {
    let repository = InMemoryUserRepository::new();
    let mut service = UserApplicationService::new(repository);
    let fresh = UserId::new().to_string();

    let get = service.get_user(fresh.clone());
    assert!(!get.success);
    assert!(get.data.is_none());
    assert!(get.error.is_some());

    let update = service.update_user(
        fresh.clone(),
        UpdateUserRequest { email: None, name: Some("X".to_string()) },
    );
    assert!(!update.success);

    let delete = service.delete_user(fresh);
    assert!(!delete.success);
}

#[test]
fn test_end_to_end_scenario() {
    let repository = InMemoryUserRepository::new();
    let mut service = UserApplicationService::new(repository);

    // Create.
    let created = service.create_user(CreateUserRequest {
        email: "a@b.com".to_string(),
        name: "Alice".to_string(),
    });
    assert!(created.success);
    let created_user = created.data.unwrap();
    assert_eq!(created_user.email, "a@b.com");
    assert_eq!(created_user.name, "Alice");
    let id = created_user.id.clone();
    assert!(UserId::from_string(id.clone()).is_ok());

    // Update the email only.
    let updated = service.update_user(
        id.clone(),
        UpdateUserRequest { email: Some("c@d.com".to_string()), name: None },
    );
    assert!(updated.success);
    let updated_user = updated.data.unwrap();
    assert_eq!(updated_user.id, id);
    assert_eq!(updated_user.email, "c@d.com");
    assert_eq!(updated_user.name, "Alice");

    // Delete, then the record is gone.
    let deleted = service.delete_user(id.clone());
    assert!(deleted.success);
    let get = service.get_user(id);
    assert!(!get.success);
    assert_eq!(get.error.unwrap(), "User not found");
}

#[test]
fn test_duplicate_email_through_application_service() {
    let repository = InMemoryUserRepository::new();
    let mut service = UserApplicationService::new(repository);

    let first = service.create_user(CreateUserRequest {
        email: "a@b.com".to_string(),
        name: "X".to_string(),
    });
    assert!(first.success);

    let second = service.create_user(CreateUserRequest {
        email: "a@b.com".to_string(),
        name: "X".to_string(),
    });
    assert!(!second.success);
    assert_eq!(second.error.unwrap(), "Domain error: User already exists");

    let other = service.create_user(CreateUserRequest {
        email: "c@d.com".to_string(),
        name: "X".to_string(),
    });
    assert!(other.success);
}

#[test]
fn test_invalid_email_message_through_application_service() {
    let repository = InMemoryUserRepository::new();
    let mut service = UserApplicationService::new(repository);

    let response = service.create_user(CreateUserRequest {
        email: "invalid-email".to_string(),
        name: "X".to_string(),
    });
    assert!(!response.success);
    assert!(response.data.is_none());
    assert_eq!(
        response.error.unwrap(),
        "Invalid email: Invalid email: Invalid email format"
    );
}

#[test]
fn test_update_name_only_keeps_email() {
    let repository = InMemoryUserRepository::new();
    let mut service = UserApplicationService::new(repository);

    let created = service.create_user(CreateUserRequest {
        email: "a@b.com".to_string(),
        name: "Alice".to_string(),
    });
    let id = created.data.unwrap().id;

    let updated = service.update_user(
        id,
        UpdateUserRequest { email: None, name: Some("  Alicia  ".to_string()) },
    );
    assert!(updated.success);
    let user = updated.data.unwrap();
    assert_eq!(user.email, "a@b.com");
    assert_eq!(user.name, "Alicia");
}

#[test]
fn test_invalid_id_message_through_application_service() {
    let repository = InMemoryUserRepository::new();
    let service = UserApplicationService::new(repository);

    let response = service.get_user("nonsense".to_string());
    assert!(!response.success);
    assert_eq!(response.error.unwrap(), "Invalid user ID: Invalid UUID format");
}

#[test]
fn test_duplicate_email_through_application_update() {
    let repository = InMemoryUserRepository::new();
    let mut service = UserApplicationService::new(repository);

    let first = service.create_user(CreateUserRequest {
        email: "a@b.com".to_string(),
        name: "A".to_string(),
    });
    assert!(first.success);
    let second = service.create_user(CreateUserRequest {
        email: "c@d.com".to_string(),
        name: "B".to_string(),
    });
    assert!(second.success);
    let second_id = second.data.unwrap().id;

    // Assigning the first user's address to the second must fail and
    // leave the second user's record unchanged.
    let conflict = service.update_user(
        second_id.clone(),
        UpdateUserRequest { email: Some("a@b.com".to_string()), name: None },
    );
    assert!(!conflict.success);
    assert_eq!(conflict.error.unwrap(), "Domain error: User already exists");

    let still = service.get_user(second_id);
    assert!(still.success);
    assert_eq!(still.data.unwrap().email, "c@d.com");
}

//! A small user-management library: self-validating value objects
//! (`Email`, `UserId`), a `User` entity with field invariants, a
//! repository capability, and a domain service that enforces email
//! uniqueness across records.

pub mod application;
pub mod config;
pub mod email;
pub mod email_service;
pub mod errors;
pub mod repository;
pub mod service;
pub mod user;
pub mod user_id;

pub use application::{ApiResponse, ApplicationError, CreateUserRequest, CreateUserUseCase, DeleteUserUseCase, GetUserUseCase, UpdateUserRequest, UpdateUserUseCase, UserApplicationService, UserResponse};
pub use config::AppConfig;
pub use email::Email;
pub use email_service::{ConsoleEmailService, MockEmailService};
pub use errors::DomainError;
pub use repository::{InMemoryUserRepository, UserRepository};
pub use service::UserDomainService;
pub use user::User;
pub use user_id::UserId;

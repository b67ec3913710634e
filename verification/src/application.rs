//! The application layer: request and response shapes, thin use
//! cases, and the service that callers such as HTTP handlers consume.

pub mod dto;
pub mod services;
pub mod use_cases;

pub use dto::{ApiResponse, CreateUserRequest, UpdateUserRequest, UserResponse};
pub use services::UserApplicationService;
pub use use_cases::{
    ApplicationError, CreateUserUseCase, DeleteUserUseCase, GetUserUseCase, UpdateUserUseCase,
};

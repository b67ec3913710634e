//! Request and response shapes exchanged with callers of the
//! application layer.

use vstd::prelude::*;
use crate::user::{User, UserView};
use crate::user_id::uuid_text;

verus! {

/// Input for creating a user.
#[derive(Debug, Clone)]
pub struct CreateUserRequest {
    pub email: String,
    pub name: String,
}

/// Input for updating a user; absent fields are left unchanged.
#[derive(Debug, Clone)]
pub struct UpdateUserRequest {
    pub email: Option<String>,
    pub name: Option<String>,
}

/// A user record as handed back to callers: the identifier in its
/// canonical text form, and timestamps in nanoseconds since the epoch.
#[derive(Debug, Clone)]
pub struct UserResponse {
    pub id: String,
    pub email: String,
    pub name: String,
    pub created_at: i64,
    pub updated_at: i64,
}

/// Whether `r` reports exactly the record `u`.
pub open spec fn response_of(r: UserResponse, u: UserView) -> bool {
    &&& r.id@ == uuid_text(u.id)
    &&& r.email@ == u.email
    &&& r.name@ == u.name
    &&& r.created_at == u.created_at
    &&& r.updated_at == u.updated_at
}

impl UserResponse {
    /// The response reporting `user`.
    pub fn from_user(user: &User) -> (r: UserResponse)
        ensures
            response_of(r, user@),
    {
        UserResponse {
            id: user.id().to_string(),
            email: user.email().as_str().to_owned(),
            name: user.name().to_owned(),
            created_at: user.created_at(),
            updated_at: user.updated_at(),
        }
    }
}

/// The envelope every application-level call answers with: either a
/// payload or an error message, never both.
#[derive(Debug, Clone)]
pub struct ApiResponse<T> {
    pub success: bool,
    pub data: Option<T>,
    pub error: Option<String>,
}

impl<T> ApiResponse<T> {
    /// A successful response carrying `data`.
    pub fn success(data: T) -> (r: Self)
        ensures
            r.success == true,
            r.data == Some(data),
            r.error is None,
    {
        ApiResponse { success: true, data: Some(data), error: None }
    }

    /// A failed response carrying `error`.
    pub fn error(error: String) -> (r: Self)
        ensures
            r.success == false,
            r.data is None,
            r.error == Some(error),
    {
        ApiResponse { success: false, data: None, error: Some(error) }
    }
}

} // verus!

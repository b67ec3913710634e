//! The application service consumed by callers such as HTTP handlers:
//! it parses primitive request data, runs the domain operations, and
//! wraps every outcome in an `ApiResponse` envelope.

use vstd::prelude::*;
use crate::application::dto::{
    response_of, ApiResponse, CreateUserRequest, UpdateUserRequest, UserResponse,
};
use crate::application::use_cases::ApplicationError;
use crate::email::{email_text_valid, lower_of, Email};
use crate::repository::UserRepository;
use crate::service::{unique_emails, UserDomainService};
use crate::user::{trim_of, User};
use crate::user_id::{uuid_text, UserId};

verus! {

/// The exposed interface to the use-case layer, over one shared store.
pub struct UserApplicationService<R: UserRepository> {
    user_service: UserDomainService<R>,
}

impl<R: UserRepository> UserApplicationService<R> {
    /// The stored records, as the repository reports them.
    pub closed spec fn users(&self) -> Map<u128, User> {
        self.user_service.users()
    }

    /// The underlying store's well-formedness.
    pub closed spec fn inv(&self) -> bool {
        self.user_service.inv()
    }

    pub fn new(user_repository: R) -> (r: Self)
        ensures
            r.users() == user_repository.users(),
            user_repository.inv() ==> r.inv(),
    {
        UserApplicationService { user_service: UserDomainService::new(user_repository) }
    }

    /// Creates a user from the request; on success the response
    /// reports the stored record.
    pub fn create_user(&mut self, request: CreateUserRequest) -> (r: ApiResponse<UserResponse>)
        requires
            old(self).inv(),
        ensures
            final(self).inv(),
            unique_emails(old(self).users()) ==> unique_emails(final(self).users()),
            !r.success ==> final(self).users() == old(self).users() && r.data is None && r.error
                is Some,
            r.success ==> r.error is None && (r.data matches Some(resp) && exists|v: u128|
                {
                    &&& request.email@.len() > 0 && email_text_valid(lower_of(request.email@))
                    &&& forall|k: u128|
                        old(self).users().contains_key(k) ==> (#[trigger] old(self).users()[k])@.email
                            != lower_of(request.email@)
                    &&& trim_of(request.name@).len() > 0
                    &&& #[trigger] final(self).users().contains_key(v)
                    &&& final(self).users()[v]@.email == lower_of(request.email@)
                    &&& final(self).users()[v]@.name == trim_of(request.name@)
                    &&& final(self).users()[v]@.created_at == final(self).users()[v]@.updated_at
                    &&& response_of(resp, final(self).users()[v]@)
                    &&& final(self).users() == old(self).users().insert(
                        v,
                        final(self).users()[v],
                    )
                }),
            (request.email@.len() == 0 || !email_text_valid(lower_of(request.email@)) || trim_of(
                request.name@,
            ).len() == 0) ==> !r.success,
            (request.email@.len() == 0 || !email_text_valid(lower_of(request.email@))) ==> (
            r.error matches Some(m) && m@ == "Invalid email: "@ + ("Invalid email: "@ + (
            if request.email@.len() == 0 {
                "Email cannot be empty"@
            } else {
                "Invalid email format"@
            }))),
            (exists|k: u128|
                old(self).users().contains_key(k) && (#[trigger] old(self).users()[k])@.email
                    == lower_of(request.email@)) ==> !r.success,
    {
        let em = match Email::new(request.email) {
            Ok(em) => em,
            Err(e) => {
                let ae = ApplicationError::InvalidEmail(e.message());
                return ApiResponse::error(ae.message());
            },
        };
        match self.user_service.create_user(em, request.name) {
            Ok(u) => {
                proof {
                    assert(self.users().contains_key(u@.id));
                    assert(self.users()[u@.id] == u);
                }
                ApiResponse::success(UserResponse::from_user(&u))
            },
            Err(e) => {
                let ae = ApplicationError::DomainError(e);
                ApiResponse::error(ae.message())
            },
        }
    }

    /// Reports the record named by the identifier text.
    pub fn get_user(&self, user_id: String) -> (r: ApiResponse<UserResponse>)
        requires
            self.inv(),
        ensures
            r.success ==> r.error is None && (r.data matches Some(resp) && exists|v: u128|
                {
                    &&& user_id@ == #[trigger] uuid_text(v)
                    &&& self.users().contains_key(v)
                    &&& response_of(resp, self.users()[v]@)
                }),
            !r.success ==> r.data is None && r.error is Some,
            (forall|v: u128| user_id@ != #[trigger] uuid_text(v)) ==> !r.success && (
            r.error matches Some(m) && m@ == "Invalid user ID: "@ + "Invalid UUID format"@),
            (exists|v: u128|
                user_id@ == #[trigger] uuid_text(v) && !self.users().contains_key(v))
                ==> !r.success,
    {
        let uid = match UserId::from_string(user_id) {
            Ok(uid) => uid,
            Err(m) => {
                let ae = ApplicationError::InvalidUserId(m);
                return ApiResponse::error(ae.message());
            },
        };
        proof {
            if exists|v: u128| uid@ != v && user_id@ == #[trigger] uuid_text(v) {
                let v = choose|v: u128| uid@ != v && user_id@ == #[trigger] uuid_text(v);
                crate::user_id::lemma_uuid_text_injective(uid@, v);
            }
        }
        match self.user_service.repository().find_by_id(&uid) {
            Ok(Some(user)) => ApiResponse::success(UserResponse::from_user(&user)),
            Ok(None) => {
                let ae = ApplicationError::UserNotFound;
                ApiResponse::error(ae.message())
            },
            Err(e) => {
                let ae = ApplicationError::DomainError(e);
                ApiResponse::error(ae.message())
            },
        }
    }

    /// Reports a record owning the normalized form of the email text.
    pub fn get_user_by_email(&self, email: String) -> (r: ApiResponse<UserResponse>)
        requires
            self.inv(),
        ensures
            r.success ==> r.error is None && (r.data matches Some(resp) && exists|k: u128|
                {
                    &&& #[trigger] self.users().contains_key(k)
                    &&& response_of(resp, self.users()[k]@)
                    &&& self.users()[k]@.email == lower_of(email@)
                }),
            !r.success ==> r.data is None && r.error is Some,
            (email@.len() == 0 || !email_text_valid(lower_of(email@))) ==> !r.success && (
            r.error matches Some(m) && m@ == "Invalid email: "@ + ("Invalid email: "@ + (
            if email@.len() == 0 {
                "Email cannot be empty"@
            } else {
                "Invalid email format"@
            }))),
            (forall|k: u128|
                self.users().contains_key(k) ==> (#[trigger] self.users()[k])@.email != lower_of(
                    email@,
                )) ==> !r.success,
    {
        let em = match Email::new(email) {
            Ok(em) => em,
            Err(e) => {
                let ae = ApplicationError::InvalidEmail(e.message());
                return ApiResponse::error(ae.message());
            },
        };
        let repo = self.user_service.repository();
        match repo.find_by_email(&em) {
            Ok(Some(user)) => {
                proof {
                    assert(self.users().contains_key(user@.id));
                    assert(self.users()[user@.id] == user);
                }
                ApiResponse::success(UserResponse::from_user(&user))
            },
            Ok(None) => {
                let ae = ApplicationError::UserNotFound;
                ApiResponse::error(ae.message())
            },
            Err(e) => {
                let ae = ApplicationError::DomainError(e);
                ApiResponse::error(ae.message())
            },
        }
    }

    /// Applies the requested changes to the record named by the
    /// identifier text; on success the response reports the stored
    /// record after the update.
    pub fn update_user(&mut self, user_id: String, request: UpdateUserRequest) -> (r: ApiResponse<
        UserResponse,
    >)
        requires
            old(self).inv(),
        ensures
            final(self).inv(),
            unique_emails(old(self).users()) ==> unique_emails(final(self).users()),
            !r.success ==> final(self).users() == old(self).users() && r.data is None && r.error
                is Some,
            r.success ==> r.error is None && (r.data matches Some(resp) && exists|v: u128|
                {
                    &&& user_id@ == #[trigger] uuid_text(v)
                    &&& old(self).users().contains_key(v)
                    &&& final(self).users().contains_key(v)
                    &&& final(self).users() == old(self).users().insert(
                        v,
                        final(self).users()[v],
                    )
                    &&& response_of(resp, final(self).users()[v]@)
                    &&& final(self).users()[v]@.id == v
                    &&& final(self).users()[v]@.created_at == old(self).users()[v]@.created_at
                    &&& (match request.email {
                        Some(et) => et@.len() > 0 && email_text_valid(lower_of(et@)) && final(self).users()[v]@.email == lower_of(et@),
                        None => final(self).users()[v]@.email == old(self).users()[v]@.email,
                    })
                    &&& (match request.name {
                        Some(nt) => trim_of(nt@).len() > 0 && final(self).users()[v]@.name
                            == trim_of(nt@),
                        None => final(self).users()[v]@.name == old(self).users()[v]@.name,
                    })
                }),
            (forall|v: u128| user_id@ != #[trigger] uuid_text(v)) ==> !r.success && (
            r.error matches Some(m) && m@ == "Invalid user ID: "@ + "Invalid UUID format"@),
            (exists|v: u128|
                user_id@ == #[trigger] uuid_text(v) && !old(self).users().contains_key(v))
                ==> !r.success,
            (request.email matches Some(et) && (et@.len() == 0 || !email_text_valid(
                lower_of(et@),
            ))) ==> !r.success,
            request.email matches Some(et) ==> ((exists|v: u128|
                user_id@ == #[trigger] uuid_text(v)) && (et@.len() == 0 || !email_text_valid(
                lower_of(et@),
            )) ==> (r.error matches Some(m) && m@ == "Invalid email: "@ + ("Invalid email: "@ + (
            if et@.len() == 0 {
                "Email cannot be empty"@
            } else {
                "Invalid email format"@
            })))),
            (request.name matches Some(nt) && trim_of(nt@).len() == 0) ==> !r.success,
            request.email matches Some(et) ==> ((unique_emails(old(self).users()) && exists|
                v: u128,
                k: u128,
            |
                {
                    &&& user_id@ == #[trigger] uuid_text(v)
                    &&& old(self).users().contains_key(k)
                    &&& k != v
                    &&& (#[trigger] old(self).users()[k])@.email == lower_of(et@)
                }) ==> !r.success),
    {
        let uid = match UserId::from_string(user_id) {
            Ok(uid) => uid,
            Err(m) => {
                let ae = ApplicationError::InvalidUserId(m);
                return ApiResponse::error(ae.message());
            },
        };
        proof {
            if exists|v: u128| uid@ != v && user_id@ == #[trigger] uuid_text(v) {
                let v = choose|v: u128| uid@ != v && user_id@ == #[trigger] uuid_text(v);
                crate::user_id::lemma_uuid_text_injective(uid@, v);
            }
        }
        let em: Option<Email> = match request.email {
            Some(et) => match Email::new(et) {
                Ok(e2) => Some(e2),
                Err(e2) => {
                    let ae = ApplicationError::InvalidEmail(e2.message());
                    return ApiResponse::error(ae.message());
                },
            },
            None => None,
        };
        match self.user_service.update_user(uid, em, request.name) {
            Ok(u) => {
                proof {
                    assert(old(self).users().contains_key(uid@));
                    assert(old(self).users()[uid@] == old(self).users()[uid@]);
                }
                ApiResponse::success(UserResponse::from_user(&u))
            },
            Err(e) => {
                let ae = ApplicationError::DomainError(e);
                ApiResponse::error(ae.message())
            },
        }
    }

    /// Removes the record named by the identifier text.
    pub fn delete_user(&mut self, user_id: String) -> (r: ApiResponse<()>)
        requires
            old(self).inv(),
        ensures
            final(self).inv(),
            unique_emails(old(self).users()) ==> unique_emails(final(self).users()),
            !r.success ==> final(self).users() == old(self).users() && r.data is None && r.error
                is Some,
            r.success ==> r.error is None && r.data == Some(()) && exists|v: u128|
                {
                    &&& user_id@ == #[trigger] uuid_text(v)
                    &&& old(self).users().contains_key(v)
                    &&& final(self).users() == old(self).users().remove(v)
                },
            (forall|v: u128| user_id@ != #[trigger] uuid_text(v)) ==> !r.success && (
            r.error matches Some(m) && m@ == "Invalid user ID: "@ + "Invalid UUID format"@),
            (exists|v: u128|
                user_id@ == #[trigger] uuid_text(v) && !old(self).users().contains_key(v))
                ==> !r.success,
    {
        let uid = match UserId::from_string(user_id) {
            Ok(uid) => uid,
            Err(m) => {
                let ae = ApplicationError::InvalidUserId(m);
                return ApiResponse::error(ae.message());
            },
        };
        proof {
            if exists|v: u128| uid@ != v && user_id@ == #[trigger] uuid_text(v) {
                let v = choose|v: u128| uid@ != v && user_id@ == #[trigger] uuid_text(v);
                crate::user_id::lemma_uuid_text_injective(uid@, v);
            }
        }
        match self.user_service.delete_user(uid) {
            Ok(()) => ApiResponse::success(()),
            Err(e) => {
                let ae = ApplicationError::DomainError(e);
                ApiResponse::error(ae.message())
            },
        }
    }
}

} // verus!

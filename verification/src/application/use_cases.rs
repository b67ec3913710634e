//! Thin use cases: each parses primitive request data, delegates to
//! the domain, and maps failures to `ApplicationError`.

use vstd::prelude::*;
use vstd::string::StringExecFns;
use crate::application::dto::{response_of, UserResponse};
use crate::email::{email_text_valid, lower_of, Email};
use crate::errors::{domain_error_text, storage_failure, DomainError};
use crate::repository::UserRepository;
use crate::service::{unique_emails, UserDomainService};
use crate::user::{trim_of, User};
use crate::user_id::{uuid_text, UserId};

verus! {

/// A failure at the application boundary: malformed primitive input,
/// a miss on lookup, or a propagated domain failure.
#[derive(Debug)]
pub enum ApplicationError {
    InvalidUserId(String),
    InvalidEmail(String),
    UserNotFound,
    DomainError(DomainError),
    Unexpected(String),
}

/// The human-readable description of `e`.
pub open spec fn application_error_text(e: ApplicationError) -> Seq<char> {
    match e {
        ApplicationError::InvalidUserId(m) => "Invalid user ID: "@ + m@,
        ApplicationError::InvalidEmail(m) => "Invalid email: "@ + m@,
        ApplicationError::UserNotFound => "User not found"@,
        ApplicationError::DomainError(de) => "Domain error: "@ + domain_error_text(de),
        ApplicationError::Unexpected(m) => "Unexpected error: "@ + m@,
    }
}

impl ApplicationError {
    /// A human-readable description of the failure.
    pub fn message(&self) -> (r: String)
        ensures
            r@ == application_error_text(*self),
    {
        match self {
            ApplicationError::InvalidUserId(m) => {
                "Invalid user ID: ".to_owned().concat(m.as_str())
            },
            ApplicationError::InvalidEmail(m) => "Invalid email: ".to_owned().concat(m.as_str()),
            ApplicationError::UserNotFound => "User not found".to_owned(),
            ApplicationError::DomainError(de) => {
                let dm = de.message();
                "Domain error: ".to_owned().concat(dm.as_str())
            },
            ApplicationError::Unexpected(m) => "Unexpected error: ".to_owned().concat(m.as_str()),
        }
    }
}

/// Creates a user from primitive request data.
pub struct CreateUserUseCase<R: UserRepository> {
    user_domain_service: UserDomainService<R>,
}

impl<R: UserRepository> CreateUserUseCase<R> {
    /// The stored records, as the repository reports them.
    pub closed spec fn users(&self) -> Map<u128, User> {
        self.user_domain_service.users()
    }

    /// The underlying store's well-formedness.
    pub closed spec fn inv(&self) -> bool {
        self.user_domain_service.inv()
    }

    pub fn new(user_repository: R) -> (r: Self)
        ensures
            r.users() == user_repository.users(),
            user_repository.inv() ==> r.inv(),
    {
        CreateUserUseCase { user_domain_service: UserDomainService::new(user_repository) }
    }

    /// Validates the email text, then creates and stores the user
    /// unless the address already has an owner.
    pub fn execute(&mut self, email: String, name: String) -> (r: Result<User, ApplicationError>)
        requires
            old(self).inv(),
        ensures
            final(self).inv(),
            unique_emails(old(self).users()) ==> unique_emails(final(self).users()),
            match r {
                Ok(u) => {
                    &&& email@.len() > 0 && email_text_valid(lower_of(email@))
                    &&& forall|k: u128|
                        old(self).users().contains_key(k) ==> (#[trigger] old(self).users()[k])@.email
                            != lower_of(email@)
                    &&& trim_of(name@).len() > 0
                    &&& u@.email == lower_of(email@)
                    &&& u@.name == trim_of(name@)
                    &&& u@.created_at == u@.updated_at
                    &&& final(self).users() == old(self).users().insert(u@.id, u)
                },
                Err(e) => {
                    &&& final(self).users() == old(self).users()
                    &&& match e {
                        ApplicationError::InvalidEmail(m) => {
                            &&& email@.len() == 0 || !email_text_valid(lower_of(email@))
                            &&& m@ == "Invalid email: "@ + (if email@.len() == 0 {
                                "Email cannot be empty"@
                            } else {
                                "Invalid email format"@
                            })
                        },
                        ApplicationError::DomainError(de) => match de {
                            DomainError::UserAlreadyExists => exists|k: u128|
                                old(self).users().contains_key(k) && (#[trigger] old(self).users()[k])@.email == lower_of(email@),
                            DomainError::InvalidUserData(_) => {
                                &&& trim_of(name@).len() == 0
                                &&& forall|k: u128|
                                    old(self).users().contains_key(k) ==> (#[trigger] old(self).users()[k])@.email != lower_of(email@)
                            },
                            DomainError::DatabaseError(_) => email@.len() > 0
                                && email_text_valid(lower_of(email@)),
                            DomainError::ExternalServiceError(_) => email@.len() > 0
                                && email_text_valid(lower_of(email@)),
                            _ => false,
                        },
                        _ => false,
                    }
                },
            },
    {
        let em = match Email::new(email) {
            Ok(em) => em,
            Err(e) => return Err(ApplicationError::InvalidEmail(e.message())),
        };
        match self.user_domain_service.create_user(em, name) {
            Ok(u) => Ok(u),
            Err(e) => Err(ApplicationError::DomainError(e)),
        }
    }
}

/// Looks users up from primitive request data.
pub struct GetUserUseCase<R: UserRepository> {
    user_repository: R,
}

impl<R: UserRepository> GetUserUseCase<R> {
    /// The stored records, as the repository reports them.
    pub closed spec fn users(&self) -> Map<u128, User> {
        self.user_repository.users()
    }

    /// The underlying store's well-formedness.
    pub closed spec fn inv(&self) -> bool {
        self.user_repository.inv()
    }

    pub fn new(user_repository: R) -> (r: Self)
        ensures
            r.users() == user_repository.users(),
            user_repository.inv() ==> r.inv(),
    {
        GetUserUseCase { user_repository }
    }

    /// Parses the identifier text and reports the record it names.
    pub fn execute(&self, user_id: String) -> (r: Result<UserResponse, ApplicationError>)
        requires
            self.inv(),
        ensures
            match r {
                Ok(resp) => exists|v: u128|
                    {
                        &&& user_id@ == #[trigger] uuid_text(v)
                        &&& self.users().contains_key(v)
                        &&& response_of(resp, self.users()[v]@)
                    },
                Err(e) => match e {
                    ApplicationError::InvalidUserId(m) => {
                        &&& forall|v: u128| user_id@ != #[trigger] uuid_text(v)
                        &&& m@ == "Invalid UUID format"@
                    },
                    ApplicationError::UserNotFound => exists|v: u128|
                        user_id@ == #[trigger] uuid_text(v) && !self.users().contains_key(v),
                    ApplicationError::DomainError(de) => storage_failure(de) && exists|v: u128|
                        user_id@ == #[trigger] uuid_text(v),
                    _ => false,
                },
            },
    {
        let uid = match UserId::from_string(user_id) {
            Ok(uid) => uid,
            Err(m) => return Err(ApplicationError::InvalidUserId(m)),
        };
        match self.user_repository.find_by_id(&uid) {
            Ok(Some(user)) => Ok(UserResponse::from_user(&user)),
            Ok(None) => Err(ApplicationError::UserNotFound),
            Err(e) => Err(ApplicationError::DomainError(e)),
        }
    }

    /// Parses the email text and reports a record that owns the
    /// normalized address.
    pub fn get_by_email(&self, email: String) -> (r: Result<UserResponse, ApplicationError>)
        requires
            self.inv(),
        ensures
            match r {
                Ok(resp) => {
                    &&& email@.len() > 0 && email_text_valid(lower_of(email@))
                    &&& exists|k: u128|
                        self.users().contains_key(k) && response_of(
                            resp,
                            (#[trigger] self.users()[k])@,
                        ) && self.users()[k]@.email == lower_of(email@)
                },
                Err(e) => match e {
                    ApplicationError::InvalidEmail(m) => {
                        &&& email@.len() == 0 || !email_text_valid(lower_of(email@))
                        &&& m@ == "Invalid email: "@ + (if email@.len() == 0 {
                            "Email cannot be empty"@
                        } else {
                            "Invalid email format"@
                        })
                    },
                    ApplicationError::UserNotFound => {
                        &&& email@.len() > 0 && email_text_valid(lower_of(email@))
                        &&& forall|k: u128|
                            self.users().contains_key(k) ==> (#[trigger] self.users()[k])@.email
                                != lower_of(email@)
                    },
                    ApplicationError::DomainError(de) => storage_failure(de) && email@.len() > 0
                        && email_text_valid(lower_of(email@)),
                    _ => false,
                },
            },
    {
        let em = match Email::new(email) {
            Ok(em) => em,
            Err(e) => return Err(ApplicationError::InvalidEmail(e.message())),
        };
        match self.user_repository.find_by_email(&em) {
            Ok(Some(user)) => {
                proof {
                    assert(self.users().contains_key(user@.id));
                    assert(self.users()[user@.id] == user);
                }
                Ok(UserResponse::from_user(&user))
            },
            Ok(None) => Err(ApplicationError::UserNotFound),
            Err(e) => Err(ApplicationError::DomainError(e)),
        }
    }
}

/// Updates a user from primitive request data.
pub struct UpdateUserUseCase<R: UserRepository> {
    user_domain_service: UserDomainService<R>,
}

impl<R: UserRepository> UpdateUserUseCase<R> {
    /// The stored records, as the repository reports them.
    pub closed spec fn users(&self) -> Map<u128, User> {
        self.user_domain_service.users()
    }

    /// The underlying store's well-formedness.
    pub closed spec fn inv(&self) -> bool {
        self.user_domain_service.inv()
    }

    pub fn new(user_repository: R) -> (r: Self)
        ensures
            r.users() == user_repository.users(),
            user_repository.inv() ==> r.inv(),
    {
        UpdateUserUseCase { user_domain_service: UserDomainService::new(user_repository) }
    }

    /// Parses the identifier and optional email texts, then applies
    /// the requested changes to the record they name.
    pub fn execute(
        &mut self,
        user_id: String,
        email: Option<String>,
        name: Option<String>,
    ) -> (r: Result<UserResponse, ApplicationError>)
        requires
            old(self).inv(),
        ensures
            final(self).inv(),
            unique_emails(old(self).users()) ==> unique_emails(final(self).users()),
            match r {
                Ok(resp) => exists|v: u128|
                    {
                        &&& user_id@ == #[trigger] uuid_text(v)
                        &&& old(self).users().contains_key(v)
                        &&& final(self).users().contains_key(v)
                        &&& final(self).users() == old(self).users().insert(
                            v,
                            final(self).users()[v],
                        )
                        &&& response_of(resp, final(self).users()[v]@)
                        &&& final(self).users()[v]@.id == v
                        &&& final(self).users()[v]@.created_at == old(self).users()[v]@.created_at
                        &&& (match email {
                            Some(et) => et@.len() > 0 && email_text_valid(lower_of(et@)) && final(self).users()[v]@.email == lower_of(et@),
                            None => final(self).users()[v]@.email == old(self).users()[v]@.email,
                        })
                        &&& (match name {
                            Some(nt) => trim_of(nt@).len() > 0 && final(self).users()[v]@.name
                                == trim_of(nt@),
                            None => final(self).users()[v]@.name == old(self).users()[v]@.name,
                        })
                    },
                Err(e) => {
                    &&& final(self).users() == old(self).users()
                    &&& match e {
                        ApplicationError::InvalidUserId(m) => {
                            &&& forall|v: u128| user_id@ != #[trigger] uuid_text(v)
                            &&& m@ == "Invalid UUID format"@
                        },
                        ApplicationError::InvalidEmail(_) => {
                            &&& exists|v: u128| user_id@ == #[trigger] uuid_text(v)
                            &&& email matches Some(et) && (et@.len() == 0 || !email_text_valid(
                                lower_of(et@),
                            ))
                        },
                        ApplicationError::DomainError(de) => match de {
                            DomainError::UserNotFound => exists|v: u128|
                                user_id@ == #[trigger] uuid_text(v) && !old(self).users().contains_key(v),
                            DomainError::UserAlreadyExists => exists|v: u128|
                                {
                                    &&& user_id@ == #[trigger] uuid_text(v)
                                    &&& old(self).users().contains_key(v)
                                    &&& email matches Some(et) && exists|k: u128|
                                        old(self).users().contains_key(k) && k != v && (
                                        #[trigger] old(self).users()[k])@.email == lower_of(et@)
                                },
                            DomainError::InvalidUserData(_) => name matches Some(nt) && trim_of(
                                nt@,
                            ).len() == 0,
                            DomainError::DatabaseError(_) => {
                                &&& exists|v: u128| user_id@ == #[trigger] uuid_text(v)
                                &&& (email matches Some(et) ==> et@.len() > 0 && email_text_valid(
                                    lower_of(et@),
                                ))
                            },
                            DomainError::ExternalServiceError(_) => {
                                &&& exists|v: u128| user_id@ == #[trigger] uuid_text(v)
                                &&& (email matches Some(et) ==> et@.len() > 0 && email_text_valid(
                                    lower_of(et@),
                                ))
                            },
                            _ => false,
                        },
                        _ => false,
                    }
                },
            },
    {
        let uid = match UserId::from_string(user_id) {
            Ok(uid) => uid,
            Err(m) => return Err(ApplicationError::InvalidUserId(m)),
        };
        let em: Option<Email> = match email {
            Some(et) => match Email::new(et) {
                Ok(e2) => Some(e2),
                Err(e2) => return Err(ApplicationError::InvalidEmail(e2.message())),
            },
            None => None,
        };
        match self.user_domain_service.update_user(uid, em, name) {
            Ok(u) => Ok(UserResponse::from_user(&u)),
            Err(e) => Err(ApplicationError::DomainError(e)),
        }
    }
}

/// Deletes a user from primitive request data.
pub struct DeleteUserUseCase<R: UserRepository> {
    user_domain_service: UserDomainService<R>,
}

impl<R: UserRepository> DeleteUserUseCase<R> {
    /// The stored records, as the repository reports them.
    pub closed spec fn users(&self) -> Map<u128, User> {
        self.user_domain_service.users()
    }

    /// The underlying store's well-formedness.
    pub closed spec fn inv(&self) -> bool {
        self.user_domain_service.inv()
    }

    pub fn new(user_repository: R) -> (r: Self)
        ensures
            r.users() == user_repository.users(),
            user_repository.inv() ==> r.inv(),
    {
        DeleteUserUseCase { user_domain_service: UserDomainService::new(user_repository) }
    }

    /// Parses the identifier text and removes the record it names.
    pub fn execute(&mut self, user_id: String) -> (r: Result<(), ApplicationError>)
        requires
            old(self).inv(),
        ensures
            final(self).inv(),
            unique_emails(old(self).users()) ==> unique_emails(final(self).users()),
            match r {
                Ok(()) => exists|v: u128|
                    {
                        &&& user_id@ == #[trigger] uuid_text(v)
                        &&& old(self).users().contains_key(v)
                        &&& final(self).users() == old(self).users().remove(v)
                    },
                Err(e) => {
                    &&& final(self).users() == old(self).users()
                    &&& match e {
                        ApplicationError::InvalidUserId(m) => {
                            &&& forall|v: u128| user_id@ != #[trigger] uuid_text(v)
                            &&& m@ == "Invalid UUID format"@
                        },
                        ApplicationError::DomainError(de) => match de {
                            DomainError::UserNotFound => exists|v: u128|
                                user_id@ == #[trigger] uuid_text(v) && !old(self).users().contains_key(v),
                            DomainError::DatabaseError(_) => exists|v: u128|
                                user_id@ == #[trigger] uuid_text(v),
                            DomainError::ExternalServiceError(_) => exists|v: u128|
                                user_id@ == #[trigger] uuid_text(v),
                            _ => false,
                        },
                        _ => false,
                    }
                },
            },
    {
        let uid = match UserId::from_string(user_id) {
            Ok(uid) => uid,
            Err(m) => return Err(ApplicationError::InvalidUserId(m)),
        };
        match self.user_domain_service.delete_user(uid) {
            Ok(()) => Ok(()),
            Err(e) => Err(ApplicationError::DomainError(e)),
        }
    }
}

} // verus!

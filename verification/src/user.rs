//! The `User` aggregate root: identifier, email, display name and the
//! two timestamps, with the name invariant enforced on construction
//! and on every rename.

use vstd::prelude::*;
use crate::email::Email;
use crate::errors::DomainError;
use crate::user_id::UserId;

verus! {

/// The mathematical content of a `User` record. Timestamps are
/// nanoseconds since the Unix epoch.
pub ghost struct UserView {
    pub id: u128,
    pub email: Seq<char>,
    pub name: Seq<char>,
    pub created_at: i64,
    pub updated_at: i64,
}

/// The form of a character sequence with leading and trailing
/// whitespace removed, as `str::trim` computes it; the result depends
/// on the characters alone.
pub uninterp spec fn trim_of(s: Seq<char>) -> Seq<char>;

/// Relies on `str::trim` to strip leading and trailing whitespace.
#[verifier::external_body]
fn trim(s: &str) -> (r: &str)
    ensures
        r@ == trim_of(s@),
{
    s.trim()
}

/// Relies on chrono's `Utc::now` for the current wall-clock time, as
/// nanoseconds since the Unix epoch (zero for a time outside the
/// representable range); nothing is promised of the value.
#[verifier::external_body]
fn now_nanos() -> (r: i64) {
    chrono::Utc::now().timestamp_nanos_opt().unwrap_or(0)
}

/// `u` after a rename to `name` at clock reading `now`.
pub open spec fn renamed(u: UserView, name: Seq<char>, now: i64) -> UserView {
    UserView { id: u.id, email: u.email, name, created_at: u.created_at, updated_at: now }
}

/// `u` after an email change to `email` at clock reading `now`.
pub open spec fn with_email(u: UserView, email: Seq<char>, now: i64) -> UserView {
    UserView { id: u.id, email, name: u.name, created_at: u.created_at, updated_at: now }
}

/// Updating the name or the email never changes a user's identifier or
/// creation time, and stamps the update time with the clock reading,
/// which is not earlier than the old one unless the clock went back.
pub proof fn lemma_update_preserves_identity(
    u: UserView,
    name: Seq<char>,
    email: Seq<char>,
    now: i64,
)
    ensures
        renamed(u, name, now).id == u.id,
        renamed(u, name, now).created_at == u.created_at,
        with_email(u, email, now).id == u.id,
        with_email(u, email, now).created_at == u.created_at,
        now >= u.updated_at ==> renamed(u, name, now).updated_at >= u.updated_at,
        now >= u.updated_at ==> with_email(u, email, now).updated_at >= u.updated_at,
{
}

/// A user record. Two records denote the same entity exactly when
/// their identifiers are equal.
#[derive(Debug)]
pub struct User {
    id: UserId,
    email: Email,
    name: String,
    created_at: i64,
    updated_at: i64,
}

impl View for User {
    type V = UserView;

    closed spec fn view(&self) -> UserView {
        UserView {
            id: self.id@,
            email: self.email@,
            name: self.name@,
            created_at: self.created_at,
            updated_at: self.updated_at,
        }
    }
}

impl User {
    /// A new record with a fresh random identifier and both timestamps
    /// set to the current time; the name is stored trimmed and must
    /// not be empty after trimming.
    pub fn new(email: Email, name: String) -> (r: Result<User, DomainError>)
        ensures
            match r {
                Ok(u) => {
                    &&& trim_of(name@).len() > 0
                    &&& u@.email == email@
                    &&& u@.name == trim_of(name@)
                    &&& u@.created_at == u@.updated_at
                },
                Err(e) => {
                    &&& trim_of(name@).len() == 0
                    &&& e matches DomainError::InvalidUserData(m) && m@ == "Name cannot be empty"@
                },
            },
    {
        let now = now_nanos();
        Self::from_existing(UserId::new(), email, name, now, now)
    }

    /// Rebuilds a record from stored fields, re-checking the name
    /// invariant.
    pub fn from_existing(
        id: UserId,
        email: Email,
        name: String,
        created_at: i64,
        updated_at: i64,
    ) -> (r: Result<User, DomainError>)
        ensures
            match r {
                Ok(u) => {
                    &&& trim_of(name@).len() > 0
                    &&& u@ == (UserView {
                        id: id@,
                        email: email@,
                        name: trim_of(name@),
                        created_at,
                        updated_at,
                    })
                },
                Err(e) => {
                    &&& trim_of(name@).len() == 0
                    &&& e matches DomainError::InvalidUserData(m) && m@ == "Name cannot be empty"@
                },
            },
    {
        let trimmed = trim(name.as_str());
        if trimmed.is_empty() {
            return Err(DomainError::InvalidUserData("Name cannot be empty".to_owned()));
        }
        Ok(User { id, email, name: trimmed.to_owned(), created_at, updated_at })
    }

    /// The stable identifier of this record.
    pub fn id(&self) -> (r: &UserId)
        ensures
            r@ == self@.id,
    {
        &self.id
    }

    /// The current email address.
    pub fn email(&self) -> (r: &Email)
        ensures
            r@ == self@.email,
    {
        &self.email
    }

    /// The current display name.
    pub fn name(&self) -> (r: &str)
        ensures
            r@ == self@.name,
    {
        self.name.as_str()
    }

    /// When the record was created, in nanoseconds since the epoch.
    pub fn created_at(&self) -> (r: i64)
        ensures
            r == self@.created_at,
    {
        self.created_at
    }

    /// When the record was last changed, in nanoseconds since the epoch.
    pub fn updated_at(&self) -> (r: i64)
        ensures
            r == self@.updated_at,
    {
        self.updated_at
    }

    /// Replaces the name (stored trimmed; empty-after-trim is
    /// rejected) and stamps the update time with `now`.
    pub fn update_name_at(&mut self, new_name: String, now: i64) -> (r: Result<
        (),
        DomainError,
    >)
        ensures
            match r {
                Ok(()) => {
                    &&& trim_of(new_name@).len() > 0
                    &&& final(self)@ == renamed(old(self)@, trim_of(new_name@), now)
                },
                Err(e) => {
                    &&& trim_of(new_name@).len() == 0
                    &&& *final(self) == *old(self)
                    &&& e matches DomainError::InvalidUserData(m) && m@ == "Name cannot be empty"@
                },
            },
    {
        let trimmed = trim(new_name.as_str());
        if trimmed.is_empty() {
            return Err(DomainError::InvalidUserData("Name cannot be empty".to_owned()));
        }
        self.name = trimmed.to_owned();
        self.updated_at = now;
        Ok(())
    }

    /// Replaces the name at the current time; the update time is
    /// whatever the clock read.
    pub fn update_name(&mut self, new_name: String) -> (r: Result<(), DomainError>)
        ensures
            match r {
                Ok(()) => {
                    &&& trim_of(new_name@).len() > 0
                    &&& final(self)@.name == trim_of(new_name@)
                    &&& final(self)@.id == old(self)@.id
                    &&& final(self)@.email == old(self)@.email
                    &&& final(self)@.created_at == old(self)@.created_at
                },
                Err(e) => {
                    &&& trim_of(new_name@).len() == 0
                    &&& *final(self) == *old(self)
                    &&& e matches DomainError::InvalidUserData(m) && m@ == "Name cannot be empty"@
                },
            },
    {
        let now = now_nanos();
        self.update_name_at(new_name, now)
    }

    /// Replaces the email (already validated by its own constructor)
    /// and stamps the update time with `now`. Always succeeds.
    pub fn update_email_at(&mut self, new_email: Email, now: i64) -> (r: Result<
        (),
        DomainError,
    >)
        ensures
            r is Ok,
            final(self)@ == with_email(old(self)@, new_email@, now),
    {
        self.email = new_email;
        self.updated_at = now;
        Ok(())
    }

    /// Replaces the email at the current time; the update time is
    /// whatever the clock read.
    pub fn update_email(&mut self, new_email: Email) -> (r: Result<(), DomainError>)
        ensures
            r is Ok,
            final(self)@.email == new_email@,
            final(self)@.id == old(self)@.id,
            final(self)@.name == old(self)@.name,
            final(self)@.created_at == old(self)@.created_at,
    {
        let now = now_nanos();
        self.update_email_at(new_email, now)
    }
}

impl Clone for User {
    fn clone(&self) -> (r: Self)
        ensures
            r == *self,
    {
        User {
            id: self.id,
            email: self.email.clone(),
            name: self.name.clone(),
            created_at: self.created_at,
            updated_at: self.updated_at,
        }
    }
}

impl PartialEq for User {
    fn eq(&self, other: &User) -> bool {
        let r = self.id == other.id;
        proof {
            UserId::lemma_eq_view(self.id, other.id);
        }
        r
    }
}

impl vstd::std_specs::cmp::PartialEqSpecImpl for User {
    open spec fn obeys_eq_spec() -> bool {
        true
    }

    open spec fn eq_spec(&self, other: &User) -> bool {
        self@.id == other@.id
    }
}

} // verus!

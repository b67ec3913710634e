//! The domain service: orchestrates repository reads and writes
//! around entity operations to enforce the cross-record invariant
//! that at most one stored record owns a normalized email address.

use vstd::prelude::*;
use crate::email::Email;
use crate::errors::DomainError;
use crate::repository::UserRepository;
use crate::user::{trim_of, User};
use crate::user_id::UserId;

verus! {

/// At most one stored record per normalized email address.
pub open spec fn unique_emails(m: Map<u128, User>) -> bool {
    forall|k1: u128, k2: u128|
        m.contains_key(k1) && m.contains_key(k2) && k1 != k2 ==> (#[trigger] m[k1])@.email != (
        #[trigger] m[k2])@.email
}

/// Storing a record whose address no other record owns preserves the
/// email-uniqueness invariant; this is the shape `create_user`
/// guarantees on success.
pub proof fn lemma_insert_preserves_unique_emails(m: Map<u128, User>, u: User)
    requires
        unique_emails(m),
        forall|k: u128|
            m.contains_key(k) && k != u@.id ==> (#[trigger] m[k])@.email != u@.email,
    ensures
        unique_emails(m.insert(u@.id, u)),
{
}

/// Re-storing a record under its own identifier preserves the
/// email-uniqueness invariant when either no other record owns the new
/// address or the record itself already owned it; this is the shape
/// `update_user` guarantees on success.
pub proof fn lemma_update_preserves_unique_emails(m: Map<u128, User>, id: u128, u: User)
    requires
        unique_emails(m),
        u@.id == id,
        (forall|k: u128|
            m.contains_key(k) && k != id ==> (#[trigger] m[k])@.email != u@.email) || (
        m.contains_key(id) && m[id]@.email == u@.email),
    ensures
        unique_emails(m.insert(id, u)),
{
    let m2 = m.insert(id, u);
    if m.contains_key(id) && m[id]@.email == u@.email {
        assert forall|k1: u128, k2: u128|
            m2.contains_key(k1) && m2.contains_key(k2) && k1 != k2 implies (#[trigger] m2[k1])@.email
            != (#[trigger] m2[k2])@.email by {
            if k1 != id && k2 != id {
                assert(m2[k1] == m[k1] && m2[k2] == m[k2]);
            } else if k1 == id {
                assert(m2[k2] == m[k2]);
                assert(m[k2]@.email != m[id]@.email);
            } else {
                assert(m2[k1] == m[k1]);
                assert(m[k1]@.email != m[id]@.email);
            }
        }
    }
}

/// Removing a record preserves the email-uniqueness invariant; this
/// is the shape `delete_user` guarantees on success.
pub proof fn lemma_remove_preserves_unique_emails(m: Map<u128, User>, k: u128)
    requires
        unique_emails(m),
    ensures
        unique_emails(m.remove(k)),
{
}

/// The domain service, generic over the repository capability it
/// borrows its records from.
pub struct UserDomainService<R: UserRepository> {
    user_repository: R,
}

impl<R: UserRepository> UserDomainService<R> {
    /// The stored records, as the repository reports them.
    pub closed spec fn users(&self) -> Map<u128, User> {
        self.user_repository.users()
    }

    /// The underlying store's well-formedness.
    pub closed spec fn inv(&self) -> bool {
        self.user_repository.inv()
    }

    pub fn new(user_repository: R) -> (r: Self)
        ensures
            r.users() == user_repository.users(),
            user_repository.inv() ==> r.inv(),
    {
        UserDomainService { user_repository }
    }

    /// Read access to the underlying repository.
    pub fn repository(&self) -> (r: &R)
        ensures
            r.users() == self.users(),
            self.inv() ==> r.inv(),
    {
        &self.user_repository
    }

    /// Creates a new user and stores it, after checking that no stored
    /// record already owns the address. The check and the insertion
    /// happen under one exclusive borrow of the store, so no other
    /// caller can interleave between the two.
    pub fn create_user(&mut self, email: Email, name: String) -> (r: Result<User, DomainError>)
        requires
            old(self).inv(),
        ensures
            final(self).inv(),
            unique_emails(old(self).users()) ==> unique_emails(final(self).users()),
            match r {
                Ok(u) => {
                    &&& forall|k: u128|
                        old(self).users().contains_key(k) ==> (#[trigger] old(self).users()[k])@.email != email@
                    &&& trim_of(name@).len() > 0
                    &&& u@.email == email@
                    &&& u@.name == trim_of(name@)
                    &&& u@.created_at == u@.updated_at
                    &&& final(self).users() == old(self).users().insert(u@.id, u)
                },
                Err(e) => {
                    &&& final(self).users() == old(self).users()
                    &&& match e {
                        DomainError::UserAlreadyExists => exists|k: u128|
                            old(self).users().contains_key(k) && (#[trigger] old(self).users()[k])@.email == email@,
                        DomainError::InvalidUserData(_) => {
                            &&& trim_of(name@).len() == 0
                            &&& forall|k: u128|
                                old(self).users().contains_key(k) ==> (#[trigger] old(self).users()[k])@.email != email@
                        },
                        DomainError::DatabaseError(_) => true,
                        DomainError::ExternalServiceError(_) => true,
                        _ => false,
                    }
                },
            },
    {
        match self.user_repository.find_by_email(&email) {
            Ok(Some(_existing)) => Err(DomainError::UserAlreadyExists),
            Ok(None) => {
                match User::new(email, name) {
                    Ok(user) => {
                        match self.user_repository.save(&user) {
                            Ok(()) => {
                                proof {
                                    if unique_emails(old(self).users()) {
                                        lemma_insert_preserves_unique_emails(
                                            old(self).users(),
                                            user,
                                        );
                                    }
                                }
                                Ok(user)
                            },
                            Err(e) => Err(e),
                        }
                    },
                    Err(e) => Err(e),
                }
            },
            Err(e) => Err(e),
        }
    }

    /// Applies an optional email change and an optional rename to the
    /// record with the given identifier, then persists once. The email
    /// uniqueness check precedes the rename, and all changes are made
    /// to a local copy, so a failure leaves the store untouched.
    pub fn update_user(
        &mut self,
        user_id: UserId,
        email: Option<Email>,
        name: Option<String>,
    ) -> (r: Result<User, DomainError>)
        requires
            old(self).inv(),
        ensures
            final(self).inv(),
            unique_emails(old(self).users()) ==> unique_emails(final(self).users()),
            match r {
                Ok(u) => {
                    &&& old(self).users().contains_key(user_id@)
                    &&& u@.id == user_id@
                    &&& u@.created_at == old(self).users()[user_id@]@.created_at
                    &&& u@.email == (match email {
                        Some(e) => e@,
                        None => old(self).users()[user_id@]@.email,
                    })
                    &&& u@.name == (match name {
                        Some(nm) => trim_of(nm@),
                        None => old(self).users()[user_id@]@.name,
                    })
                    &&& (match name {
                        Some(nm) => trim_of(nm@).len() > 0,
                        None => true,
                    })
                    &&& (match email {
                        Some(e) => (forall|k: u128|
                            old(self).users().contains_key(k) && k != user_id@ ==> (
                            #[trigger] old(self).users()[k])@.email != e@) || old(self).users()[user_id@]@.email == e@,
                        None => true,
                    })
                    &&& (email is None && name is None ==> u == old(self).users()[user_id@])
                    &&& final(self).users() == old(self).users().insert(user_id@, u)
                },
                Err(e) => {
                    &&& final(self).users() == old(self).users()
                    &&& match e {
                        DomainError::UserNotFound => !old(self).users().contains_key(user_id@),
                        DomainError::UserAlreadyExists => {
                            &&& old(self).users().contains_key(user_id@)
                            &&& email matches Some(em) && exists|k: u128|
                                old(self).users().contains_key(k) && k != user_id@ && (
                                #[trigger] old(self).users()[k])@.email == em@
                        },
                        DomainError::InvalidUserData(_) => {
                            &&& old(self).users().contains_key(user_id@)
                            &&& name matches Some(nm) && trim_of(nm@).len() == 0
                            &&& (match email {
                                Some(e) => (forall|k: u128|
                                    old(self).users().contains_key(k) && k != user_id@ ==> (
                                    #[trigger] old(self).users()[k])@.email != e@) || old(
                                    self,
                                ).users()[user_id@]@.email == e@,
                                None => true,
                            })
                        },
                        DomainError::DatabaseError(_) => true,
                        DomainError::ExternalServiceError(_) => true,
                        _ => false,
                    }
                },
            },
    {
        let found = match self.user_repository.find_by_id(&user_id) {
            Ok(f) => f,
            Err(e) => return Err(e),
        };
        let mut user = match found {
            Some(u) => u,
            None => return Err(DomainError::UserNotFound),
        };
        match email {
            Some(new_email) => {
                match self.user_repository.find_by_email(&new_email) {
                    Ok(Some(existing)) => {
                        let a = *existing.id();
                        let b = user_id;
                        let same = a == b;
                        proof {
                            UserId::lemma_eq_view(a, b);
                        }
                        if !same {
                            proof {
                                assert(old(self).users().contains_key(a@) && old(self).users()[a@]@.email == new_email@);
                            }
                            return Err(DomainError::UserAlreadyExists);
                        }
                        match user.update_email(new_email) {
                            Ok(()) => {},
                            Err(e) => return Err(e),
                        }
                    },
                    Ok(None) => {
                        match user.update_email(new_email) {
                            Ok(()) => {},
                            Err(e) => return Err(e),
                        }
                    },
                    Err(e) => return Err(e),
                }
            },
            None => {},
        }
        match name {
            Some(new_name) => {
                match user.update_name(new_name) {
                    Ok(()) => {},
                    Err(e) => return Err(e),
                }
            },
            None => {},
        }
        match self.user_repository.save(&user) {
            Ok(()) => {
                proof {
                    if unique_emails(old(self).users()) {
                        lemma_update_preserves_unique_emails(
                            old(self).users(),
                            user_id@,
                            user,
                        );
                    }
                }
                Ok(user)
            },
            Err(e) => Err(e),
        }
    }

    /// Removes the record with the given identifier; reports
    /// `UserNotFound` when no such record is stored, although the
    /// underlying removal itself is idempotent.
    pub fn delete_user(&mut self, user_id: UserId) -> (r: Result<(), DomainError>)
        requires
            old(self).inv(),
        ensures
            final(self).inv(),
            unique_emails(old(self).users()) ==> unique_emails(final(self).users()),
            match r {
                Ok(()) => {
                    &&& old(self).users().contains_key(user_id@)
                    &&& final(self).users() == old(self).users().remove(user_id@)
                },
                Err(e) => {
                    &&& final(self).users() == old(self).users()
                    &&& match e {
                        DomainError::UserNotFound => !old(self).users().contains_key(user_id@),
                        DomainError::DatabaseError(_) => true,
                        DomainError::ExternalServiceError(_) => true,
                        _ => false,
                    }
                },
            },
    {
        let found = match self.user_repository.find_by_id(&user_id) {
            Ok(f) => f,
            Err(e) => return Err(e),
        };
        let user = match found {
            Some(u) => u,
            None => return Err(DomainError::UserNotFound),
        };
        match self.user_repository.delete(user.id()) {
            Ok(()) => {
                proof {
                    if unique_emails(old(self).users()) {
                        lemma_remove_preserves_unique_emails(old(self).users(), user_id@);
                    }
                }
                Ok(())
            },
            Err(e) => Err(e),
        }
    }
}

} // verus!

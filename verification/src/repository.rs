//! The repository capability the domain service depends on, and the
//! in-memory implementation backing it.

use vstd::prelude::*;
use crate::email::Email;
use crate::errors::DomainError;
use crate::user::User;
use crate::user_id::UserId;

verus! {

/// A backing store for user records, abstracted as a map from
/// identifier value to record. Reads report exactly what the map
/// holds; writes succeed with upsert or remove semantics, or fail as
/// a storage error leaving the map unchanged.
pub trait UserRepository: Sized {
    /// The stored records, keyed by identifier value.
    spec fn users(&self) -> Map<u128, User>;

    /// The store's internal well-formedness.
    spec fn inv(&self) -> bool;

    /// Looks a record up by identifier.
    fn find_by_id(&self, id: &UserId) -> (r: Result<Option<User>, DomainError>)
        requires
            self.inv(),
        ensures
            match r {
                Ok(Some(u)) => {
                    &&& self.users().contains_key(id@)
                    &&& self.users()[id@] == u
                    &&& u@.id == id@
                },
                Ok(None) => !self.users().contains_key(id@),
                Err(e) => crate::errors::storage_failure(e),
            },
    ;

    /// Looks a record up by email; reports a record with that exact
    /// (normalized) address, or that none is stored.
    fn find_by_email(&self, email: &Email) -> (r: Result<Option<User>, DomainError>)
        requires
            self.inv(),
        ensures
            match r {
                Ok(Some(u)) => {
                    &&& self.users().contains_key(u@.id)
                    &&& self.users()[u@.id] == u
                    &&& u@.email == email@
                },
                Ok(None) => forall|k: u128|
                    self.users().contains_key(k) ==> (#[trigger] self.users()[k])@.email
                        != email@,
                Err(e) => crate::errors::storage_failure(e),
            },
    ;

    /// Stores a record: inserting when the identifier is new,
    /// overwriting the full record when it already exists.
    fn save(&mut self, user: &User) -> (r: Result<(), DomainError>)
        requires
            old(self).inv(),
        ensures
            final(self).inv(),
            match r {
                Ok(()) => final(self).users() == old(self).users().insert(user@.id, *user),
                Err(e) => {
                    &&& final(self).users() == old(self).users()
                    &&& crate::errors::storage_failure(e)
                },
            },
    ;

    /// Removes the record if present; removing an absent identifier
    /// is a no-op, not an error.
    fn delete(&mut self, id: &UserId) -> (r: Result<(), DomainError>)
        requires
            old(self).inv(),
        ensures
            final(self).inv(),
            match r {
                Ok(()) => final(self).users() == old(self).users().remove(id@),
                Err(e) => {
                    &&& final(self).users() == old(self).users()
                    &&& crate::errors::storage_failure(e)
                },
            },
    ;
}

/// Pairwise-distinct identifiers.
pub open spec fn ids_distinct(s: Seq<User>) -> bool {
    forall|i: int, j: int| 0 <= i < j < s.len() ==> (#[trigger] s[i])@.id != (#[trigger] s[j])@.id
}

/// The records of `s` as a map keyed by identifier value; on
/// duplicate identifiers the later record wins.
pub open spec fn as_map(s: Seq<User>) -> Map<u128, User>
    decreases s.len(),
{
    if s.len() == 0 {
        Map::empty()
    } else {
        as_map(s.drop_last()).insert(s.last()@.id, s.last())
    }
}

/// `m` after storing each record of `s` in order, later records
/// overwriting earlier ones with the same identifier.
pub open spec fn upserted(m: Map<u128, User>, s: Seq<User>) -> Map<u128, User>
    decreases s.len(),
{
    if s.len() == 0 {
        m
    } else {
        upserted(m, s.drop_last()).insert(s.last()@.id, s.last())
    }
}

proof fn lemma_as_map_props(s: Seq<User>)
    requires
        ids_distinct(s),
    ensures
        forall|i: int|
            0 <= i < s.len() ==> as_map(s).contains_key((#[trigger] s[i])@.id) && as_map(
                s,
            )[s[i]@.id] == s[i],
        forall|k: u128|
            as_map(s).contains_key(k) ==> exists|i: int|
                0 <= i < s.len() && (#[trigger] s[i])@.id == k,
    decreases s.len(),
{
    if s.len() == 0 {
    } else {
        let t = s.drop_last();
        assert(ids_distinct(t)) by {
            assert(forall|i: int, j: int|
                0 <= i < j < t.len() ==> t[i] == s[i] && t[j] == s[j]);
        }
        lemma_as_map_props(t);
        let last = s.last();
        assert forall|i: int|
            0 <= i < s.len() implies as_map(s).contains_key((#[trigger] s[i])@.id) && as_map(
            s,
        )[s[i]@.id] == s[i] by {
            if i < s.len() - 1 {
                assert(t[i] == s[i]);
                assert(s[i]@.id != last@.id);
            }
        }
        assert forall|k: u128| as_map(s).contains_key(k) implies exists|i: int|
            0 <= i < s.len() && (#[trigger] s[i])@.id == k by {
            if k == last@.id {
                assert(s[s.len() - 1]@.id == k);
            } else {
                assert(as_map(t).contains_key(k));
                let i = choose|i: int| 0 <= i < t.len() && (#[trigger] t[i])@.id == k;
                assert(s[i]@.id == k);
            }
        }
    }
}

proof fn lemma_as_map_update(s: Seq<User>, i: int, u: User)
    requires
        ids_distinct(s),
        0 <= i < s.len(),
        s[i]@.id == u@.id,
    ensures
        ids_distinct(s.update(i, u)),
        as_map(s.update(i, u)) == as_map(s).insert(u@.id, u),
    decreases s.len(),
{
    let s2 = s.update(i, u);
    assert(ids_distinct(s2)) by {
        assert(forall|j: int| 0 <= j < s.len() && j != i ==> (#[trigger] s2[j]) == s[j]);
        assert(s2[i]@.id == s[i]@.id);
    }
    let t = s.drop_last();
    assert(ids_distinct(t)) by {
        assert(forall|j1: int, j2: int|
            0 <= j1 < j2 < t.len() ==> t[j1] == s[j1] && t[j2] == s[j2]);
    }
    if i == s.len() - 1 {
        assert(s2.drop_last() =~= t);
        assert(s2.last() == u);
        assert(as_map(s2) == as_map(t).insert(u@.id, u));
        assert(as_map(s).insert(u@.id, u) =~= as_map(t).insert(u@.id, u));
    } else {
        assert(s2.drop_last() =~= t.update(i, u));
        assert(s2.last() == s.last());
        assert(t[i] == s[i]);
        lemma_as_map_update(t, i, u);
        assert(as_map(s2) == as_map(t).insert(u@.id, u).insert(s.last()@.id, s.last()));
        assert(s.last()@.id != u@.id);
        assert(as_map(t).insert(u@.id, u).insert(s.last()@.id, s.last()) =~= as_map(t).insert(
            s.last()@.id,
            s.last(),
        ).insert(u@.id, u));
    }
}

/// An in-memory store: a list of records with pairwise-distinct
/// identifiers. Unlike an abstract backend it never fails: each of
/// its repository methods additionally promises `Ok`.
#[derive(Debug)]
pub struct InMemoryUserRepository {
    users: Vec<User>,
}

impl InMemoryUserRepository {
    /// An empty store.
    pub fn new() -> (r: Self)
        ensures
            r.inv(),
            r.users() == Map::<u128, User>::empty(),
    {
        InMemoryUserRepository { users: Vec::new() }
    }

    /// Removes every record.
    pub fn clear(&mut self)
        ensures
            final(self).inv(),
            final(self).users() == Map::<u128, User>::empty(),
    {
        self.users.clear();
    }

    /// Stores each given record in order, with upsert semantics.
    pub fn seed(&mut self, users: Vec<User>)
        requires
            old(self).inv(),
        ensures
            final(self).inv(),
            final(self).users() == upserted(old(self).users(), users@),
    {
        let n = users.len();
        let mut i: usize = 0;
        while i < n
            invariant
                n == users@.len(),
                i <= n,
                self.inv(),
                self.users() == upserted(old(self).users(), users@.subrange(0, i as int)),
            decreases n - i,
        {
            proof {
                let pre = users@.subrange(0, i as int);
                let post = users@.subrange(0, i + 1);
                assert(post.drop_last() =~= pre);
                assert(post.last() == users@[i as int]);
            }
            self.store(users[i].clone());
            i = i + 1;
        }
        proof {
            assert(users@.subrange(0, n as int) =~= users@);
        }
    }

    /// Stores one record, inserting or overwriting by identifier.
    fn store(&mut self, user: User)
        requires
            old(self).inv(),
        ensures
            final(self).inv(),
            final(self).users() == old(self).users().insert(user@.id, user),
    {
        let n = self.users.len();
        let mut i: usize = 0;
        while i < n
            invariant
                *self == *old(self),
                n == self.users@.len(),
                i <= n,
                old(self).inv(),
                forall|j: int| 0 <= j < i ==> (#[trigger] self.users@[j])@.id != user@.id,
            decreases n - i,
        {
            let a = *self.users[i].id();
            let b = *user.id();
            let same = a == b;
            proof {
                UserId::lemma_eq_view(a, b);
            }
            if same {
                proof {
                    lemma_as_map_update(self.users@, i as int, user);
                }
                self.users[i] = user;
                return ;
            }
            i = i + 1;
        }
        proof {
            let s = self.users@;
            let s2 = s.push(user);
            assert(s2.drop_last() =~= s);
            assert(s2.last() == user);
            assert(ids_distinct(s2)) by {
                assert(forall|j: int| 0 <= j < s.len() ==> (#[trigger] s2[j]) == s[j]);
                assert(s2[s2.len() - 1] == user);
            }
        }
        self.users.push(user);
    }
}

impl Default for InMemoryUserRepository {
    fn default() -> (r: Self)
        ensures
            r.inv(),
            r.users() == Map::<u128, User>::empty(),
    {
        Self::new()
    }
}

impl UserRepository for InMemoryUserRepository {
    closed spec fn users(&self) -> Map<u128, User> {
        as_map(self.users@)
    }

    closed spec fn inv(&self) -> bool {
        ids_distinct(self.users@)
    }

    fn find_by_id(&self, id: &UserId) -> (r: Result<Option<User>, DomainError>)
        ensures
            r is Ok,
    {
        proof {
            lemma_as_map_props(self.users@);
        }
        let n = self.users.len();
        let mut i: usize = 0;
        while i < n
            invariant
                self.inv(),
                n == self.users@.len(),
                i <= n,
                forall|j: int| 0 <= j < i ==> (#[trigger] self.users@[j])@.id != id@,
                forall|jj: int|
                    0 <= jj < self.users@.len() ==> as_map(self.users@).contains_key(
                        (#[trigger] self.users@[jj])@.id,
                    ) && as_map(self.users@)[self.users@[jj]@.id] == self.users@[jj],
                forall|k: u128|
                    as_map(self.users@).contains_key(k) ==> exists|jj: int|
                        0 <= jj < self.users@.len() && (#[trigger] self.users@[jj])@.id == k,
            decreases n - i,
        {
            let a = *self.users[i].id();
            let b = *id;
            let same = a == b;
            proof {
                UserId::lemma_eq_view(a, b);
            }
            if same {
                return Ok(Some(self.users[i].clone()));
            }
            i = i + 1;
        }
        proof {
            if self.users().contains_key(id@) {
                let jj = choose|jj: int|
                    0 <= jj < self.users@.len() && (#[trigger] self.users@[jj])@.id == id@;
                assert(false);
            }
        }
        Ok(None)
    }

    fn find_by_email(&self, email: &Email) -> (r: Result<Option<User>, DomainError>)
        ensures
            r is Ok,
    {
        proof {
            lemma_as_map_props(self.users@);
        }
        let n = self.users.len();
        let mut i: usize = 0;
        while i < n
            invariant
                self.inv(),
                n == self.users@.len(),
                i <= n,
                forall|j: int| 0 <= j < i ==> (#[trigger] self.users@[j])@.email != email@,
                forall|jj: int|
                    0 <= jj < self.users@.len() ==> as_map(self.users@).contains_key(
                        (#[trigger] self.users@[jj])@.id,
                    ) && as_map(self.users@)[self.users@[jj]@.id] == self.users@[jj],
                forall|k: u128|
                    as_map(self.users@).contains_key(k) ==> exists|jj: int|
                        0 <= jj < self.users@.len() && (#[trigger] self.users@[jj])@.id == k,
            decreases n - i,
        {
            if self.users[i].email() == email {
                return Ok(Some(self.users[i].clone()));
            }
            i = i + 1;
        }
        proof {
            assert forall|k: u128| self.users().contains_key(k) implies (#[trigger] self.users()[k])@.email != email@ by {
                let jj = choose|jj: int|
                    0 <= jj < self.users@.len() && (#[trigger] self.users@[jj])@.id == k;
                assert(self.users()[k] == self.users@[jj]);
            }
        }
        Ok(None)
    }

    fn save(&mut self, user: &User) -> (r: Result<(), DomainError>)
        ensures
            r is Ok,
    {
        self.store(user.clone());
        Ok(())
    }

    fn delete(&mut self, id: &UserId) -> (r: Result<(), DomainError>)
        ensures
            r is Ok,
    {
        let ghost s = self.users@;
        let mut kept: Vec<User> = Vec::new();
        let n = self.users.len();
        let mut i: usize = 0;
        while i < n
            invariant
                *self == *old(self),
                self.inv(),
                n == s.len(),
                s == self.users@,
                i <= n,
                as_map(kept@) == as_map(s.subrange(0, i as int)).remove(id@),
                ids_distinct(kept@),
                forall|j: int|
                    0 <= j < kept@.len() ==> (#[trigger] kept@[j])@.id != id@ && exists|i2: int|
                        0 <= i2 < i && kept@[j] == s[i2],
            decreases n - i,
        {
            proof {
                let pre = s.subrange(0, i as int);
                let post = s.subrange(0, i + 1);
                assert(post.drop_last() =~= pre);
                assert(post.last() == s[i as int]);
            }
            let a = *self.users[i].id();
            let b = *id;
            let same = a == b;
            proof {
                UserId::lemma_eq_view(a, b);
            }
            if same {
                proof {
                    assert(as_map(s.subrange(0, i + 1)).remove(id@) =~= as_map(
                        s.subrange(0, i as int),
                    ).remove(id@));
                }
            } else {
                let u = self.users[i].clone();
                proof {
                    let k2 = kept@.push(u);
                    assert(k2.drop_last() =~= kept@);
                    assert(k2.last() == u);
                    assert(as_map(k2) == as_map(kept@).insert(u@.id, u));
                    assert(as_map(s.subrange(0, i + 1)).remove(id@) =~= as_map(
                        s.subrange(0, i as int),
                    ).remove(id@).insert(u@.id, u));
                    assert(ids_distinct(k2)) by {
                        assert(forall|j: int|
                            0 <= j < kept@.len() ==> (#[trigger] k2[j]) == kept@[j]);
                        assert(k2[k2.len() - 1] == u);
                        assert forall|j: int| 0 <= j < kept@.len() implies kept@[j]@.id != u@.id by {
                            let i2 = choose|i2: int|
                                0 <= i2 < i && (#[trigger] kept@[j]) == s[i2];
                            assert(s[i2]@.id != s[i as int]@.id);
                        }
                    }
                }
                kept.push(u);
            }
            i = i + 1;
        }
        proof {
            assert(s.subrange(0, n as int) =~= s);
        }
        self.users = kept;
        Ok(())
    }
}

} // verus!

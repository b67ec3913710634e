//! The `Email` value object: an immutable, self-validating wrapper
//! around a normalized (lower-cased) address.

use vstd::prelude::*;
use vstd::string::StrSliceExecFns;
use crate::errors::DomainError;

verus! {

/// The lower-cased form of a character sequence, as `str::to_lowercase`
/// computes it; the result depends on the characters alone.
pub uninterp spec fn lower_of(s: Seq<char>) -> Seq<char>;

/// Relies on `str::to_lowercase` for Unicode-aware lower-casing; the
/// result is a function of the input characters alone.
#[verifier::external_body]
fn lowercase(s: &str) -> (r: String)
    ensures
        r@ == lower_of(s@),
{
    s.to_lowercase()
}

/// How often `c` occurs in `s`.
pub open spec fn char_count(s: Seq<char>, c: char) -> nat
    decreases s.len(),
{
    if s.len() == 0 {
        0
    } else {
        char_count(s.drop_last(), c) + if s.last() == c {
            1nat
        } else {
            0nat
        }
    }
}

/// A well-formed address: total length strictly between 5 and 256
/// characters, with exactly one `@`.
pub open spec fn email_text_valid(s: Seq<char>) -> bool {
    &&& s.len() > 5
    &&& s.len() < 256
    &&& char_count(s, '@') == 1
}

/// An email address, stored in normalized (lower-cased) form so that
/// equality and hashing are case-insensitive.
#[derive(Debug, Eq, Hash)]
pub struct Email {
    value: String,
}

impl View for Email {
    type V = Seq<char>;

    closed spec fn view(&self) -> Seq<char> {
        self.value@
    }
}

impl Email {
    /// Validates and normalizes an address. The stored form is the
    /// lower-cased input; it is accepted exactly when it is non-empty,
    /// has exactly one `@`, and its length lies strictly between 5
    /// and 256 characters.
    pub fn new(email: String) -> (r: Result<Email, DomainError>)
        ensures
            match r {
                Ok(e) => {
                    &&& email@.len() > 0
                    &&& e@ == lower_of(email@)
                    &&& email_text_valid(e@)
                },
                Err(e) => {
                    &&& email@.len() == 0 || !email_text_valid(lower_of(email@))
                    &&& e matches DomainError::InvalidEmail(m) && m@ == (if email@.len() == 0 {
                        "Email cannot be empty"@
                    } else {
                        "Invalid email format"@
                    })
                },
            },
    {
        if email.as_str().is_empty() {
            return Err(DomainError::InvalidEmail("Email cannot be empty".to_owned()));
        }
        let lowered = lowercase(email.as_str());
        if !Self::is_valid_email(lowered.as_str()) {
            return Err(DomainError::InvalidEmail("Invalid email format".to_owned()));
        }
        Ok(Email { value: lowered })
    }

    /// Whether `email` is a well-formed address text.
    pub fn is_valid_email(email: &str) -> (r: bool)
        ensures
            r == email_text_valid(email@),
    {
        let n = email.unicode_len();
        if n <= 5 || n >= 256 {
            return false;
        }
        let mut ats: usize = 0;
        let mut i: usize = 0;
        while i < n
            invariant
                n == email@.len(),
                i <= n,
                ats <= i,
                ats == char_count(email@.subrange(0, i as int), '@'),
            decreases n - i,
        {
            let c = email.get_char(i);
            proof {
                assert(email@.subrange(0, i + 1).drop_last() =~= email@.subrange(0, i as int));
                assert(email@.subrange(0, i + 1).last() == email@[i as int]);
            }
            if c == '@' {
                ats = ats + 1;
            }
            i = i + 1;
        }
        proof {
            assert(email@.subrange(0, n as int) =~= email@);
        }
        ats == 1
    }

    /// The normalized form of the address.
    pub fn as_str(&self) -> (r: &str)
        ensures
            r@ == self@,
    {
        self.value.as_str()
    }
}

impl Clone for Email {
    fn clone(&self) -> (r: Self)
        ensures
            r == *self,
    {
        Email { value: self.value.clone() }
    }
}

impl PartialEq for Email {
    fn eq(&self, other: &Email) -> bool {
        self.value == other.value
    }
}

impl vstd::std_specs::cmp::PartialEqSpecImpl for Email {
    open spec fn obeys_eq_spec() -> bool {
        true
    }

    open spec fn eq_spec(&self, other: &Email) -> bool {
        self@ == other@
    }
}

} // verus!

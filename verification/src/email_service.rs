//! Notification senders: one that prints to the console, and one that
//! records its messages for tests.

use vstd::prelude::*;
use vstd::string::StringExecFns;
use std::io::Write;
use crate::email::Email;
use crate::errors::DomainError;
use crate::user::User;

verus! {

/// Relies on `std::io::stdout` to print one line; a write failure is
/// ignored.
#[verifier::external_body]
fn print_line(s: &str) {
    let mut out = std::io::stdout();
    let _ = writeln!(out, "{}", s);
}

/// Sends notification emails by printing them to the console.
#[derive(Debug)]
pub struct ConsoleEmailService;

impl ConsoleEmailService {
    pub fn new() -> Self {
        ConsoleEmailService
    }

    /// Prints a welcome line for `user`. Never fails.
    pub fn send_welcome_email(&self, user: &User) -> (r: Result<(), DomainError>)
        ensures
            r is Ok,
    {
        let mut line = "Welcome, ".to_owned();
        line.append(user.name());
        line.append("! Your email: ");
        line.append(user.email().as_str());
        print_line(line.as_str());
        Ok(())
    }

    /// Prints a password-reset line for `email`. Never fails.
    pub fn send_password_reset_email(&self, email: &Email, reset_token: String) -> (r: Result<
        (),
        DomainError,
    >)
        ensures
            r is Ok,
    {
        let mut line = "Password reset token ".to_owned();
        line.append(reset_token.as_str());
        line.append(" for email: ");
        line.append(email.as_str());
        print_line(line.as_str());
        Ok(())
    }
}

/// Records the messages it would send, for inspection in tests.
#[derive(Debug)]
pub struct MockEmailService {
    sent_emails: Vec<String>,
}

impl MockEmailService {
    /// The messages recorded so far.
    pub closed spec fn sent(&self) -> Seq<Seq<char>> {
        self.sent_emails.deep_view()
    }

    pub fn new() -> (r: Self)
        ensures
            r.sent() == Seq::<Seq<char>>::empty(),
    {
        let r = MockEmailService { sent_emails: Vec::new() };
        proof {
            assert(r.sent() =~= Seq::<Seq<char>>::empty());
        }
        r
    }

    /// A copy of the recorded messages.
    pub fn get_sent_emails(&self) -> (r: Vec<String>)
        ensures
            r.deep_view() == self.sent(),
    {
        let n = self.sent_emails.len();
        let mut out: Vec<String> = Vec::new();
        let mut i: usize = 0;
        while i < n
            invariant
                n == self.sent_emails@.len(),
                i <= n,
                out@.len() == i,
                forall|j: int| 0 <= j < i ==> (#[trigger] out@[j])@ == self.sent_emails@[j]@,
            decreases n - i,
        {
            out.push(self.sent_emails[i].clone());
            i = i + 1;
        }
        proof {
            assert(out.deep_view() =~= self.sent());
        }
        out
    }

    /// Records a welcome message for `user`. Never fails.
    pub fn send_welcome_email(&mut self, user: &User) -> (r: Result<(), DomainError>)
        ensures
            r is Ok,
            final(self).sent() == old(self).sent().push(
                "WELCOME: "@ + user@.name + " - "@ + user@.email,
            ),
    {
        let mut line = "WELCOME: ".to_owned();
        line.append(user.name());
        line.append(" - ");
        line.append(user.email().as_str());
        self.sent_emails.push(line);
        proof {
            assert(self.sent() =~= old(self).sent().push(
                "WELCOME: "@ + user@.name + " - "@ + user@.email,
            ));
        }
        Ok(())
    }

    /// Records a password-reset message for `email`. Never fails.
    pub fn send_password_reset_email(&mut self, email: &Email, reset_token: String) -> (r: Result<
        (),
        DomainError,
    >)
        ensures
            r is Ok,
            final(self).sent() == old(self).sent().push(
                "RESET: "@ + email@ + " - "@ + reset_token@,
            ),
    {
        let mut line = "RESET: ".to_owned();
        line.append(email.as_str());
        line.append(" - ");
        line.append(reset_token.as_str());
        self.sent_emails.push(line);
        proof {
            assert(self.sent() =~= old(self).sent().push("RESET: "@ + email@ + " - "@
                + reset_token@));
        }
        Ok(())
    }
}

} // verus!

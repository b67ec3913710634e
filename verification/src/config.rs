//! Application configuration values and the server address they form.

use vstd::prelude::*;
use vstd::string::StringExecFns;

verus! {

/// The decimal digit character for a value below ten.
pub open spec fn dec_digit_char(d: int) -> char {
    if d == 0 {
        '0'
    } else if d == 1 {
        '1'
    } else if d == 2 {
        '2'
    } else if d == 3 {
        '3'
    } else if d == 4 {
        '4'
    } else if d == 5 {
        '5'
    } else if d == 6 {
        '6'
    } else if d == 7 {
        '7'
    } else if d == 8 {
        '8'
    } else {
        '9'
    }
}

/// The decimal text of `v`, most significant digit first, without
/// leading zeros (a single `0` for zero).
pub open spec fn dec_text(v: nat) -> Seq<char>
    decreases v,
{
    if v < 10 {
        seq![dec_digit_char(v as int)]
    } else {
        dec_text(v / 10) + seq![dec_digit_char((v % 10) as int)]
    }
}

/// The decimal digit text for a value below ten.
fn dec_digit_str(d: u8) -> (r: &'static str)
    requires
        d < 10,
    ensures
        r@ == seq![dec_digit_char(d as int)],
{
    proof {
        reveal_strlit("0");
        reveal_strlit("1");
        reveal_strlit("2");
        reveal_strlit("3");
        reveal_strlit("4");
        reveal_strlit("5");
        reveal_strlit("6");
        reveal_strlit("7");
        reveal_strlit("8");
        reveal_strlit("9");
    }
    let r = if d == 0 {
        "0"
    } else if d == 1 {
        "1"
    } else if d == 2 {
        "2"
    } else if d == 3 {
        "3"
    } else if d == 4 {
        "4"
    } else if d == 5 {
        "5"
    } else if d == 6 {
        "6"
    } else if d == 7 {
        "7"
    } else if d == 8 {
        "8"
    } else {
        "9"
    };
    proof {
        assert(r@ =~= seq![dec_digit_char(d as int)]);
    }
    r
}

/// The decimal text of `v`.
fn dec_str(v: u16) -> (r: String)
    ensures
        r@ == dec_text(v as nat),
    decreases v,
{
    let d = (v % 10) as u8;
    if v < 10 {
        dec_digit_str(d).to_owned()
    } else {
        let mut s = dec_str(v / 10);
        s.append(dec_digit_str(d));
        s
    }
}

/// Settings the service runs with. `from_env`-style loading belongs to
/// the surrounding program; the library only holds the values.
#[derive(Debug, Clone)]
pub struct AppConfig {
    pub server_host: String,
    pub server_port: u16,
    pub database_url: String,
    pub jwt_secret: String,
    pub email_service_url: Option<String>,
    pub log_level: String,
}

impl Default for AppConfig {
    fn default() -> (r: Self)
        ensures
            r.server_host@ == "0.0.0.0"@,
            r.server_port == 3000,
            r.database_url@ == "in-memory"@,
            r.jwt_secret@ == "your-secret-key"@,
            r.email_service_url is None,
            r.log_level@ == "info"@,
    {
        AppConfig {
            server_host: "0.0.0.0".to_owned(),
            server_port: 3000,
            database_url: "in-memory".to_owned(),
            jwt_secret: "your-secret-key".to_owned(),
            email_service_url: None,
            log_level: "info".to_owned(),
        }
    }
}

impl AppConfig {
    /// The `host:port` address the server binds to.
    pub fn server_address(&self) -> (r: String)
        ensures
            r@ == self.server_host@ + seq![':'] + dec_text(self.server_port as nat),
    {
        let mut out = self.server_host.clone();
        out.append(":");
        let port = dec_str(self.server_port);
        out.append(port.as_str());
        proof {
            reveal_strlit(":");
            assert(":"@ =~= seq![':']);
            assert(out@ =~= self.server_host@ + seq![':'] + dec_text(self.server_port as nat));
        }
        out
    }
}

} // verus!

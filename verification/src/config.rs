use vstd::prelude::*;
use vstd::string::StringExecFns;

use crate::secret::SecretString;
use crate::strings::str_eq;

verus! {

/// The character for one decimal digit.
pub open spec fn digit_char(d: nat) -> char {
    ((48 + d) as u8) as char
}

/// The decimal digits of `n`, most significant first, with no leading zero.
pub open spec fn dec_str_of(n: nat) -> Seq<char>
    decreases n,
{
    if n < 10 {
        seq![digit_char(n)]
    } else {
        dec_str_of(n / 10).push(digit_char(n % 10))
    }
}

/// One decimal digit as a string slice.
fn digit_str(d: u16) -> (r: &'static str)
    requires
        d < 10,
    ensures
        r@ == seq![digit_char(d as nat)],
{
    let r = match d {
        0 => "0",
        1 => "1",
        2 => "2",
        3 => "3",
        4 => "4",
        5 => "5",
        6 => "6",
        7 => "7",
        8 => "8",
        _ => "9",
    };
    proof {
        reveal_strlit("0");
        reveal_strlit("1");
        reveal_strlit("2");
        reveal_strlit("3");
        reveal_strlit("4");
        reveal_strlit("5");
        reveal_strlit("6");
        reveal_strlit("7");
        reveal_strlit("8");
        reveal_strlit("9");
    }
    r
}

/// Formats a port number in decimal.
pub fn u16_to_dec(n: u16) -> (r: String)
    ensures
        r@ == dec_str_of(n as nat),
    decreases n,
{
    if n < 10 {
        digit_str(n).to_owned()
    } else {
        let mut s = u16_to_dec(n / 10);
        s.append(digit_str(n % 10));
        proof {
            assert(dec_str_of((n / 10) as nat).push(digit_char((n % 10) as nat)) =~= dec_str_of(
                (n / 10) as nat,
            ) + seq![digit_char((n % 10) as nat)]);
        }
        s
    }
}

/// Where the service listens.
pub struct Application {
    pub port: u16,
    pub host: String,
    pub base_url: String,
}

impl Application {
    /// The listen address, `host:port`.
    pub fn addr(&self) -> (r: String)
        ensures
            r@ == self.host@ + ":"@ + dec_str_of(self.port as nat),
    {
        self.host.clone().concat(":").concat(u16_to_dec(self.port).as_str())
    }
}

/// How to reach the backing relational store.
pub struct Database {
    pub host: String,
    pub port: u16,
    pub username: String,
    pub password: SecretString,
    pub database_name: String,
    pub require_ssl: bool,
}

impl Database {
    /// The connection string for the configured logical database.
    pub fn connection_string(&self) -> (r: String)
        ensures
            r@ == "postgres://"@ + self.username@ + ":"@ + self.password.spec_expose() + "@"@
                + self.host@ + ":"@ + dec_str_of(self.port as nat) + "/"@ + self.database_name@,
    {
        "postgres://".to_owned().concat(self.username.as_str()).concat(":").concat(
            self.password.expose_secret(),
        ).concat("@").concat(self.host.as_str()).concat(":").concat(
            u16_to_dec(self.port).as_str(),
        ).concat("/").concat(self.database_name.as_str())
    }

    /// Omitting the database name connects to the instance, not a specific
    /// logical database; useful for operations that create or drop one.
    pub fn connection_string_without_db(&self) -> (r: String)
        ensures
            r@ == "postgres://"@ + self.username@ + ":"@ + self.password.spec_expose() + "@"@
                + self.host@ + ":"@ + dec_str_of(self.port as nat),
    {
        "postgres://".to_owned().concat(self.username.as_str()).concat(":").concat(
            self.password.expose_secret(),
        ).concat("@").concat(self.host.as_str()).concat(":").concat(
            u16_to_dec(self.port).as_str(),
        )
    }
}

/// The client identity with which this deployment talks to the
/// authorization server.
pub struct Zoho {
    pub client_id: String,
    pub client_secret: SecretString,
}

/// The possible runtime environments for the application.
#[derive(Clone, Copy, PartialEq, Eq, Structural, Debug)]
pub enum Environment {
    Local,
    Production,
    Test,
}

/// What `str::to_lowercase` returns for given text; the result depends on
/// the characters alone.
pub uninterp spec fn lower_of(s: Seq<char>) -> Seq<char>;

/// Relies on `str::to_lowercase` from std: Unicode lowercasing, a function
/// of the characters alone.
#[verifier::external_body]
fn lowercase(s: &str) -> (r: String)
    ensures
        r@ == lower_of(s@),
{
    s.to_lowercase()
}

impl Environment {
    pub fn as_str(&self) -> (r: &'static str)
        ensures
            (match self {
                Environment::Local => r@ == "local"@,
                Environment::Production => r@ == "production"@,
                Environment::Test => r@ == "test"@,
            }),
    {
        match self {
            Environment::Local => "local",
            Environment::Production => "production",
            Environment::Test => "test",
        }
    }

    /// Reads an environment name, any casing accepted.
    pub fn try_from(value: &str) -> (r: Result<Environment, String>)
        ensures
            (match r {
                Ok(Environment::Local) => lower_of(value@) == "local"@,
                Ok(Environment::Production) => lower_of(value@) == "production"@,
                Ok(Environment::Test) => lower_of(value@) == "test"@,
                Err(m) => lower_of(value@) != "local"@ && lower_of(value@) != "production"@
                    && lower_of(value@) != "test"@ && m@ == lower_of(value@)
                    + " is not a supported environment. Use either `local` or `production`."@,
            }),
    {
        let lower = lowercase(value);
        if str_eq(lower.as_str(), "local") {
            Ok(Environment::Local)
        } else if str_eq(lower.as_str(), "production") {
            Ok(Environment::Production)
        } else if str_eq(lower.as_str(), "test") {
            Ok(Environment::Test)
        } else {
            Err(lower.concat(" is not a supported environment. Use either `local` or `production`."))
        }
    }
}

/// Everything the process is configured with.
pub struct Config {
    pub application: Application,
    pub environment: Environment,
    pub database: Database,
    pub zoho: Zoho,
}

impl Config {
    /// The listen address, `host:port`.
    pub fn addr(&self) -> (r: String)
        ensures
            r@ == self.application.host@ + ":"@ + dec_str_of(self.application.port as nat),
    {
        self.application.addr()
    }
}

} // verus!

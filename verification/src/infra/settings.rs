//! Deployment settings: where the application listens, how it reaches its
//! database and cache, and which environment it runs as.

use vstd::prelude::*;
use vstd::string::StringSliceAdditionalSpecFns;

verus! {

/// Deployment settings shared by the services.
pub struct Settings {
    pub application: ApplicationSettings,
    pub debug: bool,
    pub database: DatabaseSettings,
}

/// Where the application listens and how it addresses itself.
pub struct ApplicationSettings {
    pub port: u16,
    pub host: String,
    pub base_url: String,
    pub protocol: String,
}

/// How the cache's connection pool is sized and addressed.
pub struct RedisSettings {
    pub uri: String,
    pub pool_max_open: u64,
    pub pool_max_idle: u64,
    pub pool_timeout_seconds: u64,
    pub pool_expire_seconds: u64,
}

/// How the relational database is reached.
pub struct DatabaseSettings {
    pub username: String,
    pub password: String,
    pub port: u16,
    pub host: String,
    pub database_name: String,
    pub require_ssl: bool,
}

/// The environment the application runs as.
#[derive(Clone, Copy, Debug, PartialEq, Eq, Structural)]
pub enum Environment {
    Development,
    Production,
}

/// A byte with any ASCII capital letter lowered.
pub open spec fn spec_ascii_lower(c: u8) -> u8 {
    if 65 <= c && c <= 90 {
        (c + 32) as u8
    } else {
        c
    }
}

/// A byte string with every ASCII capital letter lowered.
pub open spec fn spec_lower_bytes(s: Seq<u8>) -> Seq<u8> {
    Seq::new(s.len(), |i: int| spec_ascii_lower(s[i]))
}

/// The environment a name denotes, up to ASCII case.
pub open spec fn spec_environment_of(s: Seq<u8>) -> Option<Environment> {
    if spec_lower_bytes(s) == "development".spec_bytes() {
        Some(Environment::Development)
    } else if spec_lower_bytes(s) == "production".spec_bytes() {
        Some(Environment::Production)
    } else {
        None
    }
}

/// Whether a string, lowered, spells a given word.
fn lower_matches(s: &str, w: &str) -> (r: bool)
    ensures
        r == (spec_lower_bytes(s.spec_bytes()) == w.spec_bytes()),
{
    let sb = s.as_bytes();
    let wb = w.as_bytes();
    if sb.len() != wb.len() {
        return false;
    }
    let mut i: usize = 0;
    while i < sb.len()
        invariant
            i <= sb@.len(),
            sb@.len() == wb@.len(),
            sb@ == s.spec_bytes(),
            wb@ == w.spec_bytes(),
            forall|j: int| 0 <= j < i ==> spec_ascii_lower(sb@[j]) == wb@[j],
        decreases sb@.len() - i,
    {
        let c = sb[i];
        let lc = if 65 <= c && c <= 90 {
            c + 32
        } else {
            c
        };
        if lc != wb[i] {
            assert(spec_lower_bytes(s.spec_bytes())[i as int] != w.spec_bytes()[i as int]);
            return false;
        }
        i = i + 1;
    }
    proof {
        assert(spec_lower_bytes(s.spec_bytes()) =~= w.spec_bytes());
    }
    true
}

impl Environment {
    /// The lowercase name of the environment.
    pub fn as_str(&self) -> (r: &'static str)
        ensures
            *self is Development ==> r@ == "development"@,
            *self is Production ==> r@ == "production"@,
    {
        match self {
            Environment::Development => "development",
            Environment::Production => "production",
        }
    }

    /// The environment a name denotes, up to ASCII case; any other name is
    /// rejected.
    pub fn try_from(s: &str) -> (r: Result<Environment, String>)
        ensures
            match r {
                Ok(env) => spec_environment_of(s.spec_bytes()) == Some(env),
                Err(_) => spec_environment_of(s.spec_bytes()) == None::<Environment>,
            },
    {
        if lower_matches(s, "development") {
            Ok(Environment::Development)
        } else if lower_matches(s, "production") {
            Ok(Environment::Production)
        } else {
            Err("expected one of development or production".to_owned())
        }
    }
}

} // verus!

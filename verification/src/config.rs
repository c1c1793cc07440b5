//! Process configuration as plain values.
//!
//! The surrounding program loads these from its environment and
//! configuration files; the library only reads them.

use vstd::prelude::*;

verus! {

/// Logging configuration.
#[derive(Clone, Debug, PartialEq)]
pub struct LogConfig {
    pub level: String,
    pub format: String,
}

/// Analytical-store connection tuning.
#[derive(Clone, Copy, Debug, PartialEq, Eq, Structural)]
pub struct ClickhouseConfig {
    pub timeout: u64,
    pub pool_min: u32,
    pub pool_max: u32,
}

/// Transactional-store connection tuning.
#[derive(Clone, Copy, Debug, PartialEq, Eq, Structural)]
pub struct PostgresConfig {
    pub timeout: u64,
    pub max_connections: u32,
    pub min_connections: u32,
    pub max_lifetime: u64,
    pub idle_timeout: u64,
}

/// Upstream API endpoint settings.
#[derive(Clone, Debug, PartialEq)]
pub struct TinkoffApiConfig {
    pub base_url: String,
    pub domain: String,
    pub timeout: u64,
    pub keepalive: u64,
}

/// The deployment environment.
#[derive(Clone, Copy, Debug, PartialEq, Eq, Structural)]
pub enum Env {
    Local,
    Production,
}

impl Env {
    /// The environment's short name.
    pub fn as_str(&self) -> (r: &'static str)
        ensures
            self is Local ==> r@ == "local"@,
            self is Production ==> r@ == "prod"@,
    {
        match self {
            Env::Local => "local",
            Env::Production => "prod",
        }
    }
}

/// Lowers an ASCII uppercase letter; other characters pass through.
fn ascii_lower(c: char) -> (r: char)
    ensures
        ('A' <= c <= 'Z') ==> r as u32 == c as u32 + 32,
        !('A' <= c <= 'Z') ==> r == c,
{
    let x = c as u32;
    if 65 <= x && x <= 90 {
        ((x + 32) as u8) as char
    } else {
        c
    }
}

/// Compares a string against a lowercase pattern, ignoring ASCII case.
fn eq_ignore_ascii_case(s: &str, lower: &str) -> bool {
    let n = s.unicode_len();
    let m = lower.unicode_len();
    if n != m {
        return false;
    }
    let mut i: usize = 0;
    while i < n
        invariant
            0 <= i <= n,
            n == s@.len(),
            n == lower@.len(),
        decreases n - i,
    {
        if ascii_lower(s.get_char(i)) != lower.get_char(i) {
            return false;
        }
        i = i + 1;
    }
    true
}

impl core::str::FromStr for Env {
    type Err = String;

    fn from_str(s: &str) -> Result<Self, String> {
        if eq_ignore_ascii_case(s, "local") {
            Ok(Env::Local)
        } else if eq_ignore_ascii_case(s, "prod") || eq_ignore_ascii_case(s, "production") {
            Ok(Env::Production)
        } else {
            Err("Unknown environment: ".to_owned().concat(s))
        }
    }
}

/// Environment-supplied process settings.
#[derive(Clone, Debug, PartialEq)]
pub struct AppEnv {
    pub env: Env,
    pub clickhouse_url: String,
    pub clickhouse_user: String,
    pub clickhouse_password: String,
    pub clickhouse_database: String,
    pub postgres_host: String,
    pub postgres_user: String,
    pub postgres_password: String,
    pub postgres_database: String,
    pub tinkoff_token: String,
    pub server_port: u16,
    pub server_address: String,
}

impl AppEnv {
    /// Whether the process runs in the local development environment.
    pub fn is_local(&self) -> (r: bool)
        ensures
            r == (self.env is Local),
    {
        matches!(self.env, Env::Local)
    }
}

} // verus!

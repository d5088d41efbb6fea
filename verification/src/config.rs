//! The configuration of the service: built once, when the process starts,
//! from the values of the environment, and handed by reference to whatever
//! needs it.

use vstd::prelude::*;

verus! {

#[derive(Debug)]
struct ServerConfig {
    host: String,
    port: u16,
}

#[derive(Debug)]
struct DatabaseConfig {
    url: String,
}

#[derive(Debug)]
struct S3Config {
    base_url: String,
    access_key: String,
    secret_key: String,
    bucket: String,
}

/// Where the service listens, where its database and its object store are,
/// and the secret that signs its tokens.
#[derive(Debug)]
pub struct Config {
    server: ServerConfig,
    db: DatabaseConfig,
    s3: S3Config,
    jwt_secret: String,
}

/// What a [`Config`] is in contracts.
pub ghost struct ConfigView {
    pub host: Seq<char>,
    pub port: u16,
    pub db_url: Seq<char>,
    pub s3_base_url: Seq<char>,
    pub s3_access_key: Seq<char>,
    pub s3_secret_key: Seq<char>,
    pub s3_bucket: Seq<char>,
    pub jwt_secret: Seq<char>,
}

impl View for Config {
    type V = ConfigView;

    closed spec fn view(&self) -> ConfigView {
        ConfigView {
            host: self.server.host@,
            port: self.server.port,
            db_url: self.db.url@,
            s3_base_url: self.s3.base_url@,
            s3_access_key: self.s3.access_key@,
            s3_secret_key: self.s3.secret_key@,
            s3_bucket: self.s3.bucket@,
            jwt_secret: self.jwt_secret@,
        }
    }
}

impl Config {
    /// The URL of the database.
    pub fn db_url(&self) -> (url: &str)
        ensures
            url@ == self@.db_url,
    {
        self.db.url.as_str()
    }

    /// The host that the server binds to.
    pub fn server_host(&self) -> (host: &str)
        ensures
            host@ == self@.host,
    {
        self.server.host.as_str()
    }

    /// The port that the server binds to.
    pub fn server_port(&self) -> (port: u16)
        ensures
            port == self@.port,
    {
        self.server.port
    }

    /// The secret that signs the tokens.
    pub fn jwt_secret(&self) -> (secret: &str)
        ensures
            secret@ == self@.jwt_secret,
    {
        self.jwt_secret.as_str()
    }

    /// The endpoint of the object store.
    pub fn s3_base_url(&self) -> (url: &str)
        ensures
            url@ == self@.s3_base_url,
    {
        self.s3.base_url.as_str()
    }

    /// The access key of the object store.
    pub fn s3_access_key(&self) -> (key: &str)
        ensures
            key@ == self@.s3_access_key,
    {
        self.s3.access_key.as_str()
    }

    /// The secret key of the object store.
    pub fn s3_secret_key(&self) -> (key: &str)
        ensures
            key@ == self@.s3_secret_key,
    {
        self.s3.secret_key.as_str()
    }

    /// The name of the bucket.
    pub fn s3_bucket(&self) -> (bucket: &str)
        ensures
            bucket@ == self@.s3_bucket,
    {
        self.s3.bucket.as_str()
    }
}

/// The values of the environment that the configuration is built from, each
/// absent where its variable is not set.
#[derive(Clone, Debug, Default, PartialEq, Eq)]
pub struct Environment {
    /// `HOST`
    pub host: Option<String>,
    /// `PORT`
    pub port: Option<String>,
    /// `DATABASE_URL`
    pub database_url: Option<String>,
    /// `S3_BASE_URL`
    pub s3_base_url: Option<String>,
    /// `S3_ACCESS_KEY`
    pub s3_access_key: Option<String>,
    /// `S3_SECRET_KEY`
    pub s3_secret_key: Option<String>,
    /// `S3_BUCKET`
    pub s3_bucket: Option<String>,
    /// `JWT_SECRET`
    pub jwt_secret: Option<String>,
}

/// Why no configuration can be built. Either is fatal at startup.
#[derive(Clone, Debug, PartialEq, Eq)]
pub enum ConfigError {
    /// A variable that has no default is not set.
    Missing(String),
    /// `PORT` is set to something that is not a port number.
    InvalidPort,
}

/// What a [`ConfigError`] is in contracts.
pub ghost enum ConfigErrorView {
    Missing(Seq<char>),
    InvalidPort,
}

impl View for ConfigError {
    type V = ConfigErrorView;

    open spec fn view(&self) -> ConfigErrorView {
        match self {
            ConfigError::Missing(name) => ConfigErrorView::Missing(name@),
            ConfigError::InvalidPort => ConfigErrorView::InvalidPort,
        }
    }
}

/// The text of an optional value.
pub open spec fn text_of(value: Option<String>) -> Option<Seq<char>> {
    match value {
        Some(text) => Some(text@),
        None => None,
    }
}

/// Whether a character is a decimal digit.
pub open spec fn is_digit(c: char) -> bool {
    '0' <= c && c <= '9'
}

/// Whether every character is a decimal digit.
pub open spec fn all_digits(text: Seq<char>) -> bool {
    forall|i: int| 0 <= i < text.len() ==> is_digit(#[trigger] text[i])
}

/// The number that a string of decimal digits writes.
pub open spec fn decimal_value(digits: Seq<char>) -> int
    decreases digits.len(),
{
    if digits.len() == 0 {
        0
    } else {
        decimal_value(digits.drop_last()) * 10 + (digits.last() as int - '0' as int)
    }
}

/// The digits of a port number as it is written: the text itself, or what
/// follows a single leading plus sign.
pub open spec fn port_digits(text: Seq<char>) -> Seq<char> {
    if text.len() > 0 && text[0] == '+' {
        text.drop_first()
    } else {
        text
    }
}

/// The port that a text writes: one or more decimal digits, with an optional
/// plus sign before them, whose value is at most 65535. Leading zeros are
/// allowed; spaces and a minus sign are not.
pub open spec fn port_of(text: Seq<char>) -> Option<u16> {
    let digits = port_digits(text);
    if digits.len() > 0 && all_digits(digits) && decimal_value(digits) <= u16::MAX {
        Some(decimal_value(digits) as u16)
    } else {
        None
    }
}

/// The host where none is set.
pub open spec fn default_host() -> Seq<char> {
    "127.0.0.1"@
}

/// The port where none is set.
pub open spec fn default_port() -> u16 {
    3000
}

/// The port of an environment: the default where `PORT` is not set, else what
/// its text writes.
pub open spec fn port_setting(port: Option<Seq<char>>) -> Option<u16> {
    match port {
        Some(text) => port_of(text),
        None => Some(default_port()),
    }
}

/// The first of the required variables that is not set, in the order in
/// which they are read.
pub open spec fn first_missing(
    database_url: Option<Seq<char>>,
    s3_base_url: Option<Seq<char>>,
    s3_access_key: Option<Seq<char>>,
    s3_secret_key: Option<Seq<char>>,
    s3_bucket: Option<Seq<char>>,
    jwt_secret: Option<Seq<char>>,
) -> Option<Seq<char>> {
    if database_url is None {
        Some("DATABASE_URL"@)
    } else if s3_base_url is None {
        Some("S3_BASE_URL"@)
    } else if s3_access_key is None {
        Some("S3_ACCESS_KEY"@)
    } else if s3_secret_key is None {
        Some("S3_SECRET_KEY"@)
    } else if s3_bucket is None {
        Some("S3_BUCKET"@)
    } else if jwt_secret is None {
        Some("JWT_SECRET"@)
    } else {
        None
    }
}

/// The configuration that an environment gives. The port is read first, so a
/// bad port is reported before any missing variable.
pub open spec fn config_of(env: Environment) -> Result<ConfigView, ConfigErrorView> {
    match port_setting(text_of(env.port)) {
        None => Err(ConfigErrorView::InvalidPort),
        Some(port) => match first_missing(
            text_of(env.database_url),
            text_of(env.s3_base_url),
            text_of(env.s3_access_key),
            text_of(env.s3_secret_key),
            text_of(env.s3_bucket),
            text_of(env.jwt_secret),
        ) {
            Some(name) => Err(ConfigErrorView::Missing(name)),
            None => Ok(
                ConfigView {
                    host: match env.host {
                        Some(host) => host@,
                        None => default_host(),
                    },
                    port,
                    db_url: env.database_url->0@,
                    s3_base_url: env.s3_base_url->0@,
                    s3_access_key: env.s3_access_key->0@,
                    s3_secret_key: env.s3_secret_key->0@,
                    s3_bucket: env.s3_bucket->0@,
                    jwt_secret: env.jwt_secret->0@,
                },
            ),
        },
    }
}

proof fn lemma_decimal_value_grows(digits: Seq<char>, n: int)
    requires
        all_digits(digits),
        0 <= n <= digits.len(),
    ensures
        0 <= decimal_value(digits.take(n)) <= decimal_value(digits),
    decreases digits.len() - n,
{
    lemma_decimal_value_is_natural(digits.take(n));
    if n < digits.len() {
        lemma_decimal_value_grows(digits, n + 1);
        assert(digits.take(n + 1).drop_last() == digits.take(n));
    } else {
        assert(digits.take(n) == digits);
    }
}

proof fn lemma_decimal_value_is_natural(digits: Seq<char>)
    requires
        all_digits(digits),
    ensures
        decimal_value(digits) >= 0,
    decreases digits.len(),
{
    if digits.len() > 0 {
        lemma_decimal_value_is_natural(digits.drop_last());
    }
}

/// Reads a port number. See [`port_of`] for what is accepted.
pub fn parse_port(text: &str) -> (port: Option<u16>)
    ensures
        port == port_of(text@),
{
    let length = text.unicode_len();
    let start: usize = if length > 0 && text.get_char(0) == '+' {
        1
    } else {
        0
    };
    let ghost digits = port_digits(text@);
    if start == length {
        return None;
    }
    let mut value: u32 = 0;
    let mut i: usize = start;
    while i < length
        invariant
            start <= i <= length == text@.len(),
            start <= 1,
            digits == text@.skip(start as int),
            digits == port_digits(text@),
            digits.len() > 0,
            all_digits(digits.take(i - start)),
            value == decimal_value(digits.take(i - start)),
            value <= u16::MAX,
        decreases length - i,
    {
        let c = text.get_char(i);
        let ghost seen = digits.take(i - start);
        let ghost next = digits.take(i - start + 1);
        proof {
            assert(digits[i - start] == c);
            assert(next.drop_last() == seen);
        }
        if c < '0' || c > '9' {
            return None;
        }
        let digit: u32 = (c as u32) - ('0' as u32);
        value = value * 10 + digit;
        proof {
            assert forall|k: int| 0 <= k < next.len() implies is_digit(#[trigger] next[k]) by {}
        }
        if value > 65535 {
            proof {
                if all_digits(digits) {
                    lemma_decimal_value_grows(digits, i - start + 1);
                }
            }
            return None;
        }
        i += 1;
    }
    proof {
        assert(digits.take(i - start) == digits);
    }
    Some(value as u16)
}

/// Requires a variable that has no default: the error that names the
/// variable where it is not set.
pub fn require_env(var_name: &str, value: &Option<String>) -> (res: Result<(), ConfigError>)
    ensures
        match value {
            Some(_) => res is Ok,
            None => res matches Err(e) && e@ == ConfigErrorView::Missing(var_name@),
        },
{
    match value {
        Some(_) => Ok(()),
        None => Err(ConfigError::Missing(var_name.to_owned())),
    }
}

/// What is wrong with an environment, if anything.
pub open spec fn environment_fault(env: Environment) -> Option<ConfigErrorView> {
    match config_of(env) {
        Ok(_) => None,
        Err(fault) => Some(fault),
    }
}

/// Says what is wrong with an environment: a `PORT` that is no port number,
/// or else the first of the required variables that is not set, in the order
/// in which they are read. `Ok` where a configuration can be built.
pub fn check_environment(env: &Environment) -> (res: Result<(), ConfigError>)
    ensures
        match environment_fault(*env) {
            None => res is Ok,
            Some(fault) => res matches Err(e) && e@ == fault,
        },
{
    match &env.port {
        Some(text) => {
            if parse_port(text.as_str()).is_none() {
                return Err(ConfigError::InvalidPort);
            }
        },
        None => {},
    }
    match require_env("DATABASE_URL", &env.database_url) {
        Ok(_) => {},
        Err(e) => {
            return Err(e);
        },
    }
    match require_env("S3_BASE_URL", &env.s3_base_url) {
        Ok(_) => {},
        Err(e) => {
            return Err(e);
        },
    }
    match require_env("S3_ACCESS_KEY", &env.s3_access_key) {
        Ok(_) => {},
        Err(e) => {
            return Err(e);
        },
    }
    match require_env("S3_SECRET_KEY", &env.s3_secret_key) {
        Ok(_) => {},
        Err(e) => {
            return Err(e);
        },
    }
    match require_env("S3_BUCKET", &env.s3_bucket) {
        Ok(_) => {},
        Err(e) => {
            return Err(e);
        },
    }
    match require_env("JWT_SECRET", &env.jwt_secret) {
        Ok(_) => {},
        Err(e) => {
            return Err(e);
        },
    }
    Ok(())
}

/// Builds the configuration from the values of the environment. The host
/// defaults to `127.0.0.1` and the port to 3000; every other variable must
/// be set, and the port must be a port number. An environment with a fault
/// is no input of this function: startup is abandoned on it, with the
/// message of the fault that [`check_environment`] reports.
pub fn init_config(env: Environment) -> (config: Config)
    requires
        config_of(env) is Ok,
    ensures
        Ok::<ConfigView, ConfigErrorView>(config@) == config_of(env),
{
    let host = match env.host {
        Some(host) => host,
        None => "127.0.0.1".to_owned(),
    };
    let port = match env.port {
        Some(text) => parse_port(text.as_str()).unwrap(),
        None => 3000,
    };
    Config {
        server: ServerConfig { host, port },
        db: DatabaseConfig { url: env.database_url.unwrap() },
        s3: S3Config {
            base_url: env.s3_base_url.unwrap(),
            access_key: env.s3_access_key.unwrap(),
            secret_key: env.s3_secret_key.unwrap(),
            bucket: env.s3_bucket.unwrap(),
        },
        jwt_secret: env.jwt_secret.unwrap(),
    }
}

impl ConfigError {
    /// The message with which startup is abandoned.
    pub fn message(&self) -> (text: String)
        ensures
            text@ == match self@ {
                ConfigErrorView::Missing(name) => name + " is not set"@,
                ConfigErrorView::InvalidPort => "PORT is not a port number"@,
            },
    {
        match self {
            ConfigError::Missing(name) => name.clone().concat(" is not set"),
            ConfigError::InvalidPort => "PORT is not a port number".to_owned(),
        }
    }
}

} // verus!

//! Server configuration, read from the process environment.
//!
//! The environment is handed in as its list of `(name, value)` pairs; a
//! variable that is absent takes its default, and a required one that is
//! absent, or a number that does not parse into its type, is an error.

use vstd::prelude::*;
use crate::text::{chars_of, chars_eq, parse_u64, parse_i64, parse_i64_spec, unsigned_decimal_value};

verus! {

broadcast use vstd::string::group_string_axioms;

/// Application configuration.
pub struct Config {
    pub server: ServerConfig,
    pub database: DatabaseConfig,
    pub redis: RedisConfig,
    pub jwt: JwtConfig,
    pub s3: S3Config,
}

/// HTTP server settings.
pub struct ServerConfig {
    pub host: String,
    pub port: u16,
    pub max_body_size_mb: usize,
}

/// Database pool settings.
pub struct DatabaseConfig {
    pub url: String,
    pub max_connections: u32,
    pub min_connections: u32,
    pub acquire_timeout_secs: u64,
    pub idle_timeout_secs: u64,
    pub max_lifetime_secs: u64,
}

/// Redis settings.
pub struct RedisConfig {
    pub url: String,
}

/// Token signing settings.
pub struct JwtConfig {
    pub secret: String,
    pub access_token_expire_hours: i64,
    pub refresh_token_expire_days: i64,
}

/// Object storage settings.
pub struct S3Config {
    pub endpoint: String,
    pub region: String,
    pub bucket: String,
    pub access_key: String,
    pub secret_key: String,
    pub public_url: String,
}

/// Why the configuration could not be read.
#[derive(Debug)]
pub enum ConfigError {
    /// A required variable is not set.
    MissingEnv(String),
    /// A variable holds a value that does not parse.
    InvalidValue(String),
}

/// The mathematical form of a [`ConfigError`].
pub enum ConfigFault {
    MissingEnv(Seq<char>),
    InvalidValue(Seq<char>),
}

impl View for ConfigError {
    type V = ConfigFault;

    open spec fn view(&self) -> ConfigFault {
        match self {
            ConfigError::MissingEnv(n) => ConfigFault::MissingEnv(n@),
            ConfigError::InvalidValue(n) => ConfigFault::InvalidValue(n@),
        }
    }
}

impl ConfigError {
    /// The error's message.
    pub fn message(&self) -> (m: String)
        ensures
            m@ == match self@ {
                ConfigFault::MissingEnv(n) => "Missing environment variable: "@ + n,
                ConfigFault::InvalidValue(n) => "Invalid value for environment variable: "@ + n,
            },
    {
        match self {
            ConfigError::MissingEnv(n) => String::from_str("Missing environment variable: ").concat(
                n.as_str(),
            ),
            ConfigError::InvalidValue(n) => String::from_str(
                "Invalid value for environment variable: ",
            ).concat(n.as_str()),
        }
    }
}

/// The value of variable `name` in `env`: the first pair with that name.
pub open spec fn env_lookup(env: Seq<(String, String)>, name: Seq<char>) -> Option<Seq<char>>
    decreases env.len(),
{
    if env.len() == 0 {
        None
    } else if env[0].0@ == name {
        Some(env[0].1@)
    } else {
        env_lookup(env.drop_first(), name)
    }
}

/// The value of `name`, or `default` when it is not set.
pub open spec fn setting(env: Seq<(String, String)>, name: Seq<char>, default: Seq<char>) -> Seq<
    char,
> {
    match env_lookup(env, name) {
        Some(v) => v,
        None => default,
    }
}

/// The unsigned number written in `s`, when it is at most `max`.
pub open spec fn bounded_value(s: Seq<char>, max: int) -> Option<nat> {
    match unsigned_decimal_value(s) {
        Some(v) => if v <= max {
            Some(v)
        } else {
            None
        },
        None => None,
    }
}

/// The fewest characters a token signing secret may have.
pub const MIN_JWT_SECRET_CHARS: usize = 32;

/// The first problem with the environment, in the order the settings are
/// read; `None` when the configuration can be built. A `JWT_SECRET` of
/// fewer than 32 characters is refused as invalid.
pub open spec fn config_fault(env: Seq<(String, String)>) -> Option<ConfigFault> {
    if bounded_value(setting(env, "SERVER_PORT"@, "8080"@), u16::MAX as int) is None {
        Some(ConfigFault::InvalidValue("SERVER_PORT"@))
    } else if bounded_value(setting(env, "SERVER_MAX_BODY_SIZE_MB"@, "50"@), usize::MAX as int) is None {
        Some(ConfigFault::InvalidValue("SERVER_MAX_BODY_SIZE_MB"@))
    } else if env_lookup(env, "DATABASE_URL"@) is None {
        Some(ConfigFault::MissingEnv("DATABASE_URL"@))
    } else if bounded_value(setting(env, "DATABASE_MAX_CONNECTIONS"@, "50"@), u32::MAX as int) is None {
        Some(ConfigFault::InvalidValue("DATABASE_MAX_CONNECTIONS"@))
    } else if bounded_value(setting(env, "DATABASE_MIN_CONNECTIONS"@, "5"@), u32::MAX as int) is None {
        Some(ConfigFault::InvalidValue("DATABASE_MIN_CONNECTIONS"@))
    } else if bounded_value(setting(env, "DATABASE_ACQUIRE_TIMEOUT_SECS"@, "10"@), u64::MAX as int) is None {
        Some(ConfigFault::InvalidValue("DATABASE_ACQUIRE_TIMEOUT_SECS"@))
    } else if bounded_value(setting(env, "DATABASE_IDLE_TIMEOUT_SECS"@, "600"@), u64::MAX as int) is None {
        Some(ConfigFault::InvalidValue("DATABASE_IDLE_TIMEOUT_SECS"@))
    } else if bounded_value(setting(env, "DATABASE_MAX_LIFETIME_SECS"@, "1800"@), u64::MAX as int) is None {
        Some(ConfigFault::InvalidValue("DATABASE_MAX_LIFETIME_SECS"@))
    } else if env_lookup(env, "REDIS_URL"@) is None {
        Some(ConfigFault::MissingEnv("REDIS_URL"@))
    } else if env_lookup(env, "JWT_SECRET"@) is None {
        Some(ConfigFault::MissingEnv("JWT_SECRET"@))
    } else if setting(env, "JWT_SECRET"@, ""@).len() < MIN_JWT_SECRET_CHARS {
        Some(ConfigFault::InvalidValue("JWT_SECRET"@))
    } else if parse_i64_spec(setting(env, "JWT_ACCESS_TOKEN_EXPIRE_HOURS"@, "2"@)) is None {
        Some(ConfigFault::InvalidValue("JWT_ACCESS_TOKEN_EXPIRE_HOURS"@))
    } else if parse_i64_spec(setting(env, "JWT_REFRESH_TOKEN_EXPIRE_DAYS"@, "7"@)) is None {
        Some(ConfigFault::InvalidValue("JWT_REFRESH_TOKEN_EXPIRE_DAYS"@))
    } else {
        None
    }
}

/// `c` holds the settings of `env`.
pub open spec fn config_from(c: Config, env: Seq<(String, String)>) -> bool {
    &&& c.server.host@ == setting(env, "SERVER_HOST"@, "0.0.0.0"@)
    &&& bounded_value(setting(env, "SERVER_PORT"@, "8080"@), u16::MAX as int) == Some(
        c.server.port as nat,
    )
    &&& bounded_value(setting(env, "SERVER_MAX_BODY_SIZE_MB"@, "50"@), usize::MAX as int) == Some(
        c.server.max_body_size_mb as nat,
    )
    &&& env_lookup(env, "DATABASE_URL"@) == Some(c.database.url@)
    &&& bounded_value(setting(env, "DATABASE_MAX_CONNECTIONS"@, "50"@), u32::MAX as int) == Some(
        c.database.max_connections as nat,
    )
    &&& bounded_value(setting(env, "DATABASE_MIN_CONNECTIONS"@, "5"@), u32::MAX as int) == Some(
        c.database.min_connections as nat,
    )
    &&& bounded_value(setting(env, "DATABASE_ACQUIRE_TIMEOUT_SECS"@, "10"@), u64::MAX as int)
        == Some(c.database.acquire_timeout_secs as nat)
    &&& bounded_value(setting(env, "DATABASE_IDLE_TIMEOUT_SECS"@, "600"@), u64::MAX as int) == Some(
        c.database.idle_timeout_secs as nat,
    )
    &&& bounded_value(setting(env, "DATABASE_MAX_LIFETIME_SECS"@, "1800"@), u64::MAX as int)
        == Some(c.database.max_lifetime_secs as nat)
    &&& env_lookup(env, "REDIS_URL"@) == Some(c.redis.url@)
    &&& env_lookup(env, "JWT_SECRET"@) == Some(c.jwt.secret@)
    &&& parse_i64_spec(setting(env, "JWT_ACCESS_TOKEN_EXPIRE_HOURS"@, "2"@)) == Some(
        c.jwt.access_token_expire_hours,
    )
    &&& parse_i64_spec(setting(env, "JWT_REFRESH_TOKEN_EXPIRE_DAYS"@, "7"@)) == Some(
        c.jwt.refresh_token_expire_days,
    )
    &&& c.s3.endpoint@ == setting(env, "S3_ENDPOINT"@, "http://localhost:9000"@)
    &&& c.s3.region@ == setting(env, "S3_REGION"@, "us-east-1"@)
    &&& c.s3.bucket@ == setting(env, "S3_BUCKET"@, "blog"@)
    &&& c.s3.access_key@ == setting(env, "S3_ACCESS_KEY"@, "minioadmin"@)
    &&& c.s3.secret_key@ == setting(env, "S3_SECRET_KEY"@, "minioadmin"@)
    &&& c.s3.public_url@ == setting(env, "S3_PUBLIC_URL"@, ""@)
}

/// The value of `name` in `env`.
fn lookup(env: &Vec<(String, String)>, name: &str) -> (r: Option<String>)
    ensures
        match r {
            Some(v) => env_lookup(env@, name@) == Some(v@),
            None => env_lookup(env@, name@) is None,
        },
{
    let wanted = chars_of(name);
    let mut i: usize = 0;
    proof {
        assert(env@.skip(0) =~= env@);
    }
    while i < env.len()
        invariant
            i <= env@.len(),
            wanted@ == name@,
            env_lookup(env@, name@) == env_lookup(env@.skip(i as int), name@),
        decreases env@.len() - i,
    {
        let key = chars_of(env[i].0.as_str());
        if chars_eq(key.as_slice(), wanted.as_slice()) {
            return Some(env[i].1.clone());
        }
        proof {
            assert(env@.skip(i as int).drop_first() =~= env@.skip(i + 1));
        }
        i = i + 1;
    }
    None
}

/// The value of `name`, or `default` when it is not set.
fn setting_or(env: &Vec<(String, String)>, name: &str, default: &str) -> (r: String)
    ensures
        r@ == setting(env@, name@, default@),
{
    match lookup(env, name) {
        Some(v) => v,
        None => default.to_owned(),
    }
}

/// The unsigned number written in `s`, when it is at most `max`.
fn parse_bounded(s: &String, max: u64) -> (r: Option<u64>)
    ensures
        match r {
            Some(v) => bounded_value(s@, max as int) == Some(v as nat),
            None => bounded_value(s@, max as int) is None,
        },
{
    let cs = chars_of(s.as_str());
    match parse_u64(cs.as_slice()) {
        Some(v) => if v <= max {
            Some(v)
        } else {
            None
        },
        None => None,
    }
}

/// A `String` holding `s`.
fn owned(s: &str) -> (r: String)
    ensures
        r@ == s@,
{
    s.to_owned()
}

impl Config {
    /// Builds the configuration from the environment's `(name, value)`
    /// pairs: each setting takes its variable's value or its default, and
    /// the first problem met (in the order of [`config_fault`]) is returned.
    pub fn from_env(env: &Vec<(String, String)>) -> (r: Result<Config, ConfigError>)
        ensures
            match r {
                Ok(c) => config_fault(env@) is None && config_from(c, env@),
                Err(e) => config_fault(env@) == Some(e@),
            },
    {
        let host = setting_or(env, "SERVER_HOST", "0.0.0.0");
        let port = match parse_bounded(&setting_or(env, "SERVER_PORT", "8080"), 65535) {
            Some(v) => v as u16,
            None => {
                return Err(ConfigError::InvalidValue(owned("SERVER_PORT")));
            },
        };
        let max_body_size_mb = match parse_bounded(
            &setting_or(env, "SERVER_MAX_BODY_SIZE_MB", "50"),
            usize::MAX as u64,
        ) {
            Some(v) => v as usize,
            None => {
                return Err(ConfigError::InvalidValue(owned("SERVER_MAX_BODY_SIZE_MB")));
            },
        };
        let db_url = match lookup(env, "DATABASE_URL") {
            Some(v) => v,
            None => {
                return Err(ConfigError::MissingEnv(owned("DATABASE_URL")));
            },
        };
        let max_connections = match parse_bounded(
            &setting_or(env, "DATABASE_MAX_CONNECTIONS", "50"),
            4294967295,
        ) {
            Some(v) => v as u32,
            None => {
                return Err(ConfigError::InvalidValue(owned("DATABASE_MAX_CONNECTIONS")));
            },
        };
        let min_connections = match parse_bounded(
            &setting_or(env, "DATABASE_MIN_CONNECTIONS", "5"),
            4294967295,
        ) {
            Some(v) => v as u32,
            None => {
                return Err(ConfigError::InvalidValue(owned("DATABASE_MIN_CONNECTIONS")));
            },
        };
        let acquire_timeout_secs = match parse_bounded(
            &setting_or(env, "DATABASE_ACQUIRE_TIMEOUT_SECS", "10"),
            u64::MAX,
        ) {
            Some(v) => v,
            None => {
                return Err(ConfigError::InvalidValue(owned("DATABASE_ACQUIRE_TIMEOUT_SECS")));
            },
        };
        let idle_timeout_secs = match parse_bounded(
            &setting_or(env, "DATABASE_IDLE_TIMEOUT_SECS", "600"),
            u64::MAX,
        ) {
            Some(v) => v,
            None => {
                return Err(ConfigError::InvalidValue(owned("DATABASE_IDLE_TIMEOUT_SECS")));
            },
        };
        let max_lifetime_secs = match parse_bounded(
            &setting_or(env, "DATABASE_MAX_LIFETIME_SECS", "1800"),
            u64::MAX,
        ) {
            Some(v) => v,
            None => {
                return Err(ConfigError::InvalidValue(owned("DATABASE_MAX_LIFETIME_SECS")));
            },
        };
        let redis_url = match lookup(env, "REDIS_URL") {
            Some(v) => v,
            None => {
                return Err(ConfigError::MissingEnv(owned("REDIS_URL")));
            },
        };
        let secret = match lookup(env, "JWT_SECRET") {
            Some(v) => v,
            None => {
                return Err(ConfigError::MissingEnv(owned("JWT_SECRET")));
            },
        };
        if chars_of(secret.as_str()).len() < MIN_JWT_SECRET_CHARS {
            return Err(ConfigError::InvalidValue(owned("JWT_SECRET")));
        }
        let hours_text = setting_or(env, "JWT_ACCESS_TOKEN_EXPIRE_HOURS", "2");
        let access_token_expire_hours = match parse_i64(chars_of(hours_text.as_str()).as_slice()) {
            Some(v) => v,
            None => {
                return Err(ConfigError::InvalidValue(owned("JWT_ACCESS_TOKEN_EXPIRE_HOURS")));
            },
        };
        let days_text = setting_or(env, "JWT_REFRESH_TOKEN_EXPIRE_DAYS", "7");
        let refresh_token_expire_days = match parse_i64(chars_of(days_text.as_str()).as_slice()) {
            Some(v) => v,
            None => {
                return Err(ConfigError::InvalidValue(owned("JWT_REFRESH_TOKEN_EXPIRE_DAYS")));
            },
        };
        Ok(Config {
            server: ServerConfig { host, port, max_body_size_mb },
            database: DatabaseConfig {
                url: db_url,
                max_connections,
                min_connections,
                acquire_timeout_secs,
                idle_timeout_secs,
                max_lifetime_secs,
            },
            redis: RedisConfig { url: redis_url },
            jwt: JwtConfig { secret, access_token_expire_hours, refresh_token_expire_days },
            s3: S3Config {
                endpoint: setting_or(env, "S3_ENDPOINT", "http://localhost:9000"),
                region: setting_or(env, "S3_REGION", "us-east-1"),
                bucket: setting_or(env, "S3_BUCKET", "blog"),
                access_key: setting_or(env, "S3_ACCESS_KEY", "minioadmin"),
                secret_key: setting_or(env, "S3_SECRET_KEY", "minioadmin"),
                public_url: setting_or(env, "S3_PUBLIC_URL", ""),
            },
        })
    }
}

/// Each setting comes from its own variable: a text setting is the value
/// of its variable when that is set and its default otherwise, and a
/// number is the one its variable writes. No setting is read from another
/// setting's variable.
pub proof fn lemma_settings_come_from_their_variables(c: Config, env: Seq<(String, String)>)
    requires
        config_from(c, env),
    ensures
        env_lookup(env, "DATABASE_URL"@) == Some(c.database.url@),
        env_lookup(env, "REDIS_URL"@) == Some(c.redis.url@),
        env_lookup(env, "JWT_SECRET"@) == Some(c.jwt.secret@),
        env_lookup(env, "SERVER_HOST"@) matches Some(v) ==> c.server.host@ == v,
        env_lookup(env, "SERVER_HOST"@) is None ==> c.server.host@ == "0.0.0.0"@,
        env_lookup(env, "S3_ENDPOINT"@) matches Some(v) ==> c.s3.endpoint@ == v,
        env_lookup(env, "S3_ENDPOINT"@) is None ==> c.s3.endpoint@ == "http://localhost:9000"@,
        env_lookup(env, "S3_REGION"@) matches Some(v) ==> c.s3.region@ == v,
        env_lookup(env, "S3_REGION"@) is None ==> c.s3.region@ == "us-east-1"@,
        env_lookup(env, "S3_BUCKET"@) matches Some(v) ==> c.s3.bucket@ == v,
        env_lookup(env, "S3_BUCKET"@) is None ==> c.s3.bucket@ == "blog"@,
        env_lookup(env, "S3_ACCESS_KEY"@) matches Some(v) ==> c.s3.access_key@ == v,
        env_lookup(env, "S3_ACCESS_KEY"@) is None ==> c.s3.access_key@ == "minioadmin"@,
        env_lookup(env, "S3_SECRET_KEY"@) matches Some(v) ==> c.s3.secret_key@ == v,
        env_lookup(env, "S3_SECRET_KEY"@) is None ==> c.s3.secret_key@ == "minioadmin"@,
        env_lookup(env, "S3_PUBLIC_URL"@) matches Some(v) ==> c.s3.public_url@ == v,
        env_lookup(env, "S3_PUBLIC_URL"@) is None ==> c.s3.public_url@ == ""@,
        env_lookup(env, "SERVER_PORT"@) matches Some(v) ==> unsigned_decimal_value(v) == Some(
            c.server.port as nat,
        ),
        env_lookup(env, "SERVER_MAX_BODY_SIZE_MB"@) matches Some(v) ==> unsigned_decimal_value(v)
            == Some(c.server.max_body_size_mb as nat),
        env_lookup(env, "DATABASE_MAX_CONNECTIONS"@) matches Some(v) ==> unsigned_decimal_value(v)
            == Some(c.database.max_connections as nat),
        env_lookup(env, "DATABASE_MIN_CONNECTIONS"@) matches Some(v) ==> unsigned_decimal_value(v)
            == Some(c.database.min_connections as nat),
        env_lookup(env, "DATABASE_ACQUIRE_TIMEOUT_SECS"@) matches Some(v) ==> unsigned_decimal_value(
            v,
        ) == Some(c.database.acquire_timeout_secs as nat),
        env_lookup(env, "DATABASE_IDLE_TIMEOUT_SECS"@) matches Some(v) ==> unsigned_decimal_value(v)
            == Some(c.database.idle_timeout_secs as nat),
        env_lookup(env, "DATABASE_MAX_LIFETIME_SECS"@) matches Some(v) ==> unsigned_decimal_value(v)
            == Some(c.database.max_lifetime_secs as nat),
        env_lookup(env, "JWT_ACCESS_TOKEN_EXPIRE_HOURS"@) matches Some(v) ==> parse_i64_spec(v)
            == Some(c.jwt.access_token_expire_hours),
        env_lookup(env, "JWT_REFRESH_TOKEN_EXPIRE_DAYS"@) matches Some(v) ==> parse_i64_spec(v)
            == Some(c.jwt.refresh_token_expire_days),
{
}

} // verus!

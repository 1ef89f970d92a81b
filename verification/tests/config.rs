use stellux::config::{Config, ConfigError};

fn env(pairs: &[(&str, &str)]) -> Vec<(String, String)> {
    pairs.iter().map(|(k, v)| (k.to_string(), v.to_string())).collect()
}

fn required() -> Vec<(&'static str, &'static str)> {
    vec![("DATABASE_URL", "postgres://db"), ("REDIS_URL", "redis://r"), ("JWT_SECRET", "0123456789abcdef0123456789abcdef")]
}

#[test]
fn defaults_fill_absent_settings() {
    let c = Config::from_env(&env(&required())).ok().unwrap();
    assert_eq!(c.server.host, "0.0.0.0");
    assert_eq!(c.server.port, 8080);
    assert_eq!(c.server.max_body_size_mb, 50);
    assert_eq!(c.database.url, "postgres://db");
    assert_eq!(c.database.max_connections, 50);
    assert_eq!(c.database.min_connections, 5);
    assert_eq!(c.database.acquire_timeout_secs, 10);
    assert_eq!(c.database.idle_timeout_secs, 600);
    assert_eq!(c.database.max_lifetime_secs, 1800);
    assert_eq!(c.redis.url, "redis://r");
    assert_eq!(c.jwt.secret, "0123456789abcdef0123456789abcdef");
    assert_eq!(c.jwt.access_token_expire_hours, 2);
    assert_eq!(c.jwt.refresh_token_expire_days, 7);
    assert_eq!(c.s3.endpoint, "http://localhost:9000");
    assert_eq!(c.s3.region, "us-east-1");
    assert_eq!(c.s3.bucket, "blog");
    assert_eq!(c.s3.access_key, "minioadmin");
    assert_eq!(c.s3.secret_key, "minioadmin");
    assert_eq!(c.s3.public_url, "");
}

#[test]
fn values_override_defaults() {
    let mut p = required();
    p.push(("SERVER_PORT", "+9000"));
    p.push(("SERVER_HOST", "127.0.0.1"));
    p.push(("JWT_ACCESS_TOKEN_EXPIRE_HOURS", "-3"));
    p.push(("S3_PUBLIC_URL", "https://cdn"));
    let c = Config::from_env(&env(&p)).ok().unwrap();
    assert_eq!(c.server.port, 9000);
    assert_eq!(c.server.host, "127.0.0.1");
    assert_eq!(c.jwt.access_token_expire_hours, -3);
    assert_eq!(c.s3.public_url, "https://cdn");
}

fn err_of(pairs: &[(&str, &str)]) -> String {
    match Config::from_env(&env(pairs)) {
        Err(e) => e.message(),
        Ok(_) => "ok".to_string(),
    }
}

#[test]
fn missing_and_invalid_values_are_reported_in_order() {
    assert_eq!(err_of(&[]), "Missing environment variable: DATABASE_URL");
    assert_eq!(err_of(&[("SERVER_PORT", "70000")]), "Invalid value for environment variable: SERVER_PORT");
    assert_eq!(err_of(&[("SERVER_PORT", " 80")]), "Invalid value for environment variable: SERVER_PORT");
    assert_eq!(err_of(&[("DATABASE_URL", "x")]), "Missing environment variable: REDIS_URL");
    assert_eq!(err_of(&[("DATABASE_URL", "x"), ("REDIS_URL", "y")]), "Missing environment variable: JWT_SECRET");
    assert_eq!(
        err_of(&[("DATABASE_URL", "x"), ("REDIS_URL", "y"), ("JWT_SECRET", "zzzzzzzzzzzzzzzzzzzzzzzzzzzzzzzz"), ("DATABASE_MIN_CONNECTIONS", "-1")]),
        "Invalid value for environment variable: DATABASE_MIN_CONNECTIONS"
    );
    assert_eq!(
        err_of(&[("DATABASE_URL", "x"), ("REDIS_URL", "y"), ("JWT_SECRET", "zzzzzzzzzzzzzzzzzzzzzzzzzzzzzzzz"), ("JWT_REFRESH_TOKEN_EXPIRE_DAYS", "7d")]),
        "Invalid value for environment variable: JWT_REFRESH_TOKEN_EXPIRE_DAYS"
    );
    match Config::from_env(&env(&[])) {
        Err(ConfigError::MissingEnv(n)) => assert_eq!(n, "DATABASE_URL"),
        _ => panic!("expected a missing variable"),
    }
}

#[test]
fn the_first_pair_of_a_name_counts() {
    let mut p = required();
    p.push(("SERVER_PORT", "81"));
    p.push(("SERVER_PORT", "82"));
    let c = Config::from_env(&env(&p)).ok().unwrap();
    assert_eq!(c.server.port, 81);
}

#[test]
fn short_jwt_secret_is_refused() {
    assert_eq!(
        err_of(&[("DATABASE_URL", "x"), ("REDIS_URL", "y"), ("JWT_SECRET", "short")]),
        "Invalid value for environment variable: JWT_SECRET"
    );
    assert!(Config::from_env(&env(&[("DATABASE_URL", "x"), ("REDIS_URL", "y"), ("JWT_SECRET", "a".repeat(31).as_str())])).is_err());
    let wide = "密".repeat(32);
    let c = Config::from_env(&env(&[("DATABASE_URL", "x"), ("REDIS_URL", "y"), ("JWT_SECRET", wide.as_str())])).ok().unwrap();
    assert_eq!(c.jwt.secret, wide);
}

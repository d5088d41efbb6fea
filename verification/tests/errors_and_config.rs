use video_backend::config::{check_environment, init_config, parse_port, require_env, ConfigError, Environment};
use video_backend::errors::{internal_error, status_code, ApiError, ErrorKind, NotFoundExt};
use video_backend::schema::Tsvector;
use video_backend::storage::{bucket_setup, health, BucketSetup};

fn full_environment() -> Environment {
    Environment {
        host: Some("0.0.0.0".to_string()),
        port: Some("8080".to_string()),
        database_url: Some("postgres://db/videos".to_string()),
        s3_base_url: Some("http://minio:9000".to_string()),
        s3_access_key: Some("minio".to_string()),
        s3_secret_key: Some("minio-secret".to_string()),
        s3_bucket: Some("videos".to_string()),
        jwt_secret: Some("signing-secret".to_string()),
    }
}

#[test]
fn every_kind_has_its_status() {
    assert_eq!(status_code(ErrorKind::InvalidInput), 400);
    assert_eq!(status_code(ErrorKind::Unauthorized), 401);
    assert_eq!(status_code(ErrorKind::Forbidden), 403);
    assert_eq!(status_code(ErrorKind::NotFound), 404);
    assert_eq!(status_code(ErrorKind::Conflict), 409);
    assert_eq!(status_code(ErrorKind::InvalidMedia), 422);
    assert_eq!(status_code(ErrorKind::InternalError), 500);
    assert_eq!(status_code(ErrorKind::StorageUnavailable), 503);
}

#[test]
fn statuses_are_distinct() {
    let kinds = [
        ErrorKind::InvalidInput,
        ErrorKind::Unauthorized,
        ErrorKind::Forbidden,
        ErrorKind::NotFound,
        ErrorKind::Conflict,
        ErrorKind::InvalidMedia,
        ErrorKind::StorageUnavailable,
        ErrorKind::InternalError,
    ];
    for (i, a) in kinds.iter().enumerate() {
        for (j, b) in kinds.iter().enumerate() {
            assert_eq!(i == j, status_code(*a) == status_code(*b));
        }
    }
}

#[test]
fn api_error_keeps_kind_and_message() {
    let e = ApiError::new(ErrorKind::Conflict, "Username already exists");
    assert_eq!(e.kind, ErrorKind::Conflict);
    assert_eq!(e.message, "Username already exists");
    assert_eq!(e.status(), 409);
}

#[test]
fn internal_error_keeps_the_message() {
    let e = internal_error("connection reset".to_string());
    assert_eq!(e.kind, ErrorKind::InternalError);
    assert_eq!(e.message, "connection reset");
    assert_eq!(e.status(), 500);
}

#[test]
fn map_not_found_on_some_and_none() {
    assert_eq!(Some(7).map_not_found(), Ok(7));
    let missing: Option<i32> = None;
    assert_eq!(
        missing.map_not_found(),
        Err(ApiError { kind: ErrorKind::NotFound, message: "Not Found".to_string() })
    );
}

#[test]
fn parse_port_accepts_plain_numbers() {
    assert_eq!(parse_port("3000"), Some(3000));
    assert_eq!(parse_port("0"), Some(0));
    assert_eq!(parse_port("65535"), Some(65535));
    assert_eq!(parse_port("8080"), Some(8080));
}

#[test]
fn parse_port_accepts_plus_and_leading_zeros() {
    assert_eq!(parse_port("+80"), Some(80));
    assert_eq!(parse_port("00080"), Some(80));
    assert_eq!(parse_port("+0000000000000000443"), Some(443));
}

#[test]
fn parse_port_rejects_what_is_no_port() {
    assert_eq!(parse_port(""), None);
    assert_eq!(parse_port("+"), None);
    assert_eq!(parse_port("-1"), None);
    assert_eq!(parse_port("-0"), None);
    assert_eq!(parse_port("++1"), None);
    assert_eq!(parse_port(" 80"), None);
    assert_eq!(parse_port("80 "), None);
    assert_eq!(parse_port("8a"), None);
    assert_eq!(parse_port("65536"), None);
    assert_eq!(parse_port("99999999999999999999"), None);
    assert_eq!(parse_port("٣٠٠٠"), None);
}

#[test]
fn parse_port_agrees_with_the_standard_parser() {
    let samples = [
        "", "+", "-", "0", "1", "+1", "-1", "007", "65535", "65536", "70000", "4294967296", "12x", "x12",
        " 1", "1 ", "+-1", "1+", "0x10", "1e3", "١٢",
    ];
    for text in samples {
        assert_eq!(parse_port(text), text.parse::<u16>().ok(), "{:?}", text);
    }
}

#[test]
fn require_env_names_the_missing_variable() {
    assert_eq!(require_env("JWT_SECRET", &Some("s".to_string())), Ok(()));
    assert_eq!(require_env("JWT_SECRET", &None), Err(ConfigError::Missing("JWT_SECRET".to_string())));
}

#[test]
fn config_is_built_from_a_full_environment() {
    assert_eq!(check_environment(&full_environment()), Ok(()));
    let config = init_config(full_environment());
    assert_eq!(config.server_host(), "0.0.0.0");
    assert_eq!(config.server_port(), 8080);
    assert_eq!(config.db_url(), "postgres://db/videos");
    assert_eq!(config.s3_base_url(), "http://minio:9000");
    assert_eq!(config.s3_access_key(), "minio");
    assert_eq!(config.s3_secret_key(), "minio-secret");
    assert_eq!(config.s3_bucket(), "videos");
    assert_eq!(config.jwt_secret(), "signing-secret");
}

#[test]
fn host_and_port_have_defaults() {
    let mut env = full_environment();
    env.host = None;
    env.port = None;
    assert_eq!(check_environment(&env), Ok(()));
    let config = init_config(env);
    assert_eq!(config.server_host(), "127.0.0.1");
    assert_eq!(config.server_port(), 3000);
}

#[test]
fn each_required_variable_is_required() {
    let mut env = full_environment();
    env.database_url = None;
    assert_eq!(check_environment(&env).unwrap_err(), ConfigError::Missing("DATABASE_URL".to_string()));
    let mut env = full_environment();
    env.s3_base_url = None;
    assert_eq!(check_environment(&env).unwrap_err(), ConfigError::Missing("S3_BASE_URL".to_string()));
    let mut env = full_environment();
    env.s3_access_key = None;
    assert_eq!(check_environment(&env).unwrap_err(), ConfigError::Missing("S3_ACCESS_KEY".to_string()));
    let mut env = full_environment();
    env.s3_secret_key = None;
    assert_eq!(check_environment(&env).unwrap_err(), ConfigError::Missing("S3_SECRET_KEY".to_string()));
    let mut env = full_environment();
    env.s3_bucket = None;
    assert_eq!(check_environment(&env).unwrap_err(), ConfigError::Missing("S3_BUCKET".to_string()));
    let mut env = full_environment();
    env.jwt_secret = None;
    assert_eq!(check_environment(&env).unwrap_err(), ConfigError::Missing("JWT_SECRET".to_string()));
}

#[test]
fn the_first_wrong_value_decides_the_error() {
    let mut env = full_environment();
    env.port = Some("http".to_string());
    env.database_url = None;
    assert_eq!(check_environment(&env).unwrap_err(), ConfigError::InvalidPort);
    let mut env = full_environment();
    env.s3_bucket = None;
    env.s3_access_key = None;
    assert_eq!(check_environment(&env).unwrap_err(), ConfigError::Missing("S3_ACCESS_KEY".to_string()));
    assert_eq!(check_environment(&Environment::default()).unwrap_err(), ConfigError::Missing("DATABASE_URL".to_string()));
}

#[test]
fn config_error_messages() {
    assert_eq!(ConfigError::Missing("S3_BUCKET".to_string()).message(), "S3_BUCKET is not set");
    assert_eq!(ConfigError::InvalidPort.message(), "PORT is not a port number");
}

#[test]
fn bucket_is_created_only_when_absent() {
    assert_eq!(bucket_setup(true), BucketSetup::UseExisting);
    assert_eq!(bucket_setup(false), BucketSetup::Create);
}

#[test]
fn health_reports_the_database() {
    assert_eq!(health(Ok(())), Ok("I'm alive!"));
    let down = health(Err("connection refused".to_string())).unwrap_err();
    assert_eq!(down.kind, ErrorKind::InternalError);
    assert_eq!(down.message, "connection refused");
}

#[test]
fn search_document_type_is_a_marker() {
    assert_eq!(Tsvector, Tsvector);
    assert_eq!(std::mem::size_of::<Tsvector>(), 0);
}

#[test]
fn a_good_port_with_a_sign_or_zeros_is_no_fault() {
    let mut env = full_environment();
    env.port = Some("+00443".to_string());
    assert_eq!(check_environment(&env), Ok(()));
    assert_eq!(init_config(env).server_port(), 443);
}

#[test]
fn a_port_out_of_range_is_a_fault() {
    for text in ["65536", "", "-1", "80 "] {
        let mut env = full_environment();
        env.port = Some(text.to_string());
        assert_eq!(check_environment(&env), Err(ConfigError::InvalidPort));
    }
}

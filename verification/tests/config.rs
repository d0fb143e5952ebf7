use tempdrop::config::{Config, ConfigError, EnvOverrides};

#[test]
fn defaults_match_spec() {
    let c = Config::default();
    assert_eq!(c.server.port, 8080);
    assert_eq!(c.storage.backend, "local");
    assert_eq!(c.uploads.chunk_size_bytes, 33_554_432);
    assert_eq!(c.uploads.max_upload_size_bytes, 0);
    assert_eq!(c.uploads.max_ttl_seconds, 2_592_000);
    assert_eq!(c.rate_limit.per_min, 120);
    assert_eq!(c.janitor.interval_seconds, 60);
}

#[test]
fn documented_defaults_for_bind_and_download_cap() {
    let c = Config::default();
    assert_eq!(c.server.bind, "127.0.0.1");
    assert_eq!(c.uploads.max_downloads, 100);
    assert_eq!(c.uploads.min_free_bytes, 1_073_741_824);
    assert_eq!(c.storage.root_dir, "./data");
}

#[test]
fn validation_rejects_bad_values() {
    let mut c = Config::default();
    c.storage.backend = "tape".into();
    assert!(c.clone().validate().is_err());
    c.storage.backend = "s3".into();
    assert!(c.clone().validate().is_err()); // s3 needs keys
    let mut c2 = Config::default();
    c2.uploads.chunk_size_bytes = 1_000_000; // below S3 floor
    assert!(c2.validate().is_err());
}

fn invalid_message(c: Config) -> String {
    match c.validate() {
        Err(ConfigError::Invalid(m)) => m,
        other => panic!("expected an invalid config, got {:?}", other.map(|_| ())),
    }
}

#[test]
fn validation_messages_name_the_rule() {
    let mut c = Config::default();
    c.storage.backend = "tape".into();
    assert_eq!(invalid_message(c), "storage.backend must be 'local' or 's3', got 'tape'");
    let mut c = Config::default();
    c.storage.backend = "s3".into();
    c.storage.s3.bucket = "b".into();
    c.storage.s3.access_key = "a".into();
    assert_eq!(invalid_message(c), "storage.backend=s3 requires bucket, access_key, secret_key");
    let mut c = Config::default();
    c.uploads.max_ttl_seconds = 0;
    assert_eq!(invalid_message(c), "uploads.max_ttl_seconds must be > 0");
    let mut c = Config::default();
    c.uploads.max_downloads = -1;
    assert_eq!(invalid_message(c), "uploads.max_downloads must be > 0");
    let mut c = Config::default();
    c.rate_limit.per_min = 0;
    assert_eq!(invalid_message(c), "rate_limit.per_min must be > 0");
    let mut c = Config::default();
    c.uploads.chunk_size_bytes = 5_242_879;
    assert_eq!(invalid_message(c), "uploads.chunk_size_bytes must be >= 5242880 (S3 part floor)");
    let mut c = Config::default();
    c.uploads.chunk_size_bytes = 5_242_880;
    c.storage.backend = "s3".into();
    c.storage.s3.bucket = "b".into();
    c.storage.s3.access_key = "a".into();
    c.storage.s3.secret_key = "s".into();
    assert!(c.validate().is_ok());
}

#[test]
fn chunk_and_upload_caps() {
    let mut c = Config::default();
    assert_eq!(c.chunk_size(), 33_554_432);
    assert_eq!(c.max_upload_size(), None);
    c.uploads.max_upload_size_bytes = 100;
    assert_eq!(c.max_upload_size(), Some(100));
}

#[test]
fn toml_loads_and_env_overrides() {
    let mut c = Config::default();
    c.server.port = 9000;
    c.storage.s3.bucket = "bkt".into();
    let env = EnvOverrides {
        rate_limit_per_min: Some("42".into()),
        server_port: Some("9001".into()),
        server_trust_proxy: Some("1".into()),
        uploads_max_ttl_seconds: Some("-5".into()),
        s3_force_path_style: Some("yes".into()),
        ..EnvOverrides::default()
    };
    assert_eq!(env.first_unparsable(), None);
    c.apply_env(&env);
    assert_eq!(c.server.port, 9001);
    assert_eq!(c.storage.s3.bucket, "bkt");
    assert_eq!(c.rate_limit.per_min, 42);
    assert!(c.server.trust_proxy);
    assert_eq!(c.uploads.max_ttl_seconds, -5);
    assert!(!c.storage.s3.force_path_style);
}

#[test]
fn env_values_that_do_not_parse_are_named() {
    let env = EnvOverrides { server_port: Some("70000".into()), ..EnvOverrides::default() };
    assert_eq!(env.first_unparsable(), Some("FILEHOST_SERVER_PORT"));
    let env = EnvOverrides { uploads_min_free_bytes: Some("-1".into()), ..EnvOverrides::default() };
    assert_eq!(env.first_unparsable(), Some("FILEHOST_UPLOADS_MIN_FREE_BYTES"));
    let env = EnvOverrides { s3_presign_ttl_seconds: Some("".into()), ..EnvOverrides::default() };
    assert_eq!(env.first_unparsable(), Some("FILEHOST_STORAGE_S3_PRESIGN_TTL_SECONDS"));
    let env = EnvOverrides {
        uploads_max_upload_size_bytes: Some("lots".into()),
        janitor_interval_seconds: Some("x".into()),
        ..EnvOverrides::default()
    };
    assert_eq!(env.first_unparsable(), Some("FILEHOST_UPLOADS_MAX_SIZE_BYTES"));
}

#[test]
fn unknown_key_is_error() {
    assert!(matches!(
        ConfigError::from_toml_message("unknown field `portt`, expected one of".into()),
        ConfigError::UnknownKey(_)
    ));
    assert!(matches!(
        ConfigError::from_toml_message("invalid type: string".into()),
        ConfigError::Parse(_)
    ));
    assert_eq!(ConfigError::Invalid("x".into()).message(), "invalid config: x");
    assert_eq!(ConfigError::UnknownKey("k".into()).message(), "unknown config key: k");
}

//! Server configuration: defaults, environment overrides and validation.
//! Reading the TOML file and the process environment happens at the edge of the
//! program; this module decides what those inputs mean.
use vstd::prelude::*;
use crate::text::{parse_unsigned, parse_i64, str_eq, str_contains, push_str_chars};

verus! {

/// Smallest part size that S3 multipart uploads accept (5 MiB).
pub const S3_MIN_PART: u64 = 5242880;

#[derive(Debug, Clone)]
pub struct Config {
    pub server: ServerConfig,
    pub storage: StorageConfig,
    pub uploads: UploadsConfig,
    pub rate_limit: RateLimitConfig,
    pub janitor: JanitorConfig,
}

#[derive(Debug, Clone)]
pub struct ServerConfig {
    pub port: u16,
    pub bind: String,
    pub trust_proxy: bool,
}

#[derive(Debug, Clone)]
pub struct StorageConfig {
    pub backend: String,
    pub root_dir: String,
    pub data_dir: String,
    pub s3: S3Config,
}

#[derive(Debug, Clone)]
pub struct S3Config {
    pub endpoint: String,
    pub bucket: String,
    pub region: String,
    pub access_key: String,
    pub secret_key: String,
    pub force_path_style: bool,
    pub presign_ttl_seconds: u64,
}

#[derive(Debug, Clone)]
pub struct UploadsConfig {
    pub chunk_size_bytes: u64,
    pub max_upload_size_bytes: u64,
    pub max_ttl_seconds: i64,
    pub max_downloads: i64,
    pub max_in_flight_bytes: i64,
    pub min_free_bytes: u64,
    pub pending_timeout_hours: i64,
}

#[derive(Debug, Clone)]
pub struct RateLimitConfig {
    pub per_min: u32,
}

#[derive(Debug, Clone)]
pub struct JanitorConfig {
    pub interval_seconds: u64,
}

pub open spec fn is_default_server(c: ServerConfig) -> bool {
    c.port == 8080 && c.bind@ == "127.0.0.1"@ && !c.trust_proxy
}

pub open spec fn is_default_s3(c: S3Config) -> bool {
    &&& c.endpoint@ == Seq::<char>::empty()
    &&& c.bucket@ == Seq::<char>::empty()
    &&& c.region@ == "auto"@
    &&& c.access_key@ == Seq::<char>::empty()
    &&& c.secret_key@ == Seq::<char>::empty()
    &&& !c.force_path_style
    &&& c.presign_ttl_seconds == 900
}

pub open spec fn is_default_storage(c: StorageConfig) -> bool {
    &&& c.backend@ == "local"@
    &&& c.root_dir@ == "./data"@
    &&& c.data_dir@ == "./data"@
    &&& is_default_s3(c.s3)
}

pub open spec fn is_default_uploads(c: UploadsConfig) -> bool {
    &&& c.chunk_size_bytes == 33554432
    &&& c.max_upload_size_bytes == 0
    &&& c.max_ttl_seconds == 2592000
    &&& c.max_downloads == 100
    &&& c.max_in_flight_bytes == 8589934592
    &&& c.min_free_bytes == 1073741824
    &&& c.pending_timeout_hours == 24
}

pub open spec fn is_default_config(c: Config) -> bool {
    &&& is_default_server(c.server)
    &&& is_default_storage(c.storage)
    &&& is_default_uploads(c.uploads)
    &&& c.rate_limit.per_min == 120
    &&& c.janitor.interval_seconds == 60
}

impl Default for ServerConfig {
    fn default() -> (c: Self)
        ensures
            is_default_server(c),
    {
        ServerConfig { port: 8080, bind: String::from_str("127.0.0.1"), trust_proxy: false }
    }
}

impl Default for S3Config {
    fn default() -> (c: Self)
        ensures
            is_default_s3(c),
    {
        S3Config {
            endpoint: String::new(),
            bucket: String::new(),
            region: String::from_str("auto"),
            access_key: String::new(),
            secret_key: String::new(),
            force_path_style: false,
            presign_ttl_seconds: 900,
        }
    }
}

impl Default for StorageConfig {
    fn default() -> (c: Self)
        ensures
            is_default_storage(c),
    {
        StorageConfig {
            backend: String::from_str("local"),
            root_dir: String::from_str("./data"),
            data_dir: String::from_str("./data"),
            s3: S3Config::default(),
        }
    }
}

impl Default for UploadsConfig {
    fn default() -> (c: Self)
        ensures
            is_default_uploads(c),
    {
        UploadsConfig {
            chunk_size_bytes: 33554432,
            max_upload_size_bytes: 0,
            max_ttl_seconds: 2592000,
            max_downloads: 100,
            max_in_flight_bytes: 8589934592,
            min_free_bytes: 1073741824,
            pending_timeout_hours: 24,
        }
    }
}

impl Default for RateLimitConfig {
    fn default() -> (c: Self)
        ensures
            c.per_min == 120,
    {
        RateLimitConfig { per_min: 120 }
    }
}

impl Default for JanitorConfig {
    fn default() -> (c: Self)
        ensures
            c.interval_seconds == 60,
    {
        JanitorConfig { interval_seconds: 60 }
    }
}

impl Default for Config {
    fn default() -> (c: Self)
        ensures
            is_default_config(c),
    {
        Config {
            server: ServerConfig::default(),
            storage: StorageConfig::default(),
            uploads: UploadsConfig::default(),
            rate_limit: RateLimitConfig::default(),
            janitor: JanitorConfig::default(),
        }
    }
}

/// Why a configuration could not be loaded or was refused. `Io` and `Parse`
/// carry the text of the underlying file or TOML error.
#[derive(Debug, Clone)]
pub enum ConfigError {
    Io(String),
    Parse(String),
    UnknownKey(String),
    Invalid(String),
}

impl ConfigError {
    /// Sorts a TOML parse error by its text: one that names an unknown field is
    /// `UnknownKey`, any other is `Parse`.
    pub fn from_toml_message(msg: String) -> (e: ConfigError)
        ensures
            crate::text::contains_seq(msg@, "unknown field"@) ==> (e matches ConfigError::UnknownKey(
                m,
            ) && m@ == msg@),
            !crate::text::contains_seq(msg@, "unknown field"@) ==> (e matches ConfigError::Parse(m)
                && m@ == msg@),
    {
        if str_contains(msg.as_str(), "unknown field") {
            ConfigError::UnknownKey(msg)
        } else {
            ConfigError::Parse(msg)
        }
    }

    /// The text that `Display` shows.
    pub fn message(&self) -> (s: String)
        ensures
            s@ == match self {
                ConfigError::Io(e) => "config io: "@ + e@,
                ConfigError::Parse(e) => "config parse: "@ + e@,
                ConfigError::UnknownKey(k) => "unknown config key: "@ + k@,
                ConfigError::Invalid(m) => "invalid config: "@ + m@,
            },
    {
        let (mut s, t) = match self {
            ConfigError::Io(e) => (String::from_str("config io: "), e),
            ConfigError::Parse(e) => (String::from_str("config parse: "), e),
            ConfigError::UnknownKey(k) => (String::from_str("unknown config key: "), k),
            ConfigError::Invalid(m) => (String::from_str("invalid config: "), m),
        };
        push_str_chars(&mut s, t.as_str());
        s
    }
}

/// The message of the first rule that `c` breaks, if any.
pub open spec fn validation_failure(c: Config) -> Option<Seq<char>> {
    if c.storage.backend@ != "local"@ && c.storage.backend@ != "s3"@ {
        Some("storage.backend must be 'local' or 's3', got '"@ + c.storage.backend@ + "'"@)
    } else if c.storage.backend@ == "s3"@ && (c.storage.s3.bucket@.len() == 0
        || c.storage.s3.access_key@.len() == 0 || c.storage.s3.secret_key@.len() == 0) {
        Some("storage.backend=s3 requires bucket, access_key, secret_key"@)
    } else if c.uploads.chunk_size_bytes < S3_MIN_PART {
        Some("uploads.chunk_size_bytes must be >= 5242880 (S3 part floor)"@)
    } else if c.uploads.max_ttl_seconds <= 0 {
        Some("uploads.max_ttl_seconds must be > 0"@)
    } else if c.uploads.max_downloads <= 0 {
        Some("uploads.max_downloads must be > 0"@)
    } else if c.rate_limit.per_min == 0 {
        Some("rate_limit.per_min must be > 0"@)
    } else {
        None
    }
}

/// What `Config::max_upload_size` returns.
pub open spec fn spec_max_upload_size(c: Config) -> Option<i64> {
    if c.uploads.max_upload_size_bytes > 0 {
        Some(c.uploads.max_upload_size_bytes as i64)
    } else {
        None
    }
}

impl Config {
    /// Checks the configuration; returns it unchanged when every rule holds.
    pub fn validate(self) -> (r: Result<Config, ConfigError>)
        ensures
            match validation_failure(self) {
                None => r == Ok::<Config, ConfigError>(self),
                Some(m) => r matches Err(ConfigError::Invalid(s)) && s@ == m,
            },
    {
        proof {
            reveal_strlit("local");
            reveal_strlit("s3");
        }
        if str_eq(self.storage.backend.as_str(), "local") {
            assert("local"@.len() == 5);
            assert("s3"@.len() == 2);
        } else if str_eq(self.storage.backend.as_str(), "s3") {
            let s3 = &self.storage.s3;
            if s3.bucket.as_str().is_empty() || s3.access_key.as_str().is_empty()
                || s3.secret_key.as_str().is_empty() {
                return Err(
                    ConfigError::Invalid(
                        String::from_str("storage.backend=s3 requires bucket, access_key, secret_key"),
                    ),
                );
            }
        } else {
            let mut m = String::from_str("storage.backend must be 'local' or 's3', got '");
            push_str_chars(&mut m, self.storage.backend.as_str());
            m.push('\'');
            assert(m@ =~= "storage.backend must be 'local' or 's3', got '"@ + self.storage.backend@
                + "'"@) by {
                reveal_strlit("'");
            }
            return Err(ConfigError::Invalid(m));
        }
        if self.uploads.chunk_size_bytes < S3_MIN_PART {
            return Err(
                ConfigError::Invalid(
                    String::from_str("uploads.chunk_size_bytes must be >= 5242880 (S3 part floor)"),
                ),
            );
        }
        if self.uploads.max_ttl_seconds <= 0 {
            return Err(ConfigError::Invalid(String::from_str("uploads.max_ttl_seconds must be > 0")));
        }
        if self.uploads.max_downloads <= 0 {
            return Err(ConfigError::Invalid(String::from_str("uploads.max_downloads must be > 0")));
        }
        if self.rate_limit.per_min == 0 {
            return Err(ConfigError::Invalid(String::from_str("rate_limit.per_min must be > 0")));
        }
        Ok(self)
    }

    /// The part size, as a `usize`.
    pub fn chunk_size(&self) -> (n: usize)
        ensures
            n == self.uploads.chunk_size_bytes as usize,
    {
        self.uploads.chunk_size_bytes as usize
    }

    /// The upload size cap; `None` when it is 0 (unlimited).
    pub fn max_upload_size(&self) -> (r: Option<i64>)
        ensures
            r == spec_max_upload_size(*self),
    {
        if self.uploads.max_upload_size_bytes > 0 {
            Some(self.uploads.max_upload_size_bytes as i64)
        } else {
            None
        }
    }
}

/// The `FILEHOST_*` environment variables that were set, one field per variable
/// (`server_port` is `FILEHOST_SERVER_PORT`, `s3_bucket` is
/// `FILEHOST_STORAGE_S3_BUCKET`, and so on).
#[derive(Debug, Clone, Default)]
pub struct EnvOverrides {
    pub server_port: Option<String>,
    pub server_bind: Option<String>,
    pub server_trust_proxy: Option<String>,
    pub storage_backend: Option<String>,
    pub storage_root_dir: Option<String>,
    pub storage_data_dir: Option<String>,
    pub s3_endpoint: Option<String>,
    pub s3_bucket: Option<String>,
    pub s3_region: Option<String>,
    pub s3_access_key: Option<String>,
    pub s3_secret_key: Option<String>,
    pub s3_force_path_style: Option<String>,
    pub s3_presign_ttl_seconds: Option<String>,
    pub uploads_chunk_size_bytes: Option<String>,
    pub uploads_max_upload_size_bytes: Option<String>,
    pub uploads_max_ttl_seconds: Option<String>,
    pub uploads_max_downloads: Option<String>,
    pub uploads_max_in_flight_bytes: Option<String>,
    pub uploads_min_free_bytes: Option<String>,
    pub uploads_pending_timeout_hours: Option<String>,
    pub rate_limit_per_min: Option<String>,
    pub janitor_interval_seconds: Option<String>,
}

/// A variable that is unset, or set to a value that `str::parse` accepts for an
/// unsigned type whose largest value is `max`.
pub open spec fn unsigned_var_ok(o: Option<String>, max: int) -> bool {
    match o {
        Some(v) => crate::text::spec_parse_unsigned(v@, max) is Some,
        None => true,
    }
}

/// A variable that is unset, or set to a value that `str::parse::<i64>` accepts.
pub open spec fn i64_var_ok(o: Option<String>) -> bool {
    match o {
        Some(v) => crate::text::spec_parse_i64(v@) is Some,
        None => true,
    }
}

/// The new value of a text setting.
pub open spec fn over_text(o: Option<String>, old: Seq<char>) -> Seq<char> {
    match o {
        Some(v) => v@,
        None => old,
    }
}

/// The new value of a flag: set means `true` or `1`.
pub open spec fn over_flag(o: Option<String>, old: bool) -> bool {
    match o {
        Some(v) => v@ == "true"@ || v@ == "1"@,
        None => old,
    }
}

/// The new value of an unsigned setting.
pub open spec fn over_unsigned(o: Option<String>, old: int, max: int) -> int {
    match o {
        Some(v) => crate::text::spec_parse_unsigned(v@, max)->0,
        None => old,
    }
}

/// The new value of a signed setting.
pub open spec fn over_i64(o: Option<String>, old: int) -> int {
    match o {
        Some(v) => crate::text::spec_parse_i64(v@)->0,
        None => old,
    }
}

impl EnvOverrides {
    /// Every numeric variable that is set holds a number of its setting's type.
    pub open spec fn all_parse(&self) -> bool {
        &&& unsigned_var_ok(self.server_port, 65535)
        &&& unsigned_var_ok(self.s3_presign_ttl_seconds, 18446744073709551615)
        &&& unsigned_var_ok(self.uploads_chunk_size_bytes, 18446744073709551615)
        &&& unsigned_var_ok(self.uploads_max_upload_size_bytes, 18446744073709551615)
        &&& i64_var_ok(self.uploads_max_ttl_seconds)
        &&& i64_var_ok(self.uploads_max_downloads)
        &&& i64_var_ok(self.uploads_max_in_flight_bytes)
        &&& unsigned_var_ok(self.uploads_min_free_bytes, 18446744073709551615)
        &&& i64_var_ok(self.uploads_pending_timeout_hours)
        &&& unsigned_var_ok(self.rate_limit_per_min, 4294967295)
        &&& unsigned_var_ok(self.janitor_interval_seconds, 18446744073709551615)
    }

    /// The first numeric variable, in the order the settings are listed, whose
    /// value is not a number of its setting's type.
    pub open spec fn spec_first_unparsable(&self) -> Option<Seq<char>> {
        if !unsigned_var_ok(self.server_port, 65535) {
            Some("FILEHOST_SERVER_PORT"@)
        } else if !unsigned_var_ok(self.s3_presign_ttl_seconds, 18446744073709551615) {
            Some("FILEHOST_STORAGE_S3_PRESIGN_TTL_SECONDS"@)
        } else if !unsigned_var_ok(self.uploads_chunk_size_bytes, 18446744073709551615) {
            Some("FILEHOST_UPLOADS_CHUNK_SIZE_BYTES"@)
        } else if !unsigned_var_ok(self.uploads_max_upload_size_bytes, 18446744073709551615) {
            Some("FILEHOST_UPLOADS_MAX_SIZE_BYTES"@)
        } else if !i64_var_ok(self.uploads_max_ttl_seconds) {
            Some("FILEHOST_UPLOADS_MAX_TTL_SECONDS"@)
        } else if !i64_var_ok(self.uploads_max_downloads) {
            Some("FILEHOST_UPLOADS_MAX_DOWNLOADS"@)
        } else if !i64_var_ok(self.uploads_max_in_flight_bytes) {
            Some("FILEHOST_UPLOADS_MAX_IN_FLIGHT_BYTES"@)
        } else if !unsigned_var_ok(self.uploads_min_free_bytes, 18446744073709551615) {
            Some("FILEHOST_UPLOADS_MIN_FREE_BYTES"@)
        } else if !i64_var_ok(self.uploads_pending_timeout_hours) {
            Some("FILEHOST_UPLOADS_PENDING_TIMEOUT_HOURS"@)
        } else if !unsigned_var_ok(self.rate_limit_per_min, 4294967295) {
            Some("FILEHOST_RATE_LIMIT_PER_MIN"@)
        } else if !unsigned_var_ok(self.janitor_interval_seconds, 18446744073709551615) {
            Some("FILEHOST_JANITOR_INTERVAL_SECONDS"@)
        } else {
            None
        }
    }

    /// The name of the first numeric variable whose value is not a number of
    /// its setting's type; `None` when `all_parse` holds.
    pub fn first_unparsable(&self) -> (r: Option<&'static str>)
        ensures
            r is None <==> self.all_parse(),
            match r {
                Some(n) => self.spec_first_unparsable() == Some(n@),
                None => self.spec_first_unparsable() is None,
            },
    {
        if !unsigned_ok(&self.server_port, 65535) {
            return Some("FILEHOST_SERVER_PORT");
        }
        if !unsigned_ok(&self.s3_presign_ttl_seconds, 18446744073709551615) {
            return Some("FILEHOST_STORAGE_S3_PRESIGN_TTL_SECONDS");
        }
        if !unsigned_ok(&self.uploads_chunk_size_bytes, 18446744073709551615) {
            return Some("FILEHOST_UPLOADS_CHUNK_SIZE_BYTES");
        }
        if !unsigned_ok(&self.uploads_max_upload_size_bytes, 18446744073709551615) {
            return Some("FILEHOST_UPLOADS_MAX_SIZE_BYTES");
        }
        if !i64_ok(&self.uploads_max_ttl_seconds) {
            return Some("FILEHOST_UPLOADS_MAX_TTL_SECONDS");
        }
        if !i64_ok(&self.uploads_max_downloads) {
            return Some("FILEHOST_UPLOADS_MAX_DOWNLOADS");
        }
        if !i64_ok(&self.uploads_max_in_flight_bytes) {
            return Some("FILEHOST_UPLOADS_MAX_IN_FLIGHT_BYTES");
        }
        if !unsigned_ok(&self.uploads_min_free_bytes, 18446744073709551615) {
            return Some("FILEHOST_UPLOADS_MIN_FREE_BYTES");
        }
        if !i64_ok(&self.uploads_pending_timeout_hours) {
            return Some("FILEHOST_UPLOADS_PENDING_TIMEOUT_HOURS");
        }
        if !unsigned_ok(&self.rate_limit_per_min, 4294967295) {
            return Some("FILEHOST_RATE_LIMIT_PER_MIN");
        }
        if !unsigned_ok(&self.janitor_interval_seconds, 18446744073709551615) {
            return Some("FILEHOST_JANITOR_INTERVAL_SECONDS");
        }
        None
    }
}

fn unsigned_ok(o: &Option<String>, max: u64) -> (r: bool)
    ensures
        r == unsigned_var_ok(*o, max as int),
{
    match o {
        Some(v) => parse_unsigned(v.as_str(), max).is_some(),
        None => true,
    }
}

fn i64_ok(o: &Option<String>) -> (r: bool)
    ensures
        r == i64_var_ok(*o),
{
    match o {
        Some(v) => parse_i64(v.as_str()).is_some(),
        None => true,
    }
}

fn flag_value(v: &String) -> (r: bool)
    ensures
        r == (v@ == "true"@ || v@ == "1"@),
{
    str_eq(v.as_str(), "true") || str_eq(v.as_str(), "1")
}

fn apply_server(c: &mut ServerConfig, env: &EnvOverrides)
    requires
        env.all_parse(),
    ensures
        final(c).port == over_unsigned(env.server_port, old(c).port as int, 65535),
        final(c).bind@ == over_text(env.server_bind, old(c).bind@),
        final(c).trust_proxy == over_flag(env.server_trust_proxy, old(c).trust_proxy),
{
    if let Some(v) = &env.server_port {
        c.port = parse_unsigned(v.as_str(), 65535).unwrap() as u16;
    }
    if let Some(v) = &env.server_bind {
        c.bind = v.clone();
    }
    if let Some(v) = &env.server_trust_proxy {
        c.trust_proxy = flag_value(v);
    }
}

fn apply_storage_paths(c: &mut StorageConfig, env: &EnvOverrides)
    requires
        env.all_parse(),
    ensures
        final(c).backend@ == over_text(env.storage_backend, old(c).backend@),
        final(c).root_dir@ == over_text(env.storage_root_dir, old(c).root_dir@),
        final(c).data_dir@ == over_text(env.storage_data_dir, old(c).data_dir@),
        final(c).s3 == old(c).s3,
{
    if let Some(v) = &env.storage_backend {
        c.backend = v.clone();
    }
    if let Some(v) = &env.storage_root_dir {
        c.root_dir = v.clone();
    }
    if let Some(v) = &env.storage_data_dir {
        c.data_dir = v.clone();
    }
}

fn apply_s3(c: &mut S3Config, env: &EnvOverrides)
    requires
        env.all_parse(),
    ensures
        final(c).endpoint@ == over_text(env.s3_endpoint, old(c).endpoint@),
        final(c).bucket@ == over_text(env.s3_bucket, old(c).bucket@),
        final(c).region@ == over_text(env.s3_region, old(c).region@),
        final(c).access_key@ == over_text(env.s3_access_key, old(c).access_key@),
        final(c).secret_key@ == over_text(env.s3_secret_key, old(c).secret_key@),
        final(c).force_path_style == over_flag(env.s3_force_path_style, old(c).force_path_style),
        final(c).presign_ttl_seconds == over_unsigned(env.s3_presign_ttl_seconds, old(c).presign_ttl_seconds as int, 18446744073709551615),
{
    if let Some(v) = &env.s3_endpoint {
        c.endpoint = v.clone();
    }
    if let Some(v) = &env.s3_bucket {
        c.bucket = v.clone();
    }
    if let Some(v) = &env.s3_region {
        c.region = v.clone();
    }
    if let Some(v) = &env.s3_access_key {
        c.access_key = v.clone();
    }
    if let Some(v) = &env.s3_secret_key {
        c.secret_key = v.clone();
    }
    if let Some(v) = &env.s3_force_path_style {
        c.force_path_style = flag_value(v);
    }
    if let Some(v) = &env.s3_presign_ttl_seconds {
        c.presign_ttl_seconds = parse_unsigned(v.as_str(), 18446744073709551615).unwrap();
    }
}

fn apply_uploads(c: &mut UploadsConfig, env: &EnvOverrides)
    requires
        env.all_parse(),
    ensures
        final(c).chunk_size_bytes == over_unsigned(env.uploads_chunk_size_bytes, old(c).chunk_size_bytes as int, 18446744073709551615),
        final(c).max_upload_size_bytes == over_unsigned(env.uploads_max_upload_size_bytes, old(c).max_upload_size_bytes as int, 18446744073709551615),
        final(c).max_ttl_seconds == over_i64(env.uploads_max_ttl_seconds, old(c).max_ttl_seconds as int),
        final(c).max_downloads == over_i64(env.uploads_max_downloads, old(c).max_downloads as int),
        final(c).max_in_flight_bytes == over_i64(env.uploads_max_in_flight_bytes, old(c).max_in_flight_bytes as int),
        final(c).min_free_bytes == over_unsigned(env.uploads_min_free_bytes, old(c).min_free_bytes as int, 18446744073709551615),
        final(c).pending_timeout_hours == over_i64(env.uploads_pending_timeout_hours, old(c).pending_timeout_hours as int),
{
    if let Some(v) = &env.uploads_chunk_size_bytes {
        c.chunk_size_bytes = parse_unsigned(v.as_str(), 18446744073709551615).unwrap();
    }
    if let Some(v) = &env.uploads_max_upload_size_bytes {
        c.max_upload_size_bytes = parse_unsigned(v.as_str(), 18446744073709551615).unwrap();
    }
    if let Some(v) = &env.uploads_max_ttl_seconds {
        c.max_ttl_seconds = parse_i64(v.as_str()).unwrap();
    }
    if let Some(v) = &env.uploads_max_downloads {
        c.max_downloads = parse_i64(v.as_str()).unwrap();
    }
    if let Some(v) = &env.uploads_max_in_flight_bytes {
        c.max_in_flight_bytes = parse_i64(v.as_str()).unwrap();
    }
    if let Some(v) = &env.uploads_min_free_bytes {
        c.min_free_bytes = parse_unsigned(v.as_str(), 18446744073709551615).unwrap();
    }
    if let Some(v) = &env.uploads_pending_timeout_hours {
        c.pending_timeout_hours = parse_i64(v.as_str()).unwrap();
    }
}

fn apply_limits(c: &mut Config, env: &EnvOverrides)
    requires
        env.all_parse(),
    ensures
        final(c).rate_limit.per_min == over_unsigned(env.rate_limit_per_min, old(c).rate_limit.per_min as int, 4294967295),
        final(c).janitor.interval_seconds == over_unsigned(env.janitor_interval_seconds, old(c).janitor.interval_seconds as int, 18446744073709551615),
        final(c).server == old(c).server,
        final(c).storage == old(c).storage,
        final(c).uploads == old(c).uploads,
{
    if let Some(v) = &env.rate_limit_per_min {
        c.rate_limit.per_min = parse_unsigned(v.as_str(), 4294967295).unwrap() as u32;
    }
    if let Some(v) = &env.janitor_interval_seconds {
        c.janitor.interval_seconds = parse_unsigned(v.as_str(), 18446744073709551615).unwrap();
    }
}

impl Config {
    /// Applies the `FILEHOST_*` overrides on top of the file or default values:
    /// a set variable replaces its setting, an unset one leaves it alone.
    pub fn apply_env(&mut self, env: &EnvOverrides)
        requires
            env.all_parse(),
        ensures
            final(self).server.port == over_unsigned(env.server_port, old(self).server.port as int, 65535),
            final(self).server.bind@ == over_text(env.server_bind, old(self).server.bind@),
            final(self).server.trust_proxy == over_flag(env.server_trust_proxy, old(self).server.trust_proxy),
            final(self).storage.backend@ == over_text(env.storage_backend, old(self).storage.backend@),
            final(self).storage.root_dir@ == over_text(env.storage_root_dir, old(self).storage.root_dir@),
            final(self).storage.data_dir@ == over_text(env.storage_data_dir, old(self).storage.data_dir@),
            final(self).storage.s3.endpoint@ == over_text(env.s3_endpoint, old(self).storage.s3.endpoint@),
            final(self).storage.s3.bucket@ == over_text(env.s3_bucket, old(self).storage.s3.bucket@),
            final(self).storage.s3.region@ == over_text(env.s3_region, old(self).storage.s3.region@),
            final(self).storage.s3.access_key@ == over_text(env.s3_access_key, old(self).storage.s3.access_key@),
            final(self).storage.s3.secret_key@ == over_text(env.s3_secret_key, old(self).storage.s3.secret_key@),
            final(self).storage.s3.force_path_style == over_flag(env.s3_force_path_style, old(self).storage.s3.force_path_style),
            final(self).storage.s3.presign_ttl_seconds == over_unsigned(env.s3_presign_ttl_seconds, old(self).storage.s3.presign_ttl_seconds as int, 18446744073709551615),
            final(self).uploads.chunk_size_bytes == over_unsigned(env.uploads_chunk_size_bytes, old(self).uploads.chunk_size_bytes as int, 18446744073709551615),
            final(self).uploads.max_upload_size_bytes == over_unsigned(env.uploads_max_upload_size_bytes, old(self).uploads.max_upload_size_bytes as int, 18446744073709551615),
            final(self).uploads.max_ttl_seconds == over_i64(env.uploads_max_ttl_seconds, old(self).uploads.max_ttl_seconds as int),
            final(self).uploads.max_downloads == over_i64(env.uploads_max_downloads, old(self).uploads.max_downloads as int),
            final(self).uploads.max_in_flight_bytes == over_i64(env.uploads_max_in_flight_bytes, old(self).uploads.max_in_flight_bytes as int),
            final(self).uploads.min_free_bytes == over_unsigned(env.uploads_min_free_bytes, old(self).uploads.min_free_bytes as int, 18446744073709551615),
            final(self).uploads.pending_timeout_hours == over_i64(env.uploads_pending_timeout_hours, old(self).uploads.pending_timeout_hours as int),
            final(self).rate_limit.per_min == over_unsigned(env.rate_limit_per_min, old(self).rate_limit.per_min as int, 4294967295),
            final(self).janitor.interval_seconds == over_unsigned(env.janitor_interval_seconds, old(self).janitor.interval_seconds as int, 18446744073709551615),
    {
        apply_server(&mut self.server, env);
        apply_storage_paths(&mut self.storage, env);
        apply_s3(&mut self.storage.s3, env);
        apply_uploads(&mut self.uploads, env);
        apply_limits(self, env);
    }
}

/// A configuration that passes validation names a known backend, has S3
/// credentials when it uses S3, parts of at least 5 MiB, and positive TTL,
/// download and rate limits.
pub proof fn lemma_valid_config_bounds(c: Config)
    requires
        validation_failure(c) is None,
    ensures
        c.storage.backend@ == "local"@ || c.storage.backend@ == "s3"@,
        c.storage.backend@ == "s3"@ ==> c.storage.s3.bucket@.len() > 0
            && c.storage.s3.access_key@.len() > 0 && c.storage.s3.secret_key@.len() > 0,
        c.uploads.chunk_size_bytes >= S3_MIN_PART,
        c.uploads.max_ttl_seconds > 0,
        c.uploads.max_downloads > 0,
        c.rate_limit.per_min > 0,
{
}

/// The defaults are a valid configuration.
pub proof fn lemma_default_config_is_valid(c: Config)
    requires
        is_default_config(c),
    ensures
        validation_failure(c) is None,
{
    reveal_strlit("local");
    reveal_strlit("s3");
    assert("local"@.len() != "s3"@.len());
}

} // verus!

//! Blob storage: the local-disk and S3 backends, their errors and how those
//! errors are reported to API clients.
use vstd::prelude::*;
use crate::error::ApiError;
use crate::config::Config;
use crate::text::{push_decimal, push_str_chars, str_contains, str_eq};

pub mod local;
pub mod s3;

use local::LocalStorage;
use s3::S3Storage;

verus! {

/// Why a storage operation failed. `Io` carries the text of the I/O error.
#[derive(Debug, Clone)]
pub enum StorageError {
    Io(String),
    LowSpace(u64),
    S3(String),
    NoSuchKey,
}

impl StorageError {
    /// The text that `Display` shows.
    pub fn message(&self) -> (s: String)
        ensures
            s@ == match self {
                StorageError::Io(e) => "storage io: "@ + e@,
                StorageError::LowSpace(free) => "storage low: "@ + crate::text::decimal_string(
                    *free as nat,
                ) + " bytes free"@,
                StorageError::S3(m) => "s3 error: "@ + m@,
                StorageError::NoSuchKey => "key not found"@,
            },
    {
        match self {
            StorageError::Io(e) => {
                let mut s = String::from_str("storage io: ");
                push_str_chars(&mut s, e.as_str());
                s
            },
            StorageError::LowSpace(free) => {
                let mut s = String::from_str("storage low: ");
                push_decimal(&mut s, *free);
                push_str_chars(&mut s, " bytes free");
                s
            },
            StorageError::S3(m) => {
                let mut s = String::from_str("s3 error: ");
                push_str_chars(&mut s, m.as_str());
                s
            },
            StorageError::NoSuchKey => String::from_str("key not found"),
        }
    }
}

/// How `map_s3_error` reports a storage failure.
pub open spec fn spec_map_s3_error(e: StorageError) -> crate::error::ApiErrorView {
    match e {
        StorageError::S3(msg) => if crate::text::contains_seq(msg@, "NoSuchKey"@) {
            crate::error::not_found_view()
        } else if crate::text::contains_seq(msg@, "InvalidPart"@) || crate::text::contains_seq(
            msg@,
            "invalid_etag"@,
        ) || crate::text::contains_seq(msg@, "Invalid ETag"@) {
            crate::error::invalid_etag_view()
        } else {
            crate::error::upstream_view("s3 error: "@ + msg@)
        },
        StorageError::NoSuchKey => crate::error::not_found_view(),
        StorageError::Io(m) => crate::error::storage_error_view(m@),
        StorageError::LowSpace(f) => crate::error::storage_low_view(f),
    }
}

/// Reports a storage failure: a missing S3 key is 404, a rejected part etag is
/// `invalid_etag`, any other S3 failure is upstream trouble.
pub fn map_s3_error(e: StorageError) -> (r: ApiError)
    ensures
        r@ == spec_map_s3_error(e),
{
    match e {
        StorageError::S3(msg) => {
            if str_contains(msg.as_str(), "NoSuchKey") {
                ApiError::not_found()
            } else if str_contains(msg.as_str(), "InvalidPart") || str_contains(
                msg.as_str(),
                "invalid_etag",
            ) || str_contains(msg.as_str(), "Invalid ETag") {
                ApiError::invalid_etag()
            } else {
                let mut m = String::from_str("s3 error: ");
                push_str_chars(&mut m, msg.as_str());
                ApiError::upstream(m)
            }
        },
        StorageError::NoSuchKey => ApiError::not_found(),
        StorageError::Io(m) => ApiError::storage_error(m),
        StorageError::LowSpace(f) => ApiError::storage_low(f),
    }
}

/// The configured backend.
pub enum Storage {
    Local(LocalStorage),
    S3(S3Storage),
}

impl Storage {
    /// The backend's name, as stored in upload rows.
    pub fn kind(&self) -> (k: &'static str)
        ensures
            k@ == match self {
                Storage::Local(_) => "local"@,
                Storage::S3(_) => "s3"@,
            },
    {
        match self {
            Storage::Local(_) => "local",
            Storage::S3(_) => "s3",
        }
    }
}

/// Builds the backend that `config.storage.backend` names: the local store at
/// `root_dir`, or an S3 client. Creating the local directory is the caller's.
pub fn build_storage(config: &Config) -> (r: Result<Storage, StorageError>)
    ensures
        config.storage.backend@ == "local"@ ==> (r matches Ok(Storage::Local(l)) && l.root()@
            == config.storage.root_dir@ && l.min_free() == config.uploads.min_free_bytes),
        config.storage.backend@ == "s3"@ ==> match r {
            Ok(Storage::S3(s)) => config.storage.s3.bucket@.len() > 0 && s.bucket()@
                == config.storage.s3.bucket@ && s.presign_ttl_secs()
                == config.storage.s3.presign_ttl_seconds,
            Err(StorageError::S3(m)) => config.storage.s3.bucket@.len() == 0 && m@
                == "s3 bucket is empty"@,
            _ => false,
        },
        config.storage.backend@ != "local"@ && config.storage.backend@ != "s3"@ ==> (r matches Err(
            StorageError::S3(m),
        ) && m@ == "unknown backend "@ + config.storage.backend@),
{
    proof {
        reveal_strlit("local");
        reveal_strlit("s3");
    }
    assert("local"@.len() == 5 && "s3"@.len() == 2);
    if str_eq(config.storage.backend.as_str(), "local") {
        Ok(
            Storage::Local(
                LocalStorage::with_space_checker(
                    config.storage.root_dir.clone(),
                    config.uploads.min_free_bytes,
                ),
            ),
        )
    } else if str_eq(config.storage.backend.as_str(), "s3") {
        match S3Storage::new(&config.storage.s3) {
            Ok(s) => Ok(Storage::S3(s)),
            Err(e) => Err(e),
        }
    } else {
        let mut m = String::from_str("unknown backend ");
        push_str_chars(&mut m, config.storage.backend.as_str());
        Err(StorageError::S3(m))
    }
}

} // verus!

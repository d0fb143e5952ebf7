use tempdrop::config::{Config, S3Config};
use tempdrop::storage::local::{open_window, LocalStorage};
use tempdrop::storage::s3::{
    completed_parts, content_range_total, multipart_upload_id, object_size, object_window,
    parse_content_range,
    range_header_value, S3Storage,
};
use tempdrop::storage::{build_storage, map_s3_error, Storage, StorageError};

#[test]
fn map_no_such_key_to_not_found() {
    let e = map_s3_error(StorageError::S3("service error: NoSuchKey".into()));
    assert_eq!(e.status, 404);
}

#[test]
fn map_unknown_to_upstream() {
    let e = map_s3_error(StorageError::S3("network glitch".into()));
    assert_eq!(e.status, 503);
}

#[test]
fn map_other_storage_errors() {
    let e = map_s3_error(StorageError::S3("InvalidPart: one or more parts".into()));
    assert_eq!((e.code, e.status), ("invalid_etag", 409));
    let e = map_s3_error(StorageError::S3("network glitch".into()));
    assert_eq!(e.message, "s3 error: network glitch");
    assert_eq!(map_s3_error(StorageError::NoSuchKey).code, "not_found");
    let e = map_s3_error(StorageError::Io("denied".into()));
    assert_eq!((e.code, e.status, e.message.as_str()), ("storage_error", 502, "denied"));
    let e = map_s3_error(StorageError::LowSpace(500));
    assert_eq!((e.code, e.status), ("storage_low", 507));
    assert_eq!(e.message, "storage low: 500 bytes free");
}

#[test]
fn free_space_check_rejects_low() {
    let s = LocalStorage::with_space_checker("/tmp/files".into(), 1000);
    assert!(matches!(s.check_free(500), Err(StorageError::LowSpace(500))));
    assert!(s.check_free(1000).is_ok());
}

#[test]
fn local_paths_join_like_pathbuf() {
    let s = LocalStorage::with_space_checker("/data/files".into(), 0);
    assert_eq!(s.path("k1"), "/data/files/k1");
    let s = LocalStorage::with_space_checker("/data/".into(), 0);
    assert_eq!(s.path("k1"), "/data/k1");
    assert_eq!(s.path("/abs"), "/abs");
    let s = LocalStorage::with_space_checker("".into(), 0);
    assert_eq!(s.path("k1"), "k1");
}

#[test]
fn open_range_full_file() {
    let blob = b"0123456789";
    let (start, end) = open_window(blob.len() as u64, None).unwrap();
    assert_eq!((start, end), (0, 9));
    assert_eq!(&blob[start as usize..=end as usize], b"0123456789");
}

#[test]
fn open_range_streams_window() {
    let blob = b"0123456789";
    let (start, end) = open_window(blob.len() as u64, Some((2, 5))).unwrap();
    assert_eq!((start, end), (2, 5));
    assert_eq!(&blob[start as usize..=end as usize], b"2345");
}

#[test]
fn open_window_clamps_into_the_blob() {
    assert_eq!(open_window(10, None).unwrap(), (0, 9));
    assert_eq!(open_window(10, Some((2, 5))).unwrap(), (2, 5));
    assert_eq!(open_window(10, Some((20, 30))).unwrap(), (9, 9));
    assert_eq!(open_window(10, Some((6, 3))).unwrap(), (6, 6));
    assert!(matches!(open_window(0, None), Err(StorageError::NoSuchKey)));
}

#[test]
fn new_fails_on_empty_bucket() {
    let cfg = S3Config::default(); // bucket is empty
    assert!(S3Storage::new(&cfg).is_err());
}

#[test]
fn s3_storage_keeps_its_settings() {
    let mut cfg = S3Config::default();
    cfg.bucket = "bkt".into();
    cfg.endpoint = "http://127.0.0.1:9000".into();
    let s = S3Storage::new(&cfg).unwrap();
    assert_eq!(s.bucket_name(), "bkt");
    assert_eq!(s.presign_ttl(), 900);
}

#[test]
fn build_storage_follows_the_backend() {
    let c = Config::default();
    let st = build_storage(&c).unwrap();
    assert_eq!(st.kind(), "local");
    if let Storage::Local(l) = &st {
        assert_eq!(l.root_dir(), "./data");
        assert_eq!(l.min_free_bytes(), 1_073_741_824);
    }
    let mut c = Config::default();
    c.storage.backend = "tape".into();
    match build_storage(&c) {
        Err(StorageError::S3(m)) => assert_eq!(m, "unknown backend tape"),
        _ => panic!("expected an error"),
    }
    c.storage.backend = "s3".into();
    assert!(build_storage(&c).is_err());
}

#[test]
fn content_range_parsing() {
    assert_eq!(parse_content_range("bytes 2-5/10"), Some((2, 5)));
    assert_eq!(parse_content_range(" bytes 0-0/* "), Some((0, 0)));
    assert_eq!(parse_content_range("bytes 2-5"), None);
    assert_eq!(parse_content_range("items 2-5/10"), None);
    assert_eq!(parse_content_range("bytes x-5/10"), None);
}

#[test]
fn object_window_cases() {
    assert_eq!(object_window(None, None, 10).unwrap(), (10, 0, 9));
    assert_eq!(object_window(Some((2, 4)), Some("bytes 2-4/10"), 3).unwrap(), (10, 2, 4));
    assert_eq!(object_window(Some((2, 4)), Some("bytes 2-4/*"), 3).unwrap(), (3, 2, 4));
    assert!(matches!(object_window(Some((2, 4)), Some("junk"), 3), Err(StorageError::S3(_))));
    assert!(matches!(object_window(None, None, 0), Err(StorageError::NoSuchKey)));
    assert!(matches!(object_window(Some((0, 0)), Some("bytes 0-0/0"), 1), Err(StorageError::NoSuchKey)));
}

#[test]
fn s3_range_reports_the_full_object_size() {
    assert_eq!(content_range_total("bytes 2-5/10"), Some(10));
    assert_eq!(content_range_total(" bytes 0-0/* "), None);
    assert_eq!(content_range_total("bytes 2-5"), None);
    assert_eq!(content_range_total("items 2-5/10"), None);
    // A ranged read of bytes 2..=5 of a ten-byte object: four bytes served, total 10.
    let (total, start, end) = object_window(Some((2, 5)), Some("bytes 2-5/10"), 4).unwrap();
    assert_eq!((total, start, end, end - start + 1), (10, 2, 5, 4));
}

#[test]
fn multipart_helpers() {
    let parts = completed_parts(&vec!["e1".to_string(), "e2".to_string()]);
    assert_eq!(parts, vec![(1, "e1".to_string()), (2, "e2".to_string())]);
    assert_eq!(multipart_upload_id(Some("u".into())).unwrap(), "u");
    assert!(multipart_upload_id(None).is_err());
    assert_eq!(object_size(Some(42)).unwrap(), 42);
    assert!(object_size(None).is_err());
    assert_eq!(range_header_value(2, 4), "bytes=2-4");
}

#[test]
fn storage_error_messages() {
    assert_eq!(StorageError::NoSuchKey.message(), "key not found");
    assert_eq!(StorageError::LowSpace(3).message(), "storage low: 3 bytes free");
    assert_eq!(StorageError::S3("x".into()).message(), "s3 error: x");
    assert_eq!(StorageError::Io("y".into()).message(), "storage io: y");
}

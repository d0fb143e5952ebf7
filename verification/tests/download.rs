use tempdrop::api::download::{
    begin_download, content_disposition, content_range_value, parse_range, plan_window,
    storage_to_api, DownloadWindow, RangeSpec,
};
use tempdrop::api::meta::upload_meta;
use tempdrop::db::{Db, UploadRow};
use tempdrop::storage::StorageError;

fn ready_row(id: &str, max_downloads: Option<i64>, expires_at: Option<i64>) -> UploadRow {
    UploadRow {
        id: id.into(),
        name: "f.bin".into(),
        size: 10,
        backend: "local".into(),
        storage_key: id.into(),
        status: "ready".into(),
        received_bytes: 10,
        part_count: 1,
        s3_upload_id: None,
        ttl_seconds: None,
        max_downloads,
        download_count: 0,
        upload_token: "t".into(),
        created_at: 100,
        expires_at,
        chunk_size: 33554432,
    }
}

#[test]
fn parse_range_cases() {
    assert!(matches!(parse_range(Some("bytes=0-499")), Some(RangeSpec::Bytes(0, 499))));
    assert!(matches!(parse_range(Some("bytes=500-")), Some(RangeSpec::Bytes(500, u64::MAX))));
    assert!(matches!(parse_range(Some("bytes=-500")), Some(RangeSpec::Suffix(500))));
    assert!(parse_range(Some("bytes=0-10,20-30")).is_none());
    assert!(parse_range(Some("invalid")).is_none());
}

#[test]
fn parse_range_edge_cases() {
    assert_eq!(parse_range(None), None);
    assert_eq!(parse_range(Some("  bytes=2-5 ")), Some(RangeSpec::Bytes(2, 5)));
    assert_eq!(parse_range(Some("bytes=-0")), None);
    assert_eq!(parse_range(Some("bytes=5-2")), None);
    assert_eq!(parse_range(Some("bytes=banana")), None);
    assert_eq!(parse_range(Some("bytes=+3-+4")), Some(RangeSpec::Bytes(3, 4)));
    assert_eq!(parse_range(Some("bytes=1-2-3")), None);
    assert_eq!(parse_range(Some("bytes=18446744073709551616-")), None);
    assert_eq!(parse_range(Some("BYTES=0-1")), None);
}

#[test]
fn content_disposition_matches_header_format() {
    assert_eq!(
        content_disposition("doc.pdf"),
        "attachment; filename=\"doc.pdf\"; filename*=UTF-8''doc.pdf"
    );
    let cd = content_disposition("evil\r\nInjected: \"yes\".bin");
    assert!(!cd.contains('\r') && !cd.contains('\n'));
    assert_eq!(
        cd,
        "attachment; filename=\"evil__Injected: _yes_.bin\"; filename*=UTF-8''evil%0D%0AInjected%3A%20%22yes%22.bin"
    );
}

#[test]
fn plan_window_serves_ranges_and_suffixes() {
    assert_eq!(plan_window(None, 10), DownloadWindow { start: 0, end: 9, ranged: false });
    assert_eq!(
        plan_window(Some(RangeSpec::Bytes(2, 5)), 10),
        DownloadWindow { start: 2, end: 5, ranged: true }
    );
    assert_eq!(
        plan_window(Some(RangeSpec::Suffix(3)), 10),
        DownloadWindow { start: 7, end: 9, ranged: true }
    );
    assert_eq!(
        plan_window(Some(RangeSpec::Bytes(500, u64::MAX)), 10),
        DownloadWindow { start: 9, end: 9, ranged: true }
    );
    assert_eq!(
        plan_window(Some(RangeSpec::Suffix(50)), 10),
        DownloadWindow { start: 0, end: 9, ranged: true }
    );
    assert_eq!(content_range_value(2, 5, 10), "bytes 2-5/10");
    assert_eq!(content_range_value(7, 9, 10), "bytes 7-9/10");
}

#[test]
fn storage_errors_map_for_downloads() {
    assert_eq!(storage_to_api(StorageError::NoSuchKey).status, 404);
    let e = storage_to_api(StorageError::S3("boom".into()));
    assert_eq!(e.status, 503);
    assert_eq!(e.message, "boom");
    assert_eq!(storage_to_api(StorageError::Io("disk".into())).status, 502);
    assert_eq!(storage_to_api(StorageError::LowSpace(7)).message, "storage low: 7 bytes free");
}

#[test]
fn download_consumes_and_depletes_count() {
    let mut db = Db::open_in_memory();
    db.create_upload(&ready_row("ltd", Some(2), None)).unwrap();
    assert_eq!(begin_download(&mut db, "ltd", 150).unwrap().download_count, 1);
    assert_eq!(begin_download(&mut db, "ltd", 150).unwrap().download_count, 2);
    let e = begin_download(&mut db, "ltd", 150).unwrap_err();
    assert_eq!(e.status, 404);
    assert_eq!(e.code, "not_found");
    assert_eq!(db.get_upload("ltd").unwrap().download_count, 2);
    assert_eq!(upload_meta(&db, "ltd", 150).unwrap_err().status, 404);
}

#[test]
fn unknown_id_is_404() {
    let mut db = Db::open_in_memory();
    let e = begin_download(&mut db, "nope123", 150).unwrap_err();
    assert_eq!((e.code, e.status), ("not_found", 404));
}

/// The window and headers that a download of a ten-byte file gets for `range`.
fn serve(range: Option<&str>) -> (DownloadWindow, Option<String>, u64) {
    let w = plan_window(parse_range(range), 10);
    let content_range = if w.ranged { Some(content_range_value(w.start, w.end, 10)) } else { None };
    (w, content_range, w.end - w.start + 1)
}

#[test]
fn full_download_serves_bytes_and_headers() {
    let mut db = Db::open_in_memory();
    let mut row = ready_row("doc", None, None);
    row.name = "doc.pdf".into();
    db.create_upload(&row).unwrap();
    let row = begin_download(&mut db, "doc", 150).unwrap();
    assert_eq!(
        content_disposition(&row.name),
        r#"attachment; filename="doc.pdf"; filename*=UTF-8''doc.pdf"#
    );
    let (w, content_range, len) = serve(None);
    assert_eq!(w, DownloadWindow { start: 0, end: 9, ranged: false });
    assert_eq!(content_range, None);
    assert_eq!(len, 10);
}

#[test]
fn single_range_returns_206() {
    let (w, content_range, len) = serve(Some("bytes=2-5"));
    assert!(w.ranged);
    assert_eq!(content_range.as_deref(), Some("bytes 2-5/10"));
    assert_eq!(len, 4);
    assert_eq!(&b"0123456789"[w.start as usize..=w.end as usize], b"2345");
}

#[test]
fn suffix_range_returns_206() {
    let (w, content_range, _) = serve(Some("bytes=-3"));
    assert!(w.ranged);
    assert_eq!(content_range.as_deref(), Some("bytes 7-9/10"));
    assert_eq!(&b"0123456789"[w.start as usize..=w.end as usize], b"789");
}

#[test]
fn malformed_or_multi_range_returns_full_200() {
    for bad in ["bytes=banana", "bytes=0-1,4-5", ""] {
        let header = if bad.is_empty() { None } else { Some(bad) };
        let (w, content_range, len) = serve(header);
        assert!(!w.ranged, "header {bad:?}");
        assert_eq!(content_range, None);
        assert_eq!(len, 10);
    }
}

#[test]
fn begin_download_refuses_expired_and_unknown() {
    let mut db = Db::open_in_memory();
    db.create_upload(&ready_row("exp", None, Some(200))).unwrap();
    assert!(begin_download(&mut db, "exp", 199).is_ok());
    assert_eq!(begin_download(&mut db, "exp", 200).unwrap_err().code, "not_found");
    assert_eq!(begin_download(&mut db, "nope123", 1).unwrap_err().status, 404);
}

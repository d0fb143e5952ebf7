use tempdrop::api::download::begin_download;
use tempdrop::config::{Config, S3Config};
use tempdrop::db::{Db, UploadRow};
use tempdrop::janitor::{cleanup_action, dead_uploads, finish_cleanup, pending_timeout_secs, CleanupAction};
use tempdrop::storage::local::LocalStorage;
use tempdrop::storage::s3::S3Storage;
use tempdrop::storage::Storage;

fn row(id: &str, status: &str, created_at: i64, expires_at: Option<i64>) -> UploadRow {
    UploadRow {
        id: id.into(),
        name: id.into(),
        size: 0,
        backend: "local".into(),
        storage_key: id.into(),
        status: status.into(),
        received_bytes: 0,
        part_count: 0,
        s3_upload_id: None,
        ttl_seconds: None,
        max_downloads: None,
        download_count: 0,
        upload_token: "t".into(),
        created_at,
        expires_at,
        chunk_size: 33554432,
    }
}

#[test]
fn sweep_removes_expired_and_stale_pending_but_not_live() {
    let config = Config::default();
    assert_eq!(pending_timeout_secs(&config), 86_400);
    let mut db = Db::open_in_memory();
    db.create_upload(&row("gone", "ready", 0, Some(1))).unwrap();
    db.create_upload(&row("live", "ready", 0, Some(1_000_000))).unwrap();
    db.create_upload(&row("stale", "pending", 0, None)).unwrap();
    let dead = dead_uploads(&db, &config, 3_600 * 25);
    let mut ids: Vec<String> = dead.iter().map(|r| r.id.clone()).collect();
    ids.sort();
    assert_eq!(ids, vec!["gone".to_string(), "stale".to_string()]);
    let storage = Storage::Local(LocalStorage::with_space_checker("/files".into(), 0));
    let mut n = 0;
    for r in &dead {
        assert!(matches!(cleanup_action(r, &storage), CleanupAction::DeleteBlob));
        if finish_cleanup(&mut db, r, true) {
            n += 1;
        }
    }
    assert_eq!(n, 2);
    assert_eq!(db.len(), 1);
    assert!(db.get_upload("live").is_some());
}

/// One sweep as the janitor runs it: the dead rows, each cleaned up locally.
fn sweep_once(db: &mut Db, now: i64) -> usize {
    let config = Config::default();
    let storage = Storage::Local(LocalStorage::with_space_checker("/files".into(), 0));
    let dead = dead_uploads(db, &config, now);
    let mut n = 0;
    for r in &dead {
        assert!(matches!(cleanup_action(r, &storage), CleanupAction::DeleteBlob));
        if finish_cleanup(db, r, true) {
            n += 1;
        }
    }
    n
}

#[test]
fn sweep_removes_expired_and_count_dead() {
    let mut db = Db::open_in_memory();
    db.create_upload(&row("gone", "ready", 100, Some(1_000_000))).unwrap();
    db.set_expires_at("gone", 1);
    assert_eq!(sweep_once(&mut db, 2), 1);
    assert!(db.get_upload("gone").is_none());

    let mut spent = row("spent", "ready", 100, None);
    spent.max_downloads = Some(1);
    spent.download_count = 1;
    db.create_upload(&spent).unwrap();
    assert_eq!(sweep_once(&mut db, 2), 1);
    assert_eq!(db.len(), 0);
}

#[test]
fn sweep_ignores_live_rows() {
    let now = 1_700_000_000;
    let mut db = Db::open_in_memory();
    db.create_upload(&row("live", "ready", now, Some(now + 3600))).unwrap();
    assert_eq!(sweep_once(&mut db, now), 0);
    assert!(begin_download(&mut db, "live", now).is_ok());
}

#[test]
fn sweep_removes_stale_pending_local() {
    let mut db = Db::open_in_memory();
    db.create_upload(&row("stale", "pending", 1_000, Some(1_000_000_000))).unwrap();
    db.set_created_at("stale", 0);
    assert_eq!(sweep_once(&mut db, 3_600 * 25), 1);
    assert!(db.get_upload("stale").is_none());
}

#[test]
fn failed_blob_removal_keeps_the_row() {
    let mut db = Db::open_in_memory();
    let r = row("keep", "ready", 0, Some(1));
    db.create_upload(&r).unwrap();
    assert!(!finish_cleanup(&mut db, &r, false));
    assert!(db.get_upload("keep").is_some());
}

#[test]
fn pending_s3_uploads_are_aborted() {
    let mut cfg = S3Config::default();
    cfg.bucket = "b".into();
    let storage = Storage::S3(S3Storage::new(&cfg).unwrap());
    let mut r = row("p", "pending", 0, None);
    assert!(matches!(cleanup_action(&r, &storage), CleanupAction::DeleteBlob));
    r.s3_upload_id = Some("mp".into());
    match cleanup_action(&r, &storage) {
        CleanupAction::AbortMultipart(u) => assert_eq!(u, "mp"),
        CleanupAction::DeleteBlob => panic!("expected an abort"),
    }
    r.status = "ready".into();
    assert!(matches!(cleanup_action(&r, &storage), CleanupAction::DeleteBlob));
}

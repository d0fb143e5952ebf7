use tempdrop::db::{Db, DbError, UploadRow};

fn row(id: &str, status: &str) -> UploadRow {
    UploadRow {
        id: id.into(),
        name: "f.bin".into(),
        size: 0,
        backend: "local".into(),
        storage_key: id.into(),
        status: status.into(),
        received_bytes: 0,
        part_count: 0,
        s3_upload_id: None,
        ttl_seconds: Some(60),
        max_downloads: None,
        download_count: 0,
        upload_token: "t".into(),
        created_at: 10,
        expires_at: Some(70),
        chunk_size: 33554432,
    }
}

#[test]
fn create_get_complete_lifecycle() {
    let mut db = Db::open_in_memory();
    let row = UploadRow {
        id: "abc123456789".into(),
        name: "test.txt".into(),
        size: 0,
        backend: "local".into(),
        storage_key: "abc123456789".into(),
        status: "pending".into(),
        received_bytes: 0,
        part_count: 0,
        s3_upload_id: None,
        ttl_seconds: Some(3600),
        max_downloads: None,
        download_count: 0,
        upload_token: "tok".into(),
        created_at: 100,
        expires_at: Some(3700),
        chunk_size: 33554432,
    };
    db.create_upload(&row).unwrap();

    let got = db.get_upload("abc123456789").unwrap();
    assert_eq!(got.name, "test.txt");
    assert_eq!(got.status, "pending");

    db.complete_upload("abc123456789", 1024);
    let got2 = db.get_upload("abc123456789").unwrap();
    assert_eq!(got2.status, "ready");
    assert_eq!(got2.size, 1024);
}

#[test]
fn take_part_is_atomic_sequence_gate() {
    let mut db = Db::open_in_memory();
    let row = UploadRow {
        id: "id1".into(),
        name: "f.bin".into(),
        size: 0,
        backend: "local".into(),
        storage_key: "id1".into(),
        status: "pending".into(),
        received_bytes: 0,
        part_count: 0,
        s3_upload_id: None,
        ttl_seconds: Some(60),
        max_downloads: None,
        download_count: 0,
        upload_token: "t".into(),
        created_at: 10,
        expires_at: Some(70),
        chunk_size: 33554432,
    };
    db.create_upload(&row).unwrap();

    assert!(db.take_part("id1", 1, 100).unwrap());
    assert!(!db.take_part("id1", 1, 100).unwrap()); // duplicate part 1 fails
    assert!(db.take_part("id1", 2, 200).unwrap());
    let got = db.get_upload("id1").unwrap();
    assert_eq!(got.part_count, 2);
    assert_eq!(got.received_bytes, 300);
}

#[test]
fn increment_download_gates_count_and_expiry_atomically() {
    let mut db = Db::open_in_memory();
    let row = UploadRow {
        id: "id2".into(),
        name: "f.bin".into(),
        size: 10,
        backend: "local".into(),
        storage_key: "id2".into(),
        status: "ready".into(),
        received_bytes: 10,
        part_count: 1,
        s3_upload_id: None,
        ttl_seconds: None,
        max_downloads: Some(2),
        download_count: 0,
        upload_token: "t".into(),
        created_at: 100,
        expires_at: Some(200),
        chunk_size: 33554432,
    };
    db.create_upload(&row).unwrap();

    assert!(db.increment_download("id2", 150).unwrap()); // download 1 ok
    assert!(db.increment_download("id2", 150).unwrap()); // download 2 ok
    assert!(!db.increment_download("id2", 150).unwrap()); // download 3 denied (limit reached)
    assert!(!db.increment_download("id2", 250).unwrap()); // denied (expired time)
}

#[test]
fn pending_local_bytes_sums_pending_only() {
    let mut db = Db::open_in_memory();
    let mut r1 = UploadRow {
        id: "p1".into(),
        name: "a".into(),
        size: 0,
        backend: "local".into(),
        storage_key: "p1".into(),
        status: "pending".into(),
        received_bytes: 50,
        part_count: 1,
        s3_upload_id: None,
        ttl_seconds: Some(60),
        max_downloads: None,
        download_count: 0,
        upload_token: "t".into(),
        created_at: 1,
        expires_at: Some(61),
        chunk_size: 33554432,
    };
    db.create_upload(&r1).unwrap();
    r1.id = "p2".into();
    r1.received_bytes = 70;
    db.create_upload(&r1).unwrap();

    assert_eq!(db.pending_local_bytes().unwrap(), 120);
}

#[test]
fn pending_local_bytes_skips_ready_and_s3() {
    let mut db = Db::open_in_memory();
    let mut a = row("a", "pending");
    a.received_bytes = 5;
    let mut b = row("b", "ready");
    b.received_bytes = 7;
    let mut c = row("c", "pending");
    c.backend = "s3".into();
    c.received_bytes = 11;
    db.create_upload(&a).unwrap();
    db.create_upload(&b).unwrap();
    db.create_upload(&c).unwrap();
    assert_eq!(db.pending_local_bytes().unwrap(), 5);
}

#[test]
fn sweep_selects_only_dead_and_stale() {
    let mut db = Db::open_in_memory();
    // row 1: expired
    let r1 = UploadRow {
        id: "e1".into(),
        name: "e1".into(),
        size: 10,
        backend: "local".into(),
        storage_key: "e1".into(),
        status: "ready".into(),
        received_bytes: 10,
        part_count: 1,
        s3_upload_id: None,
        ttl_seconds: Some(10),
        max_downloads: None,
        download_count: 0,
        upload_token: "t".into(),
        created_at: 0,
        expires_at: Some(10),
        chunk_size: 33554432,
    };
    // row 2: live
    let r2 = UploadRow {
        id: "l1".into(),
        name: "l1".into(),
        size: 10,
        backend: "local".into(),
        storage_key: "l1".into(),
        status: "ready".into(),
        received_bytes: 10,
        part_count: 1,
        s3_upload_id: None,
        ttl_seconds: Some(100),
        max_downloads: None,
        download_count: 0,
        upload_token: "t".into(),
        created_at: 0,
        expires_at: Some(100),
        chunk_size: 33554432,
    };
    // row 3: stale pending
    let r3 = UploadRow {
        id: "s1".into(),
        name: "s1".into(),
        size: 0,
        backend: "local".into(),
        storage_key: "s1".into(),
        status: "pending".into(),
        received_bytes: 0,
        part_count: 0,
        s3_upload_id: None,
        ttl_seconds: Some(100),
        max_downloads: None,
        download_count: 0,
        upload_token: "t".into(),
        created_at: 0,
        expires_at: Some(100),
        chunk_size: 33554432,
    };
    db.create_upload(&r1).unwrap();
    db.create_upload(&r2).unwrap();
    db.create_upload(&r3).unwrap();

    let dead = db.sweep(50, 30); // now = 50, pending_timeout = 30 (created_at 0 <= 50-30 = 20)
    let ids: Vec<&str> = dead.iter().map(|r| r.id.as_str()).collect();
    assert!(ids.contains(&"e1"));
    assert!(ids.contains(&"s1"));
    assert!(!ids.contains(&"l1"));
}

#[test]
fn sweep_selects_count_exhausted() {
    let mut db = Db::open_in_memory();
    let mut r = row("x", "ready");
    r.expires_at = None;
    r.max_downloads = Some(1);
    r.download_count = 1;
    db.create_upload(&r).unwrap();
    assert_eq!(db.sweep(0, 3600).len(), 1);
}

#[test]
fn duplicate_ids_are_refused() {
    let mut db = Db::open_in_memory();
    db.create_upload(&row("dup", "pending")).unwrap();
    assert_eq!(db.create_upload(&row("dup", "ready")), Err(DbError::DuplicateId));
    assert_eq!(db.get_upload("dup").unwrap().status, "pending");
    assert_eq!(db.len(), 1);
}

#[test]
fn delete_and_setters() {
    let mut db = Db::open_in_memory();
    db.create_upload(&row("k", "pending")).unwrap();
    db.set_expires_at("k", 5);
    db.set_created_at("k", 3);
    db.set_s3_upload_id("k", "mp-1");
    assert!(db.bump_part_count("k").unwrap());
    let got = db.get_upload("k").unwrap();
    assert_eq!(got.expires_at, Some(5));
    assert_eq!(got.created_at, 3);
    assert_eq!(got.s3_upload_id.as_deref(), Some("mp-1"));
    assert_eq!(got.part_count, 1);
    db.complete_upload("k", 9);
    assert!(!db.bump_part_count("k").unwrap());
    db.delete_upload("k");
    assert!(db.get_upload("k").is_none());
    assert_eq!(db.len(), 0);
    assert!(!db.take_part("k", 1, 1).unwrap());
}

#[test]
fn counters_refuse_overflow() {
    let mut db = Db::open_in_memory();
    let mut r = row("o", "pending");
    r.received_bytes = i64::MAX;
    db.create_upload(&r).unwrap();
    assert_eq!(db.take_part("o", 1, 1), Err(DbError::IntegerOverflow));
    assert_eq!(db.get_upload("o").unwrap().part_count, 0);
    assert_eq!(DbError::IntegerOverflow.message(), "integer overflow");
}

use tempdrop::api::download::{begin_download, content_disposition};
use tempdrop::api::meta::upload_meta;
use tempdrop::api::uploads::{
    accept_part, append_limited, authorize, discard_upload, finish_upload, local_completion,
    record_start, reserve_presign, s3_completion_check, s3_object_too_large, share_url,
    start_upload,
    LocalCompletion, StartReq, StartRes,
};
use tempdrop::config::Config;
use tempdrop::db::Db;
use tempdrop::rate_limit::RateLimiter;
use tempdrop::storage::local::LocalStorage;

const IP: u128 = 0xffff_7f00_0001;
const NOW: i64 = 1_700_000_000;

fn req(name: &str, ttl: Option<i64>, max: Option<i64>, size: Option<i64>) -> StartReq {
    StartReq { name: name.into(), size_bytes: size, ttl_seconds: ttl, max_downloads: max }
}

struct Env {
    config: Config,
    db: Db,
    limiter: RateLimiter,
    local: LocalStorage,
}

impl Env {
    fn with_config(config: Config) -> Env {
        let limiter = RateLimiter::new(config.rate_limit.per_min);
        let local = LocalStorage::with_space_checker("/files".into(), config.uploads.min_free_bytes);
        Env { config, db: Db::open_in_memory(), limiter, local }
    }

    fn new() -> Env {
        Env::with_config(Config::default())
    }

    fn start(&mut self, r: &StartReq) -> Result<StartRes, tempdrop::error::ApiError> {
        start_upload(&mut self.db, &mut self.limiter, &self.config, "local", r, IP, NOW)
    }

    /// A one-hour upload, as a client that chose a TTL starts it.
    fn start_json(&mut self, name: &str) -> StartRes {
        self.start(&req(name, Some(3600), None, None)).unwrap()
    }

    /// Sends each chunk as the next part, with plenty of free space.
    fn put_parts(&mut self, id: &str, chunks: &[usize]) {
        for (n, len) in chunks.iter().enumerate() {
            accept_part(&mut self.db, &self.local, id, n as i64 + 1, *len, u64::MAX).unwrap();
        }
    }

    /// Completes a local upload the way the completion handler decides it.
    fn complete(&mut self, id: &str, token: &str) -> Result<String, tempdrop::error::ApiError> {
        let row = authorize(&self.db, id, Some(token))?;
        match local_completion(&row, &self.config) {
            LocalCompletion::NotComplete => Err(tempdrop::error::ApiError::not_complete()),
            LocalCompletion::TooLarge => Err(tempdrop::error::ApiError::upload_too_large()),
            LocalCompletion::Finish(size) => Ok(finish_upload(&mut self.db, id, size).url),
        }
    }
}

#[test]
fn start_valid_upload() {
    let mut env = Env::new();
    let res = env.start(&req("notes.txt", Some(3600), None, Some(12))).unwrap();
    assert_eq!(res.backend, "local");
    assert_eq!(res.chunk_size, 33_554_432);
    assert_eq!(res.id.len(), 12);
    assert_eq!(res.upload_token.len(), 64);
    assert!(res.expires_at.unwrap() > 0);
    assert_eq!(res.expires_at, Some(NOW + 3600));
    assert!(res.max_downloads.is_none());
    let row = env.db.get_upload(&res.id).unwrap();
    assert_eq!(row.status, "pending");
    assert_eq!(row.name, "notes.txt");
    assert_eq!(row.storage_key, res.id);
    assert_eq!(row.upload_token, res.upload_token);
}

#[test]
fn start_clamps_limits_to_the_configured_maximum() {
    let config = Config::default();
    let mut db = Db::open_in_memory();
    let mut limiter = RateLimiter::new(10);
    let res = start_upload(&mut db, &mut limiter, &config, "s3", &req("a", Some(10_000_000), Some(1_000_000), None), IP, 0).unwrap();
    assert_eq!(res.expires_at, Some(2_592_000));
    assert_eq!(res.max_downloads, Some(100));
    assert_eq!(res.backend, "s3");
}

#[test]
fn start_requires_expiry_choice() {
    let mut env = Env::new();
    let e = env.start(&req("x", None, None, None)).unwrap_err();
    assert_eq!((e.code, e.status), ("no_expiry", 422));
    let e = env.start(&req("x", Some(0), Some(-3), None)).unwrap_err();
    assert_eq!(e.code, "no_expiry");
    assert_eq!(env.db.len(), 0);
}

#[test]
fn start_rejects_oversize_declared() {
    let mut config = Config::default();
    config.uploads.max_upload_size_bytes = 100;
    let mut env = Env::with_config(config);
    let e = env.start(&req("big", Some(60), None, Some(1000))).unwrap_err();
    assert_eq!((e.code, e.status), ("upload_too_large", 413));
    assert_eq!(env.db.len(), 0);
}

#[test]
fn start_rejects_empty_name() {
    let mut env = Env::new();
    let e = env.start(&req("  \n ", Some(60), None, None)).unwrap_err();
    assert_eq!((e.code, e.status, e.message.as_str()), ("validation", 422, "filename is empty"));
}

#[test]
fn rate_limit_rejects_excess() {
    let mut config = Config::default();
    config.rate_limit.per_min = 3;
    let mut env = Env::with_config(config);
    for _ in 0..3 {
        assert!(env.start(&req("x", Some(60), None, None)).is_ok());
    }
    let e = env.start(&req("x", Some(60), None, None)).unwrap_err();
    assert_eq!((e.code, e.status), ("rate_limited", 429));
}

#[test]
fn in_flight_limit_rejects_start() {
    let mut config = Config::default();
    config.uploads.max_in_flight_bytes = 100;
    let mut env = Env::with_config(config);
    let first = env.start_json("a.bin");
    env.put_parts(&first.id, &[100]);
    let e = env.start(&req("b", Some(60), None, None)).unwrap_err();
    assert_eq!((e.code, e.status), ("in_flight_limit", 429));
}

#[test]
fn storage_low_rejects_part() {
    let mut env = Env::new();
    let res = env.start_json("low.bin");
    let e = accept_part(&mut env.db, &env.local, &res.id, 1, 1, 10).unwrap_err();
    assert_eq!((e.code, e.status), ("storage_low", 507));
    assert_eq!(env.db.get_upload(&res.id).unwrap().part_count, 0);
}

#[test]
fn part_requires_token_and_order() {
    let mut env = Env::new();
    let res = env.start_json("a.bin");
    assert_eq!(authorize(&env.db, &res.id, None).unwrap_err().status, 401);
    let e = authorize(&env.db, &res.id, Some("deadbeef")).unwrap_err();
    assert_eq!((e.code, e.status), ("invalid_token", 401));
    assert_eq!(authorize(&env.db, "nonexistent", Some("x")).unwrap_err().status, 404);
    let row = authorize(&env.db, &res.id, Some(&res.upload_token)).unwrap();
    assert_eq!(row.id, res.id);
    let e = accept_part(&mut env.db, &env.local, &res.id, 2, 1, u64::MAX).unwrap_err();
    assert_eq!((e.code, e.status), ("part_out_of_order", 409));
    assert_eq!(accept_part(&mut env.db, &env.local, &res.id, 1, 4, u64::MAX).unwrap().received, 4);
    assert_eq!(accept_part(&mut env.db, &env.local, &res.id, 2, 2, u64::MAX).unwrap().received, 6);
}

#[test]
fn part_exceeding_chunk_size_rejected() {
    let mut out = vec![1u8, 2];
    let e = append_limited(&mut out, &[3, 4, 5], 4).unwrap_err();
    assert_eq!((e.code, e.status), ("part_too_large", 413));
    assert_eq!(out, vec![1, 2]);
    append_limited(&mut out, &[3, 4], 4).unwrap();
    assert_eq!(out, vec![1, 2, 3, 4]);
}

#[test]
fn local_full_upload_flow() {
    let mut env = Env::new();
    let res = env.start_json("pic.bin");
    assert_eq!(accept_part(&mut env.db, &env.local, &res.id, 1, 4, u64::MAX).unwrap().received, 4);
    assert_eq!(accept_part(&mut env.db, &env.local, &res.id, 2, 2, u64::MAX).unwrap().received, 6);
    let url = env.complete(&res.id, &res.upload_token).unwrap();
    assert_eq!(url, format!("/f/{}", res.id));
    let row = env.db.get_upload(&res.id).unwrap();
    assert_eq!((row.status.as_str(), row.size, row.part_count), ("ready", 6, 2));
    assert_eq!(
        authorize(&env.db, &res.id, Some(&res.upload_token)).unwrap_err().code,
        "already_complete"
    );
}

#[test]
fn local_completion_refuses_oversize_totals() {
    let mut env = Env::new();
    let res = env.start_json("pic.bin");
    env.put_parts(&res.id, &[6]);
    let row = env.db.get_upload(&res.id).unwrap();
    assert_eq!(local_completion(&row, &env.config), LocalCompletion::Finish(6));
    let mut capped = Config::default();
    capped.uploads.max_upload_size_bytes = 5;
    assert_eq!(local_completion(&row, &capped), LocalCompletion::TooLarge);
}

#[test]
fn complete_rejects_empty_and_unknown() {
    let mut env = Env::new();
    let res = env.start_json("e.bin");
    let e = env.complete(&res.id, &res.upload_token).unwrap_err();
    assert_eq!((e.code, e.status), ("not_complete", 409));
    let e = env.complete("nonexistent", &res.upload_token).unwrap_err();
    assert_eq!(e.status, 404);
}

#[test]
fn presign_reserves_part_numbers() {
    let config = Config::default();
    let mut db = Db::open_in_memory();
    let mut limiter = RateLimiter::new(10);
    let res = start_upload(&mut db, &mut limiter, &config, "s3", &req("s3.bin", Some(3600), None, None), IP, 5).unwrap();
    let row = db.get_upload(&res.id).unwrap();
    let e = reserve_presign(&mut db, &row).unwrap_err();
    assert_eq!((e.code, e.message.as_str()), ("internal", "internal server error"));
    assert_eq!(e.detail, "missing s3 upload id");
    db.set_s3_upload_id(&res.id, "mp");
    let row = db.get_upload(&res.id).unwrap();
    assert_eq!(reserve_presign(&mut db, &row).unwrap(), (2, "mp".to_string()));
    let row = db.get_upload(&res.id).unwrap();
    assert_eq!(row.part_count, 2);
    assert_eq!(s3_completion_check(&row, 1).unwrap_err().code, "not_complete");
    assert_eq!(s3_completion_check(&row, 2).unwrap(), "mp");
    assert!(!s3_object_too_large(10, &config));
    let mut capped = Config::default();
    capped.uploads.max_upload_size_bytes = 5;
    assert!(s3_object_too_large(10, &capped));
}

#[test]
fn abort_deletes_partial_and_row() {
    let mut env = Env::new();
    let res = env.start_json("cancel.bin");
    env.put_parts(&res.id, &[2]);
    let row = authorize(&env.db, &res.id, Some(&res.upload_token)).unwrap();
    assert_eq!(row.storage_key, res.id);
    discard_upload(&mut env.db, &res.id);
    assert!(env.db.get_upload(&res.id).is_none());
    assert_eq!(upload_meta(&env.db, &res.id, NOW).unwrap_err().status, 404);
    assert_eq!(share_url("abc"), "/f/abc");
}

#[test]
fn abort_ready_upload_conflicts() {
    let mut env = Env::new();
    let res = env.start_json("done.bin");
    env.put_parts(&res.id, &[1]);
    env.complete(&res.id, &res.upload_token).unwrap();
    let e = authorize(&env.db, &res.id, Some(&res.upload_token)).unwrap_err();
    assert_eq!((e.code, e.status), ("already_complete", 409));
    assert!(env.db.get_upload(&res.id).is_some());
}

#[test]
fn meta_shows_expiry_fields_and_hides_pending() {
    let mut env = Env::new();
    let res = env.start_json("meta.bin");
    assert_eq!(upload_meta(&env.db, &res.id, NOW).unwrap_err().status, 404);
    env.put_parts(&res.id, &[1]);
    env.complete(&res.id, &res.upload_token).unwrap();
    let m = upload_meta(&env.db, &res.id, NOW).unwrap();
    assert_eq!(m.name, "meta.bin");
    assert_eq!(m.status, "ready");
    assert!(m.created_at > 0);
    assert!(m.expires_at.unwrap() > 0);
    assert!(m.downloads_left.is_none());

    let lim = env.start(&req("lim.bin", None, Some(3), None)).unwrap();
    env.put_parts(&lim.id, &[1]);
    env.complete(&lim.id, &lim.upload_token).unwrap();
    let m = upload_meta(&env.db, &lim.id, NOW).unwrap();
    assert_eq!(m.downloads_left, Some(3));
    assert_eq!(m.expires_at, None);
}

#[test]
fn meta_hides_expired_and_exhausted() {
    let mut env = Env::new();
    let res = env.start(&req("lim.bin", Some(100), Some(3), None)).unwrap();
    env.put_parts(&res.id, &[1]);
    env.complete(&res.id, &res.upload_token).unwrap();
    let m = upload_meta(&env.db, &res.id, NOW + 1).unwrap();
    assert_eq!(m.expires_at, Some(NOW + 100));
    assert_eq!(upload_meta(&env.db, &res.id, NOW + 100).unwrap_err().code, "not_found");
    for _ in 0..3 {
        assert!(env.db.increment_download(&res.id, NOW + 1).unwrap());
    }
    assert_eq!(upload_meta(&env.db, &res.id, NOW + 1).unwrap_err().code, "not_found");
}

#[test]
fn filename_crlf_injection_stripped() {
    let mut env = Env::new();
    let res = env.start_json("evil\r\nInjected: yes.bin");
    env.put_parts(&res.id, &[1]);
    env.complete(&res.id, &res.upload_token).unwrap();
    let row = begin_download(&mut env.db, &res.id, NOW).unwrap();
    let cd = content_disposition(&row.name);
    assert!(!cd.contains('\r') && !cd.contains('\n'));
}

#[test]
fn record_start_refuses_exactly_a_taken_id() {
    let config = Config::default();
    let mut db = Db::open_in_memory();
    let r = req("a.bin", Some(60), None, None);
    let token = "ab".repeat(32);
    let res = record_start(&mut db, &config, "local", &r, "a.bin".into(), "abcdefghijkl".into(), token.clone(), NOW).unwrap();
    assert_eq!((res.id.as_str(), res.upload_token.as_str()), ("abcdefghijkl", token.as_str()));
    assert_eq!(res.expires_at, Some(NOW + 60));
    let row = db.get_upload("abcdefghijkl").unwrap();
    assert_eq!((row.status.as_str(), row.name.as_str()), ("pending", "a.bin"));
    let other = record_start(&mut db, &config, "local", &r, "b.bin".into(), "mnopqrstuvwx".into(), token.clone(), NOW);
    assert!(other.is_ok());
    let e = record_start(&mut db, &config, "local", &r, "c.bin".into(), "abcdefghijkl".into(), token, NOW).unwrap_err();
    assert_eq!((e.code, e.status, e.message.as_str()), ("internal", 500, "internal server error"));
    assert_eq!(e.detail, "UNIQUE constraint failed: uploads.id");
    assert_eq!(db.len(), 2);
    assert_eq!(db.get_upload("abcdefghijkl").unwrap().name, "a.bin");
}

#[test]
fn presign_refuses_an_exhausted_part_counter() {
    let config = Config::default();
    let mut db = Db::open_in_memory();
    let mut limiter = RateLimiter::new(10);
    let res = start_upload(&mut db, &mut limiter, &config, "s3", &req("s3.bin", Some(3600), None, None), IP, 5).unwrap();
    db.set_s3_upload_id(&res.id, "mp");
    let stale = db.get_upload(&res.id).unwrap();
    let mut full = stale.clone();
    full.part_count = i64::MAX;
    db.delete_upload(&res.id);
    db.create_upload(&full).unwrap();
    let e = reserve_presign(&mut db, &stale).unwrap_err();
    assert_eq!((e.code, e.detail.as_str()), ("internal", "integer overflow"));
    assert_eq!(db.get_upload(&res.id).unwrap().part_count, i64::MAX);
}

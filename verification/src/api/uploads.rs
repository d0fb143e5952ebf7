//! The upload protocol: starting an upload, authorising each later request,
//! accepting parts in order, presigning S3 parts, completing and aborting.
//! Each function here makes the decisions of one step; the caller moves bytes.
use vstd::prelude::*;
use crate::config::Config;
use crate::db::{Db, UploadRow};
use crate::error::ApiError;
use crate::id::{new_id, new_token, sanitize_name};
use crate::rate_limit::RateLimiter;
use crate::storage::local::LocalStorage;
use crate::storage::StorageError;
use crate::text::{str_eq, push_str_chars};

verus! {

/// Body of `POST /api/uploads`.
#[derive(Debug, Clone)]
pub struct StartReq {
    pub name: String,
    pub size_bytes: Option<i64>,
    pub ttl_seconds: Option<i64>,
    pub max_downloads: Option<i64>,
}

/// Answer to `POST /api/uploads`.
#[derive(Debug, Clone)]
pub struct StartRes {
    pub id: String,
    pub upload_token: String,
    pub chunk_size: u64,
    pub backend: String,
    pub expires_at: Option<i64>,
    pub max_downloads: Option<i64>,
}

/// Path of the part endpoints.
#[derive(Debug, Clone)]
pub struct PartPath {
    pub id: String,
    pub part: i64,
}

/// Answer to a part upload: bytes received so far.
#[derive(Debug, Clone)]
pub struct PartRes {
    pub received: i64,
}

/// Answer to a presign request.
#[derive(Debug, Clone)]
pub struct PresignRes {
    pub url: String,
    pub part: i64,
}

/// Path of the per-upload endpoints.
#[derive(Debug, Clone)]
pub struct IdPath {
    pub id: String,
}

/// Body of `POST /api/uploads/{id}/complete` on the S3 backend.
#[derive(Debug, Clone, Default)]
pub struct CompleteReq {
    pub etags: Vec<String>,
}

/// Answer to a completion: the share page of the upload.
#[derive(Debug, Clone)]
pub struct CompleteRes {
    pub url: String,
}

// ---------------------------------------------------------------------------
// Starting an upload
// ---------------------------------------------------------------------------

/// A requested positive limit, capped at `cap`; non-positive requests count as none.
pub open spec fn capped_limit(v: Option<i64>, cap: i64) -> Option<i64> {
    match v {
        Some(t) => if t > 0 {
            Some(if t < cap { t } else { cap })
        } else {
            None
        },
        None => None,
    }
}

/// A requested limit as granted: positive requests capped at `cap`, others none.
pub fn capped_limit_exec(v: Option<i64>, cap: i64) -> (r: Option<i64>)
    ensures
        r == capped_limit(v, cap),
{
    match v {
        Some(t) => if t > 0 {
            Some(if t < cap { t } else { cap })
        } else {
            None
        },
        None => None,
    }
}

/// The text of a filename refusal.
pub open spec fn name_error_text(e: crate::id::NameError) -> Seq<char> {
    match e {
        crate::id::NameError::Empty => "filename is empty"@,
        crate::id::NameError::TooLong => "filename exceeds 2048 chars"@,
    }
}

/// The declared size exceeds the configured cap.
pub open spec fn declared_too_large(config: Config, declared: Option<i64>) -> bool {
    match (crate::config::spec_max_upload_size(config), declared) {
        (Some(cap), Some(d)) => d > cap,
        _ => false,
    }
}

/// The refusal, if any, of a start request that passed the rate limit, judged
/// before the table is consulted.
pub open spec fn start_precheck(config: Config, req: StartReq) -> Option<crate::error::ApiErrorView> {
    match crate::id::spec_sanitize_name(req.name@) {
        Err(e) => Some(crate::error::validation_view(name_error_text(e))),
        Ok(_) => if capped_limit(req.ttl_seconds, config.uploads.max_ttl_seconds) is None
            && capped_limit(req.max_downloads, config.uploads.max_downloads) is None {
            Some(crate::error::no_expiry_view())
        } else if declared_too_large(config, req.size_bytes) {
            Some(crate::error::upload_too_large_view())
        } else {
            None
        },
    }
}

/// The row that a successful start inserts.
pub open spec fn started_row(
    row: UploadRow,
    config: Config,
    req: StartReq,
    backend: Seq<char>,
    now: i64,
) -> bool {
    let ttl = capped_limit(req.ttl_seconds, config.uploads.max_ttl_seconds);
    &&& row.name@ == crate::id::cleaned_name(req.name@)
    &&& row.size == 0
    &&& row.backend@ == backend
    &&& row.storage_key@ == row.id@
    &&& row.status@ == "pending"@
    &&& row.received_bytes == 0
    &&& row.part_count == 0
    &&& row.s3_upload_id is None
    &&& row.ttl_seconds == ttl
    &&& row.max_downloads == capped_limit(req.max_downloads, config.uploads.max_downloads)
    &&& row.download_count == 0
    &&& row.created_at == now
    &&& row.expires_at == match ttl {
        Some(t) => Some((now + t) as i64),
        None => None,
    }
    &&& row.chunk_size == config.uploads.chunk_size_bytes as i64
    &&& row.id@.len() == crate::id::ID_LEN
    &&& row.upload_token@.len() == 2 * crate::id::TOKEN_BYTES
}

/// Starts an upload for the client `ip` at `now` on the `backend` named: rate
/// limit, filename, expiry choice, declared size and bytes in flight are
/// checked in that order, then a pending row with a fresh id and token is
/// inserted. Creating the blob (or the S3 multipart upload) is the caller's next step.
pub fn start_upload(
    db: &mut Db,
    limiter: &mut RateLimiter,
    config: &Config,
    backend: &str,
    req: &StartReq,
    ip: u128,
    now: i64,
) -> (r: Result<StartRes, ApiError>)
    requires
        match capped_limit(req.ttl_seconds, config.uploads.max_ttl_seconds) {
            Some(t) => i64::MIN <= now + t <= i64::MAX,
            None => true,
        },
    ensures
        final(limiter).limit() == old(limiter).limit(),
        final(limiter).windows() == crate::rate_limit::check_step(
            old(limiter).windows(),
            old(limiter).limit(),
            ip,
            now,
        ).0,
        !crate::rate_limit::check_step(old(limiter).windows(), old(limiter).limit(), ip, now).1
            ==> (r matches Err(e) && e@ == crate::error::rate_limited_view()) && final(db)@ == old(
            db,
        )@,
        crate::rate_limit::check_step(old(limiter).windows(), old(limiter).limit(), ip, now).1
            ==> match start_precheck(*config, *req) {
            Some(v) => (r matches Err(e) && e@ == v) && final(db)@ == old(db)@,
            None => {
                let inflight = crate::db::pending_local_total(old(db)@);
                if !(i64::MIN <= inflight <= i64::MAX) {
                    (r matches Err(e) && e@ == crate::error::internal_view() && e.detail@
                        == "integer overflow"@) && final(db)@ == old(db)@
                } else if inflight >= config.uploads.max_in_flight_bytes {
                    (r matches Err(e) && e@ == crate::error::in_flight_limit_view()) && final(db)@
                        == old(db)@
                } else {
                    match r {
                        Ok(res) => !old(db)@.contains_key(res.id@) && final(db)@.contains_key(
                            res.id@,
                        ) && final(db)@ == old(db)@.insert(res.id@, final(db)@[res.id@])
                            && started_row(final(db)@[res.id@], *config, *req, backend@, now)
                            && res.upload_token == final(db)@[res.id@].upload_token
                            && res.chunk_size == config.uploads.chunk_size_bytes && res.backend@
                            == backend@ && res.expires_at == final(db)@[res.id@].expires_at
                            && res.max_downloads == final(db)@[res.id@].max_downloads,
                        Err(e) => e@ == crate::error::internal_view() && e.detail@
                            == "UNIQUE constraint failed: uploads.id"@ && final(db)@ == old(db)@
                            && exists|k: Seq<char>|
                            #[trigger] old(db)@.contains_key(k) && crate::id::is_upload_id(k),
                    }
                }
            },
        },
{
    if !limiter.check(ip, now) {
        return Err(ApiError::rate_limited());
    }
    let name = match sanitize_name(req.name.as_str()) {
        Ok(n) => n,
        Err(e) => return Err(ApiError::validation(e.message())),
    };
    let ttl = capped_limit_exec(req.ttl_seconds, config.uploads.max_ttl_seconds);
    let max_downloads = capped_limit_exec(req.max_downloads, config.uploads.max_downloads);
    if ttl.is_none() && max_downloads.is_none() {
        return Err(ApiError::no_expiry());
    }
    if let (Some(cap), Some(declared)) = (config.max_upload_size(), req.size_bytes) {
        if declared > cap {
            return Err(ApiError::upload_too_large());
        }
    }
    let inflight = match db.pending_local_bytes() {
        Ok(n) => n,
        Err(e) => return Err(ApiError::internal(e.message())),
    };
    if inflight >= config.uploads.max_in_flight_bytes {
        return Err(ApiError::in_flight_limit());
    }
    let id = new_id();
    let token = new_token();
    let r = record_start(db, config, backend, req, name, id, token, now);
    proof {
        if r is Err {
            assert(old(db)@.contains_key(id@) && crate::id::is_upload_id(id@));
        }
    }
    r
}

/// Records a started upload under the drawn `id` and `token`: a pending row
/// named `name` (the request's cleaned filename), with the expiry and download
/// limit the request was granted, is inserted and described in the answer.
/// Refused, with the table unchanged, exactly when `id` is already taken.
pub fn record_start(
    db: &mut Db,
    config: &Config,
    backend: &str,
    req: &StartReq,
    name: String,
    id: String,
    token: String,
    now: i64,
) -> (r: Result<StartRes, ApiError>)
    requires
        name@ == crate::id::cleaned_name(req.name@),
        id@.len() == crate::id::ID_LEN,
        token@.len() == 2 * crate::id::TOKEN_BYTES,
        match capped_limit(req.ttl_seconds, config.uploads.max_ttl_seconds) {
            Some(t) => i64::MIN <= now + t <= i64::MAX,
            None => true,
        },
    ensures
        r is Err <==> old(db)@.contains_key(id@),
        match r {
            Ok(res) => {
                let row = final(db)@[id@];
                &&& final(db)@ == old(db)@.insert(id@, row)
                &&& started_row(row, *config, *req, backend@, now)
                &&& row.id@ == id@
                &&& row.upload_token@ == token@
                &&& res.id@ == id@
                &&& res.upload_token == row.upload_token
                &&& res.upload_token@ == token@
                &&& res.chunk_size == config.uploads.chunk_size_bytes
                &&& res.backend@ == backend@
                &&& res.expires_at == row.expires_at
                &&& res.max_downloads == row.max_downloads
            },
            Err(e) => e@ == crate::error::internal_view() && e.detail@
                == "UNIQUE constraint failed: uploads.id"@ && final(db)@ == old(db)@,
        },
{
    let ttl = capped_limit_exec(req.ttl_seconds, config.uploads.max_ttl_seconds);
    let max_downloads = capped_limit_exec(req.max_downloads, config.uploads.max_downloads);
    let expires_at = match ttl {
        Some(t) => Some(now + t),
        None => None,
    };
    let row = UploadRow {
        id: id.clone(),
        name,
        size: 0,
        backend: String::from_str(backend),
        storage_key: id.clone(),
        status: String::from_str("pending"),
        received_bytes: 0,
        part_count: 0,
        s3_upload_id: None,
        ttl_seconds: ttl,
        max_downloads,
        download_count: 0,
        upload_token: token.clone(),
        created_at: now,
        expires_at,
        chunk_size: config.uploads.chunk_size_bytes as i64,
    };
    match db.create_upload(&row) {
        Ok(()) => {},
        Err(e) => return Err(ApiError::internal(e.message())),
    }
    Ok(
        StartRes {
            id,
            upload_token: token,
            chunk_size: config.uploads.chunk_size_bytes,
            backend: String::from_str(backend),
            expires_at,
            max_downloads,
        },
    )
}

// ---------------------------------------------------------------------------
// Authorising requests on a pending upload
// ---------------------------------------------------------------------------

/// How a request on upload `id` carrying `token` is judged.
pub open spec fn spec_authorize(
    t: Map<Seq<char>, UploadRow>,
    id: Seq<char>,
    token: Option<Seq<char>>,
) -> Result<UploadRow, crate::error::ApiErrorView> {
    if !t.contains_key(id) {
        Err(crate::error::not_found_view())
    } else if !crate::db::is_pending(t[id]) {
        Err(crate::error::already_complete_view())
    } else {
        match token {
            Some(k) => if k == t[id].upload_token@ {
                Ok(t[id])
            } else {
                Err(crate::error::invalid_token_view())
            },
            None => Err(crate::error::invalid_token_view()),
        }
    }
}

/// The order in which requests on an upload are refused: an unknown id is not
/// found; a known upload that is no longer pending is already complete; a
/// pending upload with a missing or wrong token is unauthorised; only the right
/// token on a pending upload gets through, and then to that upload's row.
pub proof fn lemma_refusal_order(
    t: Map<Seq<char>, UploadRow>,
    id: Seq<char>,
    token: Option<Seq<char>>,
)
    ensures
        !t.contains_key(id) ==> spec_authorize(t, id, token) == Err::<UploadRow, _>(
            crate::error::not_found_view(),
        ),
        t.contains_key(id) && !crate::db::is_pending(t[id]) ==> spec_authorize(t, id, token) == Err::<
            UploadRow,
            _,
        >(crate::error::already_complete_view()),
        t.contains_key(id) && crate::db::is_pending(t[id]) && token != Some(t[id].upload_token@)
            ==> spec_authorize(t, id, token) == Err::<UploadRow, _>(
            crate::error::invalid_token_view(),
        ),
        spec_authorize(t, id, token) is Ok <==> (t.contains_key(id) && crate::db::is_pending(t[id])
            && token == Some(t[id].upload_token@)),
        spec_authorize(t, id, token) matches Ok(row) ==> row == t[id],
{
}

/// The pending row of upload `id`, when `token` is its upload token.
pub fn authorize(db: &Db, id: &str, token: Option<&str>) -> (r: Result<UploadRow, ApiError>)
    ensures
        match spec_authorize(
            db@,
            id@,
            match token {
                Some(k) => Some(k@),
                None => None,
            },
        ) {
            Ok(row) => r == Ok::<UploadRow, ApiError>(row),
            Err(v) => r matches Err(e) && e@ == v,
        },
{
    let row = match db.get_upload(id) {
        Some(row) => row,
        None => return Err(ApiError::not_found()),
    };
    if !str_eq(row.status.as_str(), "pending") {
        return Err(ApiError::already_complete());
    }
    let token = match token {
        Some(t) => t,
        None => return Err(ApiError::invalid_token()),
    };
    if !str_eq(token, row.upload_token.as_str()) {
        return Err(ApiError::invalid_token());
    }
    Ok(row)
}

// ---------------------------------------------------------------------------
// Parts on the local backend
// ---------------------------------------------------------------------------

/// Adds a chunk of a part body to `out`, refusing a body longer than `limit`.
pub fn append_limited(out: &mut Vec<u8>, chunk: &[u8], limit: usize) -> (r: Result<(), ApiError>)
    ensures
        old(out)@.len() + chunk@.len() > limit ==> (r matches Err(e) && e@
            == crate::error::part_too_large_view()) && final(out)@ == old(out)@,
        old(out)@.len() + chunk@.len() <= limit ==> r is Ok && final(out)@ == old(out)@ + chunk@,
{
    if chunk.len() > limit || out.len() > limit - chunk.len() {
        return Err(ApiError::part_too_large());
    }
    let ghost start = out@;
    let mut i: usize = 0;
    while i < chunk.len()
        invariant
            0 <= i <= chunk@.len(),
            out@ == start + chunk@.take(i as int),
        decreases chunk.len() - i,
    {
        out.push(chunk[i]);
        i = i + 1;
        assert(out@ =~= start + chunk@.take(i as int));
    }
    assert(chunk@.take(i as int) =~= chunk@);
    Ok(())
}

/// Accepts part `part` of `len` bytes for the upload `id` while `free` bytes
/// are free on disk: refused when space is low or the part is out of order;
/// otherwise counted, and the bytes received so far are returned. Appending the
/// bytes to the blob is the caller's next step.
pub fn accept_part(
    db: &mut Db,
    local: &LocalStorage,
    id: &str,
    part: i64,
    len: usize,
    free: u64,
) -> (r: Result<PartRes, ApiError>)
    requires
        len <= i64::MAX,
    ensures
        free < local.min_free() ==> (r matches Err(e) && e@ == crate::error::storage_low_view(free))
            && final(db)@ == old(db)@,
        free >= local.min_free() && !(old(db)@.contains_key(id@) && crate::db::accepts_part(
            old(db)@[id@],
            part as int,
        )) ==> (r matches Err(e) && e@ == crate::error::part_out_of_order_view()) && final(db)@
            == old(db)@,
        free >= local.min_free() && old(db)@.contains_key(id@) && crate::db::accepts_part(
            old(db)@[id@],
            part as int,
        ) ==> ({
            let row = old(db)@[id@];
            let total = row.received_bytes + len;
            &&& total <= i64::MAX ==> final(db)@ == old(db)@.insert(
                id@,
                UploadRow {
                    part_count: (row.part_count + 1) as i64,
                    received_bytes: total as i64,
                    ..row
                },
            ) && r == Ok::<PartRes, ApiError>(PartRes { received: total as i64 })
            &&& total > i64::MAX ==> (r matches Err(e) && e@ == crate::error::internal_view()
                && e.detail@ == "integer overflow"@) && final(db)@ == old(db)@
        }),
{
    match local.check_free(free) {
        Ok(()) => {},
        Err(StorageError::LowSpace(f)) => return Err(ApiError::storage_low(f)),
        Err(e) => return Err(ApiError::storage_error(e.message())),
    }
    match db.take_part(id, part, len as i64) {
        Err(e) => Err(ApiError::internal(e.message())),
        Ok(false) => Err(ApiError::part_out_of_order()),
        Ok(true) => match db.get_upload(id) {
            Some(row) => Ok(PartRes { received: row.received_bytes }),
            None => Err(ApiError::not_found()),
        },
    }
}

/// Refuses part traffic that does not belong to the configured backend.
pub fn wrong_backend(message: &str) -> (e: ApiError)
    ensures
        e@ == crate::error::bad_request_view(message@),
{
    ApiError::bad_request(String::from_str(message))
}

// ---------------------------------------------------------------------------
// Presigned parts on the S3 backend
// ---------------------------------------------------------------------------

/// Reserves the next part number of the authorised pending upload `row` and
/// returns it with the S3 upload id to presign it for.
pub fn reserve_presign(db: &mut Db, row: &UploadRow) -> (r: Result<(i64, String), ApiError>)
    requires
        row.part_count < i64::MAX,
    ensures
        !(old(db)@.contains_key(row.id@) && crate::db::is_pending(old(db)@[row.id@])) ==> (r matches Err(e) && e@
            == crate::error::already_complete_view()) && final(db)@ == old(db)@,
        old(db)@.contains_key(row.id@) && crate::db::is_pending(old(db)@[row.id@]) && old(db)@[row.id@].part_count < i64::MAX ==> ({
            let cur = old(db)@[row.id@];
            &&& final(db)@ == old(db)@.insert(
                row.id@,
                UploadRow { part_count: (cur.part_count + 1) as i64, ..cur },
            )
            &&& match row.s3_upload_id {
                Some(u) => r == Ok::<(i64, String), ApiError>(((row.part_count + 1) as i64, u)),
                None => r matches Err(e) && e@ == crate::error::internal_view() && e.detail@
                == "missing s3 upload id"@,
            }
        }),
        old(db)@.contains_key(row.id@) && crate::db::is_pending(old(db)@[row.id@]) && old(db)@[row.id@].part_count == i64::MAX
            ==> (r matches Err(e) && e@ == crate::error::internal_view() && e.detail@
            == "integer overflow"@) && final(db)@ == old(db)@,
{
    match db.bump_part_count(row.id.as_str()) {
        Err(e) => return Err(ApiError::internal(e.message())),
        Ok(false) => return Err(ApiError::already_complete()),
        Ok(true) => {},
    }
    let part = row.part_count + 1;
    match &row.s3_upload_id {
        Some(u) => Ok((part, u.clone())),
        None => Err(ApiError::internal(String::from_str("missing s3 upload id"))),
    }
}

// ---------------------------------------------------------------------------
// Completing and aborting
// ---------------------------------------------------------------------------

/// What completing a local upload does, judged from its row.
#[derive(Debug, PartialEq, Eq, Structural, Clone, Copy)]
pub enum LocalCompletion {
    /// No bytes arrived: refused with `not_complete`.
    NotComplete,
    /// More bytes than the cap arrived: the blob and the row are removed and
    /// the request is refused with `upload_too_large`.
    TooLarge,
    /// The blob is flushed and the row becomes ready with this size.
    Finish(i64),
}

/// The decision for completing the local upload `row`.
pub open spec fn spec_local_completion(row: UploadRow, config: Config) -> LocalCompletion {
    if row.received_bytes == 0 {
        LocalCompletion::NotComplete
    } else if crate::config::spec_max_upload_size(config) matches Some(cap) && row.received_bytes
        > cap {
        LocalCompletion::TooLarge
    } else {
        LocalCompletion::Finish(row.received_bytes)
    }
}

pub fn local_completion(row: &UploadRow, config: &Config) -> (c: LocalCompletion)
    ensures
        c == spec_local_completion(*row, *config),
{
    if row.received_bytes == 0 {
        return LocalCompletion::NotComplete;
    }
    if let Some(cap) = config.max_upload_size() {
        if row.received_bytes > cap {
            return LocalCompletion::TooLarge;
        }
    }
    LocalCompletion::Finish(row.received_bytes)
}

/// The share page of upload `id`: `/f/{id}`.
pub fn share_url(id: &str) -> (s: String)
    ensures
        s@ == "/f/"@ + id@,
{
    let mut s = String::from_str("/f/");
    push_str_chars(&mut s, id);
    s
}

/// Marks upload `id` ready with `size` and returns its share page.
pub fn finish_upload(db: &mut Db, id: &str, size: i64) -> (r: CompleteRes)
    ensures
        r.url@ == "/f/"@ + id@,
        old(db)@.contains_key(id@) ==> final(db)@ == old(db)@.insert(
            id@,
            UploadRow { status: final(db)@[id@].status, size, ..old(db)@[id@] },
        ) && crate::db::is_ready(final(db)@[id@]),
        !old(db)@.contains_key(id@) ==> final(db)@ == old(db)@,
{
    db.complete_upload(id, size);
    CompleteRes { url: share_url(id) }
}

/// Checks an S3 completion request against the row: one etag per presigned
/// part, and a multipart upload to complete. Returns its upload id.
pub fn s3_completion_check(row: &UploadRow, etag_count: usize) -> (r: Result<String, ApiError>)
    ensures
        etag_count != row.part_count ==> (r matches Err(e) && e@ == crate::error::not_complete_view()),
        etag_count == row.part_count ==> match row.s3_upload_id {
            Some(u) => r == Ok::<String, ApiError>(u),
            None => r matches Err(e) && e@ == crate::error::internal_view() && e.detail@
                == "missing s3 upload id"@,
        },
{
    if etag_count as i128 != row.part_count as i128 {
        return Err(ApiError::not_complete());
    }
    match &row.s3_upload_id {
        Some(u) => Ok(u.clone()),
        None => Err(ApiError::internal(String::from_str("missing s3 upload id"))),
    }
}

/// The completed S3 object of `size` bytes exceeds the configured cap.
pub fn s3_object_too_large(size: u64, config: &Config) -> (r: bool)
    ensures
        r == (crate::config::spec_max_upload_size(*config) matches Some(cap) && (size as i64) > cap),
{
    match config.max_upload_size() {
        Some(cap) => (size as i64) > cap,
        None => false,
    }
}

/// Removes the row of an aborted or refused upload.
pub fn discard_upload(db: &mut Db, id: &str)
    ensures
        final(db)@ == old(db)@.remove(id@),
{
    db.delete_upload(id);
}

} // verus!

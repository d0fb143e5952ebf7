//! `GET /api/uploads/{id}`: the public description of a ready, live upload.
use vstd::prelude::*;
use crate::db::{Db, UploadRow};
use crate::error::ApiError;
use crate::text::str_eq;

verus! {

/// What the metadata endpoint shows of an upload.
#[derive(Debug, Clone)]
pub struct MetaRes {
    pub id: String,
    pub name: String,
    pub size: i64,
    pub backend: String,
    pub created_at: i64,
    pub expires_at: Option<i64>,
    pub downloads_left: Option<i64>,
    pub max_downloads: Option<i64>,
    pub status: String,
}

/// Downloads left: the limit minus the count, never below zero.
pub open spec fn spec_downloads_left(r: UploadRow) -> Option<i64> {
    match r.max_downloads {
        Some(m) => Some(if m - r.download_count > 0 {
            (m - r.download_count) as i64
        } else {
            0i64
        }),
        None => None,
    }
}

/// The upload is visible at `now`: ready, not expired, downloads left.
pub open spec fn is_visible(r: UploadRow, now: int) -> bool {
    crate::db::download_allowed(r, now)
}

/// The description of a visible upload.
pub open spec fn meta_of(m: MetaRes, r: UploadRow) -> bool {
    &&& m.id == r.id
    &&& m.name == r.name
    &&& m.size == r.size
    &&& m.backend == r.backend
    &&& m.created_at == r.created_at
    &&& m.expires_at == r.expires_at
    &&& m.downloads_left == spec_downloads_left(r)
    &&& m.max_downloads == r.max_downloads
    &&& m.status == r.status
}

/// What is left of a download limit: with a limit of `m` and `c` downloads so
/// far, `m - c` remain (none once the count has reached the limit); with no
/// limit, none is reported. So for a visible upload the downloads left and the
/// downloads made add up to the limit.
pub proof fn lemma_downloads_left_counts_down(r: UploadRow)
    ensures
        match r.max_downloads {
            None => spec_downloads_left(r) is None,
            Some(m) => {
                &&& r.download_count <= m && m - r.download_count <= i64::MAX ==> spec_downloads_left(r)
                    == Some((m - r.download_count) as i64)
                &&& r.download_count >= m ==> spec_downloads_left(r) == Some(0i64)
                &&& 0 <= r.download_count < m ==> (spec_downloads_left(r) matches Some(left)
                    && left + r.download_count == m && left > 0)
            },
        },
{
}

/// Describes the upload `id` at `now`. Missing, pending, expired and exhausted
/// uploads are all reported as not found.
pub fn upload_meta(db: &Db, id: &str, now: i64) -> (r: Result<MetaRes, ApiError>)
    ensures
        db@.contains_key(id@) && is_visible(db@[id@], now as int) ==> (r matches Ok(m) && meta_of(
            m,
            db@[id@],
        )),
        !(db@.contains_key(id@) && is_visible(db@[id@], now as int)) ==> (r matches Err(e) && e@
            == crate::error::not_found_view()),
{
    let row = match db.get_upload(id) {
        Some(row) => row,
        None => return Err(ApiError::not_found()),
    };
    if !str_eq(row.status.as_str(), "ready") {
        return Err(ApiError::not_found());
    }
    if let Some(exp) = row.expires_at {
        if exp <= now {
            return Err(ApiError::not_found());
        }
    }
    if let Some(max) = row.max_downloads {
        if row.download_count >= max {
            return Err(ApiError::not_found());
        }
    }
    let downloads_left = match row.max_downloads {
        Some(m) => {
            let d: i128 = m as i128 - row.download_count as i128;
            Some(
                if d > 0 {
                    d as i64
                } else {
                    0
                },
            )
        },
        None => None,
    };
    Ok(
        MetaRes {
            id: row.id,
            name: row.name,
            size: row.size,
            backend: row.backend,
            created_at: row.created_at,
            expires_at: row.expires_at,
            downloads_left,
            max_downloads: row.max_downloads,
            status: row.status,
        },
    )
}

} // verus!

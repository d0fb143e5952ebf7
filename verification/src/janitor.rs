//! The janitor's decisions: which uploads are dead, how each one's blob is
//! disposed of, and when its row may go.
use vstd::prelude::*;
use crate::config::Config;
use crate::db::{Db, UploadRow};
use crate::storage::Storage;
use crate::text::str_eq;

verus! {

/// How long, in seconds, an upload may stay pending.
pub fn pending_timeout_secs(config: &Config) -> (s: i64)
    requires
        i64::MIN <= config.uploads.pending_timeout_hours * 3600 <= i64::MAX,
    ensures
        s == config.uploads.pending_timeout_hours * 3600,
{
    config.uploads.pending_timeout_hours * 3600
}

/// The uploads to remove at `now`: expired, count-exhausted, or pending for
/// longer than the configured timeout.
pub fn dead_uploads(db: &Db, config: &Config, now: i64) -> (r: Vec<UploadRow>)
    requires
        i64::MIN <= config.uploads.pending_timeout_hours * 3600 <= i64::MAX,
    ensures
        forall|k: int|
            0 <= k < r@.len() ==> db@.contains_key(#[trigger] r@[k].id@) && db@[r@[k].id@] == r@[k]
                && crate::db::is_dead(r@[k], now as int, config.uploads.pending_timeout_hours * 3600),
        forall|id: Seq<char>|
            #[trigger] db@.contains_key(id) && crate::db::is_dead(
                db@[id],
                now as int,
                config.uploads.pending_timeout_hours * 3600,
            ) ==> exists|k: int| 0 <= k < r@.len() && r@[k].id@ == id,
        crate::db::distinct_ids(r@),
{
    db.sweep(now, pending_timeout_secs(config))
}

/// How the blob of a dead upload is disposed of.
#[derive(Debug, Clone)]
pub enum CleanupAction {
    /// Delete the blob (the local file, or the S3 object).
    DeleteBlob,
    /// Abort the unfinished S3 multipart upload with this id.
    AbortMultipart(String),
}

/// A pending upload on S3 with a multipart upload is aborted; anything else has
/// its blob deleted.
pub fn cleanup_action(row: &UploadRow, storage: &Storage) -> (a: CleanupAction)
    ensures
        match a {
            CleanupAction::AbortMultipart(u) => crate::db::is_pending(*row) && storage is S3
                && row.s3_upload_id == Some(u),
            CleanupAction::DeleteBlob => !(crate::db::is_pending(*row) && storage is S3
                && row.s3_upload_id is Some),
        },
{
    if str_eq(row.status.as_str(), "pending") {
        match storage {
            Storage::S3(_) => match &row.s3_upload_id {
                Some(u) => CleanupAction::AbortMultipart(u.clone()),
                None => CleanupAction::DeleteBlob,
            },
            Storage::Local(_) => CleanupAction::DeleteBlob,
        }
    } else {
        CleanupAction::DeleteBlob
    }
}

/// After the blob of `row` was disposed of (`storage_ok`), removes its row and
/// reports the upload as cleaned; after a storage failure the row stays for the
/// next sweep.
pub fn finish_cleanup(db: &mut Db, row: &UploadRow, storage_ok: bool) -> (cleaned: bool)
    ensures
        cleaned == storage_ok,
        storage_ok ==> final(db)@ == old(db)@.remove(row.id@),
        !storage_ok ==> final(db)@ == old(db)@,
{
    if !storage_ok {
        return false;
    }
    db.delete_upload(row.id.as_str());
    true
}

} // verus!

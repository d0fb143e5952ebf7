//! The local-disk backend: where a blob lives, the free-space guard, and the byte
//! window that a ranged read serves. The file operations themselves are the
//! caller's.
use vstd::prelude::*;
use super::StorageError;
use crate::text::{chars_of, push_str_chars};

verus! {

/// `root.join(key)` with Unix path rules: an absolute key replaces the root,
/// otherwise a `/` separates them unless the root is empty or already ends in one.
pub open spec fn spec_join(root: Seq<char>, key: Seq<char>) -> Seq<char> {
    if key.len() > 0 && key[0] == '/' {
        key
    } else if root.len() > 0 && root.last() != '/' {
        root + seq!['/'] + key
    } else {
        root + key
    }
}

/// The byte window `(start, end)` (inclusive) served from a blob of `total` bytes
/// for the requested `range`: both bounds clamped into `[0, total - 1]`, and
/// never `start > end`.
pub open spec fn spec_clamp_window(total: u64, range: Option<(u64, u64)>) -> (u64, u64) {
    match range {
        Some((s, e)) => {
            let start = if s < total - 1 { s } else { (total - 1) as u64 };
            let e1 = if e < total - 1 { e } else { (total - 1) as u64 };
            let end = if e1 > start { e1 } else { start };
            (start, end)
        },
        None => (0, (total - 1) as u64),
    }
}

/// A read of a non-empty blob of `total` bytes: a window that lies inside the
/// blob is read as asked; one that runs past the end is cut at the blob's last
/// byte; one that starts past the end reads the last byte; no window reads
/// the whole blob.
pub proof fn lemma_clamp_keeps_what_fits(total: u64, s: u64, e: u64)
    requires
        total > 0,
        s <= e,
    ensures
        e < total ==> spec_clamp_window(total, Some((s, e))) == (s, e),
        s < total <= e ==> spec_clamp_window(total, Some((s, e))) == (s, (total - 1) as u64),
        total <= s ==> spec_clamp_window(total, Some((s, e))) == ((total - 1) as u64, (total - 1) as u64),
        spec_clamp_window(total, None) == (0u64, (total - 1) as u64),
{
}

/// Blobs under `root`; writes are refused while less than `min_free_bytes` are free.
pub struct LocalStorage {
    root: String,
    min_free_bytes: u64,
}

impl LocalStorage {
    pub closed spec fn root(&self) -> String {
        self.root
    }

    pub closed spec fn min_free(&self) -> u64 {
        self.min_free_bytes
    }

    /// A store rooted at `root`. The free space is measured by the caller, with
    /// whatever checker it chose, and handed to `check_free`.
    pub fn with_space_checker(root: String, min_free_bytes: u64) -> (s: LocalStorage)
        ensures
            s.root() == root,
            s.min_free() == min_free_bytes,
    {
        LocalStorage { root, min_free_bytes }
    }

    /// The directory that holds the blobs.
    pub fn root_dir(&self) -> (r: &str)
        ensures
            r@ == self.root()@,
    {
        self.root.as_str()
    }

    /// The free-space floor.
    pub fn min_free_bytes(&self) -> (n: u64)
        ensures
            n == self.min_free(),
    {
        self.min_free_bytes
    }

    /// The path of the blob stored under `key`.
    pub fn path(&self, key: &str) -> (p: String)
        ensures
            p@ == spec_join(self.root()@, key@),
    {
        let kc = chars_of(key);
        if kc.len() > 0 && kc[0] == '/' {
            return String::from_str(key);
        }
        let rc = chars_of(self.root.as_str());
        let mut p = self.root.clone();
        if rc.len() > 0 && rc[rc.len() - 1] != '/' {
            p.push('/');
        }
        push_str_chars(&mut p, key);
        proof {
            if rc@.len() > 0 && rc@.last() != '/' {
                assert(p@ =~= self.root@ + seq!['/'] + key@);
            }
        }
        p
    }

    /// Refuses writes while `free` bytes are below the floor.
    pub fn check_free(&self, free: u64) -> (r: Result<(), StorageError>)
        ensures
            free < self.min_free() ==> (r matches Err(StorageError::LowSpace(f)) && f == free),
            free >= self.min_free() ==> r is Ok,
    {
        if free < self.min_free_bytes {
            return Err(StorageError::LowSpace(free));
        }
        Ok(())
    }
}

/// The window to read from a local blob of `total` bytes: an empty blob counts
/// as missing, otherwise the request is clamped into the blob.
pub fn open_window(total: u64, range: Option<(u64, u64)>) -> (r: Result<(u64, u64), StorageError>)
    ensures
        total == 0 ==> r matches Err(StorageError::NoSuchKey),
        total > 0 ==> r == Ok::<(u64, u64), StorageError>(spec_clamp_window(total, range)),
        total > 0 ==> (r matches Ok((s, e)) && s <= e < total),
{
    if total == 0 {
        return Err(StorageError::NoSuchKey);
    }
    let (start, end) = match range {
        Some((s, e)) => {
            let start = if s < total - 1 { s } else { total - 1 };
            let e1 = if e < total - 1 { e } else { total - 1 };
            let end = if e1 > start { e1 } else { start };
            (start, end)
        },
        None => (0, total - 1),
    };
    Ok((start, end))
}

} // verus!

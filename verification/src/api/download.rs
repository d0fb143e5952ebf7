//! The decisions behind `GET /raw/{id}`: reading the `Range` header, choosing the
//! byte window to serve, and the headers that describe it.
use vstd::prelude::*;
use crate::text::{chars_of, find_char, parse_unsigned_chars, trim_bounds, push_decimal, push_str_chars};
use crate::id::{header_filename, pct_encode};
use crate::db::{Db, UploadRow};
use crate::error::ApiError;
use crate::storage::StorageError;

verus! {

/// A single byte range requested with `Range: bytes=...`.
#[derive(Debug, PartialEq, Eq, Structural, Clone, Copy)]
pub enum RangeSpec {
    /// `bytes=a-b` (inclusive), or `bytes=a-` with `b == u64::MAX`.
    Bytes(u64, u64),
    /// `bytes=-n`: the last `n` bytes.
    Suffix(u64),
}

/// The literal prefix `bytes=`.
pub open spec fn bytes_eq_prefix() -> Seq<char> {
    seq!['b', 'y', 't', 'e', 's', '=']
}

/// The part after `bytes=` of a range header that is `a-b`, `a-` or `-n`.
pub open spec fn spec_parse_range_rest(rest: Seq<char>) -> Option<RangeSpec> {
    let max = u64::MAX as int;
    if rest.contains(',') {
        None
    } else if rest.len() > 0 && rest[0] == '-' {
        match crate::text::spec_parse_unsigned(rest.drop_first(), max) {
            Some(n) => if n > 0 {
                Some(RangeSpec::Suffix(n as u64))
            } else {
                None
            },
            None => None,
        }
    } else {
        let k = crate::text::index_of(rest, '-');
        if k < 0 {
            None
        } else {
            let a = rest.take(k);
            let b = rest.skip(k + 1);
            match crate::text::spec_parse_unsigned(a, max) {
                None => None,
                Some(start) => {
                    let end: Option<int> = if b.len() == 0 {
                        Some(max)
                    } else {
                        crate::text::spec_parse_unsigned(b, max)
                    };
                    match end {
                        None => None,
                        Some(e) => if start > e && e != max {
                            None
                        } else {
                            Some(RangeSpec::Bytes(start as u64, e as u64))
                        },
                    }
                },
            }
        }
    }
}

/// What `parse_range` makes of a `Range` header value.
pub open spec fn spec_parse_range(h: Option<Seq<char>>) -> Option<RangeSpec> {
    match h {
        None => None,
        Some(h) => {
            let t = crate::text::trim(h);
            if t.len() >= 6 && t.take(6) == bytes_eq_prefix() {
                spec_parse_range_rest(t.skip(6))
            } else {
                None
            }
        },
    }
}

/// Parses a single-range `Range` header. Multi-range, malformed, `bytes=-0`
/// and `a > b` requests give `None`, so the whole file is served.
pub fn parse_range(h: Option<&str>) -> (r: Option<RangeSpec>)
    ensures
        r == spec_parse_range(match h {
            Some(s) => Some(s@),
            None => None,
        }),
        r != Some(RangeSpec::Suffix(0)),
        r matches Some(RangeSpec::Bytes(a, b)) ==> a <= b || b == u64::MAX,
{
    let h = match h {
        None => return None,
        Some(h) => h,
    };
    let cs = chars_of(h);
    let (a, b) = trim_bounds(&cs, 0, cs.len());
    assert(cs@.subrange(0, cs@.len() as int) =~= h@);
    let ghost t = cs@.subrange(a as int, b as int);
    if b - a < 6 || cs[a] != 'b' || cs[a + 1] != 'y' || cs[a + 2] != 't' || cs[a + 3] != 'e'
        || cs[a + 4] != 's' || cs[a + 5] != '=' {
        proof {
            if t.len() >= 6 && t.take(6) == bytes_eq_prefix() {
                assert(t.take(6)[0] == t[0]);
                assert(t.take(6)[1] == t[1]);
                assert(t.take(6)[2] == t[2]);
                assert(t.take(6)[3] == t[3]);
                assert(t.take(6)[4] == t[4]);
                assert(t.take(6)[5] == t[5]);
            }
        }
        return None;
    }
    assert(t.take(6) =~= bytes_eq_prefix());
    let p = a + 6;
    let ghost rest = t.skip(6);
    assert(rest =~= cs@.subrange(p as int, b as int));
    if let Some(k) = find_char(&cs, p, b, ',') {
        assert(rest[k - p] == ',');
        return None;
    }
    assert(!rest.contains(',')) by {
        if rest.contains(',') {
            let j = choose|j: int| 0 <= j < rest.len() && rest[j] == ',';
            assert(cs@[p + j] == ',');
        }
    }
    if p < b && cs[p] == '-' {
        assert(rest.drop_first() =~= cs@.subrange(p + 1, b as int));
        return match parse_unsigned_chars(&cs, p + 1, b, u64::MAX) {
            Some(n) => if n > 0 {
                Some(RangeSpec::Suffix(n))
            } else {
                None
            },
            None => None,
        };
    }
    match find_char(&cs, p, b, '-') {
        None => {
            proof {
                crate::text::lemma_index_of(rest, '-', -1);
            }
            None
        },
        Some(k) => {
            proof {
                crate::text::lemma_index_of(rest, '-', k - p);
            }
            assert(rest.take(k - p) =~= cs@.subrange(p as int, k as int));
            assert(rest.skip(k - p + 1) =~= cs@.subrange(k + 1, b as int));
            let start = match parse_unsigned_chars(&cs, p, k, u64::MAX) {
                None => return None,
                Some(v) => v,
            };
            let end = if k + 1 == b {
                u64::MAX
            } else {
                match parse_unsigned_chars(&cs, k + 1, b, u64::MAX) {
                    None => return None,
                    Some(v) => v,
                }
            };
            if start > end && end != u64::MAX {
                return None;
            }
            Some(RangeSpec::Bytes(start, end))
        },
    }
}

/// The `Content-Disposition` value for a download of `name`: a quoted,
/// neutralised `filename` and an RFC 5987 `filename*`.
pub open spec fn spec_content_disposition(name: Seq<char>) -> Seq<char> {
    "attachment; filename=\""@ + crate::id::spec_header_filename(name) + "\"; filename*=UTF-8''"@
        + crate::id::pct_encode_bytes(vstd::utf8::encode_utf8(name))
}

/// Builds the `Content-Disposition` header value for `name`.
pub fn content_disposition(name: &str) -> (s: String)
    ensures
        s@ == spec_content_disposition(name@),
{
    let mut s = String::from_str("attachment; filename=\"");
    let h = header_filename(name);
    push_str_chars(&mut s, h.as_str());
    push_str_chars(&mut s, "\"; filename*=UTF-8''");
    let p = pct_encode(name);
    push_str_chars(&mut s, p.as_str());
    s
}

/// How a storage failure during a download is reported.
pub open spec fn spec_storage_to_api(e: StorageError) -> crate::error::ApiErrorView {
    match e {
        StorageError::NoSuchKey => crate::error::not_found_view(),
        StorageError::Io(m) => crate::error::storage_error_view(m@),
        StorageError::LowSpace(f) => crate::error::storage_low_view(f),
        StorageError::S3(m) => crate::error::upstream_view(m@),
    }
}

/// Reports a storage failure during a download.
pub fn storage_to_api(e: StorageError) -> (r: ApiError)
    ensures
        r@ == spec_storage_to_api(e),
{
    match e {
        StorageError::NoSuchKey => ApiError::not_found(),
        StorageError::Io(m) => ApiError::storage_error(m),
        StorageError::LowSpace(f) => ApiError::storage_low(f),
        StorageError::S3(m) => ApiError::upstream(m),
    }
}

/// Counts a download of `id` at `now` and returns its row. A missing, pending,
/// expired or exhausted upload is not found and is not counted.
pub fn begin_download(db: &mut Db, id: &str, now: i64) -> (r: Result<UploadRow, ApiError>)
    ensures
        !(old(db)@.contains_key(id@) && crate::db::download_allowed(old(db)@[id@], now as int))
            ==> (r matches Err(e) && e@ == crate::error::not_found_view()) && final(db)@ == old(db)@,
        old(db)@.contains_key(id@) && crate::db::download_allowed(old(db)@[id@], now as int) ==> ({
            let row = old(db)@[id@];
            &&& row.download_count < i64::MAX ==> final(db)@ == old(db)@.insert(
                id@,
                UploadRow { download_count: (row.download_count + 1) as i64, ..row },
            ) && r == Ok::<UploadRow, ApiError>(final(db)@[id@])
            &&& row.download_count == i64::MAX ==> (r matches Err(e) && e@
                == crate::error::internal_view() && e.detail@ == "integer overflow"@) && final(db)@
                == old(db)@
        }),
{
    match db.increment_download(id, now) {
        Err(e) => Err(ApiError::internal(e.message())),
        Ok(false) => Err(ApiError::not_found()),
        Ok(true) => match db.get_upload(id) {
            Some(row) => Ok(row),
            None => Err(ApiError::not_found()),
        },
    }
}

/// The bytes a download serves: `start..=end`, and whether it answers a range.
#[derive(Debug, PartialEq, Eq, Structural, Clone, Copy)]
pub struct DownloadWindow {
    pub start: u64,
    pub end: u64,
    pub ranged: bool,
}

/// The window served from a blob of `total` bytes for the parsed `Range` header.
/// An open range ends at the last byte; a start past the end serves the last
/// byte; a suffix longer than the blob serves all of it.
pub open spec fn spec_plan_window(spec: Option<RangeSpec>, total: u64) -> DownloadWindow {
    let last = (total - 1) as u64;
    match spec {
        None => DownloadWindow { start: 0, end: last, ranged: false },
        Some(RangeSpec::Bytes(a, b)) => {
            let b2 = if b < last { b } else { last };
            if a > b2 {
                DownloadWindow { start: last, end: last, ranged: true }
            } else {
                DownloadWindow { start: a, end: b2, ranged: true }
            }
        },
        Some(RangeSpec::Suffix(n)) => DownloadWindow {
            start: if n < total { (total - n) as u64 } else { 0 },
            end: last,
            ranged: true,
        },
    }
}

/// A byte range that starts inside the blob is served from its first byte up
/// to its last byte or the blob's end, whichever comes first; a suffix of `n`
/// bytes (at most the blob's size) serves exactly the last `n` bytes; no range
/// serves the whole blob.
pub proof fn lemma_window_follows_the_request(spec: Option<RangeSpec>, total: u64)
    requires
        total > 0,
    ensures
        match spec {
            Some(RangeSpec::Bytes(a, b)) => a <= b && a < total ==> ({
                let w = spec_plan_window(spec, total);
                &&& w.ranged
                &&& w.start == a
                &&& b < total ==> w.end == b
                &&& b >= total ==> w.end == total - 1
            }),
            Some(RangeSpec::Suffix(n)) => 0 < n <= total ==> ({
                let w = spec_plan_window(spec, total);
                &&& w.ranged
                &&& w.end == total - 1
                &&& w.end - w.start + 1 == n
            }),
            None => spec_plan_window(spec, total) == (DownloadWindow {
                start: 0,
                end: (total - 1) as u64,
                ranged: false,
            }),
        },
{
}

/// Chooses the window to serve from a non-empty blob of `total` bytes.
pub fn plan_window(spec: Option<RangeSpec>, total: u64) -> (w: DownloadWindow)
    requires
        total > 0,
        spec != Some(RangeSpec::Suffix(0)),
    ensures
        w == spec_plan_window(spec, total),
        w.start <= w.end < total,
{
    let last = total - 1;
    match spec {
        None => DownloadWindow { start: 0, end: last, ranged: false },
        Some(RangeSpec::Bytes(a, b)) => {
            let b2 = if b < last { b } else { last };
            if a > b2 {
                DownloadWindow { start: last, end: last, ranged: true }
            } else {
                DownloadWindow { start: a, end: b2, ranged: true }
            }
        },
        Some(RangeSpec::Suffix(n)) => DownloadWindow {
            start: if n < total { total - n } else { 0 },
            end: last,
            ranged: true,
        },
    }
}

/// The `Content-Range` value `bytes start-end/total`.
pub fn content_range_value(start: u64, end: u64, total: u64) -> (s: String)
    ensures
        s@ == "bytes "@ + crate::text::decimal_string(start as nat) + seq!['-']
            + crate::text::decimal_string(end as nat) + seq!['/'] + crate::text::decimal_string(
            total as nat,
        ),
{
    let mut s = String::from_str("bytes ");
    push_decimal(&mut s, start);
    s.push('-');
    push_decimal(&mut s, end);
    s.push('/');
    push_decimal(&mut s, total);
    assert(s@ =~= "bytes "@ + crate::text::decimal_string(start as nat) + seq!['-']
        + crate::text::decimal_string(end as nat) + seq!['/'] + crate::text::decimal_string(
        total as nat,
    ));
    s
}

/// A carriage return or a line feed.
pub open spec fn is_crlf(c: char) -> bool {
    c == '\r' || c == '\n'
}

/// `s` holds no carriage return and no line feed.
pub open spec fn crlf_free(s: Seq<char>) -> bool {
    forall|i: int| 0 <= i < s.len() ==> !is_crlf(#[trigger] s[i])
}

proof fn lemma_pct_encode_crlf_free(bytes: Seq<u8>)
    ensures
        crlf_free(crate::id::pct_encode_bytes(bytes)),
    decreases bytes.len(),
{
    if bytes.len() > 0 {
        lemma_pct_encode_crlf_free(bytes.drop_last());
        let prev = crate::id::pct_encode_bytes(bytes.drop_last());
        let last = crate::id::pct_byte(bytes.last());
        let b = bytes.last();
        if crate::id::is_unreserved(b) {
            assert(last[0] == b as char);
            assert(!is_crlf(last[0]));
        } else {
            assert(!is_crlf(last[0]));
            assert(!is_crlf(last[1]));
            assert(!is_crlf(last[2]));
        }
        assert(crate::id::pct_encode_bytes(bytes) == prev + last);
        assert forall|i: int| 0 <= i < (prev + last).len() implies !is_crlf(#[trigger] (prev + last)[i]) by {
            if i < prev.len() {
                assert((prev + last)[i] == prev[i]);
            } else {
                assert((prev + last)[i] == last[i - prev.len()]);
            }
        }
    }
}

/// A download's `Content-Disposition` header never carries a line break, whatever
/// the stored filename holds, so a filename cannot inject headers.
pub proof fn lemma_content_disposition_crlf_free(name: Seq<char>)
    ensures
        crlf_free(spec_content_disposition(name)),
{
    reveal_strlit("attachment; filename=\"");
    reveal_strlit("\"; filename*=UTF-8''");
    let a = "attachment; filename=\""@;
    let h = crate::id::spec_header_filename(name);
    let b = "\"; filename*=UTF-8''"@;
    let p = crate::id::pct_encode_bytes(vstd::utf8::encode_utf8(name));
    lemma_pct_encode_crlf_free(vstd::utf8::encode_utf8(name));
    assert(crlf_free(a));
    assert(crlf_free(b));
    assert(crlf_free(h));
    let all = a + h + b + p;
    assert forall|i: int| 0 <= i < all.len() implies !is_crlf(#[trigger] all[i]) by {
        if i < a.len() {
            assert(all[i] == a[i]);
        } else if i < a.len() + h.len() {
            assert(all[i] == h[i - a.len()]);
        } else if i < a.len() + h.len() + b.len() {
            assert(all[i] == b[i - a.len() - h.len()]);
        } else {
            assert(all[i] == p[i - a.len() - h.len() - b.len()]);
        }
    }
}

/// A served window never reaches past the blob, and its length is
/// `end - start + 1`, at least one byte and at most the blob's size.
pub proof fn lemma_window_within_blob(spec: Option<RangeSpec>, total: u64)
    requires
        total > 0,
        spec != Some(RangeSpec::Suffix(0)),
    ensures
        spec_plan_window(spec, total).start <= spec_plan_window(spec, total).end < total,
        1 <= spec_plan_window(spec, total).end - spec_plan_window(spec, total).start + 1 <= total,
{
}

} // verus!

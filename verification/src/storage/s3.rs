//! The S3 backend: its client and settings, and the decisions around each S3
//! call (part numbering, sizes, the served window). The network calls themselves
//! are made by the caller.
use vstd::prelude::*;
use super::StorageError;
use crate::config::S3Config;
use crate::text::{chars_of, find_char, parse_unsigned_chars, trim_bounds, push_decimal};
use aws_sdk_s3::config::{BehaviorVersion, Credentials, Region, SharedCredentialsProvider};
use aws_sdk_s3::Client;

verus! {

#[verifier::external_type_specification]
#[verifier::external_body]
pub struct ExClient(Client);

/// Builds an S3 client (`aws_sdk_s3::Client::from_conf`) from static
/// credentials, a region, an optional endpoint URL and the path-style flag.
/// Building it makes no network call; nothing is claimed about the client.
#[verifier::external_body]
fn build_client(
    region: String,
    access_key: String,
    secret_key: String,
    endpoint: Option<String>,
    force_path_style: bool,
) -> Client {
    let creds = Credentials::new(access_key, secret_key, None, None, "tempdrop");
    let mut builder = aws_config::SdkConfig::builder().region(Region::new(region))
        .credentials_provider(SharedCredentialsProvider::new(creds))
        .behavior_version(BehaviorVersion::latest());
    builder.set_endpoint_url(endpoint);
    let s3_config = aws_sdk_s3::config::Builder::from(&builder.build()).force_path_style(
        force_path_style,
    ).build();
    Client::from_conf(s3_config)
}

/// An S3 bucket and a client for it.
pub struct S3Storage {
    client: Client,
    bucket: String,
    presign_ttl_secs: u64,
}

impl S3Storage {
    pub closed spec fn bucket(&self) -> String {
        self.bucket
    }

    pub closed spec fn presign_ttl_secs(&self) -> u64 {
        self.presign_ttl_secs
    }

    /// The client this storage was built with.
    pub closed spec fn s3_client(&self) -> Client {
        self.client
    }

    /// A client for `cfg.bucket`; refused when no bucket is configured. An empty
    /// endpoint means the default AWS endpoint.
    pub fn new(cfg: &S3Config) -> (r: Result<S3Storage, StorageError>)
        ensures
            cfg.bucket@.len() == 0 ==> (r matches Err(StorageError::S3(m)) && m@
                == "s3 bucket is empty"@),
            cfg.bucket@.len() > 0 ==> (r matches Ok(s) && s.bucket()@ == cfg.bucket@
                && s.presign_ttl_secs() == cfg.presign_ttl_seconds),
    {
        if cfg.bucket.as_str().is_empty() {
            return Err(StorageError::S3(String::from_str("s3 bucket is empty")));
        }
        let endpoint = if cfg.endpoint.as_str().is_empty() {
            None
        } else {
            Some(cfg.endpoint.clone())
        };
        let client = build_client(
            cfg.region.clone(),
            cfg.access_key.clone(),
            cfg.secret_key.clone(),
            endpoint,
            cfg.force_path_style,
        );
        Ok(S3Storage { client, bucket: cfg.bucket.clone(), presign_ttl_secs: cfg.presign_ttl_seconds })
    }

    /// The client.
    pub fn client(&self) -> (c: &Client)
        ensures
            *c == self.s3_client(),
    {
        &self.client
    }

    /// The bucket name.
    pub fn bucket_name(&self) -> (b: &str)
        ensures
            b@ == self.bucket()@,
    {
        self.bucket.as_str()
    }

    /// Lifetime of presigned part URLs, in seconds.
    pub fn presign_ttl(&self) -> (n: u64)
        ensures
            n == self.presign_ttl_secs(),
    {
        self.presign_ttl_secs
    }
}

/// The upload id that `CreateMultipartUpload` returned; its absence is an error.
pub fn multipart_upload_id(id: Option<String>) -> (r: Result<String, StorageError>)
    ensures
        match id {
            Some(s) => r == Ok::<String, StorageError>(s),
            None => r matches Err(StorageError::S3(m)) && m@
                == "create_multipart_upload returned no upload_id"@,
        },
{
    match id {
        Some(s) => Ok(s),
        None => Err(StorageError::S3(String::from_str("create_multipart_upload returned no upload_id"))),
    }
}

/// The parts of a multipart upload, numbered from 1 in the order of `etags`.
pub fn completed_parts(etags: &Vec<String>) -> (parts: Vec<(i32, String)>)
    requires
        etags@.len() <= i32::MAX,
    ensures
        parts@.len() == etags@.len(),
        forall|i: int| 0 <= i < parts@.len() ==> (#[trigger] parts@[i]).0 == i + 1 && parts@[i].1
            == etags@[i],
{
    let mut parts: Vec<(i32, String)> = Vec::new();
    let mut i: usize = 0;
    while i < etags.len()
        invariant
            0 <= i <= etags@.len(),
            etags@.len() <= i32::MAX,
            parts@.len() == i,
            forall|k: int| 0 <= k < i ==> (#[trigger] parts@[k]).0 == k + 1 && parts@[k].1
                == etags@[k],
        decreases etags.len() - i,
    {
        parts.push(((i + 1) as i32, etags[i].clone()));
        i = i + 1;
    }
    parts
}

/// The size of the completed object, from `HeadObject`'s content length.
pub fn object_size(content_length: Option<i64>) -> (r: Result<u64, StorageError>)
    ensures
        match content_length {
            Some(l) => r == Ok::<u64, StorageError>(l as u64),
            None => r matches Err(StorageError::S3(m)) && m@
                == "head_object returned no content_length"@,
        },
{
    match content_length {
        Some(l) => Ok(l as u64),
        None => Err(StorageError::S3(String::from_str("head_object returned no content_length"))),
    }
}

/// The `Range` header sent to S3 for the window `start..=end`.
pub fn range_header_value(start: u64, end: u64) -> (s: String)
    ensures
        s@ == "bytes="@ + crate::text::decimal_string(start as nat) + seq!['-']
            + crate::text::decimal_string(end as nat),
{
    let mut s = String::from_str("bytes=");
    push_decimal(&mut s, start);
    s.push('-');
    push_decimal(&mut s, end);
    assert(s@ =~= "bytes="@ + crate::text::decimal_string(start as nat) + seq!['-']
        + crate::text::decimal_string(end as nat));
    s
}

/// The literal prefix `bytes ` of a `Content-Range` value.
pub open spec fn bytes_sp_prefix() -> Seq<char> {
    seq!['b', 'y', 't', 'e', 's', ' ']
}

/// What `parse_content_range` makes of `bytes a-b/total`: `(a, b)`.
pub open spec fn spec_parse_content_range(v: Seq<char>) -> Option<(u64, u64)> {
    let t = crate::text::trim(v);
    if t.len() >= 6 && t.take(6) == bytes_sp_prefix() {
        let rest = t.skip(6);
        let k = crate::text::index_of(rest, '/');
        if k < 0 {
            None
        } else {
            let range = rest.take(k);
            let d = crate::text::index_of(range, '-');
            if d < 0 {
                None
            } else {
                match (
                    crate::text::spec_parse_unsigned(range.take(d), u64::MAX as int),
                    crate::text::spec_parse_unsigned(range.skip(d + 1), u64::MAX as int),
                ) {
                    (Some(a), Some(b)) => Some((a as u64, b as u64)),
                    _ => None,
                }
            }
        }
    } else {
        None
    }
}

/// Parses `bytes a-b/total` into `(a, b)`.
pub fn parse_content_range(value: &str) -> (r: Option<(u64, u64)>)
    ensures
        r == spec_parse_content_range(value@),
{
    let cs = chars_of(value);
    let (a, b) = trim_bounds(&cs, 0, cs.len());
    assert(cs@.subrange(0, cs@.len() as int) =~= value@);
    let ghost t = cs@.subrange(a as int, b as int);
    if b - a < 6 || cs[a] != 'b' || cs[a + 1] != 'y' || cs[a + 2] != 't' || cs[a + 3] != 'e'
        || cs[a + 4] != 's' || cs[a + 5] != ' ' {
        proof {
            if t.len() >= 6 && t.take(6) == bytes_sp_prefix() {
                assert(t.take(6)[0] == t[0]);
                assert(t.take(6)[1] == t[1]);
                assert(t.take(6)[2] == t[2]);
                assert(t.take(6)[3] == t[3]);
                assert(t.take(6)[4] == t[4]);
                assert(t.take(6)[5] == t[5]);
            }
        }
        return None;
    }
    assert(t.take(6) =~= bytes_sp_prefix());
    let p = a + 6;
    let ghost rest = t.skip(6);
    assert(rest =~= cs@.subrange(p as int, b as int));
    let k = match find_char(&cs, p, b, '/') {
        None => {
            proof {
                crate::text::lemma_index_of(rest, '/', -1);
            }
            return None;
        },
        Some(k) => k,
    };
    proof {
        crate::text::lemma_index_of(rest, '/', k - p);
    }
    let ghost range = rest.take(k - p);
    assert(range =~= cs@.subrange(p as int, k as int));
    let d = match find_char(&cs, p, k, '-') {
        None => {
            proof {
                crate::text::lemma_index_of(range, '-', -1);
            }
            return None;
        },
        Some(d) => d,
    };
    proof {
        crate::text::lemma_index_of(range, '-', d - p);
    }
    assert(range.take(d - p) =~= cs@.subrange(p as int, d as int));
    assert(range.skip(d - p + 1) =~= cs@.subrange(d + 1, k as int));
    let x = parse_unsigned_chars(&cs, p, d, u64::MAX);
    let y = parse_unsigned_chars(&cs, d + 1, k, u64::MAX);
    match (x, y) {
        (Some(x), Some(y)) => Some((x, y)),
        _ => None,
    }
}

/// The full object size that `bytes a-b/total` reports after its `/`; `None`
/// when the size is `*` (unknown) or the value is malformed.
pub open spec fn spec_content_range_total(v: Seq<char>) -> Option<u64> {
    let t = crate::text::trim(v);
    if t.len() >= 6 && t.take(6) == bytes_sp_prefix() {
        let rest = t.skip(6);
        let k = crate::text::index_of(rest, '/');
        if k < 0 {
            None
        } else {
            match crate::text::spec_parse_unsigned(rest.skip(k + 1), u64::MAX as int) {
                Some(n) => Some(n as u64),
                None => None,
            }
        }
    } else {
        None
    }
}

/// Parses the full object size out of `bytes a-b/total`.
pub fn content_range_total(value: &str) -> (r: Option<u64>)
    ensures
        r == spec_content_range_total(value@),
{
    let cs = chars_of(value);
    let (a, b) = trim_bounds(&cs, 0, cs.len());
    assert(cs@.subrange(0, cs@.len() as int) =~= value@);
    let ghost t = cs@.subrange(a as int, b as int);
    if b - a < 6 || cs[a] != 'b' || cs[a + 1] != 'y' || cs[a + 2] != 't' || cs[a + 3] != 'e'
        || cs[a + 4] != 's' || cs[a + 5] != ' ' {
        proof {
            if t.len() >= 6 && t.take(6) == bytes_sp_prefix() {
                assert(t.take(6)[0] == t[0]);
                assert(t.take(6)[1] == t[1]);
                assert(t.take(6)[2] == t[2]);
                assert(t.take(6)[3] == t[3]);
                assert(t.take(6)[4] == t[4]);
                assert(t.take(6)[5] == t[5]);
            }
        }
        return None;
    }
    assert(t.take(6) =~= bytes_sp_prefix());
    let p = a + 6;
    let ghost rest = t.skip(6);
    assert(rest =~= cs@.subrange(p as int, b as int));
    let k = match find_char(&cs, p, b, '/') {
        None => {
            proof {
                crate::text::lemma_index_of(rest, '/', -1);
            }
            return None;
        },
        Some(k) => k,
    };
    proof {
        crate::text::lemma_index_of(rest, '/', k - p);
    }
    assert(rest.skip(k - p + 1) =~= cs@.subrange(k + 1, b as int));
    parse_unsigned_chars(&cs, k + 1, b, u64::MAX)
}

/// The full object size and the window `(start, end)` that a `GetObject`
/// answer covers. A ranged answer takes the window from its `Content-Range`
/// header (refused when malformed) and the size from after its `/`, or from
/// `content_length` when the header gives `*`; an unranged answer is the whole
/// object of `content_length` bytes. An empty object counts as missing.
pub fn object_window(
    range: Option<(u64, u64)>,
    content_range: Option<&str>,
    content_length: u64,
) -> (r: Result<(u64, u64, u64), StorageError>)
    ensures
        match (range, content_range) {
            (Some(_), Some(cr)) => match spec_parse_content_range(cr@) {
                None => r matches Err(StorageError::S3(m)) && m@ == "bad content-range"@,
                Some(w) => {
                    let total = match spec_content_range_total(cr@) {
                        Some(n) => n,
                        None => content_length,
                    };
                    if total == 0 {
                        r matches Err(StorageError::NoSuchKey)
                    } else {
                        r == Ok::<(u64, u64, u64), StorageError>((total, w.0, w.1))
                    }
                },
            },
            _ => if content_length == 0 {
                r matches Err(StorageError::NoSuchKey)
            } else {
                r == Ok::<(u64, u64, u64), StorageError>(
                    (content_length, 0, (content_length - 1) as u64),
                )
            },
        },
{
    match (range, content_range) {
        (Some(_), Some(cr)) => {
            let w = match parse_content_range(cr) {
                Some(w) => w,
                None => return Err(StorageError::S3(String::from_str("bad content-range"))),
            };
            let total = match content_range_total(cr) {
                Some(n) => n,
                None => content_length,
            };
            if total == 0 {
                return Err(StorageError::NoSuchKey);
            }
            Ok((total, w.0, w.1))
        },
        _ => {
            if content_length == 0 {
                return Err(StorageError::NoSuchKey);
            }
            Ok((content_length, 0, content_length - 1))
        },
    }
}

} // verus!

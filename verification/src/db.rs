//! The table of uploads and its guarded updates: the part-sequence gate, the
//! download gate, the in-flight byte count and the janitor's selection of dead rows.
//! Rows are keyed by id; every update is a compare-and-set on the row it names.
use vstd::prelude::*;
use crate::text::str_eq;

verus! {

/// One upload, pending or ready.
#[derive(Debug, Clone)]
pub struct UploadRow {
    pub id: String,
    pub name: String,
    pub size: i64,
    pub backend: String,
    pub storage_key: String,
    pub status: String,
    pub received_bytes: i64,
    pub part_count: i64,
    pub s3_upload_id: Option<String>,
    pub ttl_seconds: Option<i64>,
    pub max_downloads: Option<i64>,
    pub download_count: i64,
    pub upload_token: String,
    pub created_at: i64,
    pub expires_at: Option<i64>,
    pub chunk_size: i64,
}

/// Why a table operation failed.
#[derive(Debug, PartialEq, Eq, Structural, Clone, Copy)]
pub enum DbError {
    /// A row with the same id already exists.
    DuplicateId,
    /// A counter or a sum would leave the range of `i64`.
    IntegerOverflow,
}

impl DbError {
    /// The human-readable text of the error.
    pub fn message(&self) -> (s: String)
        ensures
            s@ == match self {
                DbError::DuplicateId => "UNIQUE constraint failed: uploads.id"@,
                DbError::IntegerOverflow => "integer overflow"@,
            },
    {
        match self {
            DbError::DuplicateId => String::from_str("UNIQUE constraint failed: uploads.id"),
            DbError::IntegerOverflow => String::from_str("integer overflow"),
        }
    }
}

// ---------------------------------------------------------------------------
// Row predicates
// ---------------------------------------------------------------------------

pub open spec fn is_pending(r: UploadRow) -> bool {
    r.status@ == "pending"@
}

pub open spec fn is_ready(r: UploadRow) -> bool {
    r.status@ == "ready"@
}

/// Part `seq` (1-based) is the next one that a pending upload expects.
pub open spec fn accepts_part(r: UploadRow, seq: int) -> bool {
    is_pending(r) && r.part_count == seq - 1
}

/// The expiry time has not passed at `now` (or there is none).
pub open spec fn not_expired(r: UploadRow, now: int) -> bool {
    match r.expires_at {
        Some(e) => e > now,
        None => true,
    }
}

/// The download limit has not been reached (or there is none).
pub open spec fn has_downloads_left(r: UploadRow) -> bool {
    match r.max_downloads {
        Some(m) => r.download_count < m,
        None => true,
    }
}

/// A download of `r` at `now` is allowed: ready, not expired, not exhausted.
pub open spec fn download_allowed(r: UploadRow, now: int) -> bool {
    is_ready(r) && not_expired(r, now) && has_downloads_left(r)
}

/// The janitor removes `r` at `now`: expired, count-exhausted, or pending since
/// at least `pending_timeout` seconds.
pub open spec fn is_dead(r: UploadRow, now: int, pending_timeout: int) -> bool {
    ||| (r.expires_at matches Some(e) && e <= now)
    ||| (r.max_downloads matches Some(m) && r.download_count >= m)
    ||| (is_pending(r) && r.created_at <= now - pending_timeout)
}

/// A pending upload on the local backend: its bytes count as in flight.
pub open spec fn is_pending_local(r: UploadRow) -> bool {
    is_pending(r) && r.backend@ == "local"@
}

/// The received bytes of the pending local uploads among `rows`.
pub open spec fn pending_local_sum(rows: Seq<UploadRow>) -> int
    decreases rows.len(),
{
    if rows.len() == 0 {
        0
    } else {
        pending_local_sum(rows.drop_last()) + if is_pending_local(rows.last()) {
            rows.last().received_bytes as int
        } else {
            0
        }
    }
}

// ---------------------------------------------------------------------------
// The table as a map from id to row
// ---------------------------------------------------------------------------

pub open spec fn has_id(rows: Seq<UploadRow>, id: Seq<char>) -> bool {
    exists|i: int| 0 <= i < rows.len() && #[trigger] rows[i].id@ == id
}

pub open spec fn distinct_ids(rows: Seq<UploadRow>) -> bool {
    forall|i: int, j: int|
        0 <= i < rows.len() && 0 <= j < rows.len() && i != j ==> #[trigger] rows[i].id@
            != #[trigger] rows[j].id@
}

/// The rows keyed by id.
pub open spec fn table_of(rows: Seq<UploadRow>) -> Map<Seq<char>, UploadRow> {
    Map::new(
        |k: Seq<char>| has_id(rows, k),
        |k: Seq<char>| rows[choose|i: int| 0 <= i < rows.len() && #[trigger] rows[i].id@ == k],
    )
}

proof fn lemma_table_at(rows: Seq<UploadRow>, i: int)
    requires
        distinct_ids(rows),
        0 <= i < rows.len(),
    ensures
        table_of(rows).contains_key(rows[i].id@),
        table_of(rows)[rows[i].id@] == rows[i],
{
    let k = rows[i].id@;
    assert(has_id(rows, k));
    let j = choose|j: int| 0 <= j < rows.len() && #[trigger] rows[j].id@ == k;
    assert(j == i);
}

proof fn lemma_table_update(rows: Seq<UploadRow>, i: int, r: UploadRow)
    requires
        distinct_ids(rows),
        0 <= i < rows.len(),
        r.id@ == rows[i].id@,
    ensures
        distinct_ids(rows.update(i, r)),
        table_of(rows.update(i, r)) == table_of(rows).insert(r.id@, r),
{
    let nr = rows.update(i, r);
    assert(distinct_ids(nr)) by {
        assert forall|a: int, b: int|
            0 <= a < nr.len() && 0 <= b < nr.len() && a != b implies #[trigger] nr[a].id@
            != #[trigger] nr[b].id@ by {
            assert(rows[a].id@ != rows[b].id@);
        }
    }
    let t = table_of(nr);
    let u = table_of(rows).insert(r.id@, r);
    assert forall|k: Seq<char>| #[trigger] t.contains_key(k) <==> u.contains_key(k) by {
        if has_id(nr, k) {
            let j = choose|j: int| 0 <= j < nr.len() && #[trigger] nr[j].id@ == k;
            if j != i {
                assert(rows[j].id@ == k);
            }
        }
        if has_id(rows, k) {
            let j = choose|j: int| 0 <= j < rows.len() && #[trigger] rows[j].id@ == k;
            assert(nr[j].id@ == k);
        }
        if k == r.id@ {
            assert(nr[i].id@ == k);
        }
    }
    assert forall|k: Seq<char>| t.contains_key(k) implies #[trigger] t[k] == u[k] by {
        let j = choose|j: int| 0 <= j < nr.len() && #[trigger] nr[j].id@ == k;
        lemma_table_at(nr, j);
        if j != i {
            assert(rows[j].id@ == k);
            lemma_table_at(rows, j);
        }
    }
    assert(t =~= u);
}

proof fn lemma_table_push(rows: Seq<UploadRow>, r: UploadRow)
    requires
        distinct_ids(rows),
        !has_id(rows, r.id@),
    ensures
        distinct_ids(rows.push(r)),
        table_of(rows.push(r)) == table_of(rows).insert(r.id@, r),
{
    let nr = rows.push(r);
    assert(distinct_ids(nr)) by {
        assert forall|a: int, b: int|
            0 <= a < nr.len() && 0 <= b < nr.len() && a != b implies #[trigger] nr[a].id@
            != #[trigger] nr[b].id@ by {
            if a < rows.len() && b < rows.len() {
                assert(rows[a].id@ != rows[b].id@);
            } else if a < rows.len() {
                assert(rows[a].id@ != r.id@);
            } else {
                assert(rows[b].id@ != r.id@);
            }
        }
    }
    let t = table_of(nr);
    let u = table_of(rows).insert(r.id@, r);
    assert forall|k: Seq<char>| #[trigger] t.contains_key(k) <==> u.contains_key(k) by {
        if has_id(nr, k) {
            let j = choose|j: int| 0 <= j < nr.len() && #[trigger] nr[j].id@ == k;
            if j < rows.len() {
                assert(rows[j].id@ == k);
            }
        }
        if has_id(rows, k) {
            let j = choose|j: int| 0 <= j < rows.len() && #[trigger] rows[j].id@ == k;
            assert(nr[j].id@ == k);
        }
        if k == r.id@ {
            assert(nr[rows.len() as int].id@ == k);
        }
    }
    assert forall|k: Seq<char>| t.contains_key(k) implies #[trigger] t[k] == u[k] by {
        let j = choose|j: int| 0 <= j < nr.len() && #[trigger] nr[j].id@ == k;
        lemma_table_at(nr, j);
        if j < rows.len() {
            assert(rows[j].id@ == k);
            lemma_table_at(rows, j);
        }
    }
    assert(t =~= u);
}

proof fn lemma_table_remove(rows: Seq<UploadRow>, i: int)
    requires
        distinct_ids(rows),
        0 <= i < rows.len(),
    ensures
        distinct_ids(rows.remove(i)),
        table_of(rows.remove(i)) == table_of(rows).remove(rows[i].id@),
{
    let nr = rows.remove(i);
    let id = rows[i].id@;
    assert forall|a: int| 0 <= a < nr.len() implies #[trigger] nr[a] == rows[if a < i {
        a
    } else {
        a + 1
    }] by {}
    assert(distinct_ids(nr)) by {
        assert forall|a: int, b: int|
            0 <= a < nr.len() && 0 <= b < nr.len() && a != b implies #[trigger] nr[a].id@
            != #[trigger] nr[b].id@ by {
            let a2 = if a < i { a } else { a + 1 };
            let b2 = if b < i { b } else { b + 1 };
            assert(nr[a] == rows[a2]);
            assert(nr[b] == rows[b2]);
            assert(rows[a2].id@ != rows[b2].id@);
        }
    }
    let t = table_of(nr);
    let u = table_of(rows).remove(id);
    assert forall|k: Seq<char>| #[trigger] t.contains_key(k) <==> u.contains_key(k) by {
        if has_id(nr, k) {
            let j = choose|j: int| 0 <= j < nr.len() && #[trigger] nr[j].id@ == k;
            let j2 = if j < i { j } else { j + 1 };
            assert(nr[j] == rows[j2]);
            assert(rows[j2].id@ == k);
            assert(j2 != i);
            assert(k != id);
        }
        if has_id(rows, k) && k != id {
            let j = choose|j: int| 0 <= j < rows.len() && #[trigger] rows[j].id@ == k;
            assert(j != i);
            let j1 = if j < i { j } else { j - 1 };
            assert(nr[j1] == rows[j]);
            assert(nr[j1].id@ == k);
        }
    }
    assert forall|k: Seq<char>| t.contains_key(k) implies #[trigger] t[k] == u[k] by {
        let j = choose|j: int| 0 <= j < nr.len() && #[trigger] nr[j].id@ == k;
        lemma_table_at(nr, j);
        let j2 = if j < i { j } else { j + 1 };
        assert(nr[j] == rows[j2]);
        lemma_table_at(rows, j2);
    }
    assert(t =~= u);
}

/// The received bytes of the pending local uploads in the table `t`: the sum
/// over any listing of its rows, each once (every listing gives the same sum).
pub open spec fn pending_local_total(t: Map<Seq<char>, UploadRow>) -> int {
    pending_local_sum(choose|rows: Seq<UploadRow>| distinct_ids(rows) && table_of(rows) == t)
}

/// What row `r` adds to the in-flight byte count.
pub open spec fn pending_local_bytes_of(r: UploadRow) -> int {
    if is_pending_local(r) {
        r.received_bytes as int
    } else {
        0
    }
}

proof fn lemma_sum_remove(rows: Seq<UploadRow>, j: int)
    requires
        0 <= j < rows.len(),
    ensures
        pending_local_sum(rows) == pending_local_sum(rows.remove(j)) + pending_local_bytes_of(
            rows[j],
        ),
    decreases rows.len(),
{
    if j == rows.len() - 1 {
        assert(rows.remove(j) =~= rows.drop_last());
    } else {
        let d = rows.drop_last();
        lemma_sum_remove(d, j);
        assert(d.remove(j) =~= rows.remove(j).drop_last());
        assert(rows.remove(j).last() == rows.last());
    }
}

/// Two listings of the same table have the same in-flight sum.
proof fn lemma_sum_same_table(a: Seq<UploadRow>, b: Seq<UploadRow>)
    requires
        distinct_ids(a),
        distinct_ids(b),
        table_of(a) == table_of(b),
    ensures
        pending_local_sum(a) == pending_local_sum(b),
    decreases a.len(),
{
    if a.len() == 0 {
        if b.len() > 0 {
            lemma_table_at(b, 0);
            assert(table_of(a).contains_key(b[0].id@));
        }
    } else {
        let last = a.len() - 1;
        let r = a[last];
        lemma_table_at(a, last);
        let j = choose|j: int| 0 <= j < b.len() && #[trigger] b[j].id@ == r.id@;
        lemma_table_at(b, j);
        lemma_table_remove(a, last);
        lemma_table_remove(b, j);
        assert(a.remove(last) =~= a.drop_last());
        lemma_sum_same_table(a.drop_last(), b.remove(j));
        lemma_sum_remove(b, j);
    }
}

/// The in-flight sum of a table equals that of any listing of its rows.
pub proof fn lemma_total_of_listing(rows: Seq<UploadRow>)
    requires
        distinct_ids(rows),
    ensures
        pending_local_total(table_of(rows)) == pending_local_sum(rows),
{
    let t = table_of(rows);
    let other = choose|s: Seq<UploadRow>| distinct_ids(s) && table_of(s) == t;
    assert(distinct_ids(rows) && table_of(rows) == t);
    lemma_sum_same_table(rows, other);
}

/// An empty table has no bytes in flight.
pub proof fn lemma_empty_table_has_nothing_in_flight()
    ensures
        pending_local_total(Map::<Seq<char>, UploadRow>::empty()) == 0,
{
    let rows = Seq::<UploadRow>::empty();
    assert(table_of(rows) =~= Map::<Seq<char>, UploadRow>::empty());
    lemma_total_of_listing(rows);
}

// ---------------------------------------------------------------------------
// The table
// ---------------------------------------------------------------------------

/// The uploads table: rows with distinct ids.
pub struct Db {
    rows: Vec<UploadRow>,
}

impl View for Db {
    type V = Map<Seq<char>, UploadRow>;

    closed spec fn view(&self) -> Map<Seq<char>, UploadRow> {
        table_of(self.rows@)
    }
}

/// An exact copy of a row.
pub fn copy_row(r: &UploadRow) -> (c: UploadRow)
    ensures
        c == *r,
{
    UploadRow {
        id: r.id.clone(),
        name: r.name.clone(),
        size: r.size,
        backend: r.backend.clone(),
        storage_key: r.storage_key.clone(),
        status: r.status.clone(),
        received_bytes: r.received_bytes,
        part_count: r.part_count,
        s3_upload_id: match &r.s3_upload_id {
            Some(s) => Some(s.clone()),
            None => None,
        },
        ttl_seconds: r.ttl_seconds,
        max_downloads: r.max_downloads,
        download_count: r.download_count,
        upload_token: r.upload_token.clone(),
        created_at: r.created_at,
        expires_at: r.expires_at,
        chunk_size: r.chunk_size,
    }
}

impl Db {
    #[verifier::type_invariant]
    closed spec fn inv(self) -> bool {
        distinct_ids(self.rows@)
    }

    /// An empty table.
    pub fn open_in_memory() -> (db: Db)
        ensures
            db@ == Map::<Seq<char>, UploadRow>::empty(),
            db.rows_seq() == Seq::<UploadRow>::empty(),
    {
        let db = Db { rows: Vec::new() };
        assert(db@ =~= Map::<Seq<char>, UploadRow>::empty());
        db
    }

    /// The number of rows.
    pub fn len(&self) -> (n: usize)
        ensures
            n == self@.len(),
    {
        proof {
            use_type_invariant(self);
            self.lemma_len();
        }
        self.rows.len()
    }

    proof fn lemma_len(&self)
        requires
            distinct_ids(self.rows@),
        ensures
            self@.dom().finite(),
            self@.len() == self.rows@.len(),
        decreases self.rows@.len(),
    {
        let rows = self.rows@;
        let ids = Seq::new(rows.len(), |i: int| rows[i].id@);
        assert(self@.dom() =~= ids.to_set()) by {
            assert forall|k: Seq<char>| self@.dom().contains(k) <==> ids.to_set().contains(k) by {
                if ids.to_set().contains(k) {
                    let i = choose|i: int| 0 <= i < ids.len() && ids[i] == k;
                    assert(rows[i].id@ == k);
                }
                if self@.dom().contains(k) {
                    let i = choose|i: int| 0 <= i < rows.len() && #[trigger] rows[i].id@ == k;
                    assert(ids[i] == k);
                }
            }
        }
        assert(ids.no_duplicates()) by {
            assert forall|a: int, b: int|
                0 <= a < ids.len() && 0 <= b < ids.len() && a != b implies ids[a] != ids[b] by {
                assert(rows[a].id@ != rows[b].id@);
            }
        }
        ids.unique_seq_to_set();
    }

    /// The position of the row with id `id`.
    fn find(&self, id: &str) -> (r: Option<usize>)
        ensures
            match r {
                Some(i) => i < self.rows@.len() && self.rows@[i as int].id@ == id@,
                None => !has_id(self.rows@, id@),
            },
    {
        let mut i: usize = 0;
        while i < self.rows.len()
            invariant
                0 <= i <= self.rows@.len(),
                forall|j: int| 0 <= j < i ==> self.rows@[j].id@ != id@,
            decreases self.rows.len() - i,
        {
            if str_eq(self.rows[i].id.as_str(), id) {
                return Some(i);
            }
            i = i + 1;
        }
        None
    }

    /// Replaces the row at `i` by `r`, which has the same id.
    fn put(&mut self, i: usize, r: UploadRow)
        requires
            i < old(self).rows@.len(),
            r.id@ == old(self).rows@[i as int].id@,
        ensures
            final(self)@ == old(self)@.insert(r.id@, r),
            final(self).rows@ == old(self).rows@.update(i as int, r),
    {
        proof {
            use_type_invariant(&*self);
            lemma_table_update(self.rows@, i as int, r);
        }
        let mut rows: Vec<UploadRow> = Vec::new();
        std::mem::swap(&mut rows, &mut self.rows);
        rows.set(i, r);
        self.rows = rows;
    }

    /// Inserts a new row. Fails, changing nothing, when its id is taken.
    pub fn create_upload(&mut self, row: &UploadRow) -> (r: Result<(), DbError>)
        ensures
            old(self)@.contains_key(row.id@) ==> r == Err::<(), DbError>(DbError::DuplicateId)
                && final(self)@ == old(self)@,
            !old(self)@.contains_key(row.id@) ==> r is Ok && final(self)@ == old(self)@.insert(
                row.id@,
                *row,
            ),
    {
        proof {
            use_type_invariant(&*self);
        }
        if let Some(i) = self.find(row.id.as_str()) {
            proof {
                lemma_table_at(self.rows@, i as int);
            }
            return Err(DbError::DuplicateId);
        }
        proof {
            lemma_table_push(self.rows@, *row);
        }
        let mut rows: Vec<UploadRow> = Vec::new();
        std::mem::swap(&mut rows, &mut self.rows);
        rows.push(copy_row(row));
        self.rows = rows;
        Ok(())
    }

    /// The row with id `id`, if any.
    pub fn get_upload(&self, id: &str) -> (r: Option<UploadRow>)
        ensures
            r == self@.get(id@),
    {
        proof {
            use_type_invariant(self);
        }
        match self.find(id) {
            Some(i) => {
                proof {
                    lemma_table_at(self.rows@, i as int);
                }
                Some(copy_row(&self.rows[i]))
            },
            None => None,
        }
    }

    /// Accepts part number `seq`, counted from one: when the row is pending and
    /// has exactly `seq - 1` parts, counts the part and its `chunk_bytes` and
    /// returns `true`; otherwise changes nothing and returns `false`.
    pub fn take_part(&mut self, id: &str, seq: i64, chunk_bytes: i64) -> (r: Result<bool, DbError>)
        ensures
            !(old(self)@.contains_key(id@) && accepts_part(old(self)@[id@], seq as int)) ==> r
                == Ok::<bool, DbError>(false) && final(self)@ == old(self)@,
            old(self)@.contains_key(id@) && accepts_part(old(self)@[id@], seq as int) ==> ({
                let row = old(self)@[id@];
                let fits = row.received_bytes + chunk_bytes <= i64::MAX && row.received_bytes
                    + chunk_bytes >= i64::MIN;
                &&& fits ==> r == Ok::<bool, DbError>(true) && final(self)@ == old(self)@.insert(
                    id@,
                    UploadRow {
                        part_count: (row.part_count + 1) as i64,
                        received_bytes: (row.received_bytes + chunk_bytes) as i64,
                        ..row
                    },
                )
                &&& !fits ==> r == Err::<bool, DbError>(DbError::IntegerOverflow) && final(self)@
                    == old(self)@
            }),
    {
        proof {
            use_type_invariant(&*self);
        }
        let i = match self.find(id) {
            None => return Ok(false),
            Some(i) => i,
        };
        proof {
            lemma_table_at(self.rows@, i as int);
        }
        let row = &self.rows[i];
        if !str_eq(row.status.as_str(), "pending") || row.part_count as i128 != seq as i128 - 1 {
            return Ok(false);
        }
        let sum: i128 = row.received_bytes as i128 + chunk_bytes as i128;
        if sum > i64::MAX as i128 || sum < i64::MIN as i128 {
            return Err(DbError::IntegerOverflow);
        }
        let mut updated = copy_row(row);
        updated.part_count = row.part_count + 1;
        updated.received_bytes = sum as i64;
        self.put(i, updated);
        Ok(true)
    }

    /// Counts one more presigned part of a pending upload; `false` (nothing
    /// changed) when the row is missing or not pending.
    pub fn bump_part_count(&mut self, id: &str) -> (r: Result<bool, DbError>)
        ensures
            !(old(self)@.contains_key(id@) && is_pending(old(self)@[id@])) ==> r == Ok::<
                bool,
                DbError,
            >(false) && final(self)@ == old(self)@,
            old(self)@.contains_key(id@) && is_pending(old(self)@[id@]) ==> ({
                let row = old(self)@[id@];
                &&& row.part_count < i64::MAX ==> r == Ok::<bool, DbError>(true) && final(self)@
                    == old(self)@.insert(id@, UploadRow { part_count: (row.part_count + 1) as i64, ..row })
                &&& row.part_count == i64::MAX ==> r == Err::<bool, DbError>(
                    DbError::IntegerOverflow,
                ) && final(self)@ == old(self)@
            }),
    {
        proof {
            use_type_invariant(&*self);
        }
        let i = match self.find(id) {
            None => return Ok(false),
            Some(i) => i,
        };
        proof {
            lemma_table_at(self.rows@, i as int);
        }
        let row = &self.rows[i];
        if !str_eq(row.status.as_str(), "pending") {
            return Ok(false);
        }
        if row.part_count == i64::MAX {
            return Err(DbError::IntegerOverflow);
        }
        let mut updated = copy_row(row);
        updated.part_count = row.part_count + 1;
        self.put(i, updated);
        Ok(true)
    }

    /// Records the S3 multipart upload id of a row (no effect when it is missing).
    pub fn set_s3_upload_id(&mut self, id: &str, upload_id: &str)
        ensures
            old(self)@.contains_key(id@) ==> final(self)@ == old(self)@.insert(
                id@,
                UploadRow { s3_upload_id: Some(final(self)@[id@].s3_upload_id->0), ..old(self)@[id@] },
            ) && final(self)@[id@].s3_upload_id->0@ == upload_id@,
            !old(self)@.contains_key(id@) ==> final(self)@ == old(self)@,
    {
        proof {
            use_type_invariant(&*self);
        }
        if let Some(i) = self.find(id) {
            proof {
                lemma_table_at(self.rows@, i as int);
            }
            let mut updated = copy_row(&self.rows[i]);
            updated.s3_upload_id = Some(String::from_str(upload_id));
            self.put(i, updated);
            proof {
                lemma_table_at(self.rows@, i as int);
            }
        }
    }

    /// Marks a row ready with its final size (no effect when it is missing).
    pub fn complete_upload(&mut self, id: &str, final_size: i64)
        ensures
            old(self)@.contains_key(id@) ==> final(self)@ == old(self)@.insert(
                id@,
                UploadRow { status: final(self)@[id@].status, size: final_size, ..old(self)@[id@] },
            ) && is_ready(final(self)@[id@]),
            !old(self)@.contains_key(id@) ==> final(self)@ == old(self)@,
    {
        proof {
            use_type_invariant(&*self);
        }
        if let Some(i) = self.find(id) {
            proof {
                lemma_table_at(self.rows@, i as int);
            }
            let mut updated = copy_row(&self.rows[i]);
            updated.status = String::from_str("ready");
            updated.size = final_size;
            self.put(i, updated);
            proof {
                lemma_table_at(self.rows@, i as int);
            }
        }
    }

    /// Removes a row (no effect when it is missing).
    pub fn delete_upload(&mut self, id: &str)
        ensures
            final(self)@ == old(self)@.remove(id@),
    {
        proof {
            use_type_invariant(&*self);
        }
        match self.find(id) {
            Some(i) => {
                proof {
                    lemma_table_remove(self.rows@, i as int);
                }
                let mut rows: Vec<UploadRow> = Vec::new();
                std::mem::swap(&mut rows, &mut self.rows);
                rows.remove(i);
                self.rows = rows;
            },
            None => {
                assert(old(self)@.remove(id@) =~= old(self)@);
            },
        }
    }

    /// The download gate: when a download of the row is allowed at `now`
    /// (ready, not expired, limit not reached), counts it and returns `true`;
    /// otherwise changes nothing and returns `false`.
    pub fn increment_download(&mut self, id: &str, now: i64) -> (r: Result<bool, DbError>)
        ensures
            !(old(self)@.contains_key(id@) && download_allowed(old(self)@[id@], now as int)) ==> r
                == Ok::<bool, DbError>(false) && final(self)@ == old(self)@,
            old(self)@.contains_key(id@) && download_allowed(old(self)@[id@], now as int) ==> ({
                let row = old(self)@[id@];
                &&& row.download_count < i64::MAX ==> r == Ok::<bool, DbError>(true) && final(self)@ == old(self)@.insert(
                    id@,
                    UploadRow { download_count: (row.download_count + 1) as i64, ..row },
                )
                &&& row.download_count == i64::MAX ==> r == Err::<bool, DbError>(
                    DbError::IntegerOverflow,
                ) && final(self)@ == old(self)@
            }),
    {
        proof {
            use_type_invariant(&*self);
        }
        let i = match self.find(id) {
            None => return Ok(false),
            Some(i) => i,
        };
        proof {
            lemma_table_at(self.rows@, i as int);
        }
        let row = &self.rows[i];
        if !str_eq(row.status.as_str(), "ready") {
            return Ok(false);
        }
        if let Some(e) = row.expires_at {
            if e <= now {
                return Ok(false);
            }
        }
        if let Some(m) = row.max_downloads {
            if row.download_count >= m {
                return Ok(false);
            }
        }
        if row.download_count == i64::MAX {
            return Err(DbError::IntegerOverflow);
        }
        let mut updated = copy_row(row);
        updated.download_count = row.download_count + 1;
        self.put(i, updated);
        Ok(true)
    }

    /// The received bytes of all pending uploads on the local backend.
    pub fn pending_local_bytes(&self) -> (r: Result<i64, DbError>)
        ensures
            distinct_ids(self.rows_seq()),
            pending_local_total(self@) == pending_local_sum(self.rows_seq()),
            ({
                let total = pending_local_total(self@);
                &&& i64::MIN <= total <= i64::MAX ==> r == Ok::<i64, DbError>(total as i64)
                &&& !(i64::MIN <= total <= i64::MAX) ==> r == Err::<i64, DbError>(
                    DbError::IntegerOverflow,
                )
            }),
    {
        proof {
            use_type_invariant(self);
            lemma_total_of_listing(self.rows@);
        }
        let mut total: i128 = 0;
        let mut i: usize = 0;
        while i < self.rows.len()
            invariant
                0 <= i <= self.rows@.len(),
                total == pending_local_sum(self.rows@.take(i as int)),
                i64::MIN * i <= total <= i64::MAX * i,
            decreases self.rows.len() - i,
        {
            let row = &self.rows[i];
            assert(self.rows@.take(i + 1).drop_last() =~= self.rows@.take(i as int));
            if str_eq(row.status.as_str(), "pending") && str_eq(row.backend.as_str(), "local") {
                total = total + row.received_bytes as i128;
            }
            i = i + 1;
        }
        assert(self.rows@.take(i as int) =~= self.rows@);
        if total > i64::MAX as i128 || total < i64::MIN as i128 {
            Err(DbError::IntegerOverflow)
        } else {
            Ok(total as i64)
        }
    }

    /// The rows, in insertion order.
    pub closed spec fn rows_seq(&self) -> Seq<UploadRow> {
        self.rows@
    }

    /// The table is the rows keyed by id.
    pub proof fn lemma_view_is_rows(&self)
        ensures
            self@ == table_of(self.rows_seq()),
    {
    }

    /// The rows that the janitor must remove at `now`: expired, count-exhausted,
    /// or pending since `pending_timeout_secs` or longer. Each such row appears
    /// once, and nothing else does.
    pub fn sweep(&self, now: i64, pending_timeout_secs: i64) -> (r: Vec<UploadRow>)
        ensures
            forall|k: int|
                0 <= k < r@.len() ==> self@.contains_key(#[trigger] r@[k].id@) && self@[r@[k].id@]
                    == r@[k] && is_dead(r@[k], now as int, pending_timeout_secs as int),
            forall|id: Seq<char>|
                #[trigger] self@.contains_key(id) && is_dead(self@[id], now as int, pending_timeout_secs as int)
                    ==> exists|k: int| 0 <= k < r@.len() && r@[k].id@ == id,
            distinct_ids(r@),
    {
        proof {
            use_type_invariant(self);
        }
        let cutoff: i128 = now as i128 - pending_timeout_secs as i128;
        let mut out: Vec<UploadRow> = Vec::new();
        let ghost mut from: Seq<int> = Seq::empty();
        let mut i: usize = 0;
        while i < self.rows.len()
            invariant
                0 <= i <= self.rows@.len(),
                distinct_ids(self.rows@),
                cutoff == now - pending_timeout_secs,
                from.len() == out@.len(),
                forall|k: int|
                    0 <= k < out@.len() ==> 0 <= #[trigger] from[k] < i && out@[k] == self.rows@[from[k]]
                        && is_dead(out@[k], now as int, pending_timeout_secs as int),
                forall|a: int, b: int| 0 <= a < b < from.len() ==> from[a] < from[b],
                forall|j: int|
                    0 <= j < i && is_dead(#[trigger] self.rows@[j], now as int, pending_timeout_secs as int)
                        ==> exists|k: int| 0 <= k < out@.len() && from[k] == j,
            decreases self.rows.len() - i,
        {
            let row = &self.rows[i];
            let expired = match row.expires_at {
                Some(e) => e <= now,
                None => false,
            };
            let exhausted = match row.max_downloads {
                Some(m) => row.download_count >= m,
                None => false,
            };
            let stale = str_eq(row.status.as_str(), "pending") && row.created_at as i128 <= cutoff;
            let ghost from0 = from;
            if expired || exhausted || stale {
                out.push(copy_row(row));
                proof {
                    from = from.push(i as int);
                }
            }
            proof {
                assert forall|j: int|
                    0 <= j < i + 1 && is_dead(
                        #[trigger] self.rows@[j],
                        now as int,
                        pending_timeout_secs as int,
                    ) implies exists|k: int| 0 <= k < out@.len() && from[k] == j by {
                    if j == i {
                        assert(from[from.len() - 1] == j);
                    } else {
                        let k = choose|k: int| 0 <= k < from0.len() && from0[k] == j;
                        assert(from[k] == j);
                    }
                }
            }
            i = i + 1;
        }
        proof {
            assert forall|k: int| 0 <= k < out@.len() implies self@.contains_key(
                #[trigger] out@[k].id@,
            ) && self@[out@[k].id@] == out@[k] && is_dead(
                out@[k],
                now as int,
                pending_timeout_secs as int,
            ) by {
                lemma_table_at(self.rows@, from[k]);
            }
            assert forall|id: Seq<char>|
                #[trigger] self@.contains_key(id) && is_dead(
                    self@[id],
                    now as int,
                    pending_timeout_secs as int,
                ) implies exists|k: int| 0 <= k < out@.len() && out@[k].id@ == id by {
                let j = choose|j: int| 0 <= j < self.rows@.len() && #[trigger] self.rows@[j].id@ == id;
                lemma_table_at(self.rows@, j);
                let k = choose|k: int| 0 <= k < out@.len() && from[k] == j;
                assert(out@[k].id@ == id);
            }
            assert forall|a: int, b: int|
                0 <= a < out@.len() && 0 <= b < out@.len() && a != b implies #[trigger] out@[a].id@
                != #[trigger] out@[b].id@ by {
                assert(from[a] != from[b]);
            }
        }
        out
    }

    /// Overwrites the expiry time of a row (no effect when it is missing).
    pub fn set_expires_at(&mut self, id: &str, ts: i64)
        ensures
            old(self)@.contains_key(id@) ==> final(self)@ == old(self)@.insert(
                id@,
                UploadRow { expires_at: Some(ts), ..old(self)@[id@] },
            ),
            !old(self)@.contains_key(id@) ==> final(self)@ == old(self)@,
    {
        proof {
            use_type_invariant(&*self);
        }
        if let Some(i) = self.find(id) {
            proof {
                lemma_table_at(self.rows@, i as int);
            }
            let mut updated = copy_row(&self.rows[i]);
            updated.expires_at = Some(ts);
            self.put(i, updated);
        }
    }

    /// Overwrites the creation time of a row (no effect when it is missing).
    pub fn set_created_at(&mut self, id: &str, ts: i64)
        ensures
            old(self)@.contains_key(id@) ==> final(self)@ == old(self)@.insert(
                id@,
                UploadRow { created_at: ts, ..old(self)@[id@] },
            ),
            !old(self)@.contains_key(id@) ==> final(self)@ == old(self)@,
    {
        proof {
            use_type_invariant(&*self);
        }
        if let Some(i) = self.find(id) {
            proof {
                lemma_table_at(self.rows@, i as int);
            }
            let mut updated = copy_row(&self.rows[i]);
            updated.created_at = ts;
            self.put(i, updated);
        }
    }
}

// ---------------------------------------------------------------------------
// Laws
// ---------------------------------------------------------------------------

/// The row after `take_part` accepted a part of `chunk` bytes.
pub open spec fn after_part(r: UploadRow, chunk: int) -> UploadRow {
    UploadRow {
        part_count: (r.part_count + 1) as i64,
        received_bytes: (r.received_bytes + chunk) as i64,
        ..r
    }
}

/// The row after `increment_download` counted a download.
pub open spec fn after_download(r: UploadRow) -> UploadRow {
    UploadRow { download_count: (r.download_count + 1) as i64, ..r }
}

/// Parts arrive strictly in sequence: once part `seq` is accepted, the same part
/// is refused and part `seq + 1` is the one expected.
pub proof fn lemma_part_gate_is_sequential(r: UploadRow, seq: int, chunk: int)
    requires
        accepts_part(r, seq),
        r.part_count < i64::MAX,
        i64::MIN <= r.received_bytes + chunk <= i64::MAX,
    ensures
        !accepts_part(after_part(r, chunk), seq),
        accepts_part(after_part(r, chunk), seq + 1),
        after_part(r, chunk).received_bytes == r.received_bytes + chunk,
{
}

/// A ready upload never accepts parts.
pub proof fn lemma_ready_accepts_no_part(r: UploadRow, seq: int)
    requires
        is_ready(r),
    ensures
        !accepts_part(r, seq),
{
    reveal_strlit("ready");
    reveal_strlit("pending");
    assert("ready"@[0] != "pending"@[0]);
}

/// A download limit is never overrun: counting an allowed download keeps the
/// count within the limit, and the download that reaches the limit is the last.
pub proof fn lemma_download_limit_holds(r: UploadRow, now: int)
    requires
        download_allowed(r, now),
        r.download_count < i64::MAX,
    ensures
        r.max_downloads matches Some(m) ==> after_download(r).download_count <= m,
        r.max_downloads matches Some(m) && after_download(r).download_count == m ==> !download_allowed(
            after_download(r),
            now,
        ),
{
}

/// Expiry is final: an upload that may not be downloaded at `now` because its
/// time ran out may not be downloaded at any later time either.
pub proof fn lemma_expiry_is_final(r: UploadRow, now: int, later: int)
    requires
        !not_expired(r, now),
        now <= later,
    ensures
        !download_allowed(r, later),
{
}

/// An upload still being transferred is never swept: a pending upload created
/// after `now - pending_timeout`, whose expiry (if any) is later than `now` and
/// whose download limit (if any) is not reached, is not dead at `now`.
pub proof fn lemma_in_progress_upload_is_kept(r: UploadRow, now: int, pending_timeout: int)
    requires
        is_pending(r),
        r.created_at > now - pending_timeout,
        r.expires_at matches Some(e) ==> e > now,
        r.max_downloads matches Some(m) ==> r.download_count < m,
    ensures
        !is_dead(r, now, pending_timeout),
{
}

/// A pending upload created at or before `now - pending_timeout` is stale and
/// is swept at `now`, whatever its expiry and download limit.
pub proof fn lemma_stale_pending_upload_is_swept(r: UploadRow, now: int, pending_timeout: int)
    requires
        is_pending(r),
        r.created_at <= now - pending_timeout,
    ensures
        is_dead(r, now, pending_timeout),
{
}

/// An upload whose expiry is at or before `now`, or whose download count has
/// reached its limit, is swept at `now`, whatever its status.
pub proof fn lemma_expired_or_exhausted_is_swept(r: UploadRow, now: int, pending_timeout: int)
    requires
        (r.expires_at matches Some(e) && e <= now) || (r.max_downloads matches Some(m)
            && r.download_count >= m),
    ensures
        is_dead(r, now, pending_timeout),
{
}

/// The janitor spares live uploads: a row that may be downloaded at `now` is
/// not selected by the sweep at `now`, whatever the pending timeout.
pub proof fn lemma_live_rows_survive_sweep(r: UploadRow, now: int, pending_timeout: int)
    requires
        download_allowed(r, now),
    ensures
        !is_dead(r, now, pending_timeout),
{
    reveal_strlit("ready");
    reveal_strlit("pending");
    assert("ready"@[0] != "pending"@[0]);
}

/// Every row that can no longer be downloaded because of its expiry or its
/// download limit is selected by the sweep.
pub proof fn lemma_dead_rows_are_swept(r: UploadRow, now: int, pending_timeout: int)
    requires
        is_ready(r),
        !download_allowed(r, now),
    ensures
        is_dead(r, now, pending_timeout),
{
}

/// Nothing is served before completion: a pending upload is never downloadable.
pub proof fn lemma_pending_not_downloadable(r: UploadRow, now: int)
    requires
        is_pending(r),
    ensures
        !download_allowed(r, now),
{
    reveal_strlit("ready");
    reveal_strlit("pending");
    assert("ready"@[0] != "pending"@[0]);
}

} // verus!

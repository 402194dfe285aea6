//! Persistence layer: SQLite (WAL) plus an in-memory cache of the live
//! entries.
//!
//! Design notes:
//!   - `id` is `INTEGER PRIMARY KEY AUTOINCREMENT` so user-typeable IDs
//!     (`/del 42`) stay short and are never recycled after deletion.
//!   - Deletes are soft (`deleted_at` timestamp). Rows stay in the file so
//!     a user can recover them via SQL even though the UI offers no undo.
//!   - All read queries filter `deleted_at IS NULL`.
//!   - The `entries_fts` virtual table is kept for future full-text search;
//!     `search` runs against the in-memory cache.
//!   - Instants are milliseconds since the Unix epoch.

use vstd::prelude::*;

use crate::classifier::{due_today_spec, is_due_today};
use crate::clock::{
    clock_label, day_number, format_clock_label, read_clock, shifted_day, ClockReading,
    utc_millis_representable, valid_utc_ms, clock_read, from_zone, LocalTime, DAY_MS,
};
use crate::db::{
    execute_batch, execute_with_two, insert_returning_id, open_connection,
    open_memory_connection, query_optional_row, query_rows, query_single_integer, statements,
    EntryRow, SqlCall,
    LIVE_ROWS_SQL, RESURFACE_CANDIDATE_SQL,
};
use crate::text::{chars_of, contains_chars, contains_seq, lowercase, to_lowercase, trim, trim_range};

verus! {

/// Maximum length of a single entry, in characters. Anything longer is
/// silently truncated at insert time.
pub const MAX_LEN: usize = 140;

/// One captured thought.
#[derive(Debug, Clone)]
pub struct Entry {
    pub id: i64,
    pub text: String,
    /// Creation instant, in milliseconds since the Unix epoch (UTC).
    pub created_at: i64,
    pub due_today: bool,
    /// When the entry was last shown in the `過去から` section, if ever.
    pub last_resurfaced_at: Option<i64>,
}

/// Everything that can go wrong in the store.
#[derive(Debug)]
pub enum StoreError {
    /// The text was empty or whitespace only.
    EmptyEntry,
    /// A stored `created_at` is outside the representable range (the value).
    InvalidCreatedAt(i64),
    /// SQLite reported an error.
    Database(rusqlite::Error),
}

impl Entry {
    /// The timestamps are representable instants.
    pub open spec fn wf(&self) -> bool {
        &&& valid_utc_ms(self.created_at as int)
        &&& (self.last_resurfaced_at matches Some(l) ==> valid_utc_ms(l as int))
    }

    /// An identical copy of the entry.
    pub fn duplicate(&self) -> (r: Entry)
        ensures
            r == *self,
    {
        Entry {
            id: self.id,
            text: self.text.clone(),
            created_at: self.created_at,
            due_today: self.due_today,
            last_resurfaced_at: self.last_resurfaced_at,
        }
    }

    /// Is the entry due today, given the local UTC offset (in seconds) at its
    /// creation and the local time now?
    pub open spec fn due_on(&self, created_offset_secs: int, now: LocalTime) -> bool {
        &&& self.due_today
        &&& day_number(self.created_at + created_offset_secs * 1000) == day_number(now.local_ms())
    }

    /// The `H:MM` label of the creation time on a clock `offset_secs` seconds
    /// ahead of UTC.
    pub open spec fn label_with_offset(&self, offset_secs: int) -> Seq<char> {
        clock_label(self.created_at + offset_secs * 1000)
    }

    /// `H:MM` in local time, no leading zero on the hour (`9:14`, `17:42`).
    pub fn time_label(&self) -> (s: String)
        requires
            self.wf(),
        ensures
            exists|off: int| -86_400 < off < 86_400 && s@ == #[trigger] self.label_with_offset(off),
            local_label(self.created_at, s@),
    {
        let t = LocalTime::at(self.created_at);
        let local_ms = t.utc_ms + (t.offset_secs as i64) * 1000;
        let s = format_clock_label(local_ms);
        assert(-86_400 < t.offset_secs as int && s@ == self.label_with_offset(t.offset_secs as int));
        assert(from_zone(t) && s@ == clock_label(t.local_ms()));
        s
    }

    /// Does this entry belong in the `今日中` section at local time `now`,
    /// with `created` the local time of its creation?
    pub fn is_due_on_same_day(&self, created: LocalTime, now: LocalTime) -> (r: bool)
        requires
            created.wf(),
            created.utc_ms == self.created_at,
            now.wf(),
        ensures
            r == self.due_on(created.offset_secs as int, now),
    {
        if !self.due_today {
            return false;
        }
        let a = shifted_day(created.utc_ms + (created.offset_secs as i64) * 1000);
        let b = shifted_day(now.utc_ms + (now.offset_secs as i64) * 1000);
        a == b
    }

    /// Does this entry belong in the `今日中` section right now?
    pub fn is_due_today_now(&self, now: LocalTime) -> (r: bool)
        requires
            self.wf(),
            now.wf(),
        ensures
            r ==> self.due_today,
            exists|off: int| -86_400 < off < 86_400 && r == self.due_on(off, now),
            due_at_zone_offset(*self, now, r),
    {
        let created = LocalTime::at(self.created_at);
        if !self.due_today {
            assert(!self.due_on(0, now));
            assert(from_zone(created) && !self.due_on(created.offset_secs as int, now));
            return false;
        }
        let r = self.is_due_on_same_day(created, now);
        assert(r == self.due_on(created.offset_secs as int, now));
        assert(from_zone(created));
        r
    }
}

/// `label` is the `H:MM` of the instant `created_at` on the local clock:
/// at the offset the local time zone reported for that instant.
pub open spec fn local_label(created_at: i64, label: Seq<char>) -> bool {
    exists|t: LocalTime|
        #[trigger] from_zone(t) && t.wf() && t.utc_ms == created_at && label == clock_label(
            t.local_ms(),
        )
}

/// `r` says whether `e` is due today at `now`, its creation day being read
/// at the offset the local time zone reported for its creation instant.
pub open spec fn due_at_zone_offset(e: Entry, now: LocalTime, r: bool) -> bool {
    exists|t: LocalTime|
        #[trigger] from_zone(t) && t.wf() && t.utc_ms == e.created_at && r == e.due_on(
            t.offset_secs as int,
            now,
        )
}

/// `times[i]` is the local time of the creation of `s[i]`, with the offset
/// the local time zone reported for it.
pub open spec fn read_at_creation(s: Seq<Entry>, times: Seq<LocalTime>) -> bool {
    &&& times.len() == s.len()
    &&& forall|i: int|
        0 <= i < times.len() ==> from_zone(#[trigger] times[i]) && times[i].wf() && times[i].utc_ms
            == s[i].created_at
}

/// The offsets of local times, in seconds.
pub open spec fn offsets_of(times: Seq<LocalTime>) -> Seq<int> {
    times.map_values(|t: LocalTime| t.offset_secs as int)
}

/// The entry that a raw row of the `entries` table stands for: an
/// unrepresentable `last_resurfaced_at` reads as never resurfaced.
pub open spec fn entry_of_row(row: EntryRow) -> Entry {
    Entry {
        id: row.id,
        text: row.text,
        created_at: row.created_at,
        due_today: row.due_today != 0,
        last_resurfaced_at: match row.last_resurfaced_at {
            Some(l) => if valid_utc_ms(l as int) {
                Some(l)
            } else {
                None
            },
            None => None,
        },
    }
}

/// Converts a row read from SQLite into an entry; fails when `created_at`
/// is not a representable instant.
pub fn entry_from_row(row: EntryRow) -> (r: Result<Entry, StoreError>)
    ensures
        match r {
            Ok(e) => valid_utc_ms(row.created_at as int) && e == entry_of_row(row) && e.wf(),
            Err(StoreError::InvalidCreatedAt(ms)) => !valid_utc_ms(row.created_at as int) && ms
                == row.created_at,
            Err(_) => false,
        },
{
    if !utc_millis_representable(row.created_at) {
        return Err(StoreError::InvalidCreatedAt(row.created_at));
    }
    let last = match row.last_resurfaced_at {
        Some(l) => if utc_millis_representable(l) {
            Some(l)
        } else {
            None
        },
        None => None,
    };
    Ok(
        Entry {
            id: row.id,
            text: row.text,
            created_at: row.created_at,
            due_today: row.due_today != 0,
            last_resurfaced_at: last,
        },
    )
}

/// An error that reading entries from SQLite can give: one that SQLite
/// reported, or a row whose `created_at` is not a representable instant.
pub open spec fn read_error(e: StoreError) -> bool {
    match e {
        StoreError::Database(_) => true,
        StoreError::InvalidCreatedAt(ms) => !valid_utc_ms(ms as int),
        StoreError::EmptyEntry => false,
    }
}

/// Entries ordered by `created_at`, most recent first.
pub open spec fn newest_first(s: Seq<Entry>) -> bool {
    forall|i: int, j: int| 0 <= i < j < s.len() ==> s[i].created_at >= s[j].created_at
}

/// Every entry has representable timestamps.
pub open spec fn all_wf(s: Seq<Entry>) -> bool {
    forall|i: int| 0 <= i < s.len() ==> (#[trigger] s[i]).wf()
}

/// The text stored for raw input: trimmed, then cut to `MAX_LEN` characters.
pub open spec fn entry_text(raw: Seq<char>) -> Seq<char> {
    let t = trim(raw);
    if t.len() > MAX_LEN {
        t.take(MAX_LEN as int)
    } else {
        t
    }
}

/// The index of the first entry with the given id, or the length of the
/// sequence when there is none.
pub open spec fn find_id(s: Seq<Entry>, id: i64) -> int
    decreases s.len(),
{
    if s.len() == 0 {
        0
    } else if s[0].id == id {
        0
    } else {
        1 + find_id(s.drop_first(), id)
    }
}

/// The first index whose id is `id` is the `k` before which no id matches.
pub proof fn lemma_find_id(s: Seq<Entry>, id: i64, k: int)
    requires
        0 <= k <= s.len(),
        forall|j: int| 0 <= j < k ==> (#[trigger] s[j]).id != id,
        k == s.len() || s[k].id == id,
    ensures
        find_id(s, id) == k,
    decreases k,
{
    if k > 0 {
        let t = s.drop_first();
        assert forall|j: int| 0 <= j < k - 1 implies (#[trigger] t[j]).id != id by {
            assert(t[j] == s[j + 1]);
        }
        if k - 1 < t.len() {
            assert(t[k - 1] == s[k]);
        }
        assert(s[0].id != id);
        lemma_find_id(t, id, k - 1);
    }
}

/// `find_id` is an index of the sequence, or its length, and no earlier
/// entry has the id.
pub proof fn lemma_find_id_bounds(s: Seq<Entry>, id: i64)
    ensures
        0 <= find_id(s, id) <= s.len(),
        find_id(s, id) < s.len() ==> s[find_id(s, id)].id == id,
        forall|j: int| 0 <= j < find_id(s, id) ==> (#[trigger] s[j]).id != id,
    decreases s.len(),
{
    if s.len() > 0 && s[0].id != id {
        let t = s.drop_first();
        lemma_find_id_bounds(t, id);
        assert forall|j: int| 0 <= j < find_id(s, id) implies (#[trigger] s[j]).id != id by {
            if j > 0 {
                assert(s[j] == t[j - 1]);
            }
        }
    }
}

/// The cache after marking the first entry with `id` as resurfaced at `now`.
pub open spec fn mark_resurfaced_spec(s: Seq<Entry>, id: i64, now: i64) -> Seq<Entry> {
    let k = find_id(s, id);
    if k < s.len() {
        s.update(k, Entry { last_resurfaced_at: Some(now), ..s[k] })
    } else {
        s
    }
}

/// The entries whose lowercased text contains the lowercased query, in order.
pub open spec fn matching(s: Seq<Entry>, query: Seq<char>) -> Seq<Entry>
    decreases s.len(),
{
    if s.len() == 0 {
        Seq::empty()
    } else {
        let prev = matching(s.drop_last(), query);
        if contains_seq(lowercase(s.last().text@), lowercase(query)) {
            prev.push(s.last())
        } else {
            prev
        }
    }
}

/// The entries that are due today at `now`, given the local UTC offset in
/// force at each entry's creation (`offsets[i]` for `s[i]`), in order.
pub open spec fn due_entries(s: Seq<Entry>, offsets: Seq<int>, now: LocalTime) -> Seq<Entry>
    decreases s.len(),
{
    if s.len() == 0 {
        Seq::empty()
    } else {
        let prev = due_entries(s.drop_last(), offsets.drop_last(), now);
        if s.last().due_on(offsets.last(), now) {
            prev.push(s.last())
        } else {
            prev
        }
    }
}

/// The offsets are valid UTC offsets, one per entry.
pub open spec fn offsets_for(s: Seq<Entry>, offsets: Seq<int>) -> bool {
    &&& offsets.len() == s.len()
    &&& forall|i: int| 0 <= i < offsets.len() ==> -86_400 < #[trigger] offsets[i] < 86_400
}

/// May `e` be resurfaced at `now`? It must be at least 7 days old, not due
/// today, and never resurfaced or last resurfaced at least 30 days ago.
pub open spec fn resurface_candidate(e: Entry, now: int) -> bool {
    &&& e.created_at <= now - 7 * DAY_MS
    &&& !e.due_today
    &&& (e.last_resurfaced_at matches Some(l) ==> l <= now - 30 * DAY_MS)
}

/// Does the text match the query, case-insensitively?
pub fn matches_query(text: &str, query: &str) -> (r: bool)
    ensures
        r == contains_seq(lowercase(text@), lowercase(query@)),
{
    let hay = to_lowercase(text);
    let needle = to_lowercase(query);
    let h = chars_of(hay.as_str());
    let n = chars_of(needle.as_str());
    contains_chars(&h, &n)
}

// --- Schema ------------------------------------------------------------

pub const SCHEMA: &'static str = "
PRAGMA journal_mode = WAL;
PRAGMA synchronous = NORMAL;

CREATE TABLE IF NOT EXISTS entries (
    id INTEGER PRIMARY KEY AUTOINCREMENT,
    text TEXT NOT NULL,
    created_at INTEGER NOT NULL,
    due_today INTEGER NOT NULL DEFAULT 0,
    last_resurfaced_at INTEGER,
    deleted_at INTEGER
);

CREATE INDEX IF NOT EXISTS idx_created_at ON entries(created_at DESC);
CREATE INDEX IF NOT EXISTS idx_due_today ON entries(due_today, created_at DESC);
CREATE INDEX IF NOT EXISTS idx_deleted_at ON entries(deleted_at);

CREATE VIRTUAL TABLE IF NOT EXISTS entries_fts USING fts5(
    text,
    content='entries',
    content_rowid='id',
    tokenize='trigram'
);

CREATE TRIGGER IF NOT EXISTS entries_ai AFTER INSERT ON entries BEGIN
    INSERT INTO entries_fts(rowid, text) VALUES (new.id, new.text);
END;

CREATE TRIGGER IF NOT EXISTS entries_ad AFTER DELETE ON entries BEGIN
    INSERT INTO entries_fts(entries_fts, rowid, text) VALUES('delete', old.id, old.text);
END;
";

pub const OLD_SCHEMA_SQL: &'static str =
    "SELECT COUNT(*) FROM pragma_table_info('entries') WHERE name='id' AND upper(type) != 'INTEGER'";

pub const DROP_OLD_SCHEMA_SQL: &'static str = "
            DROP TRIGGER IF EXISTS entries_ai;
            DROP TRIGGER IF EXISTS entries_ad;
            DROP TABLE IF EXISTS entries_fts;
            DROP TABLE IF EXISTS entries;
            ";

pub const INSERT_SQL: &'static str =
    "INSERT INTO entries (text, created_at, due_today, last_resurfaced_at, deleted_at)
             VALUES (?1, ?2, ?3, NULL, NULL)
             RETURNING id";

pub const SOFT_DELETE_SQL: &'static str =
    "UPDATE entries SET deleted_at = ?1 WHERE id = ?2 AND deleted_at IS NULL";

pub const MARK_RESURFACED_SQL: &'static str = "UPDATE entries SET last_resurfaced_at = ?1 WHERE id = ?2";

/// Does the answer to the old-schema check (the number of `id` columns
/// whose type is not `INTEGER`, or `None` when the check failed) call for a
/// rebuild?
pub open spec fn needs_rebuild_spec(count: Option<i64>) -> bool {
    count matches Some(n) && n > 0
}

/// Does the answer to the old-schema check call for a rebuild?
pub fn needs_rebuild(count: Option<i64>) -> (r: bool)
    ensures
        r == needs_rebuild_spec(count),
{
    match count {
        Some(n) => n > 0,
        None => false,
    }
}

/// The statements of the migration, given what the old-schema check
/// answered (`count`) and whether the rebuild succeeded.
pub open spec fn migration_calls(count: Option<i64>, rebuild_ok: bool) -> Seq<SqlCall> {
    let check = SqlCall::QueryInteger { sql: OLD_SCHEMA_SQL@, value: count };
    if needs_rebuild_spec(count) {
        seq![check, SqlCall::Batch { sql: DROP_OLD_SCHEMA_SQL@, ok: rebuild_ok }]
    } else {
        seq![check]
    }
}

/// The migration handed exactly `migration_calls(count, ok)` to SQLite after
/// `before`, and returned what that outcome calls for: `Ok(true)` after a
/// rebuild, `Ok(false)` when none was needed, a database error when the
/// rebuild failed.
pub open spec fn migrated(
    before: Seq<SqlCall>,
    after: Seq<SqlCall>,
    r: Result<bool, StoreError>,
    count: Option<i64>,
    ok: bool,
) -> bool {
    &&& after == before + migration_calls(count, ok)
    &&& if needs_rebuild_spec(count) {
        if ok {
            r matches Ok(true)
        } else {
            r matches Err(StoreError::Database(_))
        }
    } else {
        r matches Ok(false)
    }
}

/// One-time destructive migration from the first `TEXT id` (UUID) schema
/// to the current `INTEGER PRIMARY KEY AUTOINCREMENT` shape. Any existing
/// rows are dropped: only test data ever lived under that schema. Returns
/// whether it rebuilt the table.
fn migrate_if_needed(conn: &mut rusqlite::Connection) -> (r: Result<bool, StoreError>)
    ensures
        exists|count: Option<i64>, ok: bool|
            #[trigger] migrated(statements(*old(conn)), statements(*final(conn)), r, count, ok),
{
    let ghost before = statements(*conn);
    let answer = query_single_integer(conn, OLD_SCHEMA_SQL);
    let count: Option<i64> = match answer {
        Ok(n) => Some(n),
        Err(_) => None,
    };
    if needs_rebuild(count) {
        match execute_batch(conn, DROP_OLD_SCHEMA_SQL) {
            Ok(()) => {
                assert(statements(*conn) =~= before + migration_calls(count, true));
                assert(migrated(before, statements(*conn), Ok(true), count, true));
                Ok(true)
            },
            Err(e) => {
                let r = Err(StoreError::Database(e));
                assert(statements(*conn) =~= before + migration_calls(count, false));
                assert(migrated(before, statements(*conn), r, count, false));
                r
            },
        }
    } else {
        assert(statements(*conn) =~= before + migration_calls(count, true));
        assert(migrated(before, statements(*conn), Ok(false), count, true));
        Ok(false)
    }
}

/// Every row has a representable `created_at`.
pub open spec fn rows_valid(rows: Seq<EntryRow>) -> bool {
    forall|i: int| 0 <= i < rows.len() ==> valid_utc_ms(#[trigger] rows[i].created_at as int)
}

/// `k` is the first row whose `created_at` is not representable.
pub open spec fn first_invalid_row(rows: Seq<EntryRow>, k: int) -> bool {
    &&& 0 <= k < rows.len()
    &&& !valid_utc_ms(rows[k].created_at as int)
    &&& rows_valid(rows.take(k))
}

/// The entries that rows read from SQLite stand for, in order.
pub open spec fn entries_of_rows(rows: Seq<EntryRow>) -> Seq<Entry> {
    rows.map_values(|row: EntryRow| entry_of_row(row))
}

/// Converts rows read from SQLite into entries, in order; fails on the first
/// row whose `created_at` is not representable.
pub fn entries_from_rows(rows: Vec<EntryRow>) -> (r: Result<Vec<Entry>, StoreError>)
    ensures
        match r {
            Ok(v) => rows_valid(rows@) && v@ == entries_of_rows(rows@) && all_wf(v@),
            Err(StoreError::InvalidCreatedAt(ms)) => exists|k: int|
                #[trigger] first_invalid_row(rows@, k) && ms == rows@[k].created_at,
            Err(_) => false,
        },
{
    let mut entries: Vec<Entry> = Vec::new();
    let n = rows.len();
    let mut i: usize = 0;
    while i < n
        invariant
            n == rows@.len(),
            i <= n,
            rows_valid(rows@.take(i as int)),
            entries@ == entries_of_rows(rows@.take(i as int)),
            all_wf(entries@),
        decreases n - i,
    {
        let row = rows[i].duplicate();
        proof {
            assert(rows@.take(i + 1) =~= rows@.take(i as int).push(rows@[i as int]));
        }
        match entry_from_row(row) {
            Ok(e) => {
                entries.push(e);
                proof {
                    assert(entries_of_rows(rows@.take(i + 1)) =~= entries_of_rows(
                        rows@.take(i as int),
                    ).push(entry_of_row(rows@[i as int])));
                    assert forall|j: int| 0 <= j < i + 1 implies valid_utc_ms(
                        #[trigger] rows@.take(i + 1)[j].created_at as int,
                    ) by {
                        if j < i {
                            assert(rows@.take(i + 1)[j] == rows@.take(i as int)[j]);
                        }
                    }
                }
            },
            Err(err) => {
                assert(first_invalid_row(rows@, i as int));
                return Err(err);
            },
        }
        i = i + 1;
    }
    assert(rows@.take(n as int) =~= rows@);
    Ok(entries)
}

/// What reading the live rows returns, given what SQLite answered (`None`
/// when the query failed): the entries of the rows, in order, or the error
/// of the first row whose `created_at` is not representable.
pub open spec fn loaded(answer: Option<Seq<EntryRow>>, r: Result<Vec<Entry>, StoreError>) -> bool {
    match answer {
        None => r matches Err(StoreError::Database(_)),
        Some(rows) => match r {
            Ok(v) => rows_valid(rows) && v@ == entries_of_rows(rows),
            Err(StoreError::InvalidCreatedAt(ms)) => exists|k: int|
                #[trigger] first_invalid_row(rows, k) && ms == rows[k].created_at,
            Err(_) => false,
        },
    }
}

/// `call` is the query of the live rows, and SQLite answered `rows`.
pub open spec fn live_rows_read(call: SqlCall, answer: Option<Seq<EntryRow>>) -> bool {
    call == SqlCall::QueryRows { sql: LIVE_ROWS_SQL@, rows: answer }
}

/// Reads the live entries, most recent first.
fn load_rows(conn: &mut rusqlite::Connection) -> (r: Result<Vec<Entry>, StoreError>)
    ensures
        statements(*final(conn)).len() == statements(*old(conn)).len() + 1,
        statements(*final(conn)).drop_last() == statements(*old(conn)),
        exists|answer: Option<Seq<EntryRow>>|
            #[trigger] live_rows_read(statements(*final(conn)).last(), answer) && loaded(answer, r),
        r matches Ok(v) ==> all_wf(v@) && newest_first(v@),
        r matches Err(e) ==> read_error(e),
{
    let ghost before = statements(*conn);
    let rows = match query_rows(conn, LIVE_ROWS_SQL) {
        Ok(rows) => rows,
        Err(e) => {
            let r = Err(StoreError::Database(e));
            assert(statements(*conn).drop_last() =~= before);
            assert(live_rows_read(statements(*conn).last(), None) && loaded(None, r));
            return r;
        },
    };
    let ghost rs = rows@;
    assert(statements(*conn).drop_last() =~= before);
    assert(live_rows_read(statements(*conn).last(), Some(rs)));
    let entries = entries_from_rows(rows);
    proof {
        if entries is Ok {
            let v = entries->Ok_0;
            assert forall|j: int, k: int| 0 <= j < k < v@.len() implies v@[j].created_at
                >= v@[k].created_at by {
                assert(v@[j] == entry_of_row(rs[j]));
                assert(v@[k] == entry_of_row(rs[k]));
            }
        }
        assert(loaded(Some(rs), entries));
    }
    entries
}

/// The cached live entries; every one has representable timestamps.
struct Cache {
    entries: Vec<Entry>,
}

impl View for Cache {
    type V = Seq<Entry>;

    closed spec fn view(&self) -> Seq<Entry> {
        self.entries@
    }
}

impl Cache {
    #[verifier::type_invariant]
    spec fn inv(self) -> bool {
        all_wf(self.entries@)
    }

    fn new(entries: Vec<Entry>) -> (c: Cache)
        requires
            all_wf(entries@),
        ensures
            c@ == entries@,
    {
        Cache { entries }
    }

    fn push_front(&mut self, e: Entry)
        requires
            e.wf(),
        ensures
            final(self)@ == seq![e] + old(self)@,
    {
        proof {
            use_type_invariant(&*self);
        }
        let mut entries: Vec<Entry> = Vec::new();
        std::mem::swap(&mut entries, &mut self.entries);
        entries.insert(0, e);
        assert(entries@ =~= seq![e] + old(self).entries@);
        self.entries = entries;
    }

    fn remove_at(&mut self, k: usize) -> (e: Entry)
        requires
            k < old(self)@.len(),
        ensures
            e == old(self)@[k as int],
            final(self)@ == old(self)@.remove(k as int),
    {
        proof {
            use_type_invariant(&*self);
        }
        let mut entries: Vec<Entry> = Vec::new();
        std::mem::swap(&mut entries, &mut self.entries);
        let e = entries.remove(k);
        proof {
            assert forall|j: int| 0 <= j < entries@.len() implies (#[trigger] entries@[j]).wf() by {
                if j < k {
                    assert(entries@[j] == old(self).entries@[j]);
                } else {
                    assert(entries@[j] == old(self).entries@[j + 1]);
                }
            }
        }
        self.entries = entries;
        e
    }

    fn set_resurfaced(&mut self, k: usize, now: i64)
        requires
            k < old(self)@.len(),
            valid_utc_ms(now as int),
        ensures
            final(self)@ == old(self)@.update(
                k as int,
                Entry { last_resurfaced_at: Some(now), ..old(self)@[k as int] },
            ),
    {
        proof {
            use_type_invariant(&*self);
        }
        let mut e = self.entries[k].duplicate();
        e.last_resurfaced_at = Some(now);
        let mut entries: Vec<Entry> = Vec::new();
        std::mem::swap(&mut entries, &mut self.entries);
        entries.set(k, e);
        self.entries = entries;
    }
}

/// The number of rows a logged `execute` changed (`None` for any other call,
/// or when it failed).
pub open spec fn changed_rows(call: SqlCall) -> Option<usize> {
    match call {
        SqlCall::Execute { changed, .. } => changed,
        _ => None,
    }
}

/// `call` is the `UPDATE` that stamps `last_resurfaced_at = now` on row `id`.
pub open spec fn stamps(call: SqlCall, id: i64, now: i64) -> bool {
    call matches SqlCall::Execute { sql, p1, p2, .. } && sql == MARK_RESURFACED_SQL@ && p1 == now
        && p2 == id
}

/// `call` is the candidate query for the `過去から` section at `now`:
/// created at least 7 days ago, resurfaced never or at least 30 days ago.
pub open spec fn candidate_query(call: SqlCall, now: i64) -> bool {
    call matches SqlCall::QueryRow { sql, p1, p2, .. } && sql == RESURFACE_CANDIDATE_SQL@ && p1 == now
        - 7 * DAY_MS && p2 == now - 30 * DAY_MS
}

/// What SQLite answered a logged one-row query: the row, if any, or `None`
/// when the query failed (and for any other call).
pub open spec fn row_answer(call: SqlCall) -> Option<Option<EntryRow>> {
    match call {
        SqlCall::QueryRow { answer, .. } => answer,
        _ => None,
    }
}

/// What picking an entry to resurface at `now` returns and leaves in the
/// cache, given the statements it handed to SQLite after `before` (`after`):
/// the candidate query, then, for a representable candidate, the `UPDATE`
/// stamping it.
pub open spec fn picked(
    before: Seq<SqlCall>,
    after: Seq<SqlCall>,
    cache_before: Seq<Entry>,
    cache_after: Seq<Entry>,
    r: Result<Option<Entry>, StoreError>,
    now: i64,
) -> bool {
    &&& after.len() > before.len()
    &&& after.take(before.len() as int) == before
    &&& candidate_query(after[before.len() as int], now)
    &&& match row_answer(after[before.len() as int]) {
        None => {
            &&& after.len() == before.len() + 1
            &&& r matches Err(StoreError::Database(_))
            &&& cache_after == cache_before
        },
        Some(None) => {
            &&& after.len() == before.len() + 1
            &&& r matches Ok(None)
            &&& cache_after == cache_before
        },
        Some(Some(row)) => if !valid_utc_ms(row.created_at as int) {
            &&& after.len() == before.len() + 1
            &&& r == Err::<Option<Entry>, StoreError>(StoreError::InvalidCreatedAt(row.created_at))
            &&& cache_after == cache_before
        } else {
            &&& after.len() == before.len() + 2
            &&& stamps(after.last(), row.id, now)
            &&& match changed_rows(after.last()) {
                Some(_) => {
                    &&& r == Ok::<Option<Entry>, StoreError>(Some(entry_of_row(row)))
                    &&& cache_after == mark_resurfaced_spec(cache_before, row.id, now)
                },
                None => {
                    &&& r matches Err(StoreError::Database(_))
                    &&& cache_after == cache_before
                },
            }
        },
    }
}

/// What deleting `id` returns when SQLite changed `updated_rows` rows.
pub open spec fn delete_result(s: Seq<Entry>, updated_rows: usize, id: i64) -> Option<Entry> {
    let k = find_id(s, id);
    if updated_rows > 0 && k < s.len() {
        Some(s[k])
    } else {
        None
    }
}

/// The cache after deleting `id` when SQLite changed `updated_rows` rows.
pub open spec fn delete_remaining(s: Seq<Entry>, updated_rows: usize, id: i64) -> Seq<Entry> {
    let k = find_id(s, id);
    if updated_rows > 0 && k < s.len() {
        s.remove(k)
    } else {
        s
    }
}

/// The `due_today` flag stored for a text: 1 when due today, else 0.
pub open spec fn due_flag(text: Seq<char>) -> i64 {
    if due_today_spec(text) {
        1
    } else {
        0
    }
}

/// What inserting `raw` created at `created_at` hands to SQLite: nothing for
/// blank input, otherwise the `INSERT` of the stored text, the creation time
/// and the flag, with the id SQLite answered when the result is `Ok`.
pub open spec fn insert_logged(
    before: Seq<SqlCall>,
    after: Seq<SqlCall>,
    raw: Seq<char>,
    created_at: i64,
    r: Result<Entry, StoreError>,
) -> bool {
    if trim(raw).len() == 0 {
        after == before
    } else {
        after == before.push(
            SqlCall::Insert {
                sql: INSERT_SQL@,
                text: entry_text(raw),
                p2: created_at,
                p3: due_flag(entry_text(raw)),
                id: match r {
                    Ok(e) => Some(e.id),
                    Err(_) => None,
                },
            },
        )
    }
}

pub struct Store {
    conn: rusqlite::Connection,
    /// Live entries (deleted_at IS NULL), most recent first.
    cache: Cache,
    /// Whether opening rebuilt a table of the first schema.
    rebuilt_old_schema: bool,
}

impl View for Store {
    type V = Seq<Entry>;

    closed spec fn view(&self) -> Seq<Entry> {
        self.cache@
    }
}

/// The statements that opening a store hands to SQLite: the old-schema
/// check, the rebuild when the check calls for one, then the schema.
pub open spec fn opening_calls(count: Option<i64>) -> Seq<SqlCall> {
    migration_calls(count, true).push(SqlCall::Batch { sql: SCHEMA@, ok: true })
}

/// `log` is what opening a store handed to SQLite: the opening of its
/// database (the file at `origin`, or a fresh in-memory one when `origin` is
/// `None`), the opening statements, then the read of the live rows, whose
/// entries are `cache`; `rebuilt` says whether the old-schema check called
/// for a rebuild.
pub open spec fn opened_with(
    log: Seq<SqlCall>,
    origin: Option<Seq<char>>,
    rebuilt: bool,
    cache: Seq<Entry>,
    count: Option<i64>,
) -> bool {
    &&& log.len() == opening_calls(count).len() + 2
    &&& log.drop_last() == seq![SqlCall::Open { path: origin }] + opening_calls(count)
    &&& rebuilt == needs_rebuild_spec(count)
    &&& exists|rows: Seq<EntryRow>|
        #[trigger] live_rows_read(log.last(), Some(rows)) && rows_valid(rows) && cache
            == entries_of_rows(rows)
}

impl Store {
    /// How this store's connection was opened, then the statements it has
    /// handed to SQLite through it, in order, with what SQLite answered.
    pub closed spec fn sql_log(&self) -> Seq<SqlCall> {
        statements(self.conn)
    }

    /// Whether opening rebuilt a table of the first schema.
    pub closed spec fn rebuilt(&self) -> bool {
        self.rebuilt_old_schema
    }

    /// Did opening the store rebuild a table of the first schema (dropping
    /// its rows)?
    pub fn rebuilt_old_schema(&self) -> (r: bool)
        ensures
            r == self.rebuilt(),
    {
        self.rebuilt_old_schema
    }

    fn init(conn: rusqlite::Connection, Ghost(origin): Ghost<Option<Seq<char>>>) -> (r: Result<
        Store,
        StoreError,
    >)
        requires
            statements(conn) == seq![SqlCall::Open { path: origin }],
        ensures
            r matches Ok(s) ==> {
                &&& newest_first(s@)
                &&& exists|count: Option<i64>|
                    #[trigger] opened_with(s.sql_log(), origin, s.rebuilt(), s@, count)
            },
            r matches Err(e) ==> read_error(e),
    {
        let mut conn = conn;
        let ghost opened = statements(conn);
        let rebuilt = match migrate_if_needed(&mut conn) {
            Ok(b) => b,
            Err(e) => {
                return Err(e);
            },
        };
        let ghost (count, ok) = choose|count: Option<i64>, ok: bool|
            #[trigger] migrated(opened, statements(conn), Ok(rebuilt), count, ok);
        match execute_batch(&mut conn, SCHEMA) {
            Ok(()) => {},
            Err(e) => {
                return Err(StoreError::Database(e));
            },
        }
        let ghost schema_done = statements(conn);
        let entries = match load_rows(&mut conn) {
            Ok(v) => v,
            Err(e) => {
                return Err(e);
            },
        };
        let ghost answer = choose|answer: Option<Seq<EntryRow>>|
            #[trigger] live_rows_read(statements(conn).last(), answer) && loaded(answer, Ok(entries));
        let s = Store { conn, cache: Cache::new(entries), rebuilt_old_schema: rebuilt };
        proof {
            assert(newest_first(s@));
            assert(s.rebuilt() == needs_rebuild_spec(count));
            assert(migration_calls(count, ok) == migration_calls(count, true));
            assert(schema_done =~= opened + opening_calls(count));
            let rows = answer->Some_0;
            assert(live_rows_read(s.sql_log().last(), Some(rows)));
            assert(opened_with(s.sql_log(), origin, s.rebuilt(), s@, count));
        }
        assert(exists|c: Option<i64>| #[trigger] opened_with(s.sql_log(), origin, s.rebuilt(), s@, c));
        let r = Ok(s);
        assert(r matches Ok(s) && newest_first(s@));
        r
    }

    /// Opens (creating if needed) the database file at `path` and loads the
    /// live entries. The directory must exist.
    pub fn open(path: &str) -> (r: Result<Store, StoreError>)
        ensures
            r matches Ok(s) ==> {
                &&& newest_first(s@)
                &&& exists|count: Option<i64>|
                    #[trigger] opened_with(s.sql_log(), Some(path@), s.rebuilt(), s@, count)
            },
            r matches Err(e) ==> read_error(e),
    {
        match open_connection(path) {
            Ok(conn) => Store::init(conn, Ghost(Some(path@))),
            Err(e) => Err(StoreError::Database(e)),
        }
    }

    /// A store backed by a fresh in-memory database.
    pub fn open_in_memory() -> (r: Result<Store, StoreError>)
        ensures
            r matches Ok(s) ==> {
                &&& newest_first(s@)
                &&& exists|count: Option<i64>|
                    #[trigger] opened_with(s.sql_log(), None, s.rebuilt(), s@, count)
            },
            r matches Err(e) ==> read_error(e),
    {
        match open_memory_connection() {
            Ok(conn) => Store::init(conn, Ghost(None)),
            Err(e) => Err(StoreError::Database(e)),
        }
    }

    /// Reads the live entries from the database again, most recent first.
    /// The cache stays as it is.
    pub fn load_live(&mut self) -> (r: Result<Vec<Entry>, StoreError>)
        ensures
            final(self).sql_log().len() == old(self).sql_log().len() + 1,
            final(self).sql_log().drop_last() == old(self).sql_log(),
            exists|answer: Option<Seq<EntryRow>>|
                #[trigger] live_rows_read(final(self).sql_log().last(), answer) && loaded(answer, r),
            r matches Ok(v) ==> all_wf(v@) && newest_first(v@),
            r matches Err(e) ==> read_error(e),
            final(self)@ == old(self)@,
            final(self).rebuilt() == old(self).rebuilt(),
    {
        load_rows(&mut self.conn)
    }

    /// Read-only view of all live entries (most recent first).
    pub fn all(&self) -> (r: &[Entry])
        ensures
            r@ == self@,
            all_wf(r@),
    {
        proof {
            use_type_invariant(&self.cache);
        }
        self.cache.entries.as_slice()
    }

    /// Entries that should appear in the `今日中` section at `now`.
    pub fn today(&self, now: LocalTime) -> (r: Vec<Entry>)
        requires
            now.wf(),
        ensures
            exists|offsets: Seq<int>|
                offsets_for(self@, offsets) && r@ == due_entries(self@, offsets, now),
            exists|times: Seq<LocalTime>|
                #[trigger] read_at_creation(self@, times) && r@ == due_entries(
                    self@,
                    offsets_of(times),
                    now,
                ),
    {
        proof {
            use_type_invariant(&self.cache);
        }
        let mut out: Vec<Entry> = Vec::new();
        let ghost mut offsets: Seq<int> = Seq::empty();
        let ghost mut times: Seq<LocalTime> = Seq::empty();
        let n = self.cache.entries.len();
        let mut i: usize = 0;
        while i < n
            invariant
                n == self.cache.entries@.len(),
                i <= n,
                now.wf(),
                all_wf(self.cache.entries@),
                offsets_for(self.cache.entries@.take(i as int), offsets),
                read_at_creation(self.cache.entries@.take(i as int), times),
                offsets == offsets_of(times),
                out@ == due_entries(self.cache.entries@.take(i as int), offsets, now),
            decreases n - i,
        {
            let e = &self.cache.entries[i];
            assert(self.cache.entries@[i as int].wf());
            let created = LocalTime::at(e.created_at);
            let hit = e.is_due_on_same_day(created, now);
            let ghost prev_offsets = offsets;
            let ghost prev_times = times;
            proof {
                offsets = offsets.push(created.offset_secs as int);
                times = times.push(created);
            }
            if hit {
                out.push(e.duplicate());
            }
            proof {
                let s = self.cache.entries@.take(i + 1);
                assert(s.drop_last() =~= self.cache.entries@.take(i as int));
                assert(offsets.drop_last() =~= prev_offsets);
                assert(s.last() == self.cache.entries@[i as int]);
                assert forall|j: int| 0 <= j < offsets.len() implies -86_400 < #[trigger] offsets[j]
                    < 86_400 by {
                    if j < prev_offsets.len() {
                        assert(offsets[j] == prev_offsets[j]);
                    }
                }
                assert(offsets =~= offsets_of(times));
                assert forall|j: int| 0 <= j < times.len() implies #[trigger] from_zone(times[j])
                    && times[j].wf() && times[j].utc_ms == s[j].created_at by {
                    if j < prev_times.len() {
                        assert(times[j] == prev_times[j]);
                        assert(s[j] == self.cache.entries@.take(i as int)[j]);
                    } else {
                        assert(times[j] == created);
                    }
                }
            }
            i = i + 1;
        }
        assert(self.cache.entries@.take(n as int) =~= self.cache.entries@);
        assert(offsets_for(self@, offsets) && out@ == due_entries(self@, offsets, now));
        assert(read_at_creation(self@, times));
        out
    }

    /// Case-insensitive substring filter over the in-memory cache.
    /// Order matches `all()` (most recent first).
    pub fn search(&self, query: &str) -> (r: Vec<Entry>)
        ensures
            query@.len() == 0 ==> r@ == self@,
            query@.len() > 0 ==> r@ == matching(self@, query@),
    {
        let n = self.cache.entries.len();
        let mut out: Vec<Entry> = Vec::new();
        if query.is_empty() {
            let mut i: usize = 0;
            while i < n
                invariant
                    n == self.cache.entries@.len(),
                    i <= n,
                    out@ =~= self.cache.entries@.take(i as int),
                decreases n - i,
            {
                out.push(self.cache.entries[i].duplicate());
                i = i + 1;
            }
            return out;
        }
        let mut i: usize = 0;
        while i < n
            invariant
                n == self.cache.entries@.len(),
                i <= n,
                out@ == matching(self.cache.entries@.take(i as int), query@),
            decreases n - i,
        {
            let e = &self.cache.entries[i];
            let hit = matches_query(e.text.as_str(), query);
            proof {
                assert(self.cache.entries@.take(i + 1).drop_last() =~= self.cache.entries@.take(i as int));
            }
            if hit {
                out.push(e.duplicate());
            }
            i = i + 1;
        }
        assert(self.cache.entries@.take(n as int) =~= self.cache.entries@);
        out
    }

    /// Inserts a new entry created now. Returns the persisted entry.
    pub fn insert(&mut self, raw_text: &str) -> (r: Result<Entry, StoreError>)
        ensures
            r is Err && r->Err_0 is EmptyEntry <==> trim(raw_text@).len() == 0,
            r matches Ok(e) ==> {
                &&& e.text@ == entry_text(raw_text@)
                &&& e.due_today == due_today_spec(e.text@)
                &&& e.last_resurfaced_at is None
                &&& e.wf()
                &&& final(self)@ == seq![e] + old(self)@
            },
            r matches Err(e) ==> final(self)@ == old(self)@ && (e is EmptyEntry || e is Database),
            exists|created_at: i64|
                valid_utc_ms(created_at as int) && (r matches Ok(e) ==> e.created_at == created_at)
                    && #[trigger] insert_logged(
                    old(self).sql_log(),
                    final(self).sql_log(),
                    raw_text@,
                    created_at,
                    r,
                ),
            exists|c: ClockReading|
                (r matches Ok(e) ==> e.created_at == #[trigger] c.instant()) && insert_logged(
                    old(self).sql_log(),
                    final(self).sql_log(),
                    raw_text@,
                    c.instant(),
                    r,
                ),
            final(self).rebuilt() == old(self).rebuilt(),
    {
        let c = read_clock();
        let r = self.insert_at(raw_text, c.ms());
        assert(insert_logged(old(self).sql_log(), self.sql_log(), raw_text@, c.instant(), r));
        r
    }

    /// Inserts a new entry created at `created_at`. Returns the persisted
    /// entry, which also goes to the front of the cache; its id is the one
    /// SQLite gave the new row.
    pub fn insert_at(&mut self, raw_text: &str, created_at: i64) -> (r: Result<Entry, StoreError>)
        requires
            valid_utc_ms(created_at as int),
        ensures
            r is Err && r->Err_0 is EmptyEntry <==> trim(raw_text@).len() == 0,
            r matches Ok(e) ==> {
                &&& e.text@ == entry_text(raw_text@)
                &&& e.created_at == created_at
                &&& e.due_today == due_today_spec(e.text@)
                &&& e.last_resurfaced_at is None
                &&& e.wf()
                &&& final(self)@ == seq![e] + old(self)@
            },
            r matches Err(e) ==> final(self)@ == old(self)@ && (e is EmptyEntry || e is Database),
            insert_logged(old(self).sql_log(), final(self).sql_log(), raw_text@, created_at, r),
            final(self).rebuilt() == old(self).rebuilt(),
    {
        let v = chars_of(raw_text);
        let n = v.len();
        let (a, b) = trim_range(&v, 0, n);
        proof {
            assert(v@.subrange(0, n as int) =~= raw_text@);
        }
        if a == b {
            return Err(StoreError::EmptyEntry);
        }
        let end = if b - a > MAX_LEN {
            a + MAX_LEN
        } else {
            b
        };
        proof {
            if b - a > MAX_LEN {
                assert(v@.subrange(a as int, end as int) =~= trim(raw_text@).take(MAX_LEN as int));
            }
        }
        let text = raw_text.substring_char(a, end).to_owned();
        let due_today = is_due_today(text.as_str());
        let due_flag: i64 = if due_today {
            1
        } else {
            0
        };
        let id = match insert_returning_id(
            &mut self.conn,
            INSERT_SQL,
            text.as_str(),
            created_at,
            due_flag,
        ) {
            Ok(id) => id,
            Err(e) => {
                return Err(StoreError::Database(e));
            },
        };
        let entry = Entry { id, text, created_at, due_today, last_resurfaced_at: None };
        self.cache.push_front(entry.duplicate());
        Ok(entry)
    }

    /// Removes the first cached entry with `id` and returns it, or returns
    /// `None` and leaves the cache as it is when no entry has that id.
    pub fn remove_cached(&mut self, id: i64) -> (r: Option<Entry>)
        ensures
            ({
                let k = find_id(old(self)@, id);
                if k < old(self)@.len() {
                    r == Some(old(self)@[k]) && final(self)@ == old(self)@.remove(k)
                } else {
                    r is None && final(self)@ == old(self)@
                }
            }),
            final(self).sql_log() == old(self).sql_log(),
            final(self).rebuilt() == old(self).rebuilt(),
    {
        let k = self.position_of(id);
        proof {
            lemma_find_id_bounds(self@, id);
        }
        if k == self.cache.entries.len() {
            return None;
        }
        Some(self.cache.remove_at(k))
    }

    /// The index of the first cached entry with `id`, or the number of
    /// cached entries when there is none.
    fn position_of(&self, id: i64) -> (k: usize)
        ensures
            k == find_id(self@, id),
    {
        let n = self.cache.entries.len();
        let mut i: usize = 0;
        while i < n
            invariant
                n == self.cache.entries@.len(),
                i <= n,
                forall|j: int| 0 <= j < i ==> (#[trigger] self.cache.entries@[j]).id != id,
            decreases n - i,
        {
            if self.cache.entries[i].id == id {
                proof {
                    lemma_find_id(self.cache.entries@, id, i as int);
                }
                return i;
            }
            i = i + 1;
        }
        proof {
            lemma_find_id(self.cache.entries@, id, n as int);
        }
        n
    }

    /// Soft-deletes the entry with this short ID at `now`: hands SQLite the
    /// `UPDATE` that stamps `deleted_at = now` on the live row `id`, then
    /// applies the outcome to the cache. Returns the deleted entry on
    /// success, `None` if the ID is unknown or already deleted.
    pub fn delete(&mut self, id: i64, now: i64) -> (r: Result<Option<Entry>, StoreError>)
        ensures
            ({
                let changed = changed_rows(final(self).sql_log().last());
                &&& final(self).sql_log() == old(self).sql_log().push(
                    SqlCall::Execute { sql: SOFT_DELETE_SQL@, p1: now, p2: id, changed },
                )
                &&& match changed {
                    Some(n) => r == Ok::<Option<Entry>, StoreError>(delete_result(old(self)@, n, id))
                        && final(self)@ == delete_remaining(old(self)@, n, id),
                    None => r matches Err(StoreError::Database(_)) && final(self)@ == old(self)@,
                }
            }),
            final(self).rebuilt() == old(self).rebuilt(),
    {
        let updated = match execute_with_two(&mut self.conn, SOFT_DELETE_SQL, now, id) {
            Ok(n) => n,
            Err(e) => {
                return Err(StoreError::Database(e));
            },
        };
        Ok(self.finish_delete(updated, id))
    }

    /// Applies to the cache the outcome of the soft delete of `id`, which
    /// changed `updated_rows` rows in SQLite: nothing when no row changed,
    /// otherwise the first cached entry with that id is removed and returned.
    pub fn finish_delete(&mut self, updated_rows: usize, id: i64) -> (r: Option<Entry>)
        ensures
            r == delete_result(old(self)@, updated_rows, id),
            final(self)@ == delete_remaining(old(self)@, updated_rows, id),
            final(self).sql_log() == old(self).sql_log(),
            final(self).rebuilt() == old(self).rebuilt(),
    {
        if updated_rows == 0 {
            return None;
        }
        self.remove_cached(id)
    }

    /// Records in the cache that the first entry with `id` was resurfaced at
    /// `now`.
    pub fn mark_resurfaced(&mut self, id: i64, now: i64)
        requires
            valid_utc_ms(now as int),
        ensures
            final(self)@ == mark_resurfaced_spec(old(self)@, id, now),
            final(self).sql_log() == old(self).sql_log(),
            final(self).rebuilt() == old(self).rebuilt(),
    {
        let k = self.position_of(id);
        proof {
            lemma_find_id_bounds(self@, id);
        }
        if k == self.cache.entries.len() {
            return;
        }
        self.cache.set_resurfaced(k, now);
    }

    /// Picks one entry for the `過去から` section, then stamps
    /// `last_resurfaced_at` so it is not chosen again soon.
    ///
    /// Candidates are: created over 7 days ago, not marked `due_today`,
    /// not deleted, and either never resurfaced or last resurfaced more
    /// than 30 days ago. The pick is random among matches.
    pub fn pick_resurface(&mut self, now: i64) -> (r: Result<Option<Entry>, StoreError>)
        requires
            valid_utc_ms(now as int),
            valid_utc_ms(now - 30 * DAY_MS),
        ensures
            picked(old(self).sql_log(), final(self).sql_log(), old(self)@, final(self)@, r, now),
            r matches Ok(Some(e)) ==> resurface_candidate(e, now as int) && e.wf(),
            r matches Err(e) ==> read_error(e),
            final(self).rebuilt() == old(self).rebuilt(),
    {
        let ghost before = self.sql_log();
        let ghost cache_before = self@;
        let seven_days_ago = now - 7 * DAY_MS;
        let thirty_days_ago = now - 30 * DAY_MS;
        let answer = query_optional_row(
            &mut self.conn,
            RESURFACE_CANDIDATE_SQL,
            seven_days_ago,
            thirty_days_ago,
        );
        let ghost queried = self.sql_log();
        proof {
            assert(queried.take(before.len() as int) =~= before);
            assert(queried[before.len() as int] == queried.last());
        }
        let picked_row = match answer {
            Ok(p) => p,
            Err(e) => {
                return Err(StoreError::Database(e));
            },
        };
        let row = match picked_row {
            Some(row) => row,
            None => {
                return Ok(None);
            },
        };
        let ghost the_row = row;
        let entry = match entry_from_row(row) {
            Ok(e) => e,
            Err(e) => {
                return Err(e);
            },
        };
        let stamped = execute_with_two(&mut self.conn, MARK_RESURFACED_SQL, now, entry.id);
        proof {
            let after = self.sql_log();
            assert(after.take(before.len() as int) =~= before);
            assert(after[before.len() as int] == queried[before.len() as int]);
        }
        match stamped {
            Ok(_) => {},
            Err(e) => {
                return Err(StoreError::Database(e));
            },
        }
        self.mark_resurfaced(entry.id, now);
        proof {
            assert(entry == entry_of_row(the_row));
        }
        Ok(Some(entry))
    }
}

// --- Laws -------------------------------------------------------------

/// Removing the id of an entry just put at the front takes that entry back
/// off and restores the previous cache.
pub proof fn lemma_remove_undoes_insert(s: Seq<Entry>, e: Entry)
    ensures
        find_id(seq![e] + s, e.id) == 0,
        (seq![e] + s).remove(0) == s,
        (seq![e] + s)[0] == e,
{
    assert((seq![e] + s).remove(0) =~= s);
}

/// A stored text is never longer than `MAX_LEN` characters, and it is empty
/// only when the raw input was empty or whitespace only.
pub proof fn lemma_entry_text_bounds(raw: Seq<char>)
    ensures
        entry_text(raw).len() <= MAX_LEN,
        entry_text(raw).len() == 0 <==> trim(raw).len() == 0,
{
}

/// An entry just marked as resurfaced at `now` is not a resurface candidate
/// again until thirty days have passed.
pub proof fn lemma_resurfaced_entry_rests(s: Seq<Entry>, id: i64, now: i64, later: int)
    requires
        find_id(s, id) < s.len(),
        now <= later < now + 30 * DAY_MS,
    ensures
        mark_resurfaced_spec(s, id, now)[find_id(s, id)].id == id,
        !resurface_candidate(mark_resurfaced_spec(s, id, now)[find_id(s, id)], later),
{
    lemma_find_id_bounds(s, id);
}

/// After a pick at `now` returned `e`, SQLite was handed the `UPDATE`
/// stamping `last_resurfaced_at = now` on `e`'s row and reported it
/// applied; and where `e` was cached, its cached copy is not a resurface
/// candidate again until thirty days have passed.
pub proof fn lemma_picked_entry_rests(
    before: Seq<SqlCall>,
    after: Seq<SqlCall>,
    cache_before: Seq<Entry>,
    cache_after: Seq<Entry>,
    e: Entry,
    now: i64,
    later: int,
)
    requires
        picked(before, after, cache_before, cache_after, Ok(Some(e)), now),
        now <= later < now + 30 * DAY_MS,
    ensures
        stamps(after.last(), e.id, now),
        changed_rows(after.last()) is Some,
        find_id(cache_before, e.id) < cache_before.len() ==> {
            &&& cache_after[find_id(cache_before, e.id)].id == e.id
            &&& !resurface_candidate(cache_after[find_id(cache_before, e.id)], later)
        },
{
    if find_id(cache_before, e.id) < cache_before.len() {
        lemma_resurfaced_entry_rests(cache_before, e.id, now, later);
    }
}

/// Every search hit contains the query, case-insensitively, and comes from
/// the searched entries; there are never more hits than entries.
pub proof fn lemma_matching_hits(s: Seq<Entry>, query: Seq<char>)
    ensures
        matching(s, query).len() <= s.len(),
        forall|i: int|
            0 <= i < matching(s, query).len() ==> s.contains(#[trigger] matching(s, query)[i])
                && contains_seq(lowercase(matching(s, query)[i].text@), lowercase(query)),
    decreases s.len(),
{
    if s.len() > 0 {
        let t = s.drop_last();
        lemma_matching_hits(t, query);
        let m = matching(s, query);
        assert forall|i: int| 0 <= i < m.len() implies s.contains(#[trigger] m[i]) && contains_seq(
            lowercase(m[i].text@),
            lowercase(query),
        ) by {
            if i < matching(t, query).len() {
                assert(m[i] == matching(t, query)[i]);
                let k = choose|k: int| 0 <= k < t.len() && t[k] == m[i];
                assert(s[k] == t[k]);
            } else {
                assert(m[i] == s.last());
                assert(s[s.len() - 1] == s.last());
            }
        }
    }
}

/// Every entry listed for today is marked due today and comes from the
/// cache.
pub proof fn lemma_due_entries_are_due(s: Seq<Entry>, offsets: Seq<int>, now: LocalTime)
    requires
        offsets.len() == s.len(),
    ensures
        due_entries(s, offsets, now).len() <= s.len(),
        forall|i: int|
            0 <= i < due_entries(s, offsets, now).len() ==> (#[trigger] due_entries(
                s,
                offsets,
                now,
            )[i]).due_today && s.contains(due_entries(s, offsets, now)[i]),
    decreases s.len(),
{
    if s.len() > 0 {
        let t = s.drop_last();
        lemma_due_entries_are_due(t, offsets.drop_last(), now);
        let d = due_entries(s, offsets, now);
        let dt = due_entries(t, offsets.drop_last(), now);
        assert forall|i: int| 0 <= i < d.len() implies (#[trigger] d[i]).due_today && s.contains(
            d[i],
        ) by {
            if i < dt.len() {
                assert(d[i] == dt[i]);
                let k = choose|k: int| 0 <= k < t.len() && t[k] == d[i];
                assert(s[k] == t[k]);
            } else {
                assert(d[i] == s.last());
                assert(s[s.len() - 1] == s.last());
            }
        }
    }
}

/// An entry that is due at its offset is in the list of due entries.
pub proof fn lemma_due_entries_include(s: Seq<Entry>, offsets: Seq<int>, now: LocalTime, i: int)
    requires
        offsets.len() == s.len(),
        0 <= i < s.len(),
        s[i].due_on(offsets[i], now),
    ensures
        due_entries(s, offsets, now).contains(s[i]),
    decreases s.len(),
{
    let t = s.drop_last();
    let o = offsets.drop_last();
    let d = due_entries(s, offsets, now);
    if i == s.len() - 1 {
        assert(s.last() == s[i]);
        assert(d[d.len() - 1] == s[i]);
    } else {
        assert(t[i] == s[i]);
        assert(o[i] == offsets[i]);
        lemma_due_entries_include(t, o, now, i);
        let dt = due_entries(t, o, now);
        let k = choose|k: int| 0 <= k < dt.len() && dt[k] == s[i];
        assert(d[k] == dt[k]);
    }
}

/// Every listed entry is one of the entries, due at its own offset.
pub proof fn lemma_due_entries_only(s: Seq<Entry>, offsets: Seq<int>, now: LocalTime, e: Entry)
    requires
        offsets.len() == s.len(),
        due_entries(s, offsets, now).contains(e),
    ensures
        exists|i: int| 0 <= i < s.len() && s[i] == e && #[trigger] s[i].due_on(offsets[i], now),
    decreases s.len(),
{
    let t = s.drop_last();
    let o = offsets.drop_last();
    let d = due_entries(s, offsets, now);
    let dt = due_entries(t, o, now);
    let k = choose|k: int| 0 <= k < d.len() && d[k] == e;
    if k < dt.len() {
        assert(d[k] == dt[k]);
        assert(dt.contains(e));
        lemma_due_entries_only(t, o, now, e);
        let i = choose|i: int| 0 <= i < t.len() && t[i] == e && #[trigger] t[i].due_on(o[i], now);
        assert(s[i] == t[i] && offsets[i] == o[i]);
        assert(s[i].due_on(offsets[i], now));
    } else {
        let i = s.len() - 1;
        assert(s[i] == s.last() && offsets[i] == offsets.last());
        assert(s[i].due_on(offsets[i], now));
    }
}

/// What `today` lists, given the local times at which the entries were
/// created (offsets as the local time zone reported them): an entry is
/// listed exactly when it is flagged due today and its creation falls on
/// the local calendar day of `now`. In particular a flagged entry created
/// at the very instant of `now`, at the same offset, is listed.
pub proof fn lemma_today_lists_entries_of_the_day(s: Seq<Entry>, times: Seq<LocalTime>, now: LocalTime)
    requires
        read_at_creation(s, times),
    ensures
        forall|i: int|
            0 <= i < s.len() && s[i].due_today && day_number(#[trigger] times[i].local_ms())
                == day_number(now.local_ms()) ==> due_entries(s, offsets_of(times), now).contains(
                s[i],
            ),
        forall|i: int|
            0 <= i < s.len() && s[i].due_today && #[trigger] times[i].local_ms() == now.local_ms()
                ==> due_entries(s, offsets_of(times), now).contains(s[i]),
        forall|e: Entry|
            #[trigger] due_entries(s, offsets_of(times), now).contains(e) ==> exists|i: int|
                0 <= i < s.len() && s[i] == e && e.due_today && day_number(
                    #[trigger] times[i].local_ms(),
                ) == day_number(now.local_ms()),
{
    let offsets = offsets_of(times);
    assert forall|i: int|
        0 <= i < s.len() && s[i].due_today && day_number(#[trigger] times[i].local_ms()) == day_number(
            now.local_ms(),
        ) implies due_entries(s, offsets, now).contains(s[i]) by {
        assert(offsets[i] == times[i].offset_secs as int);
        assert(times[i].utc_ms == s[i].created_at);
        lemma_due_entries_include(s, offsets, now, i);
    }
    assert forall|i: int|
        0 <= i < s.len() && s[i].due_today && #[trigger] times[i].local_ms() == now.local_ms()
            implies due_entries(s, offsets, now).contains(s[i]) by {
        assert(offsets[i] == times[i].offset_secs as int);
        assert(times[i].utc_ms == s[i].created_at);
        lemma_due_entries_include(s, offsets, now, i);
    }
    assert forall|e: Entry| #[trigger] due_entries(s, offsets, now).contains(e) implies exists|i: int|
        0 <= i < s.len() && s[i] == e && e.due_today && day_number(#[trigger] times[i].local_ms())
            == day_number(now.local_ms()) by {
        lemma_due_entries_only(s, offsets, now, e);
        let i = choose|i: int| 0 <= i < s.len() && s[i] == e && #[trigger] s[i].due_on(offsets[i], now);
        assert(offsets[i] == times[i].offset_secs as int);
        assert(times[i].utc_ms == s[i].created_at);
        assert(day_number(times[i].local_ms()) == day_number(now.local_ms()));
    }
}

/// `is_due_today_now` and `today` agree: an entry is due by the first
/// exactly when, read at the same creation offset, the second lists it.
pub proof fn lemma_due_now_agrees_with_today(
    s: Seq<Entry>,
    times: Seq<LocalTime>,
    now: LocalTime,
    i: int,
    r: bool,
)
    requires
        read_at_creation(s, times),
        0 <= i < s.len(),
        r == s[i].due_on(times[i].offset_secs as int, now),
    ensures
        r ==> due_entries(s, offsets_of(times), now).contains(s[i]),
        r == (s[i].due_today && day_number(s[i].created_at + times[i].offset_secs * 1000)
            == day_number(now.local_ms())),
{
    if r {
        assert(offsets_of(times)[i] == times[i].offset_secs as int);
        lemma_due_entries_include(s, offsets_of(times), now, i);
    }
}

/// An entry is due now exactly when it is flagged and its creation, on the
/// local clock at the offset the zone reported for it, falls on the local
/// day of `now`; a flagged entry created at the instant and offset of `now`
/// is due.
pub proof fn lemma_due_now_is_same_local_day(e: Entry, now: LocalTime, r: bool)
    requires
        due_at_zone_offset(e, now, r),
    ensures
        exists|t: LocalTime|
            #[trigger] from_zone(t) && t.utc_ms == e.created_at && r == (e.due_today && day_number(
                t.local_ms(),
            ) == day_number(now.local_ms())),
        r ==> e.due_today,
{
    let t = choose|t: LocalTime|
        #[trigger] from_zone(t) && t.wf() && t.utc_ms == e.created_at && r == e.due_on(
            t.offset_secs as int,
            now,
        );
    assert(from_zone(t) && t.utc_ms == e.created_at && r == (e.due_today && day_number(t.local_ms())
        == day_number(now.local_ms())));
}

/// A flagged entry created at the instant of `now`, read at the same offset,
/// is due now.
pub proof fn lemma_created_now_is_due(e: Entry, now: LocalTime)
    requires
        e.due_today,
        e.created_at == now.utc_ms,
    ensures
        e.due_on(now.offset_secs as int, now),
{
}

/// A time label shows the local wall clock: the `H:MM` of the creation
/// instant moved by the offset the local time zone reported for it, so two
/// entries created at the same instant and read at the same offset get the
/// same label, and an entry read at offset 0 gets the UTC `H:MM`.
pub proof fn lemma_time_label_is_local_wall_clock(created_at: i64, label: Seq<char>)
    requires
        local_label(created_at, label),
    ensures
        exists|t: LocalTime|
            #[trigger] from_zone(t) && -86_400 < t.offset_secs < 86_400 && t.utc_ms == created_at
                && label == clock_label(created_at + t.offset_secs * 1000),
{
    let t = choose|t: LocalTime|
        #[trigger] from_zone(t) && t.wf() && t.utc_ms == created_at && label == clock_label(
            t.local_ms(),
        );
    assert(label == clock_label(created_at + t.offset_secs * 1000));
}

/// A saved entry's creation time is a reading of the system clock taken by
/// the insert, and it is the time handed to SQLite with the text.
pub proof fn lemma_insert_stamps_clock_reading(
    before: Seq<SqlCall>,
    after: Seq<SqlCall>,
    raw: Seq<char>,
    c: ClockReading,
    e: Entry,
)
    requires
        e.created_at == c.instant(),
        insert_logged(before, after, raw, c.instant(), Ok(e)),
        trim(raw).len() > 0,
    ensures
        clock_read(e.created_at),
        after.last() matches SqlCall::Insert { p2, id, .. } && p2 == e.created_at && id == Some(e.id),
{
    assert(c.instant() == e.created_at);
}

/// A store opened at a path is backed by the database file at that path,
/// never by a fresh in-memory database.
pub proof fn lemma_open_uses_the_file(
    log: Seq<SqlCall>,
    path: Seq<char>,
    rebuilt: bool,
    cache: Seq<Entry>,
    count: Option<i64>,
)
    requires
        opened_with(log, Some(path), rebuilt, cache, count),
    ensures
        log[0] == (SqlCall::Open { path: Some(path) }),
        log[0] != (SqlCall::Open { path: None }),
{
    assert(log.drop_last()[0] == log[0]);
}

} // verus!

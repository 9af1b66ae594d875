//! The usage journal kept in a SQLite database shared by all processes.
use vstd::prelude::*;
use crate::error::CacheError;
use crate::usage::{
    holds, is_eviction_order, lemma_recorded_not_evicted, lemma_without, names_at, next_stamp,
    record, unique_keys, without, Entry, UsageRecord, UsageTable,
};

verus! {

#[verifier::external_type_specification]
#[verifier::external_body]
pub struct ExConnection(rusqlite::Connection);

#[verifier::external_type_specification]
#[verifier::external_body]
pub struct ExSqlError(rusqlite::Error);

/// Relies on `rusqlite::Connection::open`: opens (creating if absent) the
/// database file at `path`.
#[verifier::external_body]
fn open_db(path: &str) -> (r: Result<rusqlite::Connection, rusqlite::Error>) {
    rusqlite::Connection::open(path)
}

/// Relies on `rusqlite::Connection::execute_batch`: runs the statements of `sql`.
#[verifier::external_body]
fn exec_batch(db: &rusqlite::Connection, sql: &str) -> (r: Result<(), rusqlite::Error>) {
    db.execute_batch(sql)
}

/// Relies on `rusqlite::Connection::execute`: runs `sql` with the text
/// parameter `f` and the integer parameter `t`.
#[verifier::external_body]
fn exec_text_int(db: &rusqlite::Connection, sql: &str, f: &str, t: i64) -> (r: Result<usize, rusqlite::Error>) {
    db.execute(sql, (f, t))
}

/// Relies on `rusqlite::Connection::execute`: runs `sql` with the text
/// parameter `f`.
#[verifier::external_body]
fn exec_text(db: &rusqlite::Connection, sql: &str, f: &str) -> (r: Result<usize, rusqlite::Error>) {
    db.execute(sql, (f,))
}

/// Relies on `rusqlite::Connection::prepare` and `Statement::query_map`: the
/// rows of the query `sql`, whose columns are a text and an integer.
#[verifier::external_body]
fn query_records(db: &rusqlite::Connection, sql: &str) -> (r: Result<Vec<UsageRecord>, rusqlite::Error>) {
    let mut stmt = db.prepare(sql)?;
    let rows = stmt.query_map((), |row| {
        Ok(UsageRecord { fingerprint: row.get(0)?, last_used: row.get(1)? })
    })?;
    rows.collect()
}

/// Relies on chrono's `From<SystemTime> for DateTime<Utc>` and
/// `DateTime::timestamp_micros`: the current time, in microseconds since the
/// Unix epoch (negative before it). Nothing is promised of the value.
#[verifier::external_body]
fn now_micros() -> (r: i64) {
    chrono::DateTime::<chrono::Utc>::from(std::time::SystemTime::now()).timestamp_micros()
}

/// Relies on the `Display` impl of `rusqlite::Error`: its message.
#[verifier::external_body]
fn sql_message(e: &rusqlite::Error) -> (r: String) {
    e.to_string()
}

/// A statement handed to the database: its SQL text, and its text and
/// integer parameters, if any.
pub type Sent = (Seq<char>, Option<Seq<char>>, Option<i64>);

/// Creates the table if absent and converts instants that an earlier
/// layout stored as date-time text into microseconds since the epoch
/// (dropping records whose text is no date).
pub open spec fn schema_sql() -> Seq<char> {
    "CREATE TABLE IF NOT EXISTS resources (fingerprint VARCHAR PRIMARY KEY, last_used INTEGER NOT NULL); DELETE FROM resources WHERE typeof(last_used) = 'text' AND julianday(last_used) IS NULL; UPDATE resources SET last_used = CAST(ROUND((julianday(last_used) - 2440587.5) * 86400000000.0) AS INTEGER) WHERE typeof(last_used) = 'text';"@
}

/// Opens a transaction that holds the database's write lock from the start.
pub open spec fn begin_sql() -> Seq<char> {
    "BEGIN IMMEDIATE"@
}

/// Reads every record, oldest first.
pub open spec fn select_sql() -> Seq<char> {
    "SELECT fingerprint, last_used FROM resources ORDER BY last_used ASC, fingerprint ASC"@
}

/// Sets the instant of fingerprint `?1` to `?2`, adding its record if absent.
pub open spec fn upsert_sql() -> Seq<char> {
    "INSERT INTO resources (fingerprint, last_used) VALUES (?1, ?2) ON CONFLICT(fingerprint) DO UPDATE SET last_used = ?2"@
}

/// Removes the record of fingerprint `?1`, if any.
pub open spec fn delete_sql() -> Seq<char> {
    "DELETE FROM resources WHERE fingerprint = ?1"@
}

pub open spec fn commit_sql() -> Seq<char> {
    "COMMIT"@
}

pub open spec fn rollback_sql() -> Seq<char> {
    "ROLLBACK"@
}

/// A statement without parameters.
pub open spec fn plain(sql: Seq<char>) -> Sent {
    (sql, None, None)
}

/// What one recorded use hands to the database, in order.
pub open spec fn use_statements(f: Seq<char>, stamp: i64) -> Seq<Sent> {
    seq![
        plain(begin_sql()),
        plain(select_sql()),
        (upsert_sql(), Some(f), Some(stamp)),
        plain(commit_sql()),
    ]
}

fn schema_statement() -> (r: &'static str)
    ensures
        r@ == schema_sql(),
{
    "CREATE TABLE IF NOT EXISTS resources (fingerprint VARCHAR PRIMARY KEY, last_used INTEGER NOT NULL); DELETE FROM resources WHERE typeof(last_used) = 'text' AND julianday(last_used) IS NULL; UPDATE resources SET last_used = CAST(ROUND((julianday(last_used) - 2440587.5) * 86400000000.0) AS INTEGER) WHERE typeof(last_used) = 'text';"
}

fn begin_statement() -> (r: &'static str)
    ensures
        r@ == begin_sql(),
{
    "BEGIN IMMEDIATE"
}

fn select_statement() -> (r: &'static str)
    ensures
        r@ == select_sql(),
{
    "SELECT fingerprint, last_used FROM resources ORDER BY last_used ASC, fingerprint ASC"
}

fn upsert_statement() -> (r: &'static str)
    ensures
        r@ == upsert_sql(),
{
    "INSERT INTO resources (fingerprint, last_used) VALUES (?1, ?2) ON CONFLICT(fingerprint) DO UPDATE SET last_used = ?2"
}

fn delete_statement() -> (r: &'static str)
    ensures
        r@ == delete_sql(),
{
    "DELETE FROM resources WHERE fingerprint = ?1"
}

fn commit_statement() -> (r: &'static str)
    ensures
        r@ == commit_sql(),
{
    "COMMIT"
}

fn rollback_statement() -> (r: &'static str)
    ensures
        r@ == rollback_sql(),
{
    "ROLLBACK"
}

/// The usage journal: last-use instants of fingerprints in a database file
/// that many processes share, and the eviction rule for a pool of at most
/// `maximum_resources`.
///
/// Its view is the table as this handle knows it: as read by its latest
/// recorded use, with its own later writes applied. Other processes may have
/// changed the file since. `issued()` lists every statement this handle has
/// handed to the database.
pub struct Journal {
    db: rusqlite::Connection,
    maximum_resources: usize,
    known: Ghost<Seq<Entry>>,
    sent: Ghost<Seq<Sent>>,
}

impl View for Journal {
    type V = Seq<Entry>;

    closed spec fn view(&self) -> Seq<Entry> {
        self.known@
    }
}

impl Journal {
    /// The capacity the journal was opened with.
    pub closed spec fn capacity(&self) -> nat {
        self.maximum_resources as nat
    }

    /// The statements handed to the database so far, in order.
    pub closed spec fn issued(&self) -> Seq<Sent> {
        self.sent@
    }

    /// The capacity the journal was opened with.
    pub fn maximum_resources(&self) -> (r: usize)
        ensures
            r == self.capacity(),
    {
        self.maximum_resources
    }

    /// Abandons the open transaction.
    fn roll_back(&mut self)
        ensures
            final(self).issued() == old(self).issued().push(plain(rollback_sql())),
            final(self)@ == old(self)@,
            final(self).capacity() == old(self).capacity(),
    {
        let sql = rollback_statement();
        self.sent = Ghost(self.sent@.push(plain(sql@)));
        let _ = exec_batch(&self.db, sql);
    }

    /// Opens the journal at `path` (`":memory:"` for a private in-memory one)
    /// with the given capacity, creating its table if absent and migrating an
    /// earlier layout of it.
    pub fn new(path: &str, maximum_resources: usize) -> (r: Result<Journal, CacheError>)
        ensures
            r is Ok ==> r->Ok_0.capacity() == maximum_resources,
            r is Ok ==> r->Ok_0.issued() == seq![plain(schema_sql())],
            r is Ok ==> r->Ok_0@ == Seq::<Entry>::empty(),
            r is Err ==> (r->Err_0 is JournalIo || r->Err_0 is JournalSchema),
    {
        let db = match open_db(path) {
            Ok(db) => db,
            Err(e) => return Err(CacheError::JournalIo(sql_message(&e))),
        };
        let sql = schema_statement();
        let ghost nothing = Seq::<Entry>::empty();
        let ghost schema = seq![plain(sql@)];
        match exec_batch(&db, sql) {
            Ok(()) => Ok(Journal { db, maximum_resources, known: Ghost(nothing), sent: Ghost(schema) }),
            Err(e) => Err(CacheError::JournalSchema(sql_message(&e))),
        }
    }

    /// Records that `fingerprint` was used now and returns the fingerprints
    /// that fall outside the `maximum_resources` most recently used ones,
    /// oldest first. In one transaction it reads the table, applies
    /// `UsageTable::record_usage` to it and writes the use's new instant.
    pub fn record_usage(&mut self, fingerprint: &str) -> (r: Result<Vec<String>, CacheError>)
        ensures
            final(self).capacity() == old(self).capacity(),
            r is Ok ==> exists|before: Seq<Entry>, now: i64, order: Seq<usize>|
                unique_keys(before)
                && final(self)@ == record(before, fingerprint@, now)
                && final(self).issued() == old(self).issued() + use_statements(
                    fingerprint@,
                    next_stamp(before, now),
                )
                && is_eviction_order(final(self)@, final(self).capacity(), order)
                && r->Ok_0@.map_values(|s: String| s@) == names_at(final(self)@, order),
            r is Ok ==> unique_keys(final(self)@),
            r is Ok && old(self).capacity() >= 1 ==> !r->Ok_0@.map_values(|s: String| s@).contains(
                fingerprint@,
            ),
            r is Err ==> r->Err_0 is JournalIo && final(self)@ == old(self)@,
    {
        let begin = begin_statement();
        self.sent = Ghost(self.sent@.push(plain(begin@)));
        match exec_batch(&self.db, begin) {
            Ok(()) => {},
            Err(e) => return Err(CacheError::JournalIo(sql_message(&e))),
        }
        let select = select_statement();
        self.sent = Ghost(self.sent@.push(plain(select@)));
        let rows = match query_records(&self.db, select) {
            Ok(rows) => rows,
            Err(e) => {
                let m = sql_message(&e);
                self.roll_back();
                return Err(CacheError::JournalIo(m));
            },
        };
        let mut table = UsageTable::from_records(rows);
        let ghost before = table@;
        let now = now_micros();
        let evicted = table.record_usage(fingerprint, now, self.maximum_resources);
        let n = table.len();
        let stamp = table.records[n - 1].last_used;
        proof {
            let last = n as int - 1;
            assert(table@ == without(before, fingerprint@).push((fingerprint@, next_stamp(before, now))));
            assert(table@[last] == (fingerprint@, next_stamp(before, now)));
            assert(table@[last] == table.records@[last]@);
        }
        assert(stamp == next_stamp(before, now));
        let upsert = upsert_statement();
        self.sent = Ghost(self.sent@.push((upsert@, Some(fingerprint@), Some(stamp))));
        match exec_text_int(&self.db, upsert, fingerprint, stamp) {
            Ok(_) => {},
            Err(e) => {
                let m = sql_message(&e);
                self.roll_back();
                return Err(CacheError::JournalIo(m));
            },
        }
        let commit = commit_statement();
        self.sent = Ghost(self.sent@.push(plain(commit@)));
        match exec_batch(&self.db, commit) {
            Ok(()) => {},
            Err(e) => {
                let m = sql_message(&e);
                self.roll_back();
                return Err(CacheError::JournalIo(m));
            },
        }
        self.known = Ghost(table@);
        proof {
            let order = choose|order: Seq<usize>|
                is_eviction_order(table@, self.capacity(), order)
                && evicted@.map_values(|s: String| s@) == names_at(table@, order);
            if self.capacity() >= 1 {
                lemma_recorded_not_evicted(before, fingerprint@, now, self.capacity(), order);
            }
            assert(self.issued() =~= old(self).issued() + use_statements(fingerprint@, stamp));
            assert(unique_keys(before) && self@ == record(before, fingerprint@, now)
                && self.issued() == old(self).issued() + use_statements(fingerprint@, next_stamp(before, now))
                && is_eviction_order(self@, self.capacity(), order)
                && evicted@.map_values(|s: String| s@) == names_at(self@, order));
        }
        Ok(evicted)
    }

    /// Removes the record of `fingerprint`, if there is one: a no-op on a
    /// fingerprint without a record, so that a second call has no further
    /// effect.
    pub fn mark_deleted(&mut self, fingerprint: &str) -> (r: Result<(), CacheError>)
        ensures
            final(self).capacity() == old(self).capacity(),
            final(self).issued() == old(self).issued().push((delete_sql(), Some(fingerprint@), None)),
            r is Ok ==> final(self)@ == without(old(self)@, fingerprint@),
            r is Ok ==> !holds(final(self)@, fingerprint@),
            r is Ok && !holds(old(self)@, fingerprint@) ==> final(self)@ == old(self)@,
            r is Err ==> r->Err_0 is JournalIo && final(self)@ == old(self)@,
    {
        let sql = delete_statement();
        self.sent = Ghost(self.sent@.push((sql@, Some(fingerprint@), None)));
        match exec_text(&self.db, sql, fingerprint) {
            Ok(_) => {
                proof {
                    lemma_without(self.known@, fingerprint@);
                }
                self.known = Ghost(without(self.known@, fingerprint@));
                Ok(())
            },
            Err(e) => Err(CacheError::JournalIo(sql_message(&e))),
        }
    }
}

} // verus!

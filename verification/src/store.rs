//! Keyed, last-write-wins persistence over a single local sqlite table.
//!
//! The store's abstract state is the mapping from keys to stored payloads;
//! the sqlite calls sit behind trusted wrappers whose contracts say how
//! each statement moves that mapping.

use vstd::prelude::*;
use vstd::string::StringExecFns;

verus! {

#[verifier::external_type_specification]
#[verifier::external_body]
pub struct ExConnection(rusqlite::Connection);

#[verifier::external_type_specification]
#[verifier::external_body]
pub struct ExSqliteError(rusqlite::Error);

/// The key-to-content mapping the database connection holds in its one
/// `data` table.
pub uninterp spec fn store_contents(conn: rusqlite::Connection) -> Map<Seq<char>, Seq<char>>;

/// Durable keyed storage for opaque string payloads: exactly one record
/// per key, a write fully replacing any previous one. Exclusive access is
/// the caller's concern; `&mut` enforces one operation at a time here.
pub struct DocumentStore {
    conn: rusqlite::Connection,
}

impl View for DocumentStore {
    type V = Map<Seq<char>, Seq<char>>;

    closed spec fn view(&self) -> Map<Seq<char>, Seq<char>> {
        store_contents(self.conn)
    }
}

/// Relies on rusqlite::Connection::open: opens or creates the database
/// file at `path`. What the file already holds decides the contents, so
/// nothing is promised of them.
#[verifier::external_body]
fn open_conn(path: &str) -> Result<rusqlite::Connection, rusqlite::Error> {
    rusqlite::Connection::open(path)
}

/// Relies on the Display rendering of rusqlite::Error for a readable
/// failure message.
#[verifier::external_body]
fn sqlite_error_text(e: &rusqlite::Error) -> String {
    e.to_string()
}

impl DocumentStore {
    /// Relies on rusqlite::Connection::execute with CREATE TABLE IF NOT
    /// EXISTS: it creates the `data` table when absent and leaves existing
    /// rows alone.
    #[verifier::external_body]
    fn exec_create_table(&mut self) -> (r: Result<(), rusqlite::Error>)
        ensures
            store_contents(final(self).conn) == store_contents(old(self).conn),
    {
        match self.conn.execute(
            "CREATE TABLE IF NOT EXISTS data (
                table_name TEXT PRIMARY KEY,
                content TEXT NOT NULL,
                updated_at DATETIME DEFAULT CURRENT_TIMESTAMP
            )",
            (),
        ) {
            Ok(_) => Ok(()),
            Err(e) => Err(e),
        }
    }

    /// Relies on rusqlite::Connection::execute with INSERT OR REPLACE: on
    /// success the row for `key` is created or fully replaced and no other
    /// row changes; a failed statement is backed out by sqlite and changes
    /// nothing.
    #[verifier::external_body]
    fn exec_upsert(&mut self, key: &str, content: &str) -> (r: Result<(), rusqlite::Error>)
        ensures
            r is Ok ==> store_contents(final(self).conn) == store_contents(old(self).conn).insert(
                key@,
                content@,
            ),
            r is Err ==> store_contents(final(self).conn) == store_contents(old(self).conn),
    {
        match self.conn.execute(
            "INSERT OR REPLACE INTO data (table_name, content, updated_at)
             VALUES (?1, ?2, datetime('now'))",
            (key, content),
        ) {
            Ok(_) => Ok(()),
            Err(e) => Err(e),
        }
    }

    /// Relies on rusqlite::Connection::query_row with SELECT by primary
    /// key: it yields the stored content exactly when a row for `key`
    /// exists, and QueryReturnedNoRows when none does.
    #[verifier::external_body]
    fn query_content(&self, key: &str) -> (r: Result<Option<String>, rusqlite::Error>)
        ensures
            r matches Ok(v) ==> match v {
                Some(s) => store_contents(self.conn).contains_key(key@) && s@ == store_contents(
                    self.conn,
                )[key@],
                None => !store_contents(self.conn).contains_key(key@),
            },
    {
        match self.conn.query_row(
            "SELECT content FROM data WHERE table_name = ?1",
            [key],
            |row| row.get::<usize, String>(0),
        ) {
            Ok(content) => Ok(Some(content)),
            Err(rusqlite::Error::QueryReturnedNoRows) => Ok(None),
            Err(e) => Err(e),
        }
    }

    /// Relies on rusqlite::Connection::execute with DELETE by key: on
    /// success every row for `key` is gone and no other row changes;
    /// deleting an absent key succeeds with zero rows affected.
    #[verifier::external_body]
    fn exec_delete(&mut self, key: &str) -> (r: Result<(), rusqlite::Error>)
        ensures
            r is Ok ==> store_contents(final(self).conn) == store_contents(old(self).conn).remove(
                key@,
            ),
            r is Err ==> store_contents(final(self).conn) == store_contents(old(self).conn),
    {
        match self.conn.execute("DELETE FROM data WHERE table_name = ?1", [key]) {
            Ok(_) => Ok(()),
            Err(e) => Err(e),
        }
    }

    /// Open (or create) the backing file at `path` and make sure the one
    /// `data` table exists. Whether this succeeds, and what the store then
    /// holds, depend on the disk; a failure is fatal to the caller's
    /// startup, so the error is returned rather than logged away.
    pub fn open(path: &str) -> (r: Result<DocumentStore, String>) {
        let conn = match open_conn(path) {
            Ok(c) => c,
            Err(e) => {
                let msg = String::from_str("error opening database: ").concat(
                    sqlite_error_text(&e).as_str(),
                );
                return Err(msg);
            },
        };
        let mut store = DocumentStore { conn };
        match store.exec_create_table() {
            Ok(()) => Ok(store),
            Err(e) => {
                let msg = String::from_str("error initializing database: ").concat(
                    sqlite_error_text(&e).as_str(),
                );
                Err(msg)
            },
        }
    }

    /// Store `data` under `table`: insert a new record or fully replace
    /// the existing one (last write wins, no history). On failure the
    /// store is unchanged and a readable message is returned.
    pub fn save(&mut self, table: &str, data: &str) -> (r: Result<(), String>)
        ensures
            r is Ok ==> final(self)@ == old(self)@.insert(table@, data@),
            r is Err ==> final(self)@ == old(self)@,
    {
        match self.exec_upsert(table, data) {
            Ok(()) => Ok(()),
            Err(e) => {
                let msg = String::from_str("error saving data: ").concat(
                    sqlite_error_text(&e).as_str(),
                );
                Err(msg)
            },
        }
    }

    /// Load the record under `table`: `Some` of its content exactly when
    /// one exists, `None` when none does (which is not an error).
    pub fn load(&self, table: &str) -> (r: Result<Option<String>, String>)
        ensures
            r matches Ok(v) ==> match v {
                Some(s) => self@.contains_key(table@) && s@ == self@[table@],
                None => !self@.contains_key(table@),
            },
    {
        match self.query_content(table) {
            Ok(v) => Ok(v),
            Err(e) => {
                let msg = String::from_str("error loading data: ").concat(
                    sqlite_error_text(&e).as_str(),
                );
                Err(msg)
            },
        }
    }

    /// Delete every record under `table`. The `_id` argument is accepted
    /// but does not affect behavior: both with and without it the same
    /// delete-by-key statement runs, a known inconsistency kept as it is.
    /// Deleting a key that was never stored succeeds.
    pub fn delete(&mut self, table: &str, _id: Option<&str>) -> (r: Result<(), String>)
        ensures
            r is Ok ==> final(self)@ == old(self)@.remove(table@),
            r is Err ==> final(self)@ == old(self)@,
    {
        match self.exec_delete(table) {
            Ok(()) => Ok(()),
            Err(e) => {
                let msg = String::from_str("error deleting data: ").concat(
                    sqlite_error_text(&e).as_str(),
                );
                Err(msg)
            },
        }
    }
}

/// A save followed by a load of the same key yields exactly what was
/// saved.
pub proof fn lemma_save_then_load(m: Map<Seq<char>, Seq<char>>, k: Seq<char>, v: Seq<char>)
    ensures
        m.insert(k, v).contains_key(k),
        m.insert(k, v)[k] == v,
{
}

/// A second save under the same key fully replaces the first: the store
/// keeps no history.
pub proof fn lemma_last_write_wins(
    m: Map<Seq<char>, Seq<char>>,
    k: Seq<char>,
    v1: Seq<char>,
    v2: Seq<char>,
)
    ensures
        m.insert(k, v1).insert(k, v2) == m.insert(k, v2),
{
    assert(m.insert(k, v1).insert(k, v2) =~= m.insert(k, v2));
}

/// Saves to distinct keys are independent: serializing them in either
/// order loses neither, and each key afterwards holds its own payload.
pub proof fn lemma_independent_saves(
    m: Map<Seq<char>, Seq<char>>,
    k1: Seq<char>,
    v1: Seq<char>,
    k2: Seq<char>,
    v2: Seq<char>,
)
    requires
        k1 != k2,
    ensures
        m.insert(k1, v1).insert(k2, v2).contains_key(k1),
        m.insert(k1, v1).insert(k2, v2)[k1] == v1,
        m.insert(k1, v1).insert(k2, v2).contains_key(k2),
        m.insert(k1, v1).insert(k2, v2)[k2] == v2,
        m.insert(k1, v1).insert(k2, v2) == m.insert(k2, v2).insert(k1, v1),
{
    assert(m.insert(k1, v1).insert(k2, v2) =~= m.insert(k2, v2).insert(k1, v1));
}

/// Deleting a key removes it, leaves every other key as it was, and on a
/// key that was never stored changes nothing.
pub proof fn lemma_delete_removes(m: Map<Seq<char>, Seq<char>>, k: Seq<char>)
    ensures
        !m.remove(k).contains_key(k),
        forall|k2: Seq<char>|
            k2 != k ==> (m.remove(k).contains_key(k2) <==> m.contains_key(k2)),
        forall|k2: Seq<char>|
            k2 != k && m.contains_key(k2) ==> m.remove(k)[k2] == m[k2],
        !m.contains_key(k) ==> m.remove(k) == m,
{
    if !m.contains_key(k) {
        assert(m.remove(k) =~= m);
    }
}

} // verus!

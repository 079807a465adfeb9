//! Durable state store of the scheduler: one record of scheduling state per
//! card, plus one scalar setting, kept in an embedded SQL database.
//!
//! The database is modelled by two ghost maps, [`db_cards`] and
//! [`db_settings`], naming what the connection's tables hold. Every call
//! into the database crate goes through a trusted wrapper whose contract
//! says, over those maps, what the statement does; everything around the
//! wrappers is verified. All columns are integers or text: stability and
//! difficulty travel as bit patterns and instants as Unix seconds, so a
//! record round-trips exactly.

use crate::model::Memory;
use crate::model::SECONDS_PER_DAY;
use rusqlite::OptionalExtension;
use vstd::prelude::*;

verus! {

/// One persisted scheduling record. Absence of a record means the card was
/// never reviewed and is immediately due.
#[derive(Clone, Copy, PartialEq, Eq, Debug)]
pub struct CardState {
    /// Forgetting-curve stability, as the bit pattern of the model's value.
    pub stability_bits: u32,
    /// Item difficulty, as the bit pattern of the model's value.
    pub difficulty_bits: u32,
    /// Instant of the most recent review, in Unix seconds UTC.
    pub last_review: Option<i64>,
    /// Instant at or after which the card is due again, in Unix seconds
    /// UTC; absent means immediately due.
    pub due_date: Option<i64>,
    /// The scheduled gap in whole days, kept for display and audit.
    pub interval_days: u32,
}

impl CardState {
    /// The memory parameters this record carries.
    pub open spec fn spec_memory(self) -> Memory {
        Memory { stability_bits: self.stability_bits, difficulty_bits: self.difficulty_bits }
    }

    /// Extracts the memory parameters this record carries.
    pub fn memory(&self) -> (r: Memory)
        ensures
            r == self.spec_memory(),
    {
        Memory { stability_bits: self.stability_bits, difficulty_bits: self.difficulty_bits }
    }

    /// A consistent record: the scheduled gap is at least one day, and the
    /// due date, where both instants are present, is exactly that gap after
    /// the last review. The two are written together at save time and never
    /// drift apart.
    pub open spec fn consistent(self) -> bool {
        &&& self.interval_days >= 1
        &&& match (self.last_review, self.due_date) {
            (Option::Some(l), Option::Some(d)) => d as int == l as int + self.interval_days as int
                * (SECONDS_PER_DAY as int),
            _ => true,
        }
    }
}

/// How the store can fail: the medium cannot be opened or written, or a
/// stored row cannot be read back as a record.
#[derive(Clone, Copy, PartialEq, Eq, Structural, Debug)]
pub enum StoreError {
    StorageUnavailable,
    CorruptRecord,
}

#[verifier::external_type_specification]
#[verifier::external_body]
pub struct ExConnection(rusqlite::Connection);

#[verifier::external_type_specification]
#[verifier::external_body]
pub struct ExRusqliteError(rusqlite::Error);

/// The card records the connection's database holds, keyed by card id.
pub uninterp spec fn db_cards(conn: rusqlite::Connection) -> Map<Seq<char>, CardState>;

/// The settings the connection's database holds, keyed by setting name.
pub uninterp spec fn db_settings(conn: rusqlite::Connection) -> Map<Seq<char>, i64>;

/// An empty card table.
pub open spec fn no_cards() -> Map<Seq<char>, CardState> {
    Map::empty()
}

/// An empty settings table.
pub open spec fn no_settings() -> Map<Seq<char>, i64> {
    Map::empty()
}

/// The map that a listing of keyed records stands for, later pairs taking
/// precedence (the store never hands out a key twice).
pub open spec fn states_map(s: Seq<(String, CardState)>) -> Map<Seq<char>, CardState>
    decreases s.len(),
{
    if s.len() == 0 {
        Map::empty()
    } else {
        states_map(s.drop_last()).insert(s.last().0@, s.last().1)
    }
}

/// Relies on rusqlite::Connection::open_in_memory: it opens a connection to
/// a fresh in-memory database with no tables and no rows.
#[verifier::external_body]
fn db_open_in_memory() -> (r: Result<rusqlite::Connection, rusqlite::Error>)
    ensures
        r is Ok ==> db_cards(r->Ok_0) == no_cards(),
        r is Ok ==> db_settings(r->Ok_0) == no_settings(),
{
    rusqlite::Connection::open_in_memory()
}

/// Relies on rusqlite::Connection::open: it opens (creating it if absent) a
/// database file at the given path. Nothing is claimed about the contents,
/// which are whatever the file already held.
#[verifier::external_body]
fn db_open(path: &str) -> (r: Result<rusqlite::Connection, rusqlite::Error>) {
    rusqlite::Connection::open(path)
}

/// Relies on rusqlite::Connection::execute_batch running only CREATE TABLE
/// IF NOT EXISTS statements: missing tables are created empty and existing
/// rows are never touched, so the contents are unchanged.
#[verifier::external_body]
fn db_init_schema(conn: &mut rusqlite::Connection) -> (r: Result<(), rusqlite::Error>)
    ensures
        db_cards(*final(conn)) == db_cards(*old(conn)),
        db_settings(*final(conn)) == db_settings(*old(conn)),
{
    conn.execute_batch(
        "
        CREATE TABLE IF NOT EXISTS fsrs_cards (
            card_id TEXT PRIMARY KEY,
            stability_bits INTEGER NOT NULL,
            difficulty_bits INTEGER NOT NULL,
            last_review INTEGER,
            due_date INTEGER,
            interval_days INTEGER NOT NULL
        );
        CREATE TABLE IF NOT EXISTS fsrs_settings (
            key TEXT PRIMARY KEY,
            value INTEGER NOT NULL
        );
        ",
    )
}

/// Relies on rusqlite::Connection::query_row with OptionalExtension: the
/// SELECT by primary key yields the row stored under the card id, or None
/// when there is none; rusqlite::Row::get reads the integer columns back,
/// failing on a row whose columns do not fit the record.
#[verifier::external_body]
fn db_get_card(conn: &rusqlite::Connection, card_id: &str) -> (r: Result<
    Option<CardState>,
    rusqlite::Error,
>)
    ensures
        r is Ok ==> match r->Ok_0 {
            Option::Some(st) => db_cards(*conn).contains_key(card_id@) && db_cards(*conn)[card_id@]
                == st,
            Option::None => !db_cards(*conn).contains_key(card_id@),
        },
{
    conn.query_row(
        "SELECT stability_bits, difficulty_bits, last_review, due_date, interval_days
         FROM fsrs_cards WHERE card_id = ?1",
        (card_id,),
        |row| {
            Ok(CardState {
                stability_bits: row.get(0)?,
                difficulty_bits: row.get(1)?,
                last_review: row.get(2)?,
                due_date: row.get(3)?,
                interval_days: row.get(4)?,
            })
        },
    ).optional()
}

/// Relies on rusqlite::Statement::query_map over a SELECT without a WHERE
/// clause: it yields every stored row exactly once, and card_id is the
/// table's primary key, so no id repeats.
#[verifier::external_body]
fn db_all_cards(conn: &rusqlite::Connection) -> (r: Result<
    Vec<(String, CardState)>,
    rusqlite::Error,
>)
    ensures
        r is Ok ==> states_map(r->Ok_0@) == db_cards(*conn),
        r is Ok ==> forall|i: int, j: int|
            0 <= i < j < r->Ok_0@.len() ==> r->Ok_0@[i].0@ != r->Ok_0@[j].0@,
{
    let mut stmt = conn.prepare(
        "SELECT card_id, stability_bits, difficulty_bits, last_review, due_date, interval_days
         FROM fsrs_cards",
    )?;
    let rows = stmt.query_map([], |row| {
        Ok((row.get(0)?, CardState {
            stability_bits: row.get(1)?,
            difficulty_bits: row.get(2)?,
            last_review: row.get(3)?,
            due_date: row.get(4)?,
            interval_days: row.get(5)?,
        }))
    })?;
    rows.collect()
}

/// Relies on rusqlite::Connection::execute with a single INSERT ... ON
/// CONFLICT(card_id) DO UPDATE statement: one atomic write that stores the
/// record under the card id, replacing any previous record; on failure the
/// statement changes nothing, and the settings table is never touched.
#[verifier::external_body]
fn db_upsert_card(conn: &mut rusqlite::Connection, card_id: &str, st: &CardState) -> (r: Result<
    (),
    rusqlite::Error,
>)
    ensures
        r is Ok ==> db_cards(*final(conn)) == db_cards(*old(conn)).insert(card_id@, *st),
        r is Err ==> db_cards(*final(conn)) == db_cards(*old(conn)),
        db_settings(*final(conn)) == db_settings(*old(conn)),
{
    conn.execute(
        "INSERT INTO fsrs_cards
            (card_id, stability_bits, difficulty_bits, last_review, due_date, interval_days)
         VALUES (?1, ?2, ?3, ?4, ?5, ?6)
         ON CONFLICT(card_id) DO UPDATE SET
            stability_bits = excluded.stability_bits,
            difficulty_bits = excluded.difficulty_bits,
            last_review = excluded.last_review,
            due_date = excluded.due_date,
            interval_days = excluded.interval_days",
        (card_id, st.stability_bits, st.difficulty_bits, st.last_review, st.due_date,
        st.interval_days),
    )?;
    Ok(())
}

/// Relies on rusqlite::Connection::query_row with OptionalExtension: the
/// SELECT by primary key yields the integer value stored under the setting
/// name, or None when there is none.
#[verifier::external_body]
fn db_get_setting(conn: &rusqlite::Connection, key: &str) -> (r: Result<
    Option<i64>,
    rusqlite::Error,
>)
    ensures
        r is Ok ==> match r->Ok_0 {
            Option::Some(v) => db_settings(*conn).contains_key(key@) && db_settings(*conn)[key@]
                == v,
            Option::None => !db_settings(*conn).contains_key(key@),
        },
{
    conn.query_row(
        "SELECT value FROM fsrs_settings WHERE key = ?1",
        (key,),
        |row| row.get(0),
    ).optional()
}

/// Relies on rusqlite::Connection::execute with a single INSERT ... ON
/// CONFLICT(key) DO UPDATE statement: one atomic write that stores the
/// value under the setting name, replacing any previous value; on failure
/// the statement changes nothing, and the card table is never touched.
#[verifier::external_body]
fn db_set_setting(conn: &mut rusqlite::Connection, key: &str, value: i64) -> (r: Result<
    (),
    rusqlite::Error,
>)
    ensures
        r is Ok ==> db_settings(*final(conn)) == db_settings(*old(conn)).insert(key@, value),
        r is Err ==> db_settings(*final(conn)) == db_settings(*old(conn)),
        db_cards(*final(conn)) == db_cards(*old(conn)),
{
    conn.execute(
        "INSERT INTO fsrs_settings (key, value) VALUES (?1, ?2)
         ON CONFLICT(key) DO UPDATE SET value = excluded.value",
        (key, value),
    )?;
    Ok(())
}

/// Relies on rusqlite::Error's variants: a column that cannot be read back
/// as the asked-for type (InvalidColumnType, FromSqlConversionFailure,
/// IntegralValueOutOfRange) means a stored row does not parse as a record;
/// every other failure is the medium itself.
#[verifier::external_body]
fn classify_db_error(e: rusqlite::Error) -> (r: StoreError)
    ensures
        r is CorruptRecord || r is StorageUnavailable,
{
    match e {
        rusqlite::Error::InvalidColumnType(..) => StoreError::CorruptRecord,
        rusqlite::Error::FromSqlConversionFailure(..) => StoreError::CorruptRecord,
        rusqlite::Error::IntegralValueOutOfRange(..) => StoreError::CorruptRecord,
        _ => StoreError::StorageUnavailable,
    }
}

/// The durable store: an open connection to the scheduling database. Its
/// abstract value is the pair of maps [`Store::cards`] and
/// [`Store::settings`].
pub struct Store {
    conn: rusqlite::Connection,
}

impl Store {
    /// The card records the store holds, keyed by card id.
    pub closed spec fn cards(&self) -> Map<Seq<char>, CardState> {
        db_cards(self.conn)
    }

    /// The settings the store holds, keyed by setting name.
    pub closed spec fn settings(&self) -> Map<Seq<char>, i64> {
        db_settings(self.conn)
    }

    /// Opens (creating them if absent) the scheduling tables in the
    /// database file at `path`. The store then holds whatever records the
    /// file already held.
    pub fn open(path: &str) -> (r: Result<Store, StoreError>)
        ensures
            r is Err ==> r->Err_0 is StorageUnavailable,
    {
        let conn = match db_open(path) {
            Ok(conn) => conn,
            Err(_) => {
                return Err(StoreError::StorageUnavailable);
            },
        };
        let mut conn = conn;
        match db_init_schema(&mut conn) {
            Ok(()) => Ok(Store { conn }),
            Err(_) => Err(StoreError::StorageUnavailable),
        }
    }

    /// Opens a fresh, empty store that lives in memory only.
    pub fn open_in_memory() -> (r: Result<Store, StoreError>)
        ensures
            r is Ok ==> r->Ok_0.cards() == no_cards(),
            r is Ok ==> r->Ok_0.settings() == no_settings(),
            r is Err ==> r->Err_0 is StorageUnavailable,
    {
        let conn = match db_open_in_memory() {
            Ok(conn) => conn,
            Err(_) => {
                return Err(StoreError::StorageUnavailable);
            },
        };
        let mut conn = conn;
        match db_init_schema(&mut conn) {
            Ok(()) => Ok(Store { conn }),
            Err(_) => Err(StoreError::StorageUnavailable),
        }
    }

    /// Point lookup: the record stored under a card id, if any.
    pub fn get(&self, card_id: &str) -> (r: Result<Option<CardState>, StoreError>)
        ensures
            r is Ok ==> match r->Ok_0 {
                Option::Some(st) => self.cards().contains_key(card_id@) && self.cards()[card_id@]
                    == st,
                Option::None => !self.cards().contains_key(card_id@),
            },
    {
        match db_get_card(&self.conn, card_id) {
            Ok(found) => Ok(found),
            Err(e) => Err(classify_db_error(e)),
        }
    }

    /// Bulk scan: every stored record with its card id, each id once.
    pub fn get_all(&self) -> (r: Result<Vec<(String, CardState)>, StoreError>)
        ensures
            r is Ok ==> states_map(r->Ok_0@) == self.cards(),
            r is Ok ==> forall|i: int, j: int|
                0 <= i < j < r->Ok_0@.len() ==> r->Ok_0@[i].0@ != r->Ok_0@[j].0@,
    {
        match db_all_cards(&self.conn) {
            Ok(rows) => Ok(rows),
            Err(e) => Err(classify_db_error(e)),
        }
    }

    /// One atomic write: stores the record under the card id, replacing any
    /// previous record. On failure nothing changes.
    pub fn upsert(&mut self, card_id: &str, st: &CardState) -> (r: Result<(), StoreError>)
        ensures
            r is Ok ==> final(self).cards() == old(self).cards().insert(card_id@, *st),
            r is Err ==> final(self).cards() == old(self).cards(),
            final(self).settings() == old(self).settings(),
    {
        match db_upsert_card(&mut self.conn, card_id, st) {
            Ok(()) => Ok(()),
            Err(e) => Err(classify_db_error(e)),
        }
    }

    /// The integer value stored under a setting name, if any.
    pub fn get_setting(&self, key: &str) -> (r: Result<Option<i64>, StoreError>)
        ensures
            r is Ok ==> match r->Ok_0 {
                Option::Some(v) => self.settings().contains_key(key@) && self.settings()[key@] == v,
                Option::None => !self.settings().contains_key(key@),
            },
    {
        match db_get_setting(&self.conn, key) {
            Ok(found) => Ok(found),
            Err(e) => Err(classify_db_error(e)),
        }
    }

    /// One atomic write: stores the value under the setting name, replacing
    /// any previous value. On failure nothing changes.
    pub fn set_setting(&mut self, key: &str, value: i64) -> (r: Result<(), StoreError>)
        ensures
            r is Ok ==> final(self).settings() == old(self).settings().insert(key@, value),
            r is Err ==> final(self).settings() == old(self).settings(),
            final(self).cards() == old(self).cards(),
    {
        match db_set_setting(&mut self.conn, key, value) {
            Ok(()) => Ok(()),
            Err(e) => Err(classify_db_error(e)),
        }
    }
}

} // verus!

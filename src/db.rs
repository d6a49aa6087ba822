//! The persistent listing store: the verified table of `store`, written
//! through to an SQLite database on every change.
//!
//! The table in memory is the reference for reads; each change is first
//! written to the database and applied to the table only when the write
//! succeeded.

use vstd::prelude::*;
use vstd::string::StringExecFns;

use crate::filter::{apply_filters, passes_filters, UrlFilters};
use crate::store::{
    cutoff, retained, rows_table, sighted, table_valid, upserted, window_start, AdEntry, AdStore,
};

verus! {

#[verifier::external_type_specification]
#[verifier::external_body]
pub struct ExConnection(rusqlite::Connection);

/// A positional statement parameter.
pub enum SqlParam {
    Text(String),
    Int(i64),
}

/// Relies on `rusqlite::Connection::open`: a connection to the database
/// file at `path` (`:memory:` for a private in-memory database), or the
/// error's text.
#[verifier::external_body]
fn open_connection(path: &str) -> (r: Result<rusqlite::Connection, String>) {
    rusqlite::Connection::open(path).map_err(|e| e.to_string())
}

/// Relies on `rusqlite::Connection::execute`: runs one statement with
/// `params` bound in order; the number of rows changed, or the error's text.
#[verifier::external_body]
fn execute_sql(conn: &rusqlite::Connection, sql: &str, params: &Vec<SqlParam>) -> (r: Result<usize, String>) {
    let values = params.iter().map(|p| match p {
        SqlParam::Text(s) => rusqlite::types::Value::Text(s.clone()),
        SqlParam::Int(i) => rusqlite::types::Value::Integer(*i),
    });
    conn.execute(sql, rusqlite::params_from_iter(values)).map_err(|e| e.to_string())
}

/// Relies on `rusqlite::Connection::prepare`, `Statement::query_map` and
/// `Row::get`: the rows of a query whose six columns are four texts and two
/// integers, or the error's text.
#[verifier::external_body]
fn query_rows(conn: &rusqlite::Connection, sql: &str) -> (r: Result<
    Vec<(String, String, String, String, i64, i64)>,
    String,
>) {
    let mut stmt = conn.prepare(sql).map_err(|e| e.to_string())?;
    let rows = stmt.query_map([], |r| Ok((r.get(0)?, r.get(1)?, r.get(2)?, r.get(3)?, r.get(4)?, r.get(5)?)));
    let all = rows.map_err(|e| e.to_string())?.collect::<Result<Vec<_>, _>>();
    all.map_err(|e| e.to_string())
}

pub const CREATE_TABLE_SQL: &'static str = "CREATE TABLE IF NOT EXISTS ad_changes (url TEXT, ad_id TEXT PRIMARY KEY, title TEXT, price TEXT, first_seen INTEGER, last_checked INTEGER)";

pub const SELECT_ALL_SQL: &'static str = "SELECT ad_id, title, price, url, first_seen, last_checked FROM ad_changes";

pub const INSERT_SQL: &'static str = "INSERT INTO ad_changes (url, ad_id, title, price, first_seen, last_checked) VALUES (?, ?, ?, ?, ?, ?)";

pub const UPDATE_SQL: &'static str = "UPDATE ad_changes SET last_checked = ?, title = ?, price = ? WHERE ad_id = ?";

pub const DELETE_OLDER_SQL: &'static str = "DELETE FROM ad_changes WHERE last_checked < ?";

pub const DELETE_ALL_SQL: &'static str = "DELETE FROM ad_changes";

/// Message of a write that changed no row.
pub const NO_ROW_WRITTEN: &'static str = "the write changed no row";

/// A failure of the storage layer, with the storage engine's message.
#[derive(Debug, Clone, PartialEq)]
pub enum StoreError {
    Storage(String),
}

impl StoreError {
    /// A human-readable description.
    pub fn message(&self) -> (r: String)
        ensures
            match self {
                StoreError::Storage(m) => r@ == m@,
            },
    {
        match self {
            StoreError::Storage(m) => m.clone(),
        }
    }
}

/// The listing stored in a row read back from the database.
pub fn entry_of_row(row: (String, String, String, String, i64, i64)) -> (r: AdEntry)
    ensures
        r == (AdEntry {
            ad_id: row.0,
            title: row.1,
            price: row.2,
            url: row.3,
            first_seen: row.4,
            last_checked: row.5,
        }),
{
    let (ad_id, title, price, url, first_seen, last_checked) = row;
    AdEntry { ad_id, title, price, url, first_seen, last_checked }
}

/// The sighting at time `now` of candidate `c` = `(identity, title, price, url)`.
pub open spec fn sighting(c: (String, String, String, String), now: i64) -> AdEntry {
    AdEntry { ad_id: c.0, title: c.1, price: c.2, url: c.3, first_seen: now, last_checked: now }
}

/// The table after handling `cands` with the per-candidate `outcomes`: a
/// candidate whose upsert succeeded is applied; one filtered out (`None`)
/// or whose write failed leaves the table as it was.
pub open spec fn stored_after(
    m: Map<Seq<char>, AdEntry>,
    cands: Seq<(String, String, String, String)>,
    outcomes: Seq<Option<Result<bool, StoreError>>>,
    now: i64,
) -> Map<Seq<char>, AdEntry>
    decreases cands.len(),
{
    if cands.len() == 0 || outcomes.len() == 0 {
        m
    } else {
        let prev = stored_after(m, cands.drop_last(), outcomes.drop_last(), now);
        match outcomes.last() {
            Some(Ok(_)) => upserted(prev, sighting(cands.last(), now)),
            _ => prev,
        }
    }
}

/// The statement and parameters that record a sighting of `entry`, given
/// the row stored under its identity: an insert of a new row first seen and
/// last checked at the sighting time, or an update of the last check, title
/// and price of the known row.
pub fn upsert_write(stored: Option<&AdEntry>, entry: &AdEntry) -> (r: (&'static str, Vec<SqlParam>))
    ensures
        stored is None ==> r.0@ == INSERT_SQL@ && r.1@ == seq![
            SqlParam::Text(entry.url),
            SqlParam::Text(entry.ad_id),
            SqlParam::Text(entry.title),
            SqlParam::Text(entry.price),
            SqlParam::Int(entry.last_checked),
            SqlParam::Int(entry.last_checked),
        ],
        stored matches Some(s) ==> r.0@ == UPDATE_SQL@ && r.1@ == seq![
            SqlParam::Int(sighted(Some(*s), *entry).last_checked),
            SqlParam::Text(entry.title),
            SqlParam::Text(entry.price),
            SqlParam::Text(entry.ad_id),
        ],
{
    let mut params: Vec<SqlParam> = Vec::new();
    match stored {
        None => {
            params.push(SqlParam::Text(entry.url.clone()));
            params.push(SqlParam::Text(entry.ad_id.clone()));
            params.push(SqlParam::Text(entry.title.clone()));
            params.push(SqlParam::Text(entry.price.clone()));
            params.push(SqlParam::Int(entry.last_checked));
            params.push(SqlParam::Int(entry.last_checked));
            assert(params@ =~= seq![
                SqlParam::Text(entry.url),
                SqlParam::Text(entry.ad_id),
                SqlParam::Text(entry.title),
                SqlParam::Text(entry.price),
                SqlParam::Int(entry.last_checked),
                SqlParam::Int(entry.last_checked),
            ]);
            (INSERT_SQL, params)
        },
        Some(s) => {
            params.push(SqlParam::Int(entry.last_checked));
            params.push(SqlParam::Text(entry.title.clone()));
            params.push(SqlParam::Text(entry.price.clone()));
            params.push(SqlParam::Text(entry.ad_id.clone()));
            assert(params@ =~= seq![
                SqlParam::Int(sighted(Some(*s), *entry).last_checked),
                SqlParam::Text(entry.title),
                SqlParam::Text(entry.price),
                SqlParam::Text(entry.ad_id),
            ]);
            (UPDATE_SQL, params)
        },
    }
}

/// The statement and parameters that delete the listings last checked
/// before `now - days` days: none when no `i64` time is that old, a delete
/// of every row when every `i64` time is, and otherwise a delete below the
/// cutoff.
pub fn prune_write(now: i64, days: i64) -> (r: Option<(&'static str, Vec<SqlParam>)>)
    ensures
        cutoff(now, days) <= i64::MIN ==> r is None,
        cutoff(now, days) > i64::MAX ==> (r matches Some((sql, params)) && sql@ == DELETE_ALL_SQL@
            && params@.len() == 0),
        i64::MIN < cutoff(now, days) <= i64::MAX ==> (r matches Some((sql, params)) && sql@
            == DELETE_OLDER_SQL@ && params@ == seq![SqlParam::Int(cutoff(now, days) as i64)]),
{
    let limit: i128 = window_start(now, days);
    let mut params: Vec<SqlParam> = Vec::new();
    if limit <= i64::MIN as i128 {
        None
    } else if limit > i64::MAX as i128 {
        Some((DELETE_ALL_SQL, params))
    } else {
        params.push(SqlParam::Int(limit as i64));
        assert(params@ =~= seq![SqlParam::Int(cutoff(now, days) as i64)]);
        Some((DELETE_OLDER_SQL, params))
    }
}

/// The listing store.
pub struct Database {
    conn: rusqlite::Connection,
    table: AdStore,
}

impl View for Database {
    type V = Map<Seq<char>, AdEntry>;

    closed spec fn view(&self) -> Map<Seq<char>, AdEntry> {
        self.table@
    }
}

impl Database {
    /// Opens (creating if needed) the database at `path` and reads its rows
    /// into the table (see `AdStore::from_rows`).
    pub fn new(path: &str) -> (r: Result<Database, StoreError>)
        ensures
            r matches Ok(db) ==> table_valid(db@) && exists|rows: Seq<AdEntry>| db@ == rows_table(rows),
    {
        let conn = match open_connection(path) {
            Ok(p) => p,
            Err(m) => return Err(StoreError::Storage(m)),
        };
        let none: Vec<SqlParam> = Vec::new();
        if let Err(m) = execute_sql(&conn, CREATE_TABLE_SQL, &none) {
            return Err(StoreError::Storage(m));
        }
        let rows = match query_rows(&conn, SELECT_ALL_SQL) {
            Ok(rows) => rows,
            Err(m) => return Err(StoreError::Storage(m)),
        };
        let mut entries: Vec<AdEntry> = Vec::new();
        for row in rows {
            entries.push(entry_of_row(row));
        }
        let table = AdStore::from_rows(entries);
        Ok(Database { conn, table })
    }

    /// Records a sighting of `entry` (its `last_checked` is the time of the
    /// sighting); returns whether its identity was new. The write sent to
    /// the database is `upsert_write` of the stored row; when it fails, or
    /// changes no row (the database lost the row), the table is unchanged
    /// and an error is returned.
    pub fn insert_or_update_ad(&mut self, entry: &AdEntry) -> (r: Result<bool, StoreError>)
        ensures
            r matches Ok(is_new) ==> is_new == !old(self)@.contains_key(entry.ad_id@)
                && final(self)@ == upserted(old(self)@, *entry),
            r is Err ==> final(self)@ == old(self)@,
    {
        let (sql, params) = upsert_write(self.table.get(entry.ad_id.as_str()), entry);
        match execute_sql(&self.conn, sql, &params) {
            Ok(0) => Err(StoreError::Storage(String::from_str(NO_ROW_WRITTEN))),
            Ok(_) => Ok(self.table.insert_or_update_ad(entry)),
            Err(m) => Err(StoreError::Storage(m)),
        }
    }

    /// Removes every listing last checked before `now - days_to_keep` days;
    /// returns how many were removed. The write sent to the database is
    /// `prune_write(now, days_to_keep)`; when there is none (no listing can
    /// be that old) nothing is written and nothing removed. When the write
    /// fails the table is unchanged.
    pub fn prune_old_ads(&mut self, now: i64, days_to_keep: i64) -> (r: Result<usize, StoreError>)
        ensures
            r matches Ok(n) ==> final(self)@ == retained(old(self)@, cutoff(now, days_to_keep))
                && n + final(self)@.dom().len() == old(self)@.dom().len(),
            cutoff(now, days_to_keep) <= i64::MIN ==> r == Ok::<usize, StoreError>(0usize)
                && final(self)@ == old(self)@,
            r is Err ==> final(self)@ == old(self)@,
    {
        match prune_write(now, days_to_keep) {
            None => {
                assert(retained(self@, cutoff(now, days_to_keep)) =~= self@);
                Ok(0)
            },
            Some((sql, params)) => match execute_sql(&self.conn, sql, &params) {
                Ok(_) => Ok(self.table.prune_old_ads(now, days_to_keep)),
                Err(m) => Err(StoreError::Storage(m)),
            },
        }
    }

    /// The listings last checked at or after `now - days` days, most
    /// recently checked first, each once.
    pub fn get_recent_ads(&self, now: i64, days: i64) -> (r: Vec<AdEntry>)
        ensures
            forall|a: int|
                0 <= a < r@.len() ==> self@.contains_key(#[trigger] r@[a].ad_id@) && self@[r@[a].ad_id@]
                    == r@[a] && r@[a].last_checked >= cutoff(now, days),
            forall|k: Seq<char>|
                #[trigger] self@.contains_key(k) && self@[k].last_checked >= cutoff(now, days)
                    ==> exists|a: int| 0 <= a < r@.len() && r@[a].ad_id@ == k,
            forall|a: int, b: int|
                0 <= a < r@.len() && 0 <= b < r@.len() && a != b ==> r@[a].ad_id@ != r@[b].ad_id@,
            forall|a: int, b: int|
                0 <= a < b < r@.len() ==> r@[a].last_checked >= r@[b].last_checked,
    {
        self.table.get_recent_ads(now, days)
    }

    /// Handles the candidates found on the page of `source_url` at time
    /// `now`: each is checked against the filters of that URL and, when it
    /// passes, upserted as a sighting at `now`. One outcome per candidate:
    /// `None` when filtered out, else the upsert's result; a failed upsert
    /// does not stop the others.
    pub fn store_candidates(
        &mut self,
        filters: &UrlFilters,
        source_url: &str,
        cands: &Vec<(String, String, String, String)>,
        now: i64,
    ) -> (r: Vec<Option<Result<bool, StoreError>>>)
        ensures
            r@.len() == cands@.len(),
            forall|i: int|
                0 <= i < r@.len() ==> ((#[trigger] r@[i]) is None <==> !passes_filters(
                    filters@,
                    source_url@,
                    cands@[i].1@,
                )),
            forall|i: int|
                0 <= i < r@.len() ==> ((#[trigger] r@[i]) matches Some(Ok(is_new)) ==> is_new
                    == !stored_after(old(self)@, cands@.take(i), r@.take(i), now).contains_key(
                    cands@[i].0@,
                )),
            final(self)@ == stored_after(old(self)@, cands@, r@, now),
    {
        let mut out: Vec<Option<Result<bool, StoreError>>> = Vec::new();
        let n = cands.len();
        let mut i: usize = 0;
        assert(cands@.take(0) =~= Seq::<(String, String, String, String)>::empty());
        while i < n
            invariant
                n == cands@.len(),
                0 <= i <= n,
                out@.len() == i,
                forall|j: int|
                    0 <= j < i ==> ((#[trigger] out@[j]) is None <==> !passes_filters(
                        filters@,
                        source_url@,
                        cands@[j].1@,
                    )),
                forall|j: int|
                    0 <= j < i ==> ((#[trigger] out@[j]) matches Some(Ok(is_new)) ==> is_new
                        == !stored_after(old(self)@, cands@.take(j), out@.take(j), now).contains_key(
                        cands@[j].0@,
                    )),
                self@ == stored_after(old(self)@, cands@.take(i as int), out@, now),
            decreases n - i,
        {
            let c = &cands[i];
            let ghost before = out@;
            assert(before.take(i as int) =~= before);
            let outcome = if apply_filters(filters, source_url, c.1.as_str()) {
                let entry = AdEntry {
                    ad_id: c.0.clone(),
                    title: c.1.clone(),
                    price: c.2.clone(),
                    url: c.3.clone(),
                    first_seen: now,
                    last_checked: now,
                };
                assert(entry == sighting(*c, now));
                Some(self.insert_or_update_ad(&entry))
            } else {
                None
            };
            out.push(outcome);
            proof {
                assert(cands@.take(i + 1).drop_last() =~= cands@.take(i as int));
                assert(cands@.take(i + 1).last() == cands@[i as int]);
                assert(out@.drop_last() =~= before);
                assert forall|j: int| 0 <= j < i + 1 implies out@.take(j) =~= before.take(j) by {}
            }
            i = i + 1;
        }
        proof {
            assert(cands@.take(n as int) =~= cands@);
            assert forall|j: int| 0 <= j < n implies cands@.take(j) =~= cands@.take(j) by {}
        }
        out
    }
}

} // verus!

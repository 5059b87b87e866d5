//! The storage adapter: creates a dataset's tables, applies mutations in
//! transactions, and scans a dataset into a snapshot, over an embedded SQLite store.

use vstd::prelude::*;
use rusqlite::Connection;
use rusqlite::types::Value as V;
use rusqlite::types::ValueRef as R;
use crate::identity::{DatasetError, DatasetKind};
use crate::model::{Snapshot, Update, entries_view};
use crate::rows::{decode_rows, decode_snapshot, rows_view};
use crate::sql::{
    Cell,
    Statement,
    plan_transaction,
    scan_sql,
    scan_statement,
    schema_sql,
    schema_statements,
    statements_view,
    transaction_plan,
};

verus! {

#[verifier::external_type_specification]
#[verifier::external_body]
pub struct ExConnection(rusqlite::Connection);

#[verifier::external_type_specification]
#[verifier::external_body]
pub struct ExSqlError(rusqlite::Error);

/// Relies on rusqlite's `Connection::open`: opens or creates the database file at `path`.
#[verifier::external_body]
pub(crate) fn open_file(path: &str) -> (r: Result<Connection, rusqlite::Error>) {
    Connection::open(path)
}

/// Relies on rusqlite's `Connection::open_in_memory`: a fresh database held in memory.
#[verifier::external_body]
pub(crate) fn open_memory() -> (r: Result<Connection, rusqlite::Error>) {
    Connection::open_in_memory()
}

/// Relies on rusqlite's `Connection::execute` with `params_from_iter`: runs one statement
/// with positional parameters, each cell becoming the SQLite value of the same type.
#[verifier::external_body]
fn execute(conn: &Connection, sql: &str, params: &Vec<Cell>) -> (r: Result<usize, rusqlite::Error>) {
    let values: Vec<V> = params.iter().map(|c| match c {
        Cell::Null | Cell::Other => V::Null,
        Cell::Int(v) => V::Integer(*v),
        Cell::Text(s) => V::Text(s.clone()),
        Cell::Blob(b) => V::Blob(b.clone()),
    }).collect();
    conn.execute(sql, rusqlite::params_from_iter(values))
}

/// Relies on rusqlite's `Statement::query` and `Row::get_ref`: runs a query and returns
/// every row, each column as a cell of the SQLite value's type; a real number, or a text
/// that is not UTF-8, becomes `Other`.
#[verifier::external_body]
fn query(conn: &Connection, sql: &str) -> (r: Result<Vec<Vec<Cell>>, rusqlite::Error>) {
    let mut stmt = conn.prepare(sql)?;
    let mut rows = stmt.query([])?;
    let mut out = Vec::new();
    while let Some(row) = rows.next()? {
        let mut cells = Vec::new();
        for i in 0..row.as_ref().column_count() {
            cells.push(match row.get_ref(i)? {
                R::Null => Cell::Null, R::Integer(v) => Cell::Int(v), R::Real(_) => Cell::Other,
                R::Text(t) => std::str::from_utf8(t).map_or(Cell::Other, |s| Cell::Text(s.to_string())),
                R::Blob(b) => Cell::Blob(b.to_vec()),
            });
        }
        out.push(cells);
    }
    Ok(out)
}

/// A snapshot as a load of a dataset of kind `kind` builds it: of that kind, well formed,
/// and the decoding of the rows of some scan.
pub open spec fn is_loaded(kind: DatasetKind, s: Snapshot) -> bool {
    &&& s.kind == kind
    &&& s.wf()
    &&& exists|rows: Seq<Vec<Cell>>| decode_rows(kind, rows_view(rows)) == Some(entries_view(s.entries@))
}

/// Creates the tables of a dataset of kind `kind` stored under the name `t`, where they
/// do not exist yet.
pub fn ensure_schema(conn: &Connection, kind: DatasetKind, t: &str) -> (r: Result<(), DatasetError>)
    ensures
        r is Err ==> r == Err::<(), DatasetError>(DatasetError::StorageApplyFailed),
{
    let stmts = schema_statements(kind, t);
    let none: Vec<Cell> = Vec::new();
    let mut i: usize = 0;
    while i < stmts.len()
        invariant
            i <= stmts@.len(),
        decreases stmts@.len() - i,
    {
        if execute(conn, stmts[i].as_str(), &none).is_err() {
            return Err(DatasetError::StorageApplyFailed);
        }
        i = i + 1;
    }
    Ok(())
}

/// Runs the statements in order up to the first one the store refuses; returns that
/// statement's index, or `None` where all of them ran.
fn run_all(conn: &Connection, stmts: &Vec<Statement>) -> (r: Option<usize>)
    ensures
        r matches Some(k) ==> k < stmts@.len(),
{
    let mut i: usize = 0;
    while i < stmts.len()
        invariant
            i <= stmts@.len(),
        decreases stmts@.len() - i,
    {
        if execute(conn, stmts[i].sql.as_str(), &stmts[i].params).is_err() {
            return Some(i);
        }
        i = i + 1;
    }
    None
}

/// What follows the statements of a transaction, from the index of the first one the
/// store refused (`None` where all of them ran, `COMMIT` included): nothing and success,
/// or a `ROLLBACK` and `StorageApplyFailed`.
pub open spec fn transaction_end(first_refused: Option<usize>) -> (Seq<Seq<char>>, Result<
    (),
    DatasetError,
>) {
    match first_refused {
        None => (Seq::empty(), Ok(())),
        Some(_) => (seq!["ROLLBACK"@], Err(DatasetError::StorageApplyFailed)),
    }
}

/// Decides how a transaction ends (see `transaction_end`).
pub fn end_transaction(first_refused: Option<usize>) -> (r: (Vec<String>, Result<(), DatasetError>))
    ensures
        r.0@.map_values(|s: String| s@) == transaction_end(first_refused).0,
        r.1 == transaction_end(first_refused).1,
{
    match first_refused {
        None => {
            let r: Vec<String> = Vec::new();
            assert(r@.map_values(|s: String| s@) =~= Seq::<Seq<char>>::empty());
            (r, Ok(()))
        },
        Some(_) => {
            let r = vec![String::from_str("ROLLBACK")];
            assert(r@.map_values(|s: String| s@) =~= seq!["ROLLBACK"@]);
            (r, Err(DatasetError::StorageApplyFailed))
        },
    }
}

/// Applies one mutation to the table `t`: runs the statements of `transaction_plan` in
/// order (the mutation's statements between `BEGIN` and `COMMIT`) up to the first one
/// the store refuses, then ends the transaction as `transaction_end` says: where one was
/// refused, a `ROLLBACK` and `StorageApplyFailed`.
pub fn apply(conn: &Connection, kind: DatasetKind, t: &str, u: &Update) -> (r: Result<(), DatasetError>)
    ensures
        exists|first_refused: Option<usize>|
            {
                &&& (first_refused matches Some(k) ==> k < transaction_plan(kind, t@, *u).len())
                &&& r == #[trigger] transaction_end(first_refused).1
            },
{
    let stmts = plan_transaction(kind, t, u);
    let first_refused = run_all(conn, &stmts);
    let (rest, result) = end_transaction(first_refused);
    let none: Vec<Cell> = Vec::new();
    let mut i: usize = 0;
    while i < rest.len()
        invariant
            i <= rest@.len(),
        decreases rest@.len() - i,
    {
        let _ = execute(conn, rest[i].as_str(), &none);
        i = i + 1;
    }
    assert(first_refused matches Some(k) ==> k < transaction_plan(kind, t@, *u).len());
    result
}

/// Reads the whole table `t` with the query `scan_sql` and builds its snapshot from the
/// rows that come back (see `decode_snapshot`). Fails with `StorageLoadFailed` when the
/// store fails the query, or a row is malformed or out of key order.
pub fn load(conn: &Connection, kind: DatasetKind, t: &str) -> (r: Result<Snapshot, DatasetError>)
    ensures
        r matches Ok(s) ==> is_loaded(kind, s),
        r is Err ==> r == Err::<Snapshot, DatasetError>(DatasetError::StorageLoadFailed),
{
    let sql = scan_statement(kind, t);
    assert(sql@ == scan_sql(kind, t@));
    match query(conn, sql.as_str()) {
        Ok(rows) => {
            let r = decode_snapshot(kind, &rows);
            assert(r matches Ok(s) ==> decode_rows(kind, rows_view(rows@)) == Some(
                entries_view(s.entries@),
            ));
            r
        },
        Err(_) => Err(DatasetError::StorageLoadFailed),
    }
}

} // verus!

//! The SQLite driver calls the store makes, each behind a trusted wrapper.
//!
//! What a query returns depends on what is on disk (and on other connections
//! to the same file), so no wrapper states anything about the values it hands
//! back; the store's logic is verified for every value it may receive.

use rusqlite::types::Value;
use vstd::prelude::*;

verus! {

/// `rusqlite::Connection`, held opaquely.
#[verifier::external_type_specification]
#[verifier::external_body]
pub struct ExConnection(rusqlite::Connection);

/// `rusqlite::Error`, held opaquely.
#[verifier::external_type_specification]
#[verifier::external_body]
pub struct ExError(rusqlite::Error);

/// `rusqlite::Statement`, held opaquely.
#[verifier::external_type_specification]
#[verifier::external_body]
pub struct ExStatement<'conn>(rusqlite::Statement<'conn>);

/// `rusqlite::Rows`, held opaquely.
#[verifier::external_type_specification]
#[verifier::external_body]
pub struct ExRows<'stmt>(rusqlite::Rows<'stmt>);

/// `rusqlite::Row`, held opaquely.
#[verifier::external_type_specification]
#[verifier::external_body]
pub struct ExRow<'stmt>(rusqlite::Row<'stmt>);

/// `Connection::open`: opens (or creates) the database file at `path`.
#[verifier::external_body]
pub(crate) fn open_file(path: &str) -> (r: Result<rusqlite::Connection, rusqlite::Error>) {
    rusqlite::Connection::open(path)
}

/// `Connection::open_in_memory`: a fresh private in-memory database.
#[verifier::external_body]
pub(crate) fn open_memory() -> (r: Result<rusqlite::Connection, rusqlite::Error>) {
    rusqlite::Connection::open_in_memory()
}

/// `Connection::busy_timeout`; it panics on a timeout beyond `i32::MAX`
/// milliseconds, which the `requires` rules out.
#[verifier::external_body]
pub(crate) fn set_busy_timeout(conn: &rusqlite::Connection, ms: u64) -> (r: Result<
    (),
    rusqlite::Error,
>)
    requires
        ms <= i32::MAX,
{
    conn.busy_timeout(std::time::Duration::from_millis(ms))
}

/// `Connection::pragma_update` on the main schema with a text value.
#[verifier::external_body]
pub(crate) fn pragma_update(conn: &rusqlite::Connection, name: &str, value: &str) -> (r: Result<
    (),
    rusqlite::Error,
>) {
    conn.pragma_update(None, name, value)
}

/// `Connection::execute_batch`: runs every statement of `sql`.
#[verifier::external_body]
pub(crate) fn execute_batch(conn: &rusqlite::Connection, sql: &str) -> (r: Result<
    (),
    rusqlite::Error,
>) {
    conn.execute_batch(sql)
}

/// A parameter bound to a statement.
#[derive(Debug, Clone, PartialEq, Eq)]
pub enum SqlValue {
    Int(i64),
    Text(String),
    Null,
}

/// A bound parameter as a plain value.
pub enum SqlArg {
    Int(i64),
    Text(Seq<char>),
    Null,
}

impl View for SqlValue {
    type V = SqlArg;

    open spec fn view(&self) -> SqlArg {
        match self {
            SqlValue::Int(v) => SqlArg::Int(*v),
            SqlValue::Text(t) => SqlArg::Text(t@),
            SqlValue::Null => SqlArg::Null,
        }
    }
}

/// The plain values of bound parameters, in order.
pub open spec fn args_of(values: Seq<SqlValue>) -> Seq<SqlArg> {
    Seq::new(values.len(), |i: int| values[i]@)
}

/// `Connection::execute` with `params` bound in order (`?1`, `?2`, ...);
/// returns the changed row count.
#[verifier::external_body]
pub(crate) fn execute(conn: &rusqlite::Connection, sql: &str, params: &Vec<SqlValue>) -> (r: Result<
    usize,
    rusqlite::Error,
>) {
    let values: Vec<Value> = params.iter().map(|p| match p {
        SqlValue::Int(v) => Value::Integer(*v),
        SqlValue::Text(t) => Value::Text(t.clone()),
        SqlValue::Null => Value::Null,
    }).collect();
    conn.execute(sql, rusqlite::params_from_iter(values))
}

/// `Connection::last_insert_rowid`: the rowid of this connection's latest insert.
#[verifier::external_body]
pub(crate) fn last_insert_rowid(conn: &rusqlite::Connection) -> (id: i64) {
    conn.last_insert_rowid()
}

/// `Connection::prepare`: compiles one statement.
#[verifier::external_body]
pub(crate) fn prepare<'c>(conn: &'c rusqlite::Connection, sql: &str) -> (r: Result<
    rusqlite::Statement<'c>,
    rusqlite::Error,
>) {
    conn.prepare(sql)
}

/// `Statement::query` with `params` bound in order.
#[verifier::external_body]
pub(crate) fn query<'s>(stmt: &'s mut rusqlite::Statement<'_>, params: &Vec<SqlValue>) -> (r: Result<
    rusqlite::Rows<'s>,
    rusqlite::Error,
>) {
    let values: Vec<Value> = params.iter().map(|p| match p {
        SqlValue::Int(v) => Value::Integer(*v),
        SqlValue::Text(t) => Value::Text(t.clone()),
        SqlValue::Null => Value::Null,
    }).collect();
    stmt.query(rusqlite::params_from_iter(values))
}

/// `Rows::next`: the next result row, `None` after the last.
#[verifier::external_body]
pub(crate) fn next_row<'r, 's>(rows: &'r mut rusqlite::Rows<'s>) -> (r: Result<
    Option<&'r rusqlite::Row<'s>>,
    rusqlite::Error,
>) {
    rows.next()
}

/// `Row::get` of an integer column.
#[verifier::external_body]
pub(crate) fn get_i64(row: &rusqlite::Row<'_>, idx: usize) -> (r: Result<i64, rusqlite::Error>) {
    row.get(idx)
}

/// `Row::get` of a nullable integer column.
#[verifier::external_body]
pub(crate) fn get_opt_i64(row: &rusqlite::Row<'_>, idx: usize) -> (r: Result<
    Option<i64>,
    rusqlite::Error,
>) {
    row.get(idx)
}

/// `Row::get` of a text column.
#[verifier::external_body]
pub(crate) fn get_text(row: &rusqlite::Row<'_>, idx: usize) -> (r: Result<String, rusqlite::Error>) {
    row.get(idx)
}

/// `Row::get` of a nullable text column.
#[verifier::external_body]
pub(crate) fn get_opt_text(row: &rusqlite::Row<'_>, idx: usize) -> (r: Result<
    Option<String>,
    rusqlite::Error,
>) {
    row.get(idx)
}

/// `Connection::query_row` reading the integer in the first column of the first row.
#[verifier::external_body]
pub(crate) fn query_single_i64(conn: &rusqlite::Connection, sql: &str) -> (r: Result<
    i64,
    rusqlite::Error,
>) {
    conn.query_row(sql, (), |row| row.get(0))
}

/// `Connection::query_row` reading the nullable integer in the first column of the first row.
#[verifier::external_body]
pub(crate) fn query_single_opt_i64(conn: &rusqlite::Connection, sql: &str) -> (r: Result<
    Option<i64>,
    rusqlite::Error,
>) {
    conn.query_row(sql, (), |row| row.get(0))
}

/// The driver's own description of an error (its `Display`).
#[verifier::external_body]
pub(crate) fn error_text(err: &rusqlite::Error) -> (s: String) {
    format!("{err}")
}

} // verus!

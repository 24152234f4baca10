//! The calls into rusqlite. Nothing in this file is proved: each function
//! hands one request to the database and returns what came back, and what
//! comes back depends on what the database holds.

use rusqlite::OptionalExtension;
use vstd::prelude::*;

verus! {

#[verifier::external_type_specification]
#[verifier::external_body]
pub struct ExConnection(rusqlite::Connection);

#[verifier::external_type_specification]
#[verifier::external_body]
pub struct ExSqliteError(rusqlite::Error);

/// The database's own description of a failure.
///
/// Trusted: formats a `rusqlite::Error` through its `Display` impl. Nothing
/// is claimed of the text.
#[verifier::external_body]
pub(crate) fn error_text(e: &rusqlite::Error) -> (text: String) {
    e.to_string()
}

/// Opens the database file at `location`, creating it if there is none.
///
/// Trusted: calls `rusqlite::Connection::open`. Nothing is claimed of the
/// result.
#[verifier::external_body]
pub(crate) fn open(location: &str) -> (r: Result<rusqlite::Connection, rusqlite::Error>) {
    rusqlite::Connection::open(location)
}

/// Runs the statements in `sql`, one after the other.
///
/// Trusted: calls `rusqlite::Connection::execute_batch`. Nothing is claimed
/// of the result.
#[verifier::external_body]
pub(crate) fn run_batch(connection: &rusqlite::Connection, sql: &str) -> (r: Result<
    (),
    rusqlite::Error,
>) {
    connection.execute_batch(sql)
}

/// Runs one statement that takes no parameter; on success the number of rows
/// it changed.
///
/// Trusted: calls `rusqlite::Connection::execute`. Nothing is claimed of the
/// result.
#[verifier::external_body]
pub(crate) fn run(connection: &rusqlite::Connection, sql: &str) -> (r: Result<
    usize,
    rusqlite::Error,
>) {
    connection.execute(sql, [])
}

/// Runs one statement with `text` as its only parameter; on success the
/// number of rows it changed.
///
/// Trusted: calls `rusqlite::Connection::execute`. Nothing is claimed of the
/// result.
#[verifier::external_body]
pub(crate) fn run_with_text(connection: &rusqlite::Connection, sql: &str, text: &str) -> (r: Result<
    usize,
    rusqlite::Error,
>) {
    connection.execute(sql, (text,))
}

/// Runs one statement with two ids as its parameters; on success the number
/// of rows it changed.
///
/// Trusted: calls `rusqlite::Connection::execute`. Nothing is claimed of the
/// result.
#[verifier::external_body]
pub(crate) fn run_with_ids(
    connection: &rusqlite::Connection,
    sql: &str,
    first: i64,
    second: i64,
) -> (r: Result<usize, rusqlite::Error>) {
    connection.execute(sql, (first, second))
}

/// Runs a query with `text` as its only parameter and reads the first column
/// of its first row as an id. A query without rows is an error.
///
/// Trusted: calls `rusqlite::Connection::query_row` and `Row::get`. Nothing
/// is claimed of the result.
#[verifier::external_body]
pub(crate) fn id_for_text(connection: &rusqlite::Connection, sql: &str, text: &str) -> (r: Result<
    i64,
    rusqlite::Error,
>) {
    connection.query_row(sql, (text,), |row| row.get(0))
}

/// Turns the error of a query without rows into a plain "nothing found".
///
/// Trusted: calls `rusqlite::OptionalExtension::optional`, which wraps a
/// success in `Some`, answers one kind of error with `Ok(None)` and hands
/// every other error on.
#[verifier::external_body]
pub(crate) fn optional_id(found: Result<i64, rusqlite::Error>) -> (answer: Result<
    Option<i64>,
    rusqlite::Error,
>)
    ensures
        answer matches Ok(Some(id)) ==> found matches Ok(got) && got == id,
        answer matches Ok(None) ==> found is Err,
        answer matches Err(e) ==> found matches Err(given) && given == e,
{
    found.optional()
}

/// Runs a query and reads each of its rows as an id and a text.
///
/// Trusted: calls `rusqlite::Connection::prepare`, `Statement::query_map`
/// and `Row::get`. Nothing is claimed of the result.
#[verifier::external_body]
pub(crate) fn id_text_rows(connection: &rusqlite::Connection, sql: &str) -> (r: Result<
    Vec<(i64, String)>,
    rusqlite::Error,
>) {
    let mut statement = connection.prepare(sql)?;
    let rows = statement.query_map([], |row| Ok((row.get(0)?, row.get(1)?)))?;
    rows.collect()
}

/// Runs a query and reads each of its rows as an id, a text, and a second
/// text that may be missing.
///
/// Trusted: calls `rusqlite::Connection::prepare`, `Statement::query_map`
/// and `Row::get`. Nothing is claimed of the result.
#[verifier::external_body]
pub(crate) fn id_text_list_rows(connection: &rusqlite::Connection, sql: &str) -> (r: Result<
    Vec<(i64, String, Option<String>)>,
    rusqlite::Error,
>) {
    let mut statement = connection.prepare(sql)?;
    let rows = statement.query_map([], |row| Ok((row.get(0)?, row.get(1)?, row.get(2)?)))?;
    rows.collect()
}

} // verus!

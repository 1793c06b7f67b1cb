//! The calls into `rusqlite`. What is stated here is believed, not proved.
//!
//! Every call hands a failure out as the text that `rusqlite::Error` displays. Nothing is
//! claimed of any outcome: each depends on what the database holds.

use crate::record::SavedDog;
use vstd::prelude::*;

verus! {

/// `rusqlite::Connection`, a handle to a database. Nothing is known of what it holds.
#[verifier::external_type_specification]
#[verifier::external_body]
pub struct ExConnection(rusqlite::Connection);

/// `rusqlite::Statement`, a prepared statement that borrows its connection.
#[verifier::external_type_specification]
#[verifier::external_body]
pub struct ExStatement<'conn>(rusqlite::Statement<'conn>);

/// `rusqlite::Connection::execute`: runs one statement with `params` bound to its
/// placeholders in order, and gives the number of rows changed or the failure's text.
/// Nothing is claimed of the outcome, nor of the connection afterwards: the borrow is
/// exclusive because the call may write.
#[verifier::external_body]
pub(crate) fn execute(conn: &mut rusqlite::Connection, sql: &str, params: &Vec<String>) -> (changed:
    Result<usize, String>) {
    conn.execute(sql, rusqlite::params_from_iter(params.iter())).map_err(|error| error.to_string())
}

/// `rusqlite::Connection::prepare`: compiles `sql`, and gives the statement or the failure's
/// text. Nothing is claimed of the outcome.
#[verifier::external_body]
pub(crate) fn prepare<'conn>(conn: &'conn rusqlite::Connection, sql: &str) -> (stmt: Result<
    rusqlite::Statement<'conn>,
    String,
>) {
    conn.prepare(sql).map_err(|error| error.to_string())
}

/// `rusqlite::Statement::query_map`: runs the statement without parameters and reads the
/// first three columns of each row as a [`SavedDog`]. Every row it steps through is handed
/// out, as the dog read or as the failure's text, in the order the database gave them.
/// Nothing is claimed of which rows those are.
#[verifier::external_body]
pub(crate) fn query_dogs(stmt: &mut rusqlite::Statement<'_>) -> (rows: Result<
    Vec<Result<SavedDog, String>>,
    String,
>) {
    stmt.query_map([], |row| {
        Ok(SavedDog { id: row.get(0)?, url: row.get(1)?, created_at: row.get(2)? })
    }).map(|rows| rows.map(|row| row.map_err(|error| error.to_string())).collect()).map_err(
        |error| error.to_string(),
    )
}

} // verus!

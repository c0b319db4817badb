//! The calls into SQLite.
//!
//! Each function here but `read_record` and `query` hands its arguments to
//! `rusqlite` and its result back, and nothing is proved of it. What the
//! storage answers is open: no function here promises anything of what it
//! read or wrote.

use vstd::prelude::*;

verus! {

/// `std::path::PathBuf`: where a storage lives. Nothing is known of what is
/// inside.
#[verifier::external_type_specification]
#[verifier::external_body]
pub struct ExPathBuf(std::path::PathBuf);

/// `rusqlite::Connection`: a connection to a storage. Nothing is known of
/// what is inside.
#[verifier::external_type_specification]
#[verifier::external_body]
pub struct ExConnection(rusqlite::Connection);

/// `rusqlite::Error`: why a call failed. Nothing is known of what is inside.
#[verifier::external_type_specification]
#[verifier::external_body]
pub struct ExSqliteError(rusqlite::Error);

/// `rusqlite::Transaction`: an open transaction on a connection. Nothing is
/// known of what is inside.
#[verifier::external_type_specification]
#[verifier::external_body]
pub struct ExTransaction<'conn>(rusqlite::Transaction<'conn>);

/// `rusqlite::Statement`: a compiled statement. Nothing is known of what is
/// inside.
#[verifier::external_type_specification]
#[verifier::external_body]
pub struct ExStatement<'conn>(rusqlite::Statement<'conn>);

/// `rusqlite::Row`: one row of the result of a query. Nothing is known of
/// what is inside.
#[verifier::external_type_specification]
#[verifier::external_body]
pub struct ExRow<'stmt>(rusqlite::Row<'stmt>);

/// The values bound to a statement, or read from one row of a result: the
/// texts first, then the integers.
///
/// A statement numbers its parameters in that order, and a query lists its
/// text columns before its integer columns.
#[derive(Debug, Clone, PartialEq, Eq)]
pub struct Record {
    pub texts: Vec<String>,
    pub integers: Vec<i64>,
}

/// `rusqlite::Connection::open` on `path`. Nothing is claimed of the result.
#[verifier::external_body]
pub(crate) fn open_connection(path: &std::path::PathBuf) -> (r: Result<
    rusqlite::Connection,
    rusqlite::Error,
>) {
    rusqlite::Connection::open(path)
}

/// `rusqlite::Connection::execute_batch`: runs the statements of `sql`, which
/// take no parameters. Nothing is claimed of the result.
#[verifier::external_body]
pub(crate) fn run_batch(conn: &rusqlite::Connection, sql: &str) -> (r: Result<
    (),
    rusqlite::Error,
>) {
    conn.execute_batch(sql)
}

/// `rusqlite::Connection::execute`: runs one statement with `args` bound to
/// its parameters and gives the number of rows it changed. Nothing is claimed
/// of the result.
#[verifier::external_body]
pub(crate) fn execute(conn: &rusqlite::Connection, sql: &str, args: &Record) -> (r: Result<
    usize,
    rusqlite::Error,
>) {
    let texts = args.texts.iter().map(|t| t as &dyn rusqlite::ToSql);
    let integers = args.integers.iter().map(|i| i as &dyn rusqlite::ToSql);
    conn.execute(sql, rusqlite::params_from_iter(texts.chain(integers)))
}

/// `rusqlite::Row::get` for a column read as text. Nothing is claimed of the
/// result.
#[verifier::external_body]
pub(crate) fn column_text<'stmt>(row: &rusqlite::Row<'stmt>, index: usize) -> (r: Result<
    String,
    rusqlite::Error,
>) {
    row.get(index)
}

/// `rusqlite::Row::get` for a column read as an integer. Nothing is claimed
/// of the result.
#[verifier::external_body]
pub(crate) fn column_integer<'stmt>(row: &rusqlite::Row<'stmt>, index: usize) -> (r: Result<
    i64,
    rusqlite::Error,
>) {
    row.get(index)
}

/// Reads the first `n_text` columns of `row` as texts and the `n_int` columns
/// after them as integers.
pub(crate) fn read_record<'stmt>(row: &rusqlite::Row<'stmt>, n_text: usize, n_int: usize) -> (r:
    Result<Record, rusqlite::Error>)
    requires
        n_text + n_int <= usize::MAX,
    ensures
        n_text == 0 && n_int == 0 ==> r.is_ok(),
        r matches Ok(rec) ==> rec.texts@.len() == n_text && rec.integers@.len() == n_int,
{
    let mut texts: Vec<String> = Vec::new();
    let mut integers: Vec<i64> = Vec::new();
    let mut i: usize = 0;
    while i < n_text
        invariant
            i <= n_text,
            texts@.len() == i,
        decreases n_text - i,
    {
        let text = column_text(row, i)?;
        texts.push(text);
        i += 1;
    }
    let mut j: usize = 0;
    while j < n_int
        invariant
            j <= n_int,
            n_text + n_int <= usize::MAX,
            texts@.len() == n_text,
            integers@.len() == j,
        decreases n_int - j,
    {
        let integer = column_integer(row, n_text + j)?;
        integers.push(integer);
        j += 1;
    }
    Ok(Record { texts, integers })
}

/// `rusqlite::Connection::prepare`: compiles one statement. Nothing is
/// claimed of the result.
#[verifier::external_body]
pub(crate) fn prepare<'conn>(conn: &'conn rusqlite::Connection, sql: &str) -> (r: Result<
    rusqlite::Statement<'conn>,
    rusqlite::Error,
>) {
    conn.prepare(sql)
}

/// `rusqlite::Statement::query_map`: runs a compiled query with `args`
/// bound to its parameters and gives its rows in the order the query yields
/// them, each read by `read_record`. Nothing is claimed of the result.
#[verifier::external_body]
pub(crate) fn query_map<'conn>(
    statement: &mut rusqlite::Statement<'conn>,
    args: &Record,
    n_text: usize,
    n_int: usize,
) -> (r: Result<Vec<Record>, rusqlite::Error>)
    requires
        n_text + n_int <= usize::MAX,
{
    let texts = args.texts.iter().map(|t| t as &dyn rusqlite::ToSql);
    let integers = args.integers.iter().map(|i| i as &dyn rusqlite::ToSql);
    let params = rusqlite::params_from_iter(texts.chain(integers));
    let rows = statement.query_map(params, |row| read_record(row, n_text, n_int))?;
    let records = rows.collect();
    records
}

/// Runs one query: compiles it, binds `args` to its parameters and reads
/// its rows, each as `n_text` texts followed by `n_int` integers.
pub(crate) fn query(
    conn: &rusqlite::Connection,
    sql: &str,
    args: &Record,
    n_text: usize,
    n_int: usize,
) -> (r: Result<Vec<Record>, rusqlite::Error>)
    requires
        n_text + n_int <= usize::MAX,
{
    let mut statement = prepare(conn, sql)?;
    query_map(&mut statement, args, n_text, n_int)
}

/// `rusqlite::Connection::transaction`: opens a transaction, which rolls
/// back when it is dropped without a commit. Nothing is claimed of the
/// result.
#[verifier::external_body]
pub(crate) fn begin<'conn>(conn: &'conn mut rusqlite::Connection) -> (r: Result<
    rusqlite::Transaction<'conn>,
    rusqlite::Error,
>) {
    conn.transaction()
}

/// `rusqlite::Transaction::commit`. Nothing is claimed of the result.
#[verifier::external_body]
pub(crate) fn commit<'conn>(tx: rusqlite::Transaction<'conn>) -> (r: Result<(), rusqlite::Error>) {
    tx.commit()
}

/// The connection that a transaction runs on: `Deref` of
/// `rusqlite::Transaction`.
#[verifier::external_body]
pub(crate) fn connection_of<'a, 'conn>(tx: &'a rusqlite::Transaction<'conn>) -> (r:
    &'a rusqlite::Connection) {
    tx
}

/// What `rusqlite::Error` displays.
#[verifier::external_body]
pub(crate) fn describe(error: &rusqlite::Error) -> (r: String) {
    error.to_string()
}

/// Whether `rusqlite::Error::sqlite_error_code` gives
/// `ErrorCode::ConstraintViolation`.
#[verifier::external_body]
pub(crate) fn is_constraint_violation(error: &rusqlite::Error) -> (r: bool) {
    error.sqlite_error_code() == Some(rusqlite::ErrorCode::ConstraintViolation)
}

} // verus!

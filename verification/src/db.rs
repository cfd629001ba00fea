//! Access to SQLite through `rusqlite`: preparing a statement, binding its
//! parameters one by one, executing it, and reading result rows column by
//! column as plain values. What SQLite answers depends on what is on disk, so
//! the trusted items below promise nothing of their results; the verified
//! functions here record in a log what they hand to SQLite and what they read
//! back (each statement run with its bound arguments, each script run as a
//! batch, each row id read, and each query with the rows it gave or the
//! failure that ended it), and what they give back is stated over that log.
use vstd::prelude::*;

use crate::sql_value::{args_of, rows_view, view_result, DbError, SqlArg, SqlParam, SqlValue};

verus! {

#[verifier::external_type_specification]
#[verifier::external_body]
pub struct ExConnection(rusqlite::Connection);

#[verifier::external_type_specification]
#[verifier::external_body]
pub struct ExStatement<'conn>(rusqlite::Statement<'conn>);

#[verifier::external_type_specification]
#[verifier::external_body]
pub struct ExRows<'stmt>(rusqlite::Rows<'stmt>);

#[verifier::external_type_specification]
#[verifier::external_body]
pub struct ExRow<'stmt>(rusqlite::Row<'stmt>);

/// `rusqlite::Connection::open`: opens (or creates) the database at `path`.
/// Whether it succeeds depends on the file system; nothing is promised.
#[verifier::external_body]
fn connection_open(path: String) -> (r: Result<rusqlite::Connection, rusqlite::Error>) {
    rusqlite::Connection::open(path)
}

/// `rusqlite::Connection::prepare`: compiles `sql` against the open database.
/// Whether it succeeds depends on the database schema; nothing is promised.
#[verifier::external_body]
fn connection_prepare<'c>(conn: &'c rusqlite::Connection, sql: &str) -> (r: Result<rusqlite::Statement<'c>, rusqlite::Error>) {
    conn.prepare(sql)
}

/// `rusqlite::Connection::execute_batch`: runs every statement of `sql`.
/// Nothing is promised of the outcome.
#[verifier::external_body]
fn connection_execute_batch(conn: &rusqlite::Connection, sql: &str) -> (r: Result<(), rusqlite::Error>) {
    conn.execute_batch(sql)
}

/// `rusqlite::Connection::last_insert_rowid`: the row id of the latest
/// successful insert on this connection (0 if there was none). It depends on
/// the database's history, so no value is promised.
#[verifier::external_body]
fn connection_last_insert_rowid(conn: &rusqlite::Connection) -> (r: i64) {
    conn.last_insert_rowid()
}

/// `rusqlite::Statement::raw_bind_parameter` with an `i64`: binds the
/// one-based parameter `index` as an INTEGER. Nothing is promised of the outcome.
#[verifier::external_body]
fn statement_bind_integer(stmt: &mut rusqlite::Statement, index: usize, value: i64) -> (r: Result<(), rusqlite::Error>) {
    stmt.raw_bind_parameter(index, value)
}

/// `rusqlite::Statement::raw_bind_parameter` with a `&str`: binds the
/// one-based parameter `index` as TEXT. Nothing is promised of the outcome.
#[verifier::external_body]
fn statement_bind_text(stmt: &mut rusqlite::Statement, index: usize, value: &str) -> (r: Result<(), rusqlite::Error>) {
    stmt.raw_bind_parameter(index, value)
}

/// `rusqlite::Statement::raw_execute`: runs the statement with the bound
/// parameters and gives the number of changed rows. Nothing is promised.
#[verifier::external_body]
fn statement_raw_execute(stmt: &mut rusqlite::Statement) -> (r: Result<usize, rusqlite::Error>) {
    stmt.raw_execute()
}

/// `rusqlite::Statement::raw_query`: starts the query with the bound parameters.
#[verifier::external_body]
fn statement_raw_query<'s, 'c>(stmt: &'s mut rusqlite::Statement<'c>) -> (r: rusqlite::Rows<'s>) {
    stmt.raw_query()
}

/// `rusqlite::Rows::next`: steps to the next result row, `None` after the
/// last. The rows come from the database; nothing is promised.
#[verifier::external_body]
fn rows_next<'a, 's>(rows: &'a mut rusqlite::Rows<'s>) -> (r: Result<Option<&'a rusqlite::Row<'s>>, rusqlite::Error>) {
    rows.next()
}

/// `rusqlite::Row::get_ref`: the value of column `index` (zero-based), moved
/// into the plain `SqlValue` of the same kind (a REAL keeps only its kind).
/// The value comes from the database; nothing is promised.
#[verifier::external_body]
fn row_get_ref(row: &rusqlite::Row, index: usize) -> (r: Result<SqlValue, rusqlite::Error>) {
    match row.get_ref(index) {
        Ok(rusqlite::types::ValueRef::Null) => Ok(SqlValue::Null),
        Ok(rusqlite::types::ValueRef::Integer(i)) => Ok(SqlValue::Integer(i)),
        Ok(rusqlite::types::ValueRef::Real(_)) => Ok(SqlValue::Real),
        Ok(rusqlite::types::ValueRef::Text(t)) => Ok(SqlValue::Text(t.to_vec())),
        Ok(rusqlite::types::ValueRef::Blob(b)) => Ok(SqlValue::Blob(b.to_vec())),
        Err(e) => Err(e),
    }
}

/// Whether a second row followed the first one of a query.
#[derive(Debug)]
pub enum MoreRows {
    No,
    Yes,
    Failed(rusqlite::Error),
}

/// The first row of a query (if any) and what stepping past it gave.
#[derive(Debug)]
pub struct FirstRows {
    pub first: Option<Vec<SqlValue>>,
    pub more: MoreRows,
}

/// What a query that must return exactly one row gives, from the decoding of
/// its first row (if any) and what followed: no row, a decoding error, a
/// failure while stepping on, or a second row are errors, in that order.
pub open spec fn one_row_outcome<V>(first: Option<Result<V, DbError>>, more: MoreRows) -> Result<V, DbError> {
    match first {
        None => Err(DbError::QueryReturnedNoRows),
        Some(Err(e)) => Err(e),
        Some(Ok(v)) => match more {
            MoreRows::No => Ok(v),
            MoreRows::Yes => Err(DbError::QueryReturnedMoreThanOneRow),
            MoreRows::Failed(e) => Err(DbError::Sqlite(e)),
        },
    }
}

/// Exact-one-row selection over an already decoded first row.
pub fn finish_one_row<T>(first: Option<Result<T, DbError>>, more: MoreRows) -> (r: Result<T, DbError>)
    ensures
        r == one_row_outcome(first, more),
{
    match first {
        None => Err(DbError::QueryReturnedNoRows),
        Some(Err(e)) => Err(e),
        Some(Ok(v)) => match more {
            MoreRows::No => Ok(v),
            MoreRows::Yes => Err(DbError::QueryReturnedMoreThanOneRow),
            MoreRows::Failed(e) => Err(DbError::Sqlite(e)),
        },
    }
}

/// What the library hands to SQLite, in order, with what it read back.
pub enum SqlEvent {
    /// A statement run (or asked to run) with these arguments bound in order.
    Run { sql: Seq<char>, args: Seq<SqlArg> },
    /// A statement run with these arguments whose outcome (the number of
    /// changed rows, or the failure) decides what follows.
    Checked { sql: Seq<char>, args: Seq<SqlArg>, outcome: Result<usize, DbError> },
    /// A script run with `execute_batch`.
    Batch(Seq<char>),
    /// The row id of the latest insert, as read.
    RowId(i64),
    /// A query run with these arguments, and every row it gave (its columns
    /// read in order), or the failure that ended the read.
    ReadAll { sql: Seq<char>, args: Seq<SqlArg>, rows: Result<Seq<Seq<SqlValue>>, DbError> },
    /// A query run with these arguments, its first row (if any) and what
    /// stepping past that row gave, or the failure that ended the read.
    ReadOne { sql: Seq<char>, args: Seq<SqlArg>, read: Result<(Option<Seq<SqlValue>>, MoreRows), DbError> },
}

/// What reading every row of a query gave.
pub type RowsRead = Result<Seq<Seq<SqlValue>>, DbError>;

/// What reading the first row of a query, and stepping past it, gave.
pub type OneRead = Result<(Option<Seq<SqlValue>>, MoreRows), DbError>;

pub open spec fn checked(sql: Seq<char>, args: Seq<SqlArg>, outcome: Result<usize, DbError>) -> SqlEvent {
    SqlEvent::Checked { sql, args, outcome }
}

pub open spec fn row_id_read(n: i64) -> SqlEvent {
    SqlEvent::RowId(n)
}

pub open spec fn run(sql: Seq<char>, args: Seq<SqlArg>) -> SqlEvent {
    SqlEvent::Run { sql, args }
}

pub open spec fn read_all(sql: Seq<char>, args: Seq<SqlArg>, rows: Result<Seq<Seq<SqlValue>>, DbError>) -> SqlEvent {
    SqlEvent::ReadAll { sql, args, rows }
}

pub open spec fn read_one(sql: Seq<char>, args: Seq<SqlArg>, read: Result<(Option<Seq<SqlValue>>, MoreRows), DbError>) -> SqlEvent {
    SqlEvent::ReadOne { sql, args, read }
}

/// The rows of a read, by value.
pub open spec fn rows_read(r: Result<Vec<Vec<SqlValue>>, DbError>) -> Result<Seq<Seq<SqlValue>>, DbError> {
    match r {
        Ok(rows) => Ok(rows_view(rows@)),
        Err(e) => Err(e),
    }
}

/// The first row of a read and what followed it, by value.
pub open spec fn first_read(r: Result<FirstRows, DbError>) -> Result<(Option<Seq<SqlValue>>, MoreRows), DbError> {
    match r {
        Ok(fr) => Ok((
            match fr.first {
                Some(row) => Some(row@),
                None => None,
            },
            fr.more,
        )),
        Err(e) => Err(e),
    }
}

/// What a query that must return exactly one row gives, decoded by `decode`,
/// for what reading it gave.
pub open spec fn decode_one<V>(read: Result<(Option<Seq<SqlValue>>, MoreRows), DbError>, decode: spec_fn(Seq<SqlValue>) -> Result<V, DbError>) -> Result<V, DbError> {
    match read {
        Err(e) => Err(e),
        Ok((first, more)) => one_row_outcome(
            match first {
                Some(row) => Some(decode(row)),
                None => None,
            },
            more,
        ),
    }
}

/// What has been handed to SQLite, in order. Only the functions of this
/// module add to it, each what it hands over; elsewhere a log can only be
/// started empty or take over the events of another.
pub struct SqlLog {
    events: Ghost<Seq<SqlEvent>>,
}

impl SqlLog {
    pub closed spec fn events(&self) -> Seq<SqlEvent> {
        self.events@
    }

    /// An empty log.
    pub fn new() -> (r: SqlLog)
        ensures
            r.events() == Seq::<SqlEvent>::empty(),
    {
        SqlLog { events: Ghost(Seq::empty()) }
    }

    /// Adds the events of `other` after those of this log.
    pub fn append(&mut self, other: SqlLog)
        ensures
            final(self).events() == old(self).events() + other.events(),
    {
        self.events = Ghost(self.events@ + other.events@);
    }

    fn record(&mut self, e: Ghost<SqlEvent>)
        ensures
            final(self).events() == old(self).events().push(e@),
    {
        self.events = Ghost(self.events@.push(e@));
    }
}

/// A compiled statement together with the SQL text it was compiled from.
pub struct Prepared<'c> {
    stmt: rusqlite::Statement<'c>,
    sql: Ghost<Seq<char>>,
}

impl<'c> Prepared<'c> {
    pub closed spec fn sql(&self) -> Seq<char> {
        self.sql@
    }
}

impl<'c> View for Prepared<'c> {
    type V = Seq<char>;

    /// The SQL text the statement was compiled from.
    closed spec fn view(&self) -> Seq<char> {
        self.sql@
    }
}

/// How many parameters SQLite finds when it compiles the SQL text `sql`.
pub uninterp spec fn parameter_count_of(sql: Seq<char>) -> usize;

/// `rusqlite::Statement::parameter_count` (SQLite's
/// `sqlite3_bind_parameter_count`): how many parameters the compiled
/// statement takes. SQLite counts them from the SQL text alone, so the result
/// is named as a function of the text the statement was compiled from.
#[verifier::external_body]
fn statement_parameter_count(stmt: &Prepared) -> (r: usize)
    ensures
        r == parameter_count_of(stmt@),
{
    stmt.stmt.parameter_count()
}

/// Opens the database at `path`.
pub fn open(path: String) -> (r: Result<rusqlite::Connection, DbError>)
    ensures
        r matches Err(e) ==> e is Sqlite,
{
    match connection_open(path) {
        Ok(c) => Ok(c),
        Err(e) => Err(DbError::Sqlite(e)),
    }
}

/// Prepares `sql` on `conn`.
pub fn prepare<'c>(conn: &'c rusqlite::Connection, sql: &str) -> (r: Result<Prepared<'c>, DbError>)
    ensures
        r matches Ok(p) ==> p.sql() == sql@,
        r matches Err(e) ==> e is Sqlite,
{
    match connection_prepare(conn, sql) {
        Ok(s) => Ok(Prepared { stmt: s, sql: Ghost(sql@) }),
        Err(e) => Err(DbError::Sqlite(e)),
    }
}

/// Runs every statement of the script `sql` on `conn`.
pub fn execute_batch(conn: &rusqlite::Connection, sql: &str, log: &mut SqlLog) -> (r: Result<(), DbError>)
    ensures
        final(log).events() == old(log).events().push(SqlEvent::Batch(sql@)),
        r matches Err(e) ==> e is Sqlite,
{
    log.record(Ghost(SqlEvent::Batch(sql@)));
    match connection_execute_batch(conn, sql) {
        Ok(()) => Ok(()),
        Err(e) => Err(DbError::Sqlite(e)),
    }
}

/// The row id of the latest insert on `conn`.
pub fn last_insert_rowid(conn: &rusqlite::Connection, log: &mut SqlLog) -> (r: i64)
    ensures
        final(log).events() == old(log).events().push(SqlEvent::RowId(r)),
{
    let r = connection_last_insert_rowid(conn);
    log.record(Ghost(SqlEvent::RowId(r)));
    r
}

/// A row id as the `i32` id of a model: `i32::try_from`, refused outside its range.
pub fn row_id_to_i32(id: i64) -> (r: Result<i32, DbError>)
    ensures
        i32::MIN <= id <= i32::MAX ==> r == Ok::<i32, DbError>(id as i32),
        !(i32::MIN <= id <= i32::MAX) ==> r == Err::<i32, DbError>(DbError::RowIdOutOfRange(id)),
{
    if -2147483648i64 <= id && id <= 2147483647i64 {
        Ok(id as i32)
    } else {
        Err(DbError::RowIdOutOfRange(id))
    }
}

/// What rusqlite reports for `given` parameters bound to a statement that
/// takes `expected`: it counts them up to one past `expected`.
pub open spec fn count_error(given: nat, expected: usize) -> DbError {
    DbError::InvalidParameterCount(if given <= expected { given as usize } else { (expected + 1) as usize }, expected)
}

/// Binds `params[k]` to the one-based parameter `k + 1`, in order, as
/// rusqlite does for a list of parameters: it binds at most as many as the
/// statement takes, stopping at the first failure, and then refuses a list
/// whose length is not the statement's parameter count.
pub fn bind_params(stmt: &mut Prepared, params: &Vec<SqlParam>) -> (r: Result<(), DbError>)
    ensures
        final(stmt).sql() == old(stmt).sql(),
        r is Ok ==> params@.len() == parameter_count_of(old(stmt)@),
        params@.len() != parameter_count_of(old(stmt)@) ==> r is Err,
        r matches Err(e) ==> (e is Sqlite || e == count_error(params@.len(), parameter_count_of(old(stmt)@))),
{
    let expected = statement_parameter_count(stmt);
    let mut index: usize = 0;
    while index < params.len() && index < expected
        invariant
            stmt.sql() == old(stmt).sql(),
            expected == parameter_count_of(old(stmt)@),
            index <= params@.len(),
            index <= expected,
        decreases params.len() - index,
    {
        let res = match &params[index] {
            SqlParam::Integer(i) => statement_bind_integer(&mut stmt.stmt, index + 1, *i),
            SqlParam::Text(s) => statement_bind_text(&mut stmt.stmt, index + 1, s.as_str()),
        };
        if let Err(e) = res {
            return Err(DbError::Sqlite(e));
        }
        index = index + 1;
    }
    if index < params.len() {
        index = index + 1;
    }
    if index == expected {
        Ok(())
    } else {
        Err(DbError::InvalidParameterCount(index, expected))
    }
}

/// Binds `params` and runs the prepared statement; the number of changed rows.
fn run_bound(stmt: &mut Prepared, params: &Vec<SqlParam>) -> (r: Result<usize, DbError>)
    ensures
        final(stmt).sql() == old(stmt).sql(),
        r matches Err(e) ==> (e is Sqlite || e is InvalidParameterCount),
{
    bind_params(stmt, params)?;
    match statement_raw_execute(&mut stmt.stmt) {
        Ok(n) => Ok(n),
        Err(e) => Err(DbError::Sqlite(e)),
    }
}

/// Binds `params` and runs the prepared statement; the number of changed
/// rows. The statement is recorded in `log`, its outcome not.
pub fn execute_prepared(stmt: &mut Prepared, params: &Vec<SqlParam>, log: &mut SqlLog) -> (r: Result<usize, DbError>)
    ensures
        final(log).events() == old(log).events().push(run(old(stmt).sql(), args_of(params@))),
        final(stmt).sql() == old(stmt).sql(),
        r matches Err(e) ==> (e is Sqlite || e is InvalidParameterCount),
{
    log.record(Ghost(run(stmt.sql(), args_of(params@))));
    run_bound(stmt, params)
}

/// Binds `params` and runs the prepared statement; the number of changed
/// rows. The statement and its outcome are recorded in `log`.
pub fn execute_prepared_checked(stmt: &mut Prepared, params: &Vec<SqlParam>, log: &mut SqlLog) -> (r: Result<usize, DbError>)
    ensures
        final(log).events() == old(log).events().push(checked(old(stmt).sql(), args_of(params@), r)),
        final(stmt).sql() == old(stmt).sql(),
        r matches Err(e) ==> (e is Sqlite || e is InvalidParameterCount),
{
    let ghost sql = stmt.sql();
    let r = run_bound(stmt, params);
    log.record(Ghost(checked(sql, args_of(params@), r)));
    r
}

/// Prepares `sql`, binds `params` and runs it, as `Connection::execute` does.
/// The statement is recorded in `log` (also when SQLite cannot compile it),
/// its outcome not.
pub fn execute(conn: &rusqlite::Connection, sql: &str, params: &Vec<SqlParam>, log: &mut SqlLog) -> (r: Result<usize, DbError>)
    ensures
        final(log).events() == old(log).events().push(run(sql@, args_of(params@))),
        r matches Err(e) ==> (e is Sqlite || e is InvalidParameterCount),
{
    log.record(Ghost(run(sql@, args_of(params@))));
    match prepare(conn, sql) {
        Ok(mut stmt) => run_bound(&mut stmt, params),
        Err(e) => Err(e),
    }
}

/// Prepares `sql`, binds `params` and runs it, as `Connection::execute` does.
/// The statement and its outcome (also a failure to compile it) are recorded
/// in `log`.
pub fn execute_checked(conn: &rusqlite::Connection, sql: &str, params: &Vec<SqlParam>, log: &mut SqlLog) -> (r: Result<usize, DbError>)
    ensures
        final(log).events() == old(log).events().push(checked(sql@, args_of(params@), r)),
        r matches Err(e) ==> (e is Sqlite || e is InvalidParameterCount),
{
    let r = match prepare(conn, sql) {
        Ok(mut stmt) => run_bound(&mut stmt, params),
        Err(e) => Err(e),
    };
    log.record(Ghost(checked(sql@, args_of(params@), r)));
    r
}

/// Reads columns `0 .. ncols` of `row`.
fn read_columns(row: &rusqlite::Row, ncols: usize) -> (r: Result<Vec<SqlValue>, DbError>)
    ensures
        r matches Ok(vals) ==> vals@.len() == ncols,
        r matches Err(e) ==> e is Sqlite,
{
    let mut vals: Vec<SqlValue> = Vec::new();
    let mut i: usize = 0;
    while i < ncols
        invariant
            i <= ncols,
            vals@.len() == i,
        decreases ncols - i,
    {
        match row_get_ref(row, i) {
            Ok(v) => vals.push(v),
            Err(e) => return Err(DbError::Sqlite(e)),
        }
        i = i + 1;
    }
    Ok(vals)
}

/// Binds `params`, runs the query and reads columns `0 .. ncols` of every
/// result row, in the order SQLite gives them; the first failure ends it.
/// (At most `usize::MAX - 1` rows are read: no vector holds more.)
fn fetch_all(stmt: &mut Prepared, params: &Vec<SqlParam>, ncols: usize) -> (r: Result<Vec<Vec<SqlValue>>, DbError>)
    ensures
        r matches Ok(rows) ==> forall|k: int| 0 <= k < rows@.len() ==> (#[trigger] rows@[k])@.len() == ncols,
        r matches Err(e) ==> (e is Sqlite || e is InvalidParameterCount),
{
    bind_params(stmt, params)?;
    let mut rows = statement_raw_query(&mut stmt.stmt);
    let mut out: Vec<Vec<SqlValue>> = Vec::new();
    while out.len() < usize::MAX
        invariant
            forall|k: int| 0 <= k < out@.len() ==> (#[trigger] out@[k])@.len() == ncols,
        decreases usize::MAX - out.len(),
    {
        match rows_next(&mut rows) {
            Ok(Some(row)) => {
                let vals = read_columns(row, ncols)?;
                out.push(vals);
            },
            Ok(None) => {
                return Ok(out);
            },
            Err(e) => {
                return Err(DbError::Sqlite(e));
            },
        }
    }
    Ok(out)
}

/// Binds `params`, runs the query, reads columns `0 .. ncols` of the first
/// row (if any) and steps once more to learn whether another row follows.
fn fetch_first(stmt: &mut Prepared, params: &Vec<SqlParam>, ncols: usize) -> (r: Result<FirstRows, DbError>)
    ensures
        r matches Ok(fr) ==> (fr.first matches Some(row) ==> row@.len() == ncols),
        r matches Ok(fr) ==> (fr.first is None ==> fr.more is No),
        r matches Err(e) ==> (e is Sqlite || e is InvalidParameterCount),
{
    bind_params(stmt, params)?;
    let mut rows = statement_raw_query(&mut stmt.stmt);
    let first = match rows_next(&mut rows) {
        Ok(Some(row)) => read_columns(row, ncols)?,
        Ok(None) => {
            return Ok(FirstRows { first: None, more: MoreRows::No });
        },
        Err(e) => {
            return Err(DbError::Sqlite(e));
        },
    };
    let more = match rows_next(&mut rows) {
        Ok(Some(_)) => MoreRows::Yes,
        Ok(None) => MoreRows::No,
        Err(e) => MoreRows::Failed(e),
    };
    Ok(FirstRows { first: Some(first), more })
}

/// Prepares `sql`, runs it with `params` and reads columns `0 .. ncols` of
/// every row it gives, in order. The query and what reading it gave (the rows,
/// or the failure, also one of compiling it) are recorded in `log`.
pub fn query_rows(conn: &rusqlite::Connection, sql: &str, params: &Vec<SqlParam>, ncols: usize, log: &mut SqlLog) -> (r: Result<Vec<Vec<SqlValue>>, DbError>)
    ensures
        final(log).events() == old(log).events().push(read_all(sql@, args_of(params@), rows_read(r))),
        r matches Ok(rows) ==> forall|k: int| 0 <= k < rows@.len() ==> (#[trigger] rows@[k])@.len() == ncols,
        r matches Err(e) ==> (e is Sqlite || e is InvalidParameterCount),
{
    let r = match prepare(conn, sql) {
        Ok(mut stmt) => fetch_all(&mut stmt, params, ncols),
        Err(e) => Err(e),
    };
    log.record(Ghost(read_all(sql@, args_of(params@), rows_read(r))));
    r
}

/// Prepares `sql`, runs it with `params`, and gives the one row it must
/// return (of `ncols` columns) decoded by `f`, as `Statement::query_one` does.
/// The query and what reading it gave are recorded in `log`, and the result
/// is what that read gives: the decoded row, or the first failure.
pub(crate) fn query_one_decoded<T: View, F: Fn(&Vec<SqlValue>) -> Result<T, DbError>>(
    conn: &rusqlite::Connection,
    sql: &str,
    params: &Vec<SqlParam>,
    ncols: usize,
    f: F,
    Ghost(decode): Ghost<spec_fn(Seq<SqlValue>) -> Result<T::V, DbError>>,
    log: &mut SqlLog,
) -> (r: Result<T, DbError>)
    requires
        forall|row: &Vec<SqlValue>| #[trigger] f.requires((row,)),
        forall|row: &Vec<SqlValue>, res: Result<T, DbError>|
            #[trigger] f.ensures((row,), res) ==> view_result(res) == decode(row@),
    ensures
        exists|read: Result<(Option<Seq<SqlValue>>, MoreRows), DbError>| {
            &&& final(log).events() == old(log).events().push(#[trigger] read_one(sql@, args_of(params@), read))
            &&& view_result(r) == decode_one(read, decode)
        },
{
    let fetched = match prepare(conn, sql) {
        Ok(mut stmt) => fetch_first(&mut stmt, params, ncols),
        Err(e) => Err(e),
    };
    let ghost read = first_read(fetched);
    log.record(Ghost(read_one(sql@, args_of(params@), read)));
    let fr = fetched?;
    let decoded = match &fr.first {
        Some(row) => Some(f(row)),
        None => None,
    };
    let ghost first_row = fr.first;
    let r = finish_one_row(decoded, fr.more);
    proof {
        if first_row is Some {
            assert(decode(first_row->0@) == view_result(decoded->0));
        }
        assert(view_result(r) == decode_one(read, decode));
    }
    r
}

} // verus!

use vstd::prelude::*;

use crate::db::{row_id_read, decode_one, execute_prepared, last_insert_rowid, prepare, query_one_decoded, query_rows, read_all, read_one, row_id_to_i32, rows_read, run, MoreRows, SqlEvent, SqlLog};
use crate::models::project::Project;
use crate::models::project_source::{ProjectSource, ProjectSourceView};
use crate::sql_value::{one_integer, args_of, column_i32, column_text, decode_all, decode_rows, get_i32, get_text, rows_view, stores_arg, lemma_text_reads_back, lemma_decimal_reads_back, text_arg, vec_result_view, view_result, DbError, SqlArg, SqlParam, SqlValue};
use crate::text::{decimal_int, i64_to_decimal, lemma_parse_decimal_roundtrip, parse_i64_spec};

verus! {

/// The source that a row `(id, url, project_id, name)` of `project_sources` holds.
pub open spec fn source_from_row(row: Seq<SqlValue>) -> Result<ProjectSourceView, DbError> {
    match column_i32(row, 0) {
        Err(e) => Err(e),
        Ok(id) => match column_text(row, 1) {
            Err(e) => Err(e),
            Ok(url) => match column_i32(row, 2) {
                Err(e) => Err(e),
                Ok(project_id) => match column_text(row, 3) {
                    Err(e) => Err(e),
                    Ok(name) => Ok(ProjectSourceView { id, url, project_id, name }),
                },
            },
        },
    }
}

/// The sources that rows of `project_sources` hold, in row order.
pub open spec fn sources_from_rows(rows: Seq<Seq<SqlValue>>) -> Result<Seq<ProjectSourceView>, DbError> {
    decode_all(rows, |row: Seq<SqlValue>| source_from_row(row))
}

/// The parameters `(name, url, project_id)` that inserting `source` binds, all as text.
pub open spec fn source_insert_args(source: ProjectSourceView) -> Seq<SqlArg> {
    seq![text_arg(source.name), text_arg(source.url), text_arg(decimal_int(source.project_id as int))]
}

/// What a write gives back: a source inserted with its parameters, as SQLite
/// stores them in `project_sources` (text `url` and `name`, INTEGER
/// `project_id`) under row id `id`, reads back as the same source with that id.
pub proof fn lemma_source_reads_back(source: ProjectSourceView, id: i32, row: Seq<SqlValue>)
    requires
        row.len() == 4,
        row[0] == SqlValue::Integer(id as i64),
        stores_arg(row[1], source_insert_args(source)[1], false),
        stores_arg(row[2], source_insert_args(source)[2], true),
        stores_arg(row[3], source_insert_args(source)[0], false),
    ensures
        source_from_row(row) == Ok::<ProjectSourceView, DbError>(ProjectSourceView { id, ..source }),
{
    lemma_text_reads_back(row, 1, source.url);
    lemma_decimal_reads_back(row, 2, source.project_id);
    lemma_text_reads_back(row, 3, source.name);
}

pub const SOURCE_BY_ID_SQL: &'static str = "SELECT id, url, project_id, name FROM project_sources WHERE id = ?1";
pub const SOURCES_OF_PROJECT_SQL: &'static str = "SELECT id, url, project_id, name FROM project_sources WHERE project_id = ?1";
pub const INSERT_SOURCE_SQL: &'static str = "INSERT INTO project_sources (name, url, project_id) VALUES (?1, ?2, ?3)";

/// The sources that a read of `(id, url, project_id, name)` rows gives: every
/// row decoded, in order, or the failure of the read.
pub open spec fn sources_read(rows: Result<Seq<Seq<SqlValue>>, DbError>) -> Result<Seq<ProjectSourceView>, DbError> {
    match rows {
        Ok(rs) => sources_from_rows(rs),
        Err(e) => Err(e),
    }
}

/// The source that a read of exactly one `(id, url, project_id, name)` row gives.
pub open spec fn source_read(read: Result<(Option<Seq<SqlValue>>, MoreRows), DbError>) -> Result<ProjectSourceView, DbError> {
    decode_one(read, |row: Seq<SqlValue>| source_from_row(row))
}

/// The query for the source with row id `id`, and what reading it gave.
pub open spec fn source_by_id_query(id: i32, read: Result<(Option<Seq<SqlValue>>, MoreRows), DbError>) -> SqlEvent {
    read_one(SOURCE_BY_ID_SQL@, seq![SqlArg::Integer(id as i64)], read)
}

/// The query for the sources of the project with id `project_id`, and what reading it gave.
pub open spec fn sources_of_project_query(project_id: i32, rows: Result<Seq<Seq<SqlValue>>, DbError>) -> SqlEvent {
    read_all(SOURCES_OF_PROJECT_SQL@, seq![SqlArg::Integer(project_id as i64)], rows)
}

/// The statement that inserts `source`.
pub open spec fn insert_source_statement(source: ProjectSourceView) -> SqlEvent {
    run(INSERT_SOURCE_SQL@, source_insert_args(source))
}

/// The statements on sources bind what they are given: inserting a source
/// binds its name and url as text and its project's id as decimal text; the
/// source looked up by id binds that id, and the sources of a project bind
/// the project's id.
pub proof fn lemma_source_statements_bind_their_inputs(
    source: ProjectSourceView,
    id: i32,
    project_id: i32,
    read: Result<(Option<Seq<SqlValue>>, MoreRows), DbError>,
    rows: Result<Seq<Seq<SqlValue>>, DbError>,
)
    ensures
        insert_source_statement(source) == run(
            "INSERT INTO project_sources (name, url, project_id) VALUES (?1, ?2, ?3)"@,
            source_insert_args(source),
        ),
        source_insert_args(source).len() == 3,
        source_insert_args(source)[0] == SqlArg::Text(source.name),
        source_insert_args(source)[1] == SqlArg::Text(source.url),
        parse_i64_spec(source_insert_args(source)[2]->Text_0) == Some(source.project_id as i64),
        source_by_id_query(id, read) == read_one(
            "SELECT id, url, project_id, name FROM project_sources WHERE id = ?1"@,
            seq![SqlArg::Integer(id as i64)],
            read,
        ),
        sources_of_project_query(project_id, rows) == read_all(
            "SELECT id, url, project_id, name FROM project_sources WHERE project_id = ?1"@,
            seq![SqlArg::Integer(project_id as i64)],
            rows,
        ),
{
    lemma_parse_decimal_roundtrip(source.project_id as i64);
}

/// What creating `source` does, from the log `before` to the log `after`,
/// with result `r`: where SQLite cannot compile the insert, nothing is handed
/// over; else the insert is run (its failure is not reported), the row id of
/// the latest insert is read and, where it fits an `i32`, the source under it
/// is read back and is the result.
pub open spec fn source_created(
    before: Seq<SqlEvent>,
    after: Seq<SqlEvent>,
    source: ProjectSourceView,
    r: Result<ProjectSourceView, DbError>,
) -> bool {
    ||| (r matches Err(e) && e is Sqlite && after == before)
    ||| exists|n: i64| {
        &&& !(i32::MIN <= n <= i32::MAX)
        &&& r == Err::<ProjectSourceView, DbError>(DbError::RowIdOutOfRange(n))
        &&& after == before + seq![insert_source_statement(source), #[trigger] row_id_read(n)]
    }
    ||| exists|n: i64, read: Result<(Option<Seq<SqlValue>>, MoreRows), DbError>| {
        &&& i32::MIN <= n <= i32::MAX
        &&& after == before + seq![insert_source_statement(source), SqlEvent::RowId(n), #[trigger] source_by_id_query(n as i32, read)]
        &&& r == source_read(read)
    }
}

/// What a create gives back: where the insert ran, the row id `n` of the
/// latest insert was read, and the read of `n` gave exactly one row holding
/// the source's url, project and name as SQLite stores the insert's
/// arguments, the result is the source with id `n` (its own id is not used).
pub proof fn lemma_created_source_reads_back(
    before: Seq<SqlEvent>,
    after: Seq<SqlEvent>,
    source: ProjectSourceView,
    r: Result<ProjectSourceView, DbError>,
    n: i32,
    row: Seq<SqlValue>,
)
    requires
        source_created(before, after, source, r),
        after == before + seq![insert_source_statement(source), row_id_read(n as i64), source_by_id_query(n, Ok((Some(row), MoreRows::No)))],
        row.len() == 4,
        row[0] == SqlValue::Integer(n as i64),
        stores_arg(row[1], source_insert_args(source)[1], false),
        stores_arg(row[2], source_insert_args(source)[2], true),
        stores_arg(row[3], source_insert_args(source)[0], false),
    ensures
        r == Ok::<ProjectSourceView, DbError>(ProjectSourceView { id: n, ..source }),
{
    let k: int = before.len() as int;
    assert(after.len() == k + 3);
    assert(after[k + 1] == row_id_read(n as i64));
    assert(after[k + 2] == source_by_id_query(n, Ok((Some(row), MoreRows::No))));
    if r matches Err(e) && e is Sqlite && after == before {
        assert(false);
    } else if exists|m: i64| {
        &&& !(i32::MIN <= m <= i32::MAX)
        &&& r == Err::<ProjectSourceView, DbError>(DbError::RowIdOutOfRange(m))
        &&& after == before + seq![insert_source_statement(source), #[trigger] row_id_read(m)]
    } {
        let m = choose|m: i64| {
            &&& !(i32::MIN <= m <= i32::MAX)
            &&& r == Err::<ProjectSourceView, DbError>(DbError::RowIdOutOfRange(m))
            &&& after == before + seq![insert_source_statement(source), #[trigger] row_id_read(m)]
        };
        assert(after.len() == k + 2);
    } else {
        let (m, read) = choose|m: i64, read: Result<(Option<Seq<SqlValue>>, MoreRows), DbError>| {
            &&& i32::MIN <= m <= i32::MAX
            &&& after == before + seq![insert_source_statement(source), row_id_read(m), #[trigger] source_by_id_query(m as i32, read)]
            &&& r == source_read(read)
        };
        assert(after[k + 1] == row_id_read(m));
        assert(after[k + 2] == source_by_id_query(m as i32, read));
        assert(read == Ok::<(Option<Seq<SqlValue>>, MoreRows), DbError>((Some(row), MoreRows::No)));
        lemma_source_reads_back(source, n, row);
    }
}

/// Reads and writes the `project_sources` table, keeping a log of what it
/// hands to SQLite and what it reads back.
pub struct ProjectSourceRepository<'a> {
    connection: &'a rusqlite::Connection,
    log: SqlLog,
}

impl<'a> ProjectSourceRepository<'a> {
    pub fn new(connection: &'a rusqlite::Connection) -> (r: ProjectSourceRepository<'a>)
        ensures
            r.connection() == connection,
            r.log() == Seq::<SqlEvent>::empty(),
    {
        ProjectSourceRepository { connection, log: SqlLog::new() }
    }

    pub closed spec fn connection(&self) -> &'a rusqlite::Connection {
        self.connection
    }

    /// What this repository has handed to SQLite and read back, in order.
    pub closed spec fn log(&self) -> Seq<SqlEvent> {
        self.log.events()
    }

    /// What this repository has handed to SQLite, as a log of its own.
    pub(crate) fn into_log(self) -> (r: SqlLog)
        ensures
            r.events() == self.log(),
    {
        self.log
    }

    /// Decodes a row `(id, url, project_id, name)`.
    pub fn row_to_source(row: &Vec<SqlValue>) -> (r: Result<ProjectSource, DbError>)
        ensures
            view_result(r) == source_from_row(row@),
    {
        let id = get_i32(row, 0)?;
        let url = get_text(row, 1)?;
        let project_id = get_i32(row, 2)?;
        let name = get_text(row, 3)?;
        Ok(ProjectSource { id, url, project_id, name })
    }

    /// Decodes every row `(id, url, project_id, name)`, in order.
    pub fn rows_to_sources(rows: &Vec<Vec<SqlValue>>) -> (r: Result<Vec<ProjectSource>, DbError>)
        ensures
            vec_result_view(r) == sources_from_rows(rows_view(rows@)),
    {
        decode_rows(rows, Self::row_to_source, Ghost(|row: Seq<SqlValue>| source_from_row(row)))
    }

    /// The parameters that inserting `source` binds.
    pub fn insert_params(source: ProjectSource) -> (r: Vec<SqlParam>)
        ensures
            args_of(r@) == source_insert_args(source@),
    {
        let ghost v = source@;
        let project_id = i64_to_decimal(source.project_id as i64);
        let r = vec![SqlParam::Text(source.name), SqlParam::Text(source.url), SqlParam::Text(project_id)];
        assert(args_of(r@) =~= source_insert_args(v));
        r
    }

    /// The source with row id `project_source_id`.
    pub fn get_source(&mut self, project_source_id: i32) -> (r: Result<ProjectSource, DbError>)
        ensures
            final(self).connection() == old(self).connection(),
            exists|read: Result<(Option<Seq<SqlValue>>, MoreRows), DbError>| {
                &&& final(self).log() == old(self).log().push(#[trigger] source_by_id_query(project_source_id, read))
                &&& view_result(r) == source_read(read)
            },
    {
        let ghost decode = |row: Seq<SqlValue>| source_from_row(row);
        let params = one_integer(project_source_id as i64);
        let r = query_one_decoded(self.connection, SOURCE_BY_ID_SQL, &params, 4, Self::row_to_source, Ghost(decode), &mut self.log);
        proof {
            let read = choose|read: Result<(Option<Seq<SqlValue>>, MoreRows), DbError>|
                old(self).log().push(#[trigger] read_one(SOURCE_BY_ID_SQL@, args_of(params@), read)) == self.log()
                && view_result(r) == decode_one(read, decode);
            assert(decode =~= (|row: Seq<SqlValue>| source_from_row(row)));
            assert(source_by_id_query(project_source_id, read) == read_one(SOURCE_BY_ID_SQL@, args_of(params@), read));
        }
        r
    }

    /// The sources of the project with the id of `project`.
    pub fn get_sources_by_project(&mut self, project: Project) -> (r: Result<Vec<ProjectSource>, DbError>)
        ensures
            final(self).connection() == old(self).connection(),
            exists|rows: Result<Seq<Seq<SqlValue>>, DbError>| {
                &&& final(self).log() == old(self).log().push(#[trigger] sources_of_project_query(project.id, rows))
                &&& vec_result_view(r) == sources_read(rows)
            },
    {
        self.sources_for_project_id(project.id)
    }

    /// The sources of the project with id `project_id`.
    pub fn sources_for_project_id(&mut self, project_id: i32) -> (r: Result<Vec<ProjectSource>, DbError>)
        ensures
            final(self).connection() == old(self).connection(),
            exists|rows: Result<Seq<Seq<SqlValue>>, DbError>| {
                &&& final(self).log() == old(self).log().push(#[trigger] sources_of_project_query(project_id, rows))
                &&& vec_result_view(r) == sources_read(rows)
            },
    {
        let fetched = query_rows(self.connection, SOURCES_OF_PROJECT_SQL, &one_integer(project_id as i64), 4, &mut self.log);
        let ghost rows = rows_read(fetched);
        let r = match fetched {
            Ok(rs) => Self::rows_to_sources(&rs),
            Err(e) => Err(e),
        };
        assert(vec_result_view(r) == sources_read(rows));
        assert(self.log() == old(self).log().push(sources_of_project_query(project_id, rows)));
        r
    }

    /// Inserts `project_source` (its id is not used) and gives the source
    /// stored under the row id that SQLite then reports. A failing insert is
    /// not reported: the source under that row id is read all the same.
    pub fn create(&mut self, project_source: ProjectSource) -> (r: Result<ProjectSource, DbError>)
        ensures
            final(self).connection() == old(self).connection(),
            source_created(old(self).log(), final(self).log(), project_source@, view_result(r)),
    {
        let ghost v = project_source@;
        let mut stmt = prepare(self.connection, INSERT_SOURCE_SQL)?;
        let params = Self::insert_params(project_source);
        let _ = execute_prepared(&mut stmt, &params, &mut self.log);
        let n = last_insert_rowid(self.connection, &mut self.log);
        let ghost mid = self.log();
        let last_id = match row_id_to_i32(n) {
            Ok(id) => id,
            Err(e) => {
                assert(self.log() =~= old(self).log() + seq![insert_source_statement(v), row_id_read(n)]);
                return Err(e);
            },
        };
        let r = self.get_source(last_id);
        proof {
            let read = choose|read: Result<(Option<Seq<SqlValue>>, MoreRows), DbError>|
                self.log() == mid.push(#[trigger] source_by_id_query(last_id, read)) && view_result(r) == source_read(read);
            assert(self.log() =~= old(self).log() + seq![insert_source_statement(v), SqlEvent::RowId(n), source_by_id_query(n as i32, read)]);
        }
        r
    }
}

} // verus!

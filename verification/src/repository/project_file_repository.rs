use vstd::prelude::*;

use crate::db::{row_id_read, decode_one, execute_prepared, last_insert_rowid, prepare, query_one_decoded, query_rows, read_all, read_one, row_id_to_i32, rows_read, run, MoreRows, SqlEvent, SqlLog};
use crate::models::file::{ProjectFile, ProjectFileView};
use crate::models::project::Project;
use crate::sql_value::{one_integer, args_of, column_bool, column_i32, column_opt_text, column_text, decode_all, decode_rows, get_bool, get_i32, get_opt_text, get_text, rows_view, stores_arg, lemma_text_reads_back, lemma_decimal_reads_back, text_arg, vec_result_view, view_result, DbError, SqlArg, SqlParam, SqlValue};
use crate::text::{decimal_int, i64_to_decimal, lemma_parse_decimal_roundtrip, parse_i64_spec};

verus! {

/// The file that a row `(id, path, notes, project_id, isdefault)` of
/// `project_files` holds.
pub open spec fn file_from_row(row: Seq<SqlValue>) -> Result<ProjectFileView, DbError> {
    match column_i32(row, 0) {
        Err(e) => Err(e),
        Ok(id) => match column_text(row, 1) {
            Err(e) => Err(e),
            Ok(path) => match column_opt_text(row, 2) {
                Err(e) => Err(e),
                Ok(notes) => match column_i32(row, 3) {
                    Err(e) => Err(e),
                    Ok(project_id) => match column_bool(row, 4) {
                        Err(e) => Err(e),
                        Ok(default) => Ok(ProjectFileView { id, path, notes, project_id, default }),
                    },
                },
            },
        },
    }
}

/// The files that rows of `project_files` hold, in row order.
pub open spec fn files_from_rows(rows: Seq<Seq<SqlValue>>) -> Result<Seq<ProjectFileView>, DbError> {
    decode_all(rows, |row: Seq<SqlValue>| file_from_row(row))
}

/// The notes of a file as stored: missing notes are stored as empty text.
pub open spec fn stored_notes(notes: Option<Seq<char>>) -> Seq<char> {
    match notes {
        Some(n) => n,
        None => Seq::empty(),
    }
}

/// The default flag as stored: the text `1` or `0`.
pub open spec fn stored_flag(default: bool) -> Seq<char> {
    decimal_int(if default { 1 } else { 0 })
}

/// The parameters `(path, notes, isdefault, project_id)` that inserting
/// `file` binds, all as text.
pub open spec fn file_insert_args(file: ProjectFileView) -> Seq<SqlArg> {
    seq![
        text_arg(file.path),
        text_arg(stored_notes(file.notes)),
        text_arg(stored_flag(file.default)),
        text_arg(decimal_int(file.project_id as int)),
    ]
}

/// The parameters `(path, notes, isdefault, project_id, id)` that updating
/// `file` binds, all as text.
pub open spec fn file_update_args(file: ProjectFileView) -> Seq<SqlArg> {
    file_insert_args(file).push(text_arg(decimal_int(file.id as int)))
}

/// What a write gives back: a file inserted (or updated) with its parameters,
/// as SQLite stores them in `project_files` (INTEGER `project_id` and
/// `isdefault`, text `path` and `notes`) under row id `id`, reads back as the
/// same file with that id; missing notes read back as empty notes.
pub proof fn lemma_file_reads_back(file: ProjectFileView, id: i32, row: Seq<SqlValue>)
    requires
        row.len() == 5,
        row[0] == SqlValue::Integer(id as i64),
        stores_arg(row[1], file_insert_args(file)[0], false),
        stores_arg(row[2], file_insert_args(file)[1], false),
        stores_arg(row[3], file_insert_args(file)[3], true),
        stores_arg(row[4], file_insert_args(file)[2], true),
    ensures
        file_from_row(row) == Ok::<ProjectFileView, DbError>(
            ProjectFileView { id, notes: Some(stored_notes(file.notes)), ..file },
        ),
{
    lemma_text_reads_back(row, 1, file.path);
    lemma_text_reads_back(row, 2, stored_notes(file.notes));
    lemma_decimal_reads_back(row, 3, file.project_id);
    lemma_parse_decimal_roundtrip(if file.default { 1 } else { 0 });
}

pub const FILE_BY_ID_SQL: &'static str = "SELECT id, path, notes, project_id, isdefault FROM project_files WHERE id = ?1 LIMIT 1";
pub const FILES_OF_PROJECT_SQL: &'static str = "SELECT id, path, notes, project_id, isdefault FROM project_files WHERE project_id = ?1 ORDER BY path";
pub const DELETE_FILE_SQL: &'static str = "DELETE FROM project_files WHERE id = ?1";
pub const DELETE_FILE_BY_PATH_SQL: &'static str = "DELETE FROM project_files WHERE project_id = ?1 AND path = ?2;";
pub const INSERT_FILE_SQL: &'static str = "INSERT INTO project_files (path, notes, isdefault, project_id) VALUES (?1, ?2, ?3, ?4);";
pub const UPDATE_FILE_SQL: &'static str = "UPDATE project_files SET path = ?1, notes = ?2, isdefault = ?3,  project_id=?4 WHERE id = ?5;";
pub const CLEAR_DEFAULTS_SQL: &'static str = "UPDATE project_files SET isdefault = 0 WHERE project_id = ?1";

/// The files that a read of `(id, path, notes, project_id, isdefault)` rows
/// gives: every row decoded, in order, or the failure of the read.
pub open spec fn files_read(rows: Result<Seq<Seq<SqlValue>>, DbError>) -> Result<Seq<ProjectFileView>, DbError> {
    match rows {
        Ok(rs) => files_from_rows(rs),
        Err(e) => Err(e),
    }
}

/// The file that a read of exactly one `(id, path, notes, project_id, isdefault)` row gives.
pub open spec fn file_read(read: Result<(Option<Seq<SqlValue>>, MoreRows), DbError>) -> Result<ProjectFileView, DbError> {
    decode_one(read, |row: Seq<SqlValue>| file_from_row(row))
}

/// The query for the file with row id `id`, and what reading it gave.
pub open spec fn file_by_id_query(id: i32, read: Result<(Option<Seq<SqlValue>>, MoreRows), DbError>) -> SqlEvent {
    read_one(FILE_BY_ID_SQL@, seq![SqlArg::Integer(id as i64)], read)
}

/// The query for the files of the project with id `project_id`, and what reading it gave.
pub open spec fn files_of_project_query(project_id: i32, rows: Result<Seq<Seq<SqlValue>>, DbError>) -> SqlEvent {
    read_all(FILES_OF_PROJECT_SQL@, seq![SqlArg::Integer(project_id as i64)], rows)
}

/// The statement that makes every file of the project with id `project_id`
/// not default.
pub open spec fn clear_defaults_statement(project_id: i32) -> SqlEvent {
    run(CLEAR_DEFAULTS_SQL@, seq![SqlArg::Integer(project_id as i64)])
}

/// The statement that inserts `file`.
pub open spec fn insert_file_statement(file: ProjectFileView) -> SqlEvent {
    run(INSERT_FILE_SQL@, file_insert_args(file))
}

/// What saving `file` runs, in order: for a default file, first the statement
/// that makes every file of its project not default; then the update of the
/// file's row.
pub open spec fn file_save_events(file: ProjectFileView) -> Seq<SqlEvent> {
    (if file.default { seq![clear_defaults_statement(file.project_id)] } else { Seq::empty() })
        + seq![run(UPDATE_FILE_SQL@, file_update_args(file))]
}

/// The arguments that saving binds hold the file: its path as text, its notes
/// as text (missing notes as empty text), and as decimal text its flag (`1`
/// for default, `0` otherwise), its project's id and its own id; inserting
/// binds the same but the id.
pub proof fn lemma_file_arguments_hold_the_file(file: ProjectFileView)
    ensures
        file_update_args(file).len() == 5,
        file_update_args(file)[0] == SqlArg::Text(file.path),
        file_update_args(file)[1] == SqlArg::Text(
            match file.notes {
                Some(n) => n,
                None => Seq::empty(),
            },
        ),
        parse_i64_spec(file_update_args(file)[2]->Text_0) == Some((if file.default { 1i64 } else { 0i64 })),
        parse_i64_spec(file_update_args(file)[3]->Text_0) == Some(file.project_id as i64),
        parse_i64_spec(file_update_args(file)[4]->Text_0) == Some(file.id as i64),
        file_insert_args(file) == file_update_args(file).drop_last(),
{
    lemma_parse_decimal_roundtrip(if file.default { 1i64 } else { 0i64 });
    lemma_parse_decimal_roundtrip(file.project_id as i64);
    lemma_parse_decimal_roundtrip(file.id as i64);
    assert(file_insert_args(file) =~= file_update_args(file).drop_last());
}

/// The statements on files bind what they are given: the file looked up by
/// id binds that id, the files of a project bind the project's id, and so do
/// the deletes and the clearing of a project's defaults.
pub proof fn lemma_file_statements_bind_their_inputs(
    id: i32,
    project_id: i32,
    read: Result<(Option<Seq<SqlValue>>, MoreRows), DbError>,
    rows: Result<Seq<Seq<SqlValue>>, DbError>,
)
    ensures
        file_by_id_query(id, read) == read_one(
            "SELECT id, path, notes, project_id, isdefault FROM project_files WHERE id = ?1 LIMIT 1"@,
            seq![SqlArg::Integer(id as i64)],
            read,
        ),
        files_of_project_query(project_id, rows) == read_all(
            "SELECT id, path, notes, project_id, isdefault FROM project_files WHERE project_id = ?1 ORDER BY path"@,
            seq![SqlArg::Integer(project_id as i64)],
            rows,
        ),
        clear_defaults_statement(project_id) == run(
            "UPDATE project_files SET isdefault = 0 WHERE project_id = ?1"@,
            seq![SqlArg::Integer(project_id as i64)],
        ),
{
}

/// Saving a file that is default first makes every file of its project not
/// default, whatever the file's path and notes, and then updates the file's
/// row; saving a file that is not default only updates its row.
pub proof fn lemma_default_save_clears_its_project_first(file: ProjectFileView)
    ensures
        file.default ==> file_save_events(file) == seq![
            run("UPDATE project_files SET isdefault = 0 WHERE project_id = ?1"@, seq![SqlArg::Integer(file.project_id as i64)]),
            run(UPDATE_FILE_SQL@, file_update_args(file)),
        ],
        !file.default ==> file_save_events(file) == seq![run(UPDATE_FILE_SQL@, file_update_args(file))],
{
    if file.default {
        assert(file_save_events(file) =~= seq![
            run("UPDATE project_files SET isdefault = 0 WHERE project_id = ?1"@, seq![SqlArg::Integer(file.project_id as i64)]),
            run(UPDATE_FILE_SQL@, file_update_args(file)),
        ]);
    } else {
        assert(file_save_events(file) =~= seq![run(UPDATE_FILE_SQL@, file_update_args(file))]);
    }
}

/// A row of `project_files` as SQLite holds it.
pub struct FileRow {
    pub id: i64,
    pub path: Seq<char>,
    pub notes: Seq<char>,
    pub project_id: i64,
    pub isdefault: i64,
}

/// What the statements that saving runs do to the rows of `project_files`,
/// read by their SQL: clearing the defaults of a project sets `isdefault` to 0
/// in that project's rows; the update of a file gives every row with the
/// file's id the file's path, notes, flag and project (INTEGER columns keep
/// decimal text as its number). Other events leave the rows as they are.
pub open spec fn after_file_statement(rows: Seq<FileRow>, e: SqlEvent) -> Seq<FileRow> {
    match e {
        SqlEvent::Run { sql, args } => if sql == CLEAR_DEFAULTS_SQL@ && args.len() == 1 && args[0] is Integer {
            let pid = args[0]->Integer_0;
            rows.map_values(|r: FileRow| if r.project_id == pid { FileRow { isdefault: 0, ..r } } else { r })
        } else if sql == UPDATE_FILE_SQL@ && args.len() == 5 && args[0] is Text && args[1] is Text && args[2] is Text
            && args[3] is Text && args[4] is Text && parse_i64_spec(args[2]->Text_0) is Some
            && parse_i64_spec(args[3]->Text_0) is Some && parse_i64_spec(args[4]->Text_0) is Some {
            let id = parse_i64_spec(args[4]->Text_0)->Some_0;
            rows.map_values(
                |r: FileRow|
                    if r.id == id {
                        FileRow {
                            id,
                            path: args[0]->Text_0,
                            notes: args[1]->Text_0,
                            isdefault: parse_i64_spec(args[2]->Text_0)->Some_0,
                            project_id: parse_i64_spec(args[3]->Text_0)->Some_0,
                        }
                    } else {
                        r
                    },
            )
        } else {
            rows
        },
        _ => rows,
    }
}

/// What the statements `es`, run in order, do to the rows of `project_files`.
pub open spec fn after_file_statements(rows: Seq<FileRow>, es: Seq<SqlEvent>) -> Seq<FileRow>
    decreases es.len(),
{
    if es.len() == 0 {
        rows
    } else {
        after_file_statement(after_file_statements(rows, es.drop_last()), es.last())
    }
}

/// A file saved as default becomes the only default file of its project:
/// whatever rows `project_files` held, after the statements that saving runs,
/// read by their SQL, every row of the file's project that is default is the
/// saved file's row, which holds the saved path, notes and project and is
/// default; rows of other files keep their values but for the flag.
pub proof fn lemma_saved_default_is_the_only_default(rows: Seq<FileRow>, file: ProjectFileView)
    requires
        file.default,
    ensures
        ({
            let after = after_file_statements(rows, file_save_events(file));
            &&& after.len() == rows.len()
            &&& forall|i: int| 0 <= i < after.len() && (#[trigger] after[i]).project_id == file.project_id && after[i].isdefault != 0
                ==> after[i].id == file.id
            &&& forall|i: int| 0 <= i < after.len() && (#[trigger] after[i]).id == file.id ==> {
                &&& after[i].isdefault == 1
                &&& after[i].project_id == file.project_id
                &&& after[i].path == file.path
                &&& after[i].notes == stored_notes(file.notes)
            }
        }),
{
    lemma_default_save_clears_its_project_first(file);
    lemma_parse_decimal_roundtrip(1);
    lemma_parse_decimal_roundtrip(file.project_id as i64);
    lemma_parse_decimal_roundtrip(file.id as i64);
    let es = file_save_events(file);
    let clear = es[0];
    let update = es[1];
    assert(es.drop_last() =~= seq![clear]);
    assert(es.drop_last().drop_last() =~= Seq::<SqlEvent>::empty());
    let cleared = after_file_statement(rows, clear);
    assert(after_file_statements(rows, es.drop_last().drop_last()) == rows);
    assert(after_file_statements(rows, es.drop_last()) == cleared);
    let args = file_update_args(file);
    assert(args[2] == SqlArg::Text(decimal_int(1)));
    assert(args[3] == SqlArg::Text(decimal_int(file.project_id as int)));
    assert(args[4] == SqlArg::Text(decimal_int(file.id as int)));
    let after = after_file_statement(cleared, update);
    assert(after_file_statements(rows, es) == after);
    assert forall|i: int| 0 <= i < after.len() && (#[trigger] after[i]).project_id == file.project_id && after[i].isdefault != 0
        implies after[i].id == file.id by {
        assert(cleared[i].project_id == file.project_id ==> cleared[i].isdefault == 0);
    }
}

/// What creating `file` does, from the log `before` to the log `after`, with
/// result `r`: where SQLite cannot compile the insert, nothing is handed over;
/// else the insert is run (its failure is not reported), the row id of the
/// latest insert is read and, where it fits an `i32`, the file under it is
/// read back and is the result.
pub open spec fn file_created(
    before: Seq<SqlEvent>,
    after: Seq<SqlEvent>,
    file: ProjectFileView,
    r: Result<ProjectFileView, DbError>,
) -> bool {
    ||| (r matches Err(e) && e is Sqlite && after == before)
    ||| exists|n: i64| {
        &&& !(i32::MIN <= n <= i32::MAX)
        &&& r == Err::<ProjectFileView, DbError>(DbError::RowIdOutOfRange(n))
        &&& after == before + seq![insert_file_statement(file), #[trigger] row_id_read(n)]
    }
    ||| exists|n: i64, read: Result<(Option<Seq<SqlValue>>, MoreRows), DbError>| {
        &&& i32::MIN <= n <= i32::MAX
        &&& after == before + seq![insert_file_statement(file), SqlEvent::RowId(n), #[trigger] file_by_id_query(n as i32, read)]
        &&& r == file_read(read)
    }
}

/// What saving `file` does, from the log `before` to the log `after`, with
/// result `r`: where SQLite cannot compile a statement, nothing is handed
/// over; else the statements of `file_save_events` run (their failures are not
/// reported), and the file under the saved id is read back and is the result.
pub open spec fn file_saved(
    before: Seq<SqlEvent>,
    after: Seq<SqlEvent>,
    file: ProjectFileView,
    r: Result<ProjectFileView, DbError>,
) -> bool {
    ||| (r matches Err(e) && e is Sqlite && after == before)
    ||| exists|read: Result<(Option<Seq<SqlValue>>, MoreRows), DbError>| {
        &&& after == before + file_save_events(file) + seq![#[trigger] file_by_id_query(file.id, read)]
        &&& r == file_read(read)
    }
}

/// What a save gives back: where the save ran its statements and the read of
/// the saved id gave exactly one row, holding the saved file's path, notes,
/// project and flag as SQLite stores the update's arguments, the result is
/// the saved file, with missing notes read back as empty notes.
pub proof fn lemma_saved_file_reads_back(
    before: Seq<SqlEvent>,
    after: Seq<SqlEvent>,
    file: ProjectFileView,
    r: Result<ProjectFileView, DbError>,
    row: Seq<SqlValue>,
)
    requires
        file_saved(before, after, file, r),
        after == before + file_save_events(file) + seq![file_by_id_query(file.id, Ok((Some(row), MoreRows::No)))],
        row.len() == 5,
        row[0] == SqlValue::Integer(file.id as i64),
        stores_arg(row[1], file_update_args(file)[0], false),
        stores_arg(row[2], file_update_args(file)[1], false),
        stores_arg(row[3], file_update_args(file)[3], true),
        stores_arg(row[4], file_update_args(file)[2], true),
    ensures
        r == Ok::<ProjectFileView, DbError>(ProjectFileView { notes: Some(stored_notes(file.notes)), ..file }),
{
    let k: int = before.len() + file_save_events(file).len() as int;
    assert(after.len() == k + 1);
    assert(after[k] == file_by_id_query(file.id, Ok((Some(row), MoreRows::No))));
    if r matches Err(e) && e is Sqlite && after == before {
        assert(false);
    } else {
        let read = choose|read: Result<(Option<Seq<SqlValue>>, MoreRows), DbError>| {
            &&& after == before + file_save_events(file) + seq![#[trigger] file_by_id_query(file.id, read)]
            &&& r == file_read(read)
        };
        assert(after[k] == file_by_id_query(file.id, read));
        assert(read == Ok::<(Option<Seq<SqlValue>>, MoreRows), DbError>((Some(row), MoreRows::No)));
        lemma_file_reads_back(file, file.id, row);
    }
}

/// What a create gives back: where the insert ran, the row id `n` of the
/// latest insert was read, and the read of `n` gave exactly one row holding
/// the file's path, notes, project and flag as SQLite stores the insert's
/// arguments, the result is the file with id `n` (its own id is not used),
/// with missing notes read back as empty notes.
pub proof fn lemma_created_file_reads_back(
    before: Seq<SqlEvent>,
    after: Seq<SqlEvent>,
    file: ProjectFileView,
    r: Result<ProjectFileView, DbError>,
    n: i32,
    row: Seq<SqlValue>,
)
    requires
        file_created(before, after, file, r),
        after == before + seq![insert_file_statement(file), row_id_read(n as i64), file_by_id_query(n, Ok((Some(row), MoreRows::No)))],
        row.len() == 5,
        row[0] == SqlValue::Integer(n as i64),
        stores_arg(row[1], file_insert_args(file)[0], false),
        stores_arg(row[2], file_insert_args(file)[1], false),
        stores_arg(row[3], file_insert_args(file)[3], true),
        stores_arg(row[4], file_insert_args(file)[2], true),
    ensures
        r == Ok::<ProjectFileView, DbError>(ProjectFileView { id: n, notes: Some(stored_notes(file.notes)), ..file }),
{
    let k: int = before.len() as int;
    assert(after.len() == k + 3);
    assert(after[k + 1] == row_id_read(n as i64));
    assert(after[k + 2] == file_by_id_query(n, Ok((Some(row), MoreRows::No))));
    if r matches Err(e) && e is Sqlite && after == before {
        assert(false);
    } else if exists|m: i64| {
        &&& !(i32::MIN <= m <= i32::MAX)
        &&& r == Err::<ProjectFileView, DbError>(DbError::RowIdOutOfRange(m))
        &&& after == before + seq![insert_file_statement(file), #[trigger] row_id_read(m)]
    } {
        let m = choose|m: i64| {
            &&& !(i32::MIN <= m <= i32::MAX)
            &&& r == Err::<ProjectFileView, DbError>(DbError::RowIdOutOfRange(m))
            &&& after == before + seq![insert_file_statement(file), #[trigger] row_id_read(m)]
        };
        assert(after.len() == k + 2);
    } else {
        let (m, read) = choose|m: i64, read: Result<(Option<Seq<SqlValue>>, MoreRows), DbError>| {
            &&& i32::MIN <= m <= i32::MAX
            &&& after == before + seq![insert_file_statement(file), row_id_read(m), #[trigger] file_by_id_query(m as i32, read)]
            &&& r == file_read(read)
        };
        assert(after[k + 1] == row_id_read(m));
        assert(m == n as i64);
        assert(after[k + 2] == file_by_id_query(m as i32, read));
        assert(read == Ok::<(Option<Seq<SqlValue>>, MoreRows), DbError>((Some(row), MoreRows::No)));
        lemma_file_reads_back(file, n, row);
    }
}

/// Reads and writes the `project_files` table, keeping a log of what it
/// hands to SQLite and what it reads back.
pub struct ProjectFileRepository<'a> {
    connection: &'a rusqlite::Connection,
    log: SqlLog,
}

impl<'a> ProjectFileRepository<'a> {
    pub fn new(connection: &'a rusqlite::Connection) -> (r: ProjectFileRepository<'a>)
        ensures
            r.connection() == connection,
            r.log() == Seq::<SqlEvent>::empty(),
    {
        ProjectFileRepository { connection, log: SqlLog::new() }
    }

    pub closed spec fn connection(&self) -> &'a rusqlite::Connection {
        self.connection
    }

    /// What this repository has handed to SQLite and read back, in order.
    pub closed spec fn log(&self) -> Seq<SqlEvent> {
        self.log.events()
    }

    /// What this repository has handed to SQLite, as a log of its own.
    pub(crate) fn into_log(self) -> (r: SqlLog)
        ensures
            r.events() == self.log(),
    {
        self.log
    }

    /// Decodes a row `(id, path, notes, project_id, isdefault)`.
    pub fn row_to_file(row: &Vec<SqlValue>) -> (r: Result<ProjectFile, DbError>)
        ensures
            view_result(r) == file_from_row(row@),
    {
        let id = get_i32(row, 0)?;
        let path = get_text(row, 1)?;
        let notes = get_opt_text(row, 2)?;
        let project_id = get_i32(row, 3)?;
        let default = get_bool(row, 4)?;
        Ok(ProjectFile { id, path, notes, project_id, default })
    }

    /// Decodes every row `(id, path, notes, project_id, isdefault)`, in order.
    pub fn rows_to_files(rows: &Vec<Vec<SqlValue>>) -> (r: Result<Vec<ProjectFile>, DbError>)
        ensures
            vec_result_view(r) == files_from_rows(rows_view(rows@)),
    {
        decode_rows(rows, Self::row_to_file, Ghost(|row: Seq<SqlValue>| file_from_row(row)))
    }

    /// The parameters that inserting `file` binds.
    pub fn insert_params(file: ProjectFile) -> (r: Vec<SqlParam>)
        ensures
            args_of(r@) == file_insert_args(file@),
    {
        let ghost v = file@;
        let notes = match file.notes {
            Some(n) => n,
            None => String::new(),
        };
        let flag = i64_to_decimal(if file.default { 1 } else { 0 });
        let project_id = i64_to_decimal(file.project_id as i64);
        let r = vec![SqlParam::Text(file.path), SqlParam::Text(notes), SqlParam::Text(flag), SqlParam::Text(project_id)];
        assert(args_of(r@) =~= file_insert_args(v));
        r
    }

    /// The parameters that updating `file` binds.
    pub fn update_params(file: ProjectFile) -> (r: Vec<SqlParam>)
        ensures
            args_of(r@) == file_update_args(file@),
    {
        let ghost v = file@;
        let id = i64_to_decimal(file.id as i64);
        let mut r = Self::insert_params(file);
        r.push(SqlParam::Text(id));
        assert(args_of(r@) =~= file_update_args(v));
        r
    }

    /// The file with row id `id`.
    pub fn get_project_file(&mut self, id: i32) -> (r: Result<ProjectFile, DbError>)
        ensures
            final(self).connection() == old(self).connection(),
            exists|read: Result<(Option<Seq<SqlValue>>, MoreRows), DbError>| {
                &&& final(self).log() == old(self).log().push(#[trigger] file_by_id_query(id, read))
                &&& view_result(r) == file_read(read)
            },
    {
        let ghost decode = |row: Seq<SqlValue>| file_from_row(row);
        let params = one_integer(id as i64);
        let r = query_one_decoded(self.connection, FILE_BY_ID_SQL, &params, 5, Self::row_to_file, Ghost(decode), &mut self.log);
        proof {
            let read = choose|read: Result<(Option<Seq<SqlValue>>, MoreRows), DbError>|
                old(self).log().push(#[trigger] read_one(FILE_BY_ID_SQL@, args_of(params@), read)) == self.log()
                && view_result(r) == decode_one(read, decode);
            assert(decode =~= (|row: Seq<SqlValue>| file_from_row(row)));
            assert(file_by_id_query(id, read) == read_one(FILE_BY_ID_SQL@, args_of(params@), read));
        }
        r
    }

    /// The files of the project with the id of `project`, ordered by path.
    pub fn get_files_for_project(&mut self, project: Project) -> (r: Result<Vec<ProjectFile>, DbError>)
        ensures
            final(self).connection() == old(self).connection(),
            exists|rows: Result<Seq<Seq<SqlValue>>, DbError>| {
                &&& final(self).log() == old(self).log().push(#[trigger] files_of_project_query(project.id, rows))
                &&& vec_result_view(r) == files_read(rows)
            },
    {
        self.files_for_project_id(project.id)
    }

    /// The files of the project with id `project_id`, ordered by path.
    pub fn files_for_project_id(&mut self, project_id: i32) -> (r: Result<Vec<ProjectFile>, DbError>)
        ensures
            final(self).connection() == old(self).connection(),
            exists|rows: Result<Seq<Seq<SqlValue>>, DbError>| {
                &&& final(self).log() == old(self).log().push(#[trigger] files_of_project_query(project_id, rows))
                &&& vec_result_view(r) == files_read(rows)
            },
    {
        let fetched = query_rows(self.connection, FILES_OF_PROJECT_SQL, &one_integer(project_id as i64), 5, &mut self.log);
        let ghost rows = rows_read(fetched);
        let r = match fetched {
            Ok(rs) => Self::rows_to_files(&rs),
            Err(e) => Err(e),
        };
        assert(vec_result_view(r) == files_read(rows));
        assert(self.log() == old(self).log().push(files_of_project_query(project_id, rows)));
        r
    }

    /// Deletes the row with the id of `project_file`. Only a statement that
    /// SQLite cannot compile is reported (and then nothing is run); a failing
    /// delete is not.
    pub fn delete(&mut self, project_file: ProjectFile) -> (r: Result<(), DbError>)
        ensures
            final(self).connection() == old(self).connection(),
            r is Ok ==> final(self).log() == old(self).log().push(run(DELETE_FILE_SQL@, seq![SqlArg::Integer(project_file.id as i64)])),
            r matches Err(e) ==> e is Sqlite && final(self).log() == old(self).log(),
    {
        let mut stmt = prepare(self.connection, DELETE_FILE_SQL)?;
        let _ = execute_prepared(&mut stmt, &one_integer(project_file.id as i64), &mut self.log);
        Ok(())
    }

    /// Deletes the files of the project with the id of `project` whose path is
    /// `path`. Only a statement that SQLite cannot compile is reported (and
    /// then nothing is run).
    pub fn delete_by_project_and_path(&mut self, project: Project, path: String) -> (r: Result<(), DbError>)
        ensures
            final(self).connection() == old(self).connection(),
            r is Ok ==> final(self).log() == old(self).log().push(
                run(DELETE_FILE_BY_PATH_SQL@, seq![SqlArg::Integer(project.id as i64), SqlArg::Text(path@)]),
            ),
            r matches Err(e) ==> e is Sqlite && final(self).log() == old(self).log(),
    {
        let mut stmt = prepare(self.connection, DELETE_FILE_BY_PATH_SQL)?;
        let ghost p = path@;
        let params = vec![SqlParam::Integer(project.id as i64), SqlParam::Text(path)];
        assert(args_of(params@) =~= seq![SqlArg::Integer(project.id as i64), SqlArg::Text(p)]);
        let _ = execute_prepared(&mut stmt, &params, &mut self.log);
        Ok(())
    }

    /// Inserts `project_file` (its id is not used) and gives the file stored
    /// under the row id that SQLite then reports. A failing insert is not
    /// reported: the file under that row id is read all the same.
    pub fn create(&mut self, project_file: ProjectFile) -> (r: Result<ProjectFile, DbError>)
        ensures
            final(self).connection() == old(self).connection(),
            file_created(old(self).log(), final(self).log(), project_file@, view_result(r)),
    {
        let ghost v = project_file@;
        let mut stmt = prepare(self.connection, INSERT_FILE_SQL)?;
        let params = Self::insert_params(project_file);
        let _ = execute_prepared(&mut stmt, &params, &mut self.log);
        let n = last_insert_rowid(self.connection, &mut self.log);
        let ghost mid = self.log();
        let last_id = match row_id_to_i32(n) {
            Ok(id) => id,
            Err(e) => {
                assert(self.log() =~= old(self).log() + seq![insert_file_statement(v), row_id_read(n)]);
                return Err(e);
            },
        };
        let r = self.get_project_file(last_id);
        proof {
            let read = choose|read: Result<(Option<Seq<SqlValue>>, MoreRows), DbError>|
                self.log() == mid.push(#[trigger] file_by_id_query(last_id, read)) && view_result(r) == file_read(read);
            assert(self.log() =~= old(self).log() + seq![insert_file_statement(v), SqlEvent::RowId(n), file_by_id_query(n as i32, read)]);
        }
        r
    }

    /// Updates the row with the id of `project_file` to its path, notes, flag
    /// and project, and gives the file as then stored. When the file is the
    /// default one, every file of its project is first made not default.
    /// Only statements that SQLite cannot compile are reported.
    pub fn save(&mut self, project_file: ProjectFile) -> (r: Result<ProjectFile, DbError>)
        ensures
            final(self).connection() == old(self).connection(),
            file_saved(old(self).log(), final(self).log(), project_file@, view_result(r)),
    {
        let ghost v = project_file@;
        let mut update_stmt = prepare(self.connection, UPDATE_FILE_SQL)?;
        if project_file.default {
            let mut set_not_default_stmt = prepare(self.connection, CLEAR_DEFAULTS_SQL)?;
            let _ = execute_prepared(&mut set_not_default_stmt, &one_integer(project_file.project_id as i64), &mut self.log);
        }
        let id = project_file.id;
        let params = Self::update_params(project_file);
        let _ = execute_prepared(&mut update_stmt, &params, &mut self.log);
        let ghost mid = self.log();
        assert(mid =~= old(self).log() + file_save_events(v));
        let r = self.get_project_file(id);
        proof {
            let read = choose|read: Result<(Option<Seq<SqlValue>>, MoreRows), DbError>|
                self.log() == mid.push(#[trigger] file_by_id_query(id, read)) && view_result(r) == file_read(read);
            assert(self.log() =~= old(self).log() + file_save_events(v) + seq![file_by_id_query(v.id, read)]);
        }
        r
    }
}

} // verus!

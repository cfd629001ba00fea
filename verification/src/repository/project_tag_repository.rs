use vstd::prelude::*;

use crate::db::{row_id_read, checked, decode_one, execute_checked, last_insert_rowid, query_one_decoded, query_rows, read_all, read_one, row_id_to_i32, rows_read, run, MoreRows, SqlEvent, SqlLog};
use crate::models::project::Project;
use crate::models::project_tag::{ProjectTag, ProjectTagView};
use crate::sql_value::{args_of, no_params, one_integer, one_text, column_i32, column_text, decode_all, decode_rows, get_i32, get_text, lemma_text_reads_back, rows_view, stores_arg, SqlArg, vec_result_view, view_result, DbError, SqlParam, SqlValue};

verus! {

/// The tag that a row `(id, tag)` of the `tags` table holds.
pub open spec fn tag_from_row(row: Seq<SqlValue>) -> Result<ProjectTagView, DbError> {
    match column_i32(row, 0) {
        Err(e) => Err(e),
        Ok(id) => match column_text(row, 1) {
            Err(e) => Err(e),
            Ok(tag) => Ok(ProjectTagView { id, tag }),
        },
    }
}

/// The tags that rows of the `tags` table hold, in row order.
pub open spec fn tags_from_rows(rows: Seq<Seq<SqlValue>>) -> Result<Seq<ProjectTagView>, DbError> {
    decode_all(rows, |row: Seq<SqlValue>| tag_from_row(row))
}

/// What a write gives back: a tag text inserted into `tags`, as SQLite stores
/// it under row id `id`, reads back as the tag with that id and text.
pub proof fn lemma_tag_reads_back(tag: Seq<char>, id: i32, row: Seq<SqlValue>)
    requires
        row.len() == 2,
        row[0] == SqlValue::Integer(id as i64),
        stores_arg(row[1], SqlArg::Text(tag), false),
    ensures
        tag_from_row(row) == Ok::<ProjectTagView, DbError>(ProjectTagView { id, tag }),
{
    lemma_text_reads_back(row, 1, tag);
}

pub const TAG_BY_ID_SQL: &'static str = "Select id, tag FROM tags WHERE id = ?1 LIMIT 1";
pub const TAG_BY_TEXT_SQL: &'static str = "Select id, tag FROM tags WHERE tag = ?1 LIMIT 1";
pub const ALL_TAGS_SQL: &'static str = "Select id, tag FROM tags ORDER BY tag";
pub const TAGS_OF_PROJECT_SQL: &'static str = "SELECT t.id, t.tag FROM projects_tags pt LEFT JOIN tags t on pt.tag_id = t.id WHERE pt.project_id = ?1";
pub const INSERT_TAG_SQL: &'static str = "INSERT INTO tags (tag) VALUES (?1)";

/// The tags that a read of `(id, tag)` rows gives: every row decoded, in
/// order, or the failure of the read.
pub open spec fn tags_read(rows: Result<Seq<Seq<SqlValue>>, DbError>) -> Result<Seq<ProjectTagView>, DbError> {
    match rows {
        Ok(rs) => tags_from_rows(rs),
        Err(e) => Err(e),
    }
}

/// The tag that a read of exactly one `(id, tag)` row gives.
pub open spec fn tag_read(read: Result<(Option<Seq<SqlValue>>, MoreRows), DbError>) -> Result<ProjectTagView, DbError> {
    decode_one(read, |row: Seq<SqlValue>| tag_from_row(row))
}

/// The query for the tag with row id `id`, and what reading it gave.
pub open spec fn tag_by_id_query(id: i32, read: Result<(Option<Seq<SqlValue>>, MoreRows), DbError>) -> SqlEvent {
    read_one(TAG_BY_ID_SQL@, seq![SqlArg::Integer(id as i64)], read)
}

/// The query for the tags of the project with id `project_id`, and what reading it gave.
pub open spec fn tags_of_project_query(project_id: i32, rows: Result<Seq<Seq<SqlValue>>, DbError>) -> SqlEvent {
    read_all(TAGS_OF_PROJECT_SQL@, seq![SqlArg::Integer(project_id as i64)], rows)
}

/// The insert of a tag with text `tag`, and its outcome.
pub open spec fn insert_tag_checked(tag: Seq<char>, outcome: Result<usize, DbError>) -> SqlEvent {
    checked(INSERT_TAG_SQL@, seq![SqlArg::Text(tag)], outcome)
}

/// The statements on tags bind what they are given: the tag looked up by id
/// binds that id, the tag looked up by text binds that text, the tags of a
/// project bind the project's id, and inserting a tag binds its text.
pub proof fn lemma_tag_statements_bind_their_inputs(
    id: i32,
    tag: Seq<char>,
    project_id: i32,
    read: Result<(Option<Seq<SqlValue>>, MoreRows), DbError>,
    rows: Result<Seq<Seq<SqlValue>>, DbError>,
    outcome: Result<usize, DbError>,
)
    ensures
        tag_by_id_query(id, read) == read_one("Select id, tag FROM tags WHERE id = ?1 LIMIT 1"@, seq![SqlArg::Integer(id as i64)], read),
        TAG_BY_TEXT_SQL@ == "Select id, tag FROM tags WHERE tag = ?1 LIMIT 1"@,
        tags_of_project_query(project_id, rows) == read_all(
            "SELECT t.id, t.tag FROM projects_tags pt LEFT JOIN tags t on pt.tag_id = t.id WHERE pt.project_id = ?1"@,
            seq![SqlArg::Integer(project_id as i64)],
            rows,
        ),
        insert_tag_checked(tag, outcome) == checked("INSERT INTO tags (tag) VALUES (?1)"@, seq![SqlArg::Text(tag)], outcome),
{
}

/// What creating a tag with text `tag` does, from the log `before` to the log
/// `after`, with result `r`: the insert is run and, where it fails, its error
/// ends it; else the row id of the insert is read and, where it fits an
/// `i32`, the tag under it is read back and is the result.
pub open spec fn tag_created(
    before: Seq<SqlEvent>,
    after: Seq<SqlEvent>,
    tag: Seq<char>,
    r: Result<ProjectTagView, DbError>,
) -> bool {
    ||| exists|e: DbError| r == Err::<ProjectTagView, DbError>(e) && after == before.push(#[trigger] insert_tag_checked(tag, Err(e)))
    ||| exists|k: usize, n: i64| {
        &&& !(i32::MIN <= n <= i32::MAX)
        &&& r == Err::<ProjectTagView, DbError>(DbError::RowIdOutOfRange(n))
        &&& after == before + seq![#[trigger] insert_tag_checked(tag, Ok(k)), #[trigger] row_id_read(n)]
    }
    ||| exists|k: usize, n: i64, read: Result<(Option<Seq<SqlValue>>, MoreRows), DbError>| {
        &&& i32::MIN <= n <= i32::MAX
        &&& after == before + seq![#[trigger] insert_tag_checked(tag, Ok(k)), row_id_read(n), #[trigger] tag_by_id_query(n as i32, read)]
        &&& r == tag_read(read)
    }
}

/// What a create gives back: where the insert ran, the row id `n` of the
/// insert was read, and the read of `n` gave exactly one row holding the text
/// as SQLite stores it, the result is the tag with id `n` and that text.
pub proof fn lemma_created_tag_reads_back(
    before: Seq<SqlEvent>,
    after: Seq<SqlEvent>,
    tag: Seq<char>,
    r: Result<ProjectTagView, DbError>,
    k: usize,
    n: i32,
    row: Seq<SqlValue>,
)
    requires
        tag_created(before, after, tag, r),
        after == before + seq![insert_tag_checked(tag, Ok(k)), row_id_read(n as i64), tag_by_id_query(n, Ok((Some(row), MoreRows::No)))],
        row.len() == 2,
        row[0] == SqlValue::Integer(n as i64),
        stores_arg(row[1], SqlArg::Text(tag), false),
    ensures
        r == Ok::<ProjectTagView, DbError>(ProjectTagView { id: n, tag }),
{
    let i: int = before.len() as int;
    assert(after.len() == i + 3);
    assert(after[i + 1] == row_id_read(n as i64));
    assert(after[i + 2] == tag_by_id_query(n, Ok((Some(row), MoreRows::No))));
    if exists|e: DbError| r == Err::<ProjectTagView, DbError>(e) && after == before.push(#[trigger] insert_tag_checked(tag, Err(e))) {
        let e = choose|e: DbError| r == Err::<ProjectTagView, DbError>(e) && after == before.push(#[trigger] insert_tag_checked(tag, Err(e)));
        assert(after.len() == i + 1);
    } else if exists|j: usize, m: i64| {
        &&& !(i32::MIN <= m <= i32::MAX)
        &&& r == Err::<ProjectTagView, DbError>(DbError::RowIdOutOfRange(m))
        &&& after == before + seq![#[trigger] insert_tag_checked(tag, Ok(j)), #[trigger] row_id_read(m)]
    } {
        let (j, m) = choose|j: usize, m: i64| {
            &&& !(i32::MIN <= m <= i32::MAX)
            &&& r == Err::<ProjectTagView, DbError>(DbError::RowIdOutOfRange(m))
            &&& after == before + seq![#[trigger] insert_tag_checked(tag, Ok(j)), #[trigger] row_id_read(m)]
        };
        assert(after.len() == i + 2);
    } else {
        let (j, m, read) = choose|j: usize, m: i64, read: Result<(Option<Seq<SqlValue>>, MoreRows), DbError>| {
            &&& i32::MIN <= m <= i32::MAX
            &&& after == before + seq![#[trigger] insert_tag_checked(tag, Ok(j)), row_id_read(m), #[trigger] tag_by_id_query(m as i32, read)]
            &&& r == tag_read(read)
        };
        assert(after[i + 1] == row_id_read(m));
        assert(after[i + 2] == tag_by_id_query(m as i32, read));
        assert(read == Ok::<(Option<Seq<SqlValue>>, MoreRows), DbError>((Some(row), MoreRows::No)));
        lemma_tag_reads_back(tag, n, row);
    }
}

/// Reads and writes the `tags` table and the tags of a project, keeping a
/// log of what it hands to SQLite and what it reads back.
pub struct ProjectTagRepository<'a> {
    connection: &'a rusqlite::Connection,
    log: SqlLog,
}

impl<'a> ProjectTagRepository<'a> {
    pub fn new(connection: &'a rusqlite::Connection) -> (r: ProjectTagRepository<'a>)
        ensures
            r.connection() == connection,
            r.log() == Seq::<SqlEvent>::empty(),
    {
        ProjectTagRepository { connection, log: SqlLog::new() }
    }

    pub closed spec fn connection(&self) -> &'a rusqlite::Connection {
        self.connection
    }

    /// What this repository has handed to SQLite and read back, in order.
    pub closed spec fn log(&self) -> Seq<SqlEvent> {
        self.log.events()
    }

    /// What this repository has handed to SQLite, as a log of its own.
    pub(crate) fn into_log(self) -> (r: SqlLog)
        ensures
            r.events() == self.log(),
    {
        self.log
    }

    /// Decodes a row `(id, tag)`.
    pub fn row_to_tag(row: &Vec<SqlValue>) -> (r: Result<ProjectTag, DbError>)
        ensures
            view_result(r) == tag_from_row(row@),
    {
        let id = get_i32(row, 0)?;
        let tag = get_text(row, 1)?;
        Ok(ProjectTag { id, tag })
    }

    /// Decodes every row `(id, tag)`, in order.
    pub fn rows_to_tags(rows: &Vec<Vec<SqlValue>>) -> (r: Result<Vec<ProjectTag>, DbError>)
        ensures
            vec_result_view(r) == tags_from_rows(rows_view(rows@)),
    {
        decode_rows(rows, Self::row_to_tag, Ghost(|row: Seq<SqlValue>| tag_from_row(row)))
    }

    /// Runs a query that must give exactly one tag row.
    fn query_one_tag(&mut self, sql: &str, params: Vec<SqlParam>) -> (r: Result<ProjectTag, DbError>)
        ensures
            final(self).connection() == old(self).connection(),
            exists|read: Result<(Option<Seq<SqlValue>>, MoreRows), DbError>| {
                &&& final(self).log() == old(self).log().push(#[trigger] read_one(sql@, args_of(params@), read))
                &&& view_result(r) == tag_read(read)
            },
    {
        let ghost decode = |row: Seq<SqlValue>| tag_from_row(row);
        let r = query_one_decoded(self.connection, sql, &params, 2, Self::row_to_tag, Ghost(decode), &mut self.log);
        proof {
            let read = choose|read: Result<(Option<Seq<SqlValue>>, MoreRows), DbError>|
                old(self).log().push(#[trigger] read_one(sql@, args_of(params@), read)) == self.log()
                && view_result(r) == decode_one(read, decode);
            assert(decode =~= (|row: Seq<SqlValue>| tag_from_row(row)));
            assert(view_result(r) == tag_read(read));
        }
        r
    }

    /// Runs a query and decodes every tag row it gives.
    fn query_tags(&mut self, sql: &str, params: Vec<SqlParam>) -> (r: Result<Vec<ProjectTag>, DbError>)
        ensures
            final(self).connection() == old(self).connection(),
            exists|rows: Result<Seq<Seq<SqlValue>>, DbError>| {
                &&& final(self).log() == old(self).log().push(#[trigger] read_all(sql@, args_of(params@), rows))
                &&& vec_result_view(r) == tags_read(rows)
            },
    {
        let fetched = query_rows(self.connection, sql, &params, 2, &mut self.log);
        let ghost rows = rows_read(fetched);
        let r = match fetched {
            Ok(rs) => Self::rows_to_tags(&rs),
            Err(e) => Err(e),
        };
        assert(vec_result_view(r) == tags_read(rows));
        r
    }

    /// The tag with row id `id`.
    pub fn get_tag(&mut self, id: i32) -> (r: Result<ProjectTag, DbError>)
        ensures
            final(self).connection() == old(self).connection(),
            exists|read: Result<(Option<Seq<SqlValue>>, MoreRows), DbError>| {
                &&& final(self).log() == old(self).log().push(#[trigger] tag_by_id_query(id, read))
                &&& view_result(r) == tag_read(read)
            },
    {
        let params = one_integer(id as i64);
        let r = self.query_one_tag(TAG_BY_ID_SQL, params);
        proof {
            let read = choose|read: Result<(Option<Seq<SqlValue>>, MoreRows), DbError>|
                self.log() == old(self).log().push(#[trigger] read_one(TAG_BY_ID_SQL@, args_of(params@), read))
                && view_result(r) == tag_read(read);
            assert(tag_by_id_query(id, read) == read_one(TAG_BY_ID_SQL@, args_of(params@), read));
        }
        r
    }

    /// The tag whose text is `tag`.
    pub fn get_tag_by_tag(&mut self, tag: String) -> (r: Result<ProjectTag, DbError>)
        ensures
            final(self).connection() == old(self).connection(),
            exists|read: Result<(Option<Seq<SqlValue>>, MoreRows), DbError>| {
                &&& final(self).log() == old(self).log().push(
                    #[trigger] read_one(TAG_BY_TEXT_SQL@, seq![SqlArg::Text(tag@)], read),
                )
                &&& view_result(r) == tag_read(read)
            },
    {
        let ghost text = tag@;
        let params = one_text(tag);
        let r = self.query_one_tag(TAG_BY_TEXT_SQL, params);
        proof {
            let read = choose|read: Result<(Option<Seq<SqlValue>>, MoreRows), DbError>|
                self.log() == old(self).log().push(#[trigger] read_one(TAG_BY_TEXT_SQL@, args_of(params@), read))
                && view_result(r) == tag_read(read);
            assert(read_one(TAG_BY_TEXT_SQL@, seq![SqlArg::Text(text)], read) == read_one(TAG_BY_TEXT_SQL@, args_of(params@), read));
        }
        r
    }

    /// Every tag, ordered by its text.
    pub fn get_tags(&mut self) -> (r: Result<Vec<ProjectTag>, DbError>)
        ensures
            final(self).connection() == old(self).connection(),
            exists|rows: Result<Seq<Seq<SqlValue>>, DbError>| {
                &&& final(self).log() == old(self).log().push(#[trigger] read_all(ALL_TAGS_SQL@, Seq::<SqlArg>::empty(), rows))
                &&& vec_result_view(r) == tags_read(rows)
            },
    {
        let params = no_params();
        let r = self.query_tags(ALL_TAGS_SQL, params);
        proof {
            let rows = choose|rows: Result<Seq<Seq<SqlValue>>, DbError>|
                self.log() == old(self).log().push(#[trigger] read_all(ALL_TAGS_SQL@, args_of(params@), rows))
                && vec_result_view(r) == tags_read(rows);
            assert(read_all(ALL_TAGS_SQL@, Seq::<SqlArg>::empty(), rows) == read_all(ALL_TAGS_SQL@, args_of(params@), rows));
        }
        r
    }

    /// The tags of the project with the id of `project`.
    pub fn get_tags_by_project(&mut self, project: Project) -> (r: Result<Vec<ProjectTag>, DbError>)
        ensures
            final(self).connection() == old(self).connection(),
            exists|rows: Result<Seq<Seq<SqlValue>>, DbError>| {
                &&& final(self).log() == old(self).log().push(#[trigger] tags_of_project_query(project.id, rows))
                &&& vec_result_view(r) == tags_read(rows)
            },
    {
        self.tags_for_project_id(project.id)
    }

    /// The tags of the project with id `project_id`.
    pub fn tags_for_project_id(&mut self, project_id: i32) -> (r: Result<Vec<ProjectTag>, DbError>)
        ensures
            final(self).connection() == old(self).connection(),
            exists|rows: Result<Seq<Seq<SqlValue>>, DbError>| {
                &&& final(self).log() == old(self).log().push(#[trigger] tags_of_project_query(project_id, rows))
                &&& vec_result_view(r) == tags_read(rows)
            },
    {
        let params = one_integer(project_id as i64);
        let r = self.query_tags(TAGS_OF_PROJECT_SQL, params);
        proof {
            let rows = choose|rows: Result<Seq<Seq<SqlValue>>, DbError>|
                self.log() == old(self).log().push(#[trigger] read_all(TAGS_OF_PROJECT_SQL@, args_of(params@), rows))
                && vec_result_view(r) == tags_read(rows);
            assert(tags_of_project_query(project_id, rows) == read_all(TAGS_OF_PROJECT_SQL@, args_of(params@), rows));
        }
        r
    }

    /// Inserts a tag with text `tag` and gives the tag stored under the row id
    /// of that insert. A failing insert ends it with the insert's error.
    pub fn create(&mut self, tag: String) -> (r: Result<ProjectTag, DbError>)
        ensures
            final(self).connection() == old(self).connection(),
            tag_created(old(self).log(), final(self).log(), tag@, view_result(r)),
    {
        let ghost text = tag@;
        let ins = execute_checked(self.connection, INSERT_TAG_SQL, &one_text(tag), &mut self.log);
        let k = match ins {
            Ok(k) => k,
            Err(e) => {
                assert(self.log() == old(self).log().push(insert_tag_checked(text, Err(e))));
                return Err(e);
            },
        };
        let n = last_insert_rowid(self.connection, &mut self.log);
        let ghost mid = self.log();
        let last_id = match row_id_to_i32(n) {
            Ok(id) => id,
            Err(e) => {
                assert(self.log() =~= old(self).log() + seq![insert_tag_checked(text, Ok(k)), row_id_read(n)]);
                return Err(e);
            },
        };
        let r = self.get_tag(last_id);
        proof {
            let read = choose|read: Result<(Option<Seq<SqlValue>>, MoreRows), DbError>|
                self.log() == mid.push(#[trigger] tag_by_id_query(last_id, read)) && view_result(r) == tag_read(read);
            assert(self.log() =~= old(self).log() + seq![insert_tag_checked(text, Ok(k)), row_id_read(n), tag_by_id_query(n as i32, read)]);
        }
        r
    }
}

} // verus!

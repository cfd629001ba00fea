use vstd::prelude::*;

use crate::db::{MoreRows, row_id_read, checked, decode_one, execute_checked, execute_prepared, execute_prepared_checked, last_insert_rowid, prepare, query_one_decoded, query_rows, read_all, read_one, row_id_to_i32, rows_read, run, OneRead, RowsRead, SqlEvent, SqlLog};
use crate::models::file::{opt_text_view, ProjectFile, ProjectFileView};
use crate::models::project::{Project, ProjectView};
use crate::models::project_source::{ProjectSource, ProjectSourceView};
use crate::models::project_tag::{ProjectTag, ProjectTagView};
use crate::repository::project_file_repository::{files_of_project_query, files_read, ProjectFileRepository};
use crate::repository::project_source_repository::{sources_of_project_query, sources_read, ProjectSourceRepository};
use crate::repository::project_tag_repository::{tags_of_project_query, tags_read, ProjectTagRepository};
use crate::sql_value::{no_params, one_integer, two_integers, args_of, column_i32, column_text, decode_all, decode_rows, get_i32, get_text, rows_view, stores_arg, lemma_text_reads_back, text_arg, vec_result_view, view_result, views, DbError, SqlArg, SqlParam, SqlValue};
use crate::text::{append_u64_decimal, decimal_int, decimal_nat, i64_to_decimal, lemma_parse_decimal_roundtrip, parse_i64_spec};

verus! {

/// The project that a row `(id, name, path, notes)` of `projects` holds, with
/// no tags, files or sources yet.
pub open spec fn project_from_row(row: Seq<SqlValue>) -> Result<ProjectView, DbError> {
    match column_i32(row, 0) {
        Err(e) => Err(e),
        Ok(id) => match column_text(row, 1) {
            Err(e) => Err(e),
            Ok(name) => match column_text(row, 2) {
                Err(e) => Err(e),
                Ok(path) => match column_text(row, 3) {
                    Err(e) => Err(e),
                    Ok(notes) => Ok(
                        ProjectView {
                            id,
                            name,
                            path,
                            notes,
                            tags: Seq::empty(),
                            files: Seq::empty(),
                            sources: Seq::empty(),
                        },
                    ),
                },
            },
        },
    }
}

/// The projects that rows of `projects` hold, in row order.
pub open spec fn projects_from_rows(rows: Seq<Seq<SqlValue>>) -> Result<Seq<ProjectView>, DbError> {
    decode_all(rows, |row: Seq<SqlValue>| project_from_row(row))
}

/// A project with its tags, files and sources left out.
pub open spec fn without_details(p: ProjectView) -> ProjectView {
    ProjectView { tags: Seq::empty(), files: Seq::empty(), sources: Seq::empty(), ..p }
}

/// The ids of tags, as a comma-separated list of decimal numbers.
pub open spec fn ids_text(ids: Seq<i32>) -> Seq<char>
    decreases ids.len(),
{
    if ids.len() == 0 {
        Seq::empty()
    } else if ids.len() == 1 {
        decimal_int(ids[0] as int)
    } else {
        ids_text(ids.drop_last()) + seq![','] + decimal_int(ids.last() as int)
    }
}

pub open spec fn tag_ids(tags: Seq<ProjectTag>) -> Seq<i32> {
    tags.map_values(|t: ProjectTag| t.id)
}

/// The query that lists projects: those whose name contains `name`, whose path
/// is `path`, and that carry every tag of `tag_ids`, each where given, ordered
/// by name.
pub open spec fn filtered_projects_sql(name: Option<Seq<char>>, path: Option<Seq<char>>, tag_ids: Option<Seq<i32>>) -> Seq<char> {
    let join = if tag_ids is Some {
        " JOIN projects_tags pt ON pt.project_id = p.id"@
    } else {
        Seq::empty()
    };
    let where_word = if tag_ids is Some || path is Some || name is Some {
        " WHERE"@
    } else {
        Seq::empty()
    };
    let name_part = match name {
        Some(n) => " name LIKE '%"@ + n + "%'"@,
        None => Seq::empty(),
    };
    let path_part = match path {
        Some(p) => (if name is Some { " AND"@ } else { Seq::empty() }) + " path = '"@ + p + "'"@,
        None => Seq::empty(),
    };
    let tag_part = match tag_ids {
        Some(ids) => (if path is Some || name is Some { " AND"@ } else { Seq::empty() }) + " pt.tag_id IN ("@ + ids_text(ids)
            + ") GROUP BY p.id HAVING COUNT(DISTINCT pt.tag_id) = "@ + decimal_nat(ids.len()),
        None => Seq::empty(),
    };
    "select p.* from projects p"@ + join + where_word + name_part + path_part + tag_part + " ORDER BY p.name"@
}

/// The conditions a listing filters by, each where given, in the order name,
/// path, tags: the name contains `n`; the path is `p`; grouped by project,
/// the project's links to the tags `ids` name as many distinct tags as `ids`
/// holds ids.
pub open spec fn listing_conditions(name: Option<Seq<char>>, path: Option<Seq<char>>, tag_ids: Option<Seq<i32>>) -> Seq<Seq<char>> {
    (match name {
        Some(n) => seq![" name LIKE '%"@ + n + "%'"@],
        None => Seq::empty(),
    }) + (match path {
        Some(p) => seq![" path = '"@ + p + "'"@],
        None => Seq::empty(),
    }) + (match tag_ids {
        Some(ids) => seq![
            " pt.tag_id IN ("@ + ids_text(ids) + ") GROUP BY p.id HAVING COUNT(DISTINCT pt.tag_id) = "@ + decimal_nat(ids.len()),
        ],
        None => Seq::empty(),
    })
}

/// The conditions `cs` one after the other, every two joined by ` AND`.
pub open spec fn joined_with_and(cs: Seq<Seq<char>>) -> Seq<char>
    decreases cs.len(),
{
    if cs.len() == 0 {
        Seq::empty()
    } else if cs.len() == 1 {
        cs[0]
    } else {
        joined_with_and(cs.drop_last()) + " AND"@ + cs.last()
    }
}

proof fn lemma_regroup(b: Seq<char>, j: Seq<char>, w: Seq<char>, n: Seq<char>, p: Seq<char>, t: Seq<char>, o: Seq<char>)
    ensures
        b + j + w + n + p + t + o == b + j + (w + n + p + t) + o,
{
    assert(b + j + w + n + p + t + o =~= b + j + (w + n + p + t) + o);
}

proof fn lemma_filters_npt(w: Seq<char>, a: Seq<char>, x: Seq<char>, y: Seq<char>, z: Seq<char>)
    ensures
        w + x + (a + y) + (a + z) == w + (x + a + y + a + z),
{
    assert(w + x + (a + y) + (a + z) =~= w + (x + a + y + a + z));
}

proof fn lemma_filters_two_first(w: Seq<char>, a: Seq<char>, x: Seq<char>, y: Seq<char>)
    ensures
        w + x + (a + y) + (Seq::<char>::empty() + Seq::<char>::empty()) == w + (x + a + y),
{
    assert(w + x + (a + y) + (Seq::<char>::empty() + Seq::<char>::empty()) =~= w + (x + a + y));
}

proof fn lemma_filters_two_outer(w: Seq<char>, a: Seq<char>, x: Seq<char>, z: Seq<char>)
    ensures
        w + x + (Seq::<char>::empty() + Seq::<char>::empty()) + (a + z) == w + (x + a + z),
{
    assert(w + x + (Seq::<char>::empty() + Seq::<char>::empty()) + (a + z) =~= w + (x + a + z));
}

proof fn lemma_filters_two_last(w: Seq<char>, a: Seq<char>, y: Seq<char>, z: Seq<char>)
    ensures
        w + Seq::<char>::empty() + (Seq::<char>::empty() + y) + (a + z) == w + (y + a + z),
{
    assert(w + Seq::<char>::empty() + (Seq::<char>::empty() + y) + (a + z) =~= w + (y + a + z));
}

/// At most one of `x`, `y`, `z` is not empty.
proof fn lemma_filters_one(w: Seq<char>, x: Seq<char>, y: Seq<char>, z: Seq<char>)
    requires
        (x.len() == 0 && y.len() == 0) || (x.len() == 0 && z.len() == 0) || (y.len() == 0 && z.len() == 0),
    ensures
        w + x + (Seq::<char>::empty() + y) + (Seq::<char>::empty() + z) == w + (if x.len() > 0 {
            x
        } else if y.len() > 0 {
            y
        } else {
            z
        }),
{
    assert(w + x + (Seq::<char>::empty() + y) + (Seq::<char>::empty() + z) =~= w + (if x.len() > 0 {
        x
    } else if y.len() > 0 {
        y
    } else {
        z
    }));
}

/// The listing query, for every combination of filters: after `WHERE` it
/// puts each filter that is given (name, path, tags), every two of them
/// joined by `AND`; where tags are given it joins the projects' tag links;
/// the projects come ordered by name.
#[verifier::spinoff_prover]
pub proof fn lemma_listing_query_joins_every_filter(name: Option<Seq<char>>, path: Option<Seq<char>>, tag_ids: Option<Seq<i32>>)
    ensures
        filtered_projects_sql(name, path, tag_ids) == "select p.* from projects p"@
            + (if tag_ids is Some { " JOIN projects_tags pt ON pt.project_id = p.id"@ } else { Seq::empty() })
            + (if listing_conditions(name, path, tag_ids).len() > 0 {
                " WHERE"@ + joined_with_and(listing_conditions(name, path, tag_ids))
            } else {
                Seq::empty()
            })
            + " ORDER BY p.name"@,
{
    reveal_with_fuel(joined_with_and, 4);
    let conds = listing_conditions(name, path, tag_ids);
    let join = if tag_ids is Some { " JOIN projects_tags pt ON pt.project_id = p.id"@ } else { Seq::<char>::empty() };
    let where_word = if tag_ids is Some || path is Some || name is Some { " WHERE"@ } else { Seq::<char>::empty() };
    let nc = match name {
        Some(n) => " name LIKE '%"@ + n + "%'"@,
        None => Seq::<char>::empty(),
    };
    let pc = match path {
        Some(p) => " path = '"@ + p + "'"@,
        None => Seq::<char>::empty(),
    };
    let tc = match tag_ids {
        Some(ids) => " pt.tag_id IN ("@ + ids_text(ids) + ") GROUP BY p.id HAVING COUNT(DISTINCT pt.tag_id) = "@ + decimal_nat(ids.len()),
        None => Seq::<char>::empty(),
    };
    let and_p = if name is Some && path is Some { " AND"@ } else { Seq::<char>::empty() };
    let and_t = if (path is Some || name is Some) && tag_ids is Some { " AND"@ } else { Seq::<char>::empty() };
    let filters = where_word + nc + (and_p + pc) + (and_t + tc);
    assert(filtered_projects_sql(name, path, tag_ids) == "select p.* from projects p"@ + join + where_word + nc + (and_p + pc) + (and_t + tc) + " ORDER BY p.name"@);
    let wc = if conds.len() > 0 { " WHERE"@ + joined_with_and(conds) } else { Seq::<char>::empty() };
    let e = Seq::<char>::empty();
    if name is Some && path is Some && tag_ids is Some {
        assert(conds =~= seq![nc, pc, tc]);
        assert(conds.drop_last() =~= seq![nc, pc]);
        assert(conds.drop_last().drop_last() =~= seq![nc]);
        lemma_filters_npt(" WHERE"@, " AND"@, nc, pc, tc);
    } else if name is Some && path is Some {
        assert(conds =~= seq![nc, pc]);
        assert(conds.drop_last() =~= seq![nc]);
        lemma_filters_two_first(" WHERE"@, " AND"@, nc, pc);
    } else if name is Some && tag_ids is Some {
        assert(conds =~= seq![nc, tc]);
        assert(conds.drop_last() =~= seq![nc]);
        lemma_filters_two_outer(" WHERE"@, " AND"@, nc, tc);
    } else if path is Some && tag_ids is Some {
        assert(conds =~= seq![pc, tc]);
        assert(conds.drop_last() =~= seq![pc]);
        lemma_filters_two_last(" WHERE"@, " AND"@, pc, tc);
    } else if name is Some {
        assert(conds =~= seq![nc]);
        lemma_filters_one(" WHERE"@, nc, e, e);
    } else if path is Some {
        assert(conds =~= seq![pc]);
        lemma_filters_one(" WHERE"@, e, pc, e);
    } else if tag_ids is Some {
        assert(conds =~= seq![tc]);
        lemma_filters_one(" WHERE"@, e, e, tc);
    } else {
        assert(conds =~= Seq::<Seq<char>>::empty());
        assert(filters =~= e);
    }
    assert(filters == wc);
    lemma_regroup("select p.* from projects p"@, join, where_word, nc, and_p + pc, and_t + tc, " ORDER BY p.name"@);
}

/// The parameters `(name, path, notes)` that inserting a project binds.
pub open spec fn project_insert_args(p: ProjectView) -> Seq<SqlArg> {
    seq![text_arg(p.name), text_arg(p.path), text_arg(p.notes)]
}

/// The parameters `(name, notes, path, id)` that updating a project binds, all as text.
pub open spec fn project_update_args(p: ProjectView) -> Seq<SqlArg> {
    seq![text_arg(p.name), text_arg(p.notes), text_arg(p.path), text_arg(decimal_int(p.id as int))]
}

/// What a write gives back: a project inserted or updated with its parameters,
/// as SQLite stores them in `projects` (text `name`, `path` and `notes`) under
/// row id `id`, reads back as the same project with that id, before its tags,
/// files and sources are attached.
pub proof fn lemma_project_reads_back(project: ProjectView, id: i32, row: Seq<SqlValue>)
    requires
        row.len() == 4,
        row[0] == SqlValue::Integer(id as i64),
        stores_arg(row[1], project_insert_args(project)[0], false),
        stores_arg(row[2], project_insert_args(project)[1], false),
        stores_arg(row[3], project_insert_args(project)[2], false),
    ensures
        project_from_row(row) == Ok::<ProjectView, DbError>(without_details(ProjectView { id, ..project })),
{
    lemma_text_reads_back(row, 1, project.name);
    lemma_text_reads_back(row, 2, project.path);
    lemma_text_reads_back(row, 3, project.notes);
}

/// What an update gives back: the name, notes and path that updating a project
/// binds, as SQLite stores them in the row with the project's id, read back as
/// the same project, before its tags, files and sources are attached.
pub proof fn lemma_project_update_reads_back(project: ProjectView, row: Seq<SqlValue>)
    requires
        row.len() == 4,
        row[0] == SqlValue::Integer(project.id as i64),
        stores_arg(row[1], project_update_args(project)[0], false),
        stores_arg(row[2], project_update_args(project)[2], false),
        stores_arg(row[3], project_update_args(project)[1], false),
    ensures
        project_from_row(row) == Ok::<ProjectView, DbError>(without_details(project)),
{
    lemma_text_reads_back(row, 1, project.name);
    lemma_text_reads_back(row, 2, project.path);
    lemma_text_reads_back(row, 3, project.notes);
}

pub const PROJECT_BY_ID_SQL: &'static str = "SELECT id, name, path, notes FROM projects where id = ?1";
pub const INSERT_PROJECT_SQL: &'static str = "INSERT INTO projects (name, path, notes) VALUES (?1, ?2, ?3)";
pub const LINK_TAG_SQL: &'static str = "INSERT INTO projects_tags (project_id, tag_id) VALUES (?1, ?2)";
pub const UNLINK_TAG_SQL: &'static str = "DELETE FROM projects_tags WHERE project_id = ?1 AND tag_id = ?2";
pub const UPDATE_PROJECT_SQL: &'static str = "UPDATE projects SET name = ?1, notes = ?2, path = ?3 WHERE id = ?4";

/// The projects that a read of `(id, name, path, notes)` rows gives, without
/// their details: every row decoded, in order, or the failure of the read.
pub open spec fn projects_read(rows: RowsRead) -> Result<Seq<ProjectView>, DbError> {
    match rows {
        Ok(rs) => projects_from_rows(rs),
        Err(e) => Err(e),
    }
}

/// The project that a read of exactly one `(id, name, path, notes)` row
/// gives, without its details.
pub open spec fn project_read(read: OneRead) -> Result<ProjectView, DbError> {
    decode_one(read, |row: Seq<SqlValue>| project_from_row(row))
}

/// The query for the project with row id `id`, and what reading it gave.
pub open spec fn project_by_id_query(id: i32, read: OneRead) -> SqlEvent {
    read_one(PROJECT_BY_ID_SQL@, seq![SqlArg::Integer(id as i64)], read)
}

/// What looking up the files, tags and sources of the project with id `id`
/// hands to SQLite, given what each read gave: the three queries in that
/// order, up to the first one whose read fails.
pub open spec fn details_trace(id: i32, files: RowsRead, tags: RowsRead, sources: RowsRead) -> Seq<SqlEvent> {
    if files_read(files) is Err {
        seq![files_of_project_query(id, files)]
    } else if tags_read(tags) is Err {
        seq![files_of_project_query(id, files), tags_of_project_query(id, tags)]
    } else {
        seq![files_of_project_query(id, files), tags_of_project_query(id, tags), sources_of_project_query(id, sources)]
    }
}

/// `base` with the files, tags and sources that those reads give, or the
/// failure of the first read that failed.
pub open spec fn with_details_result(base: ProjectView, files: RowsRead, tags: RowsRead, sources: RowsRead) -> Result<ProjectView, DbError> {
    match files_read(files) {
        Err(e) => Err(e),
        Ok(fs) => match tags_read(tags) {
            Err(e) => Err(e),
            Ok(ts) => match sources_read(sources) {
                Err(e) => Err(e),
                Ok(ss) => Ok(ProjectView { files: fs, tags: ts, sources: ss, ..base }),
            },
        },
    }
}

/// What looking up the project with row id `id` hands to SQLite, given what
/// each read gave: the query for its row and, where that gives a project,
/// the lookups of its details by the id of the project found.
pub open spec fn project_lookup(id: i32, read: OneRead, files: RowsRead, tags: RowsRead, sources: RowsRead) -> Seq<SqlEvent> {
    seq![project_by_id_query(id, read)] + match project_read(read) {
        Ok(b) => details_trace(b.id, files, tags, sources),
        Err(_) => Seq::empty(),
    }
}

/// What looking up a project gives, for what each read gave.
pub open spec fn project_lookup_result(read: OneRead, files: RowsRead, tags: RowsRead, sources: RowsRead) -> Result<ProjectView, DbError> {
    match project_read(read) {
        Err(e) => Err(e),
        Ok(b) => with_details_result(b, files, tags, sources),
    }
}

/// What the detail lookups for the first `k` projects of `bases` hand to
/// SQLite, in order, given what the reads for each gave (`reads[i]` for
/// `bases[i]`), up to the first failure.
pub open spec fn all_details_trace(bases: Seq<ProjectView>, reads: Seq<(RowsRead, RowsRead, RowsRead)>, k: nat) -> Seq<SqlEvent>
    decreases k,
{
    if k == 0 {
        Seq::empty()
    } else if all_details_result(bases, reads, (k - 1) as nat) is Err {
        all_details_trace(bases, reads, (k - 1) as nat)
    } else {
        let d = reads[k - 1];
        all_details_trace(bases, reads, (k - 1) as nat) + details_trace(bases[k - 1].id, d.0, d.1, d.2)
    }
}

/// The first `k` projects of `bases` with their details, for what the reads
/// for each gave, or the first failure.
pub open spec fn all_details_result(bases: Seq<ProjectView>, reads: Seq<(RowsRead, RowsRead, RowsRead)>, k: nat) -> Result<Seq<ProjectView>, DbError>
    decreases k,
{
    if k == 0 {
        Ok(Seq::empty())
    } else {
        match all_details_result(bases, reads, (k - 1) as nat) {
            Err(e) => Err(e),
            Ok(ps) => {
                let d = reads[k - 1];
                match with_details_result(bases[k - 1], d.0, d.1, d.2) {
                    Err(e) => Err(e),
                    Ok(p) => Ok(ps.push(p)),
                }
            },
        }
    }
}

/// The tag ids that listing filters by, where a tag list is given.
pub open spec fn tag_filter(tags: Option<Vec<ProjectTag>>) -> Option<Seq<i32>> {
    match tags {
        Some(ts) => Some(tag_ids(ts@)),
        None => None,
    }
}

/// The query that lists projects with these filters, and what reading it gave.
pub open spec fn listing_query(name: Option<String>, path: Option<String>, tags: Option<Vec<ProjectTag>>, rows: RowsRead) -> SqlEvent {
    read_all(filtered_projects_sql(opt_text_view(name), opt_text_view(path), tag_filter(tags)), Seq::empty(), rows)
}

/// What listing projects hands to SQLite after the listing query, given what
/// its read gave and what the detail reads gave.
pub open spec fn listing_details_trace(rows: RowsRead, reads: Seq<(RowsRead, RowsRead, RowsRead)>) -> Seq<SqlEvent> {
    match projects_read(rows) {
        Ok(bases) => all_details_trace(bases, reads, bases.len()),
        Err(_) => Seq::empty(),
    }
}

/// What listing projects gives, for what the listing read and the detail
/// reads gave.
pub open spec fn listing_result(rows: RowsRead, reads: Seq<(RowsRead, RowsRead, RowsRead)>) -> Result<Seq<ProjectView>, DbError> {
    match projects_read(rows) {
        Err(e) => Err(e),
        Ok(bases) => all_details_result(bases, reads, bases.len()),
    }
}

/// The statement that links the project with id `project_id` to the tag with id `tag_id`.
pub open spec fn link_tag_statement(project_id: i32, tag_id: i32) -> SqlEvent {
    run(LINK_TAG_SQL@, seq![SqlArg::Integer(project_id as i64), SqlArg::Integer(tag_id as i64)])
}

/// The statement that unlinks the project with id `project_id` from the tag
/// with id `tag_id`, and its outcome.
pub open spec fn unlink_tag_checked(project_id: i32, tag_id: i32, outcome: Result<usize, DbError>) -> SqlEvent {
    checked(UNLINK_TAG_SQL@, seq![SqlArg::Integer(project_id as i64), SqlArg::Integer(tag_id as i64)], outcome)
}

/// The insert of `project`, and its outcome.
pub open spec fn insert_project_checked(project: ProjectView, outcome: Result<usize, DbError>) -> SqlEvent {
    checked(INSERT_PROJECT_SQL@, project_insert_args(project), outcome)
}

/// The statement that updates the row of `project`.
pub open spec fn update_project_statement(project: ProjectView) -> SqlEvent {
    run(UPDATE_PROJECT_SQL@, project_update_args(project))
}

/// What creating `project` does, from the log `before` to the log `after`,
/// with result `r`: the insert is run and, where it fails, its error ends it;
/// else the row id of the insert is read and, where it fits an `i32`, the
/// project under it is looked up and is the result.
pub open spec fn project_created(before: Seq<SqlEvent>, after: Seq<SqlEvent>, project: ProjectView, r: Result<ProjectView, DbError>) -> bool {
    ||| exists|e: DbError| r == Err::<ProjectView, DbError>(e) && after == before.push(#[trigger] insert_project_checked(project, Err(e)))
    ||| exists|k: usize, n: i64| {
        &&& !(i32::MIN <= n <= i32::MAX)
        &&& r == Err::<ProjectView, DbError>(DbError::RowIdOutOfRange(n))
        &&& after == before + seq![#[trigger] insert_project_checked(project, Ok(k)), #[trigger] row_id_read(n)]
    }
    ||| exists|k: usize, n: i64, read: OneRead, files: RowsRead, tags: RowsRead, sources: RowsRead| {
        &&& i32::MIN <= n <= i32::MAX
        &&& after == before + seq![#[trigger] insert_project_checked(project, Ok(k)), row_id_read(n)]
            + #[trigger] project_lookup(n as i32, read, files, tags, sources)
        &&& r == project_lookup_result(read, files, tags, sources)
    }
}

/// What running `statement` and then looking up the project with id `id`
/// does, from the log `before` to the log `after`, with result `r`: where
/// SQLite cannot compile the statement, nothing is handed over; else the
/// statement runs (its failure is not reported) and the project is looked up
/// and is the result.
pub open spec fn project_changed(before: Seq<SqlEvent>, after: Seq<SqlEvent>, statement: SqlEvent, id: i32, r: Result<ProjectView, DbError>) -> bool {
    ||| (r matches Err(e) && e is Sqlite && after == before)
    ||| exists|read: OneRead, files: RowsRead, tags: RowsRead, sources: RowsRead| {
        &&& after == before.push(statement) + #[trigger] project_lookup(id, read, files, tags, sources)
        &&& r == project_lookup_result(read, files, tags, sources)
    }
}

/// What unlinking the project with id `project_id` from the tag with id
/// `tag_id` does, from the log `before` to the log `after`, with result `r`:
/// where SQLite cannot compile the statement, nothing is handed over; else the
/// statement runs and, where it fails, its error ends it; else the project is
/// looked up and is the result.
pub open spec fn tag_unlinked(before: Seq<SqlEvent>, after: Seq<SqlEvent>, project_id: i32, tag_id: i32, r: Result<ProjectView, DbError>) -> bool {
    ||| (r matches Err(e) && e is Sqlite && after == before)
    ||| exists|e: DbError| r == Err::<ProjectView, DbError>(e) && after == before.push(#[trigger] unlink_tag_checked(project_id, tag_id, Err(e)))
    ||| exists|k: usize, read: OneRead, files: RowsRead, tags: RowsRead, sources: RowsRead| {
        &&& after == before.push(#[trigger] unlink_tag_checked(project_id, tag_id, Ok(k)))
            + #[trigger] project_lookup(project_id, read, files, tags, sources)
        &&& r == project_lookup_result(read, files, tags, sources)
    }
}

/// The statements on projects bind what they are given: inserting binds the
/// name, path and notes as text; updating binds the name, notes and path as
/// text and the id as decimal text; the project looked up by id binds that id.
pub proof fn lemma_project_statements_bind_their_inputs(project: ProjectView, id: i32, read: OneRead, outcome: Result<usize, DbError>)
    ensures
        insert_project_checked(project, outcome) == checked(
            "INSERT INTO projects (name, path, notes) VALUES (?1, ?2, ?3)"@,
            seq![SqlArg::Text(project.name), SqlArg::Text(project.path), SqlArg::Text(project.notes)],
            outcome,
        ),
        update_project_statement(project) == run(
            "UPDATE projects SET name = ?1, notes = ?2, path = ?3 WHERE id = ?4"@,
            project_update_args(project),
        ),
        project_update_args(project).len() == 4,
        project_update_args(project)[0] == SqlArg::Text(project.name),
        project_update_args(project)[1] == SqlArg::Text(project.notes),
        project_update_args(project)[2] == SqlArg::Text(project.path),
        parse_i64_spec(project_update_args(project)[3]->Text_0) == Some(project.id as i64),
        project_by_id_query(id, read) == read_one("SELECT id, name, path, notes FROM projects where id = ?1"@, seq![SqlArg::Integer(id as i64)], read),
{
    lemma_parse_decimal_roundtrip(project.id as i64);
}

/// Giving a project a tag links the two by their ids: the insert names the
/// columns `project_id` and `tag_id` in that order and binds the project's id
/// to the first and the tag's id to the second; taking the tag away deletes
/// the link with the same project id and tag id, bound in the same order.
pub proof fn lemma_tag_links_bind_project_then_tag(project_id: i32, tag_id: i32, outcome: Result<usize, DbError>)
    ensures
        link_tag_statement(project_id, tag_id) == run(
            "INSERT INTO projects_tags (project_id, tag_id) VALUES (?1, ?2)"@,
            seq![SqlArg::Integer(project_id as i64), SqlArg::Integer(tag_id as i64)],
        ),
        unlink_tag_checked(project_id, tag_id, outcome) == checked(
            "DELETE FROM projects_tags WHERE project_id = ?1 AND tag_id = ?2"@,
            seq![SqlArg::Integer(project_id as i64), SqlArg::Integer(tag_id as i64)],
            outcome,
        ),
        link_tag_statement(project_id, tag_id)->Run_args == unlink_tag_checked(project_id, tag_id, outcome)->Checked_args,
{
}

/// A project looked up carries exactly what its detail queries read: the
/// files, tags and sources are every row of the files, tags and sources read,
/// decoded in order (the lists that `get_files_for_project`,
/// `get_tags_by_project` and `get_sources_by_project` give for the same
/// reads), and its own fields are those of the project found; where one of
/// those reads fails, the lookup fails with the first such failure.
pub proof fn lemma_details_are_what_was_read(base: ProjectView, files: RowsRead, tags: RowsRead, sources: RowsRead, p: ProjectView)
    ensures
        with_details_result(base, files, tags, sources) == Ok::<ProjectView, DbError>(p) <==> {
            &&& files_read(files) == Ok::<Seq<ProjectFileView>, DbError>(p.files)
            &&& tags_read(tags) == Ok::<Seq<ProjectTagView>, DbError>(p.tags)
            &&& sources_read(sources) == Ok::<Seq<ProjectSourceView>, DbError>(p.sources)
            &&& without_details(p) == without_details(base)
        },
        files_read(files) is Err ==> with_details_result(base, files, tags, sources) == Err::<ProjectView, DbError>(files_read(files)->Err_0),
{
    if with_details_result(base, files, tags, sources) == Ok::<ProjectView, DbError>(p) {
        assert(without_details(p) =~= without_details(base));
    }
    if files_read(files) == Ok::<Seq<ProjectFileView>, DbError>(p.files)
        && tags_read(tags) == Ok::<Seq<ProjectTagView>, DbError>(p.tags)
        && sources_read(sources) == Ok::<Seq<ProjectSourceView>, DbError>(p.sources)
        && without_details(p) == without_details(base) {
        assert(ProjectView { files: p.files, tags: p.tags, sources: p.sources, ..base } == p);
    }
}

/// The detail lookups that were handed over fix what they give.
#[verifier::spinoff_prover]
proof fn lemma_details_trace_fixes_result(
    id: i32,
    base: ProjectView,
    files: RowsRead,
    tags: RowsRead,
    sources: RowsRead,
    files2: RowsRead,
    tags2: RowsRead,
    sources2: RowsRead,
)
    requires
        details_trace(id, files, tags, sources) == details_trace(id, files2, tags2, sources2),
    ensures
        with_details_result(base, files, tags, sources) == with_details_result(base, files2, tags2, sources2),
{
    let a = details_trace(id, files, tags, sources);
    let b = details_trace(id, files2, tags2, sources2);
    assert(a[0] == files_of_project_query(id, files));
    assert(b[0] == files_of_project_query(id, files2));
    assert(a[0] == b[0]);
    assert(files == files2);
    if files_read(files) is Ok {
        assert(a[1] == b[1]);
        assert(tags == tags2);
        if tags_read(tags) is Ok {
            assert(a[2] == b[2]);
            assert(sources == sources2);
        }
    }
}

/// A project lookup that was handed over fixes what it gives.
#[verifier::spinoff_prover]
proof fn lemma_lookup_fixes_result(
    id: i32,
    read: OneRead,
    files: RowsRead,
    tags: RowsRead,
    sources: RowsRead,
    read2: OneRead,
    files2: RowsRead,
    tags2: RowsRead,
    sources2: RowsRead,
)
    requires
        project_lookup(id, read, files, tags, sources) == project_lookup(id, read2, files2, tags2, sources2),
    ensures
        read == read2,
        project_lookup_result(read, files, tags, sources) == project_lookup_result(read2, files2, tags2, sources2),
{
    let a = project_lookup(id, read, files, tags, sources);
    let b = project_lookup(id, read2, files2, tags2, sources2);
    assert(a[0] == project_by_id_query(id, read));
    assert(b[0] == project_by_id_query(id, read2));
    assert(a[0] == b[0]);
    assert(read == read2);
    if let Ok(base) = project_read(read) {
        assert(a.skip(1) =~= details_trace(base.id, files, tags, sources));
        assert(b.skip(1) =~= details_trace(base.id, files2, tags2, sources2));
        lemma_details_trace_fixes_result(base.id, base, files, tags, sources, files2, tags2, sources2);
    }
}

/// What a save gives back: where the update ran and the lookup of the saved
/// id gave exactly one row holding the name, path and notes as SQLite stores
/// the update's arguments, the result is the saved project with the files,
/// tags and sources that its detail reads gave, or the first failure of
/// those reads.
pub proof fn lemma_saved_project_reads_back(
    before: Seq<SqlEvent>,
    after: Seq<SqlEvent>,
    project: ProjectView,
    r: Result<ProjectView, DbError>,
    row: Seq<SqlValue>,
    files: RowsRead,
    tags: RowsRead,
    sources: RowsRead,
)
    requires
        project_changed(before, after, update_project_statement(project), project.id, r),
        after == before.push(update_project_statement(project)) + project_lookup(project.id, Ok((Some(row), MoreRows::No)), files, tags, sources),
        row.len() == 4,
        row[0] == SqlValue::Integer(project.id as i64),
        stores_arg(row[1], project_update_args(project)[0], false),
        stores_arg(row[2], project_update_args(project)[2], false),
        stores_arg(row[3], project_update_args(project)[1], false),
    ensures
        r == with_details_result(without_details(project), files, tags, sources),
{
    let read: OneRead = Ok((Some(row), MoreRows::No));
    lemma_project_update_reads_back(project, row);
    assert(project_read(read) == Ok::<ProjectView, DbError>(without_details(project)));
    if r matches Err(e) && e is Sqlite && after == before {
        assert(after.len() > before.len());
    } else {
        let (read2, f2, t2, s2) = choose|read2: OneRead, f2: RowsRead, t2: RowsRead, s2: RowsRead| {
            &&& after == before.push(update_project_statement(project)) + #[trigger] project_lookup(project.id, read2, f2, t2, s2)
            &&& r == project_lookup_result(read2, f2, t2, s2)
        };
        let k: int = before.len() as int + 1;
        assert(after.skip(k) =~= project_lookup(project.id, read, files, tags, sources));
        assert(after.skip(k) =~= project_lookup(project.id, read2, f2, t2, s2));
        lemma_lookup_fixes_result(project.id, read, files, tags, sources, read2, f2, t2, s2);
    }
}

/// What a create gives back: where the insert ran, the row id `n` of the
/// insert was read, and the lookup of `n` gave exactly one row holding the
/// name, path and notes as SQLite stores the insert's arguments, the result
/// is the project with id `n` (its own id and details are not used) with the
/// files, tags and sources that its detail reads gave, or the first failure
/// of those reads.
pub proof fn lemma_created_project_reads_back(
    before: Seq<SqlEvent>,
    after: Seq<SqlEvent>,
    project: ProjectView,
    r: Result<ProjectView, DbError>,
    k: usize,
    n: i32,
    row: Seq<SqlValue>,
    files: RowsRead,
    tags: RowsRead,
    sources: RowsRead,
)
    requires
        project_created(before, after, project, r),
        after == before + seq![insert_project_checked(project, Ok(k)), row_id_read(n as i64)]
            + project_lookup(n, Ok((Some(row), MoreRows::No)), files, tags, sources),
        row.len() == 4,
        row[0] == SqlValue::Integer(n as i64),
        stores_arg(row[1], project_insert_args(project)[0], false),
        stores_arg(row[2], project_insert_args(project)[1], false),
        stores_arg(row[3], project_insert_args(project)[2], false),
    ensures
        r == with_details_result(without_details(ProjectView { id: n, ..project }), files, tags, sources),
{
    let read: OneRead = Ok((Some(row), MoreRows::No));
    let i: int = before.len() as int;
    lemma_project_reads_back(project, n, row);
    assert(project_read(read) == Ok::<ProjectView, DbError>(without_details(ProjectView { id: n, ..project })));
    assert(after.len() >= i + 3);
    assert(after[i + 1] == row_id_read(n as i64));
    if exists|e: DbError| r == Err::<ProjectView, DbError>(e) && after == before.push(#[trigger] insert_project_checked(project, Err(e))) {
        let e = choose|e: DbError| r == Err::<ProjectView, DbError>(e) && after == before.push(#[trigger] insert_project_checked(project, Err(e)));
        assert(after.len() == i + 1);
    } else if exists|j: usize, m: i64| {
        &&& !(i32::MIN <= m <= i32::MAX)
        &&& r == Err::<ProjectView, DbError>(DbError::RowIdOutOfRange(m))
        &&& after == before + seq![#[trigger] insert_project_checked(project, Ok(j)), #[trigger] row_id_read(m)]
    } {
        let (j, m) = choose|j: usize, m: i64| {
            &&& !(i32::MIN <= m <= i32::MAX)
            &&& r == Err::<ProjectView, DbError>(DbError::RowIdOutOfRange(m))
            &&& after == before + seq![#[trigger] insert_project_checked(project, Ok(j)), #[trigger] row_id_read(m)]
        };
        assert(after.len() == i + 2);
    } else {
        let (j, m, read2, f2, t2, s2) = choose|j: usize, m: i64, read2: OneRead, f2: RowsRead, t2: RowsRead, s2: RowsRead| {
            &&& i32::MIN <= m <= i32::MAX
            &&& after == before + seq![#[trigger] insert_project_checked(project, Ok(j)), row_id_read(m)]
                + #[trigger] project_lookup(m as i32, read2, f2, t2, s2)
            &&& r == project_lookup_result(read2, f2, t2, s2)
        };
        assert(after[i + 1] == row_id_read(m));
        assert(m == n as i64);
        assert(after.skip(i + 2) =~= project_lookup(n, read, files, tags, sources));
        assert(after.skip(i + 2) =~= project_lookup(m as i32, read2, f2, t2, s2));
        lemma_lookup_fixes_result(n, read, files, tags, sources, read2, f2, t2, s2);
    }
}

/// The detail lookups for the first `k` projects depend only on the first `k` reads.
proof fn lemma_all_details_prefix(
    bases: Seq<ProjectView>,
    reads: Seq<(RowsRead, RowsRead, RowsRead)>,
    other: Seq<(RowsRead, RowsRead, RowsRead)>,
    k: nat,
)
    requires
        k <= reads.len(),
        k <= other.len(),
        forall|i: int| 0 <= i < k ==> reads[i] == other[i],
    ensures
        all_details_trace(bases, reads, k) == all_details_trace(bases, other, k),
        all_details_result(bases, reads, k) == all_details_result(bases, other, k),
    decreases k,
{
    if k > 0 {
        lemma_all_details_prefix(bases, reads, other, (k - 1) as nat);
        assert(reads[k - 1] == other[k - 1]);
    }
}

/// Once a detail lookup fails, later projects change neither what is handed
/// over nor the result.
proof fn lemma_all_details_stop(bases: Seq<ProjectView>, reads: Seq<(RowsRead, RowsRead, RowsRead)>, j: nat, k: nat)
    requires
        j <= k,
        all_details_result(bases, reads, j) is Err,
    ensures
        all_details_trace(bases, reads, k) == all_details_trace(bases, reads, j),
        all_details_result(bases, reads, k) == all_details_result(bases, reads, j),
    decreases k - j,
{
    if j < k {
        lemma_all_details_stop(bases, reads, j, (k - 1) as nat);
    }
}

/// Reads and writes the `projects` table and the tags of projects, keeping a
/// log of what it hands to SQLite and what it reads back.
pub struct ProjectRepository<'a> {
    connection: &'a rusqlite::Connection,
    log: SqlLog,
}

impl<'a> ProjectRepository<'a> {
    pub fn new(connection: &'a rusqlite::Connection) -> (r: ProjectRepository<'a>)
        ensures
            r.connection() == connection,
            r.log() == Seq::<SqlEvent>::empty(),
    {
        ProjectRepository { connection, log: SqlLog::new() }
    }

    pub closed spec fn connection(&self) -> &'a rusqlite::Connection {
        self.connection
    }

    /// What this repository has handed to SQLite and read back, in order.
    pub closed spec fn log(&self) -> Seq<SqlEvent> {
        self.log.events()
    }

    /// Decodes a row `(id, name, path, notes)`; tags, files and sources are empty.
    pub fn row_to_project(row: &Vec<SqlValue>) -> (r: Result<Project, DbError>)
        ensures
            view_result(r) == project_from_row(row@),
    {
        let id = get_i32(row, 0)?;
        let name = get_text(row, 1)?;
        let path = get_text(row, 2)?;
        let notes = get_text(row, 3)?;
        let r = Project { id, name, path, notes, tags: Vec::new(), files: Vec::new(), sources: Vec::new() };
        assert(r@.tags =~= Seq::<ProjectTagView>::empty());
        assert(r@.files =~= Seq::<ProjectFileView>::empty());
        assert(r@.sources =~= Seq::<ProjectSourceView>::empty());
        Ok(r)
    }

    /// Decodes every row `(id, name, path, notes)`, in order.
    pub fn rows_to_projects(rows: &Vec<Vec<SqlValue>>) -> (r: Result<Vec<Project>, DbError>)
        ensures
            vec_result_view(r) == projects_from_rows(rows_view(rows@)),
    {
        decode_rows(rows, Self::row_to_project, Ghost(|row: Seq<SqlValue>| project_from_row(row)))
    }

    /// `project` with the given files, tags and sources in place of its own.
    pub fn attach_details(project: Project, files: Vec<ProjectFile>, tags: Vec<ProjectTag>, sources: Vec<ProjectSource>) -> (r: Project)
        ensures
            r@ == (ProjectView { files: views(files@), tags: views(tags@), sources: views(sources@), ..project@ }),
    {
        let mut project = project;
        project.files = files;
        project.tags = tags;
        project.sources = sources;
        project
    }

    /// The parameters that inserting `project` binds.
    pub fn insert_params(project: Project) -> (r: Vec<SqlParam>)
        ensures
            args_of(r@) == project_insert_args(project@),
    {
        let ghost v = project@;
        let r = vec![SqlParam::Text(project.name), SqlParam::Text(project.path), SqlParam::Text(project.notes)];
        assert(args_of(r@) =~= project_insert_args(v));
        r
    }

    /// The parameters that updating `project` binds.
    pub fn update_params(project: Project) -> (r: Vec<SqlParam>)
        ensures
            args_of(r@) == project_update_args(project@),
    {
        let ghost v = project@;
        let id = i64_to_decimal(project.id as i64);
        let r = vec![SqlParam::Text(project.name), SqlParam::Text(project.notes), SqlParam::Text(project.path), SqlParam::Text(id)];
        assert(args_of(r@) =~= project_update_args(v));
        r
    }

    /// Looks up the files, tags and sources of `base` by its id and attaches them.
    fn with_details(&mut self, base: Project) -> (r: Result<Project, DbError>)
        ensures
            final(self).connection() == old(self).connection(),
            exists|files: RowsRead, tags: RowsRead, sources: RowsRead| {
                &&& final(self).log() == old(self).log() + #[trigger] details_trace(base.id, files, tags, sources)
                &&& view_result(r) == with_details_result(base@, files, tags, sources)
            },
    {
        let ghost b = base@;
        let ghost start = self.log();
        let ghost none: RowsRead = Err(DbError::QueryReturnedNoRows);
        let mut files_repo = ProjectFileRepository::new(self.connection);
        let files = files_repo.files_for_project_id(base.id);
        let ghost f = choose|rows: RowsRead|
            files_repo.log() == Seq::<SqlEvent>::empty().push(#[trigger] files_of_project_query(b.id, rows))
            && vec_result_view(files) == files_read(rows);
        self.log.append(files_repo.into_log());
        let files = match files {
            Ok(fs) => fs,
            Err(e) => {
                assert(self.log() =~= start + details_trace(b.id, f, none, none));
                return Err(e);
            },
        };
        let mut tags_repo = ProjectTagRepository::new(self.connection);
        let tags = tags_repo.tags_for_project_id(base.id);
        let ghost t = choose|rows: RowsRead|
            tags_repo.log() == Seq::<SqlEvent>::empty().push(#[trigger] tags_of_project_query(b.id, rows))
            && vec_result_view(tags) == tags_read(rows);
        self.log.append(tags_repo.into_log());
        let tags = match tags {
            Ok(ts) => ts,
            Err(e) => {
                assert(self.log() =~= start + details_trace(b.id, f, t, none));
                return Err(e);
            },
        };
        let mut sources_repo = ProjectSourceRepository::new(self.connection);
        let sources = sources_repo.sources_for_project_id(base.id);
        let ghost s = choose|rows: RowsRead|
            sources_repo.log() == Seq::<SqlEvent>::empty().push(#[trigger] sources_of_project_query(b.id, rows))
            && vec_result_view(sources) == sources_read(rows);
        self.log.append(sources_repo.into_log());
        let sources = match sources {
            Ok(ss) => ss,
            Err(e) => {
                assert(self.log() =~= start + details_trace(b.id, f, t, s));
                return Err(e);
            },
        };
        let r = Self::attach_details(base, files, tags, sources);
        assert(self.log() =~= start + details_trace(b.id, f, t, s));
        assert(view_result(Ok::<Project, DbError>(r)) == with_details_result(b, f, t, s));
        Ok(r)
    }

    /// The project with row id `id`, with its files, tags and sources looked up
    /// by the id of the row found.
    pub fn get_project(&mut self, id: i32) -> (r: Result<Project, DbError>)
        ensures
            final(self).connection() == old(self).connection(),
            exists|read: OneRead, files: RowsRead, tags: RowsRead, sources: RowsRead| {
                &&& final(self).log() == old(self).log() + #[trigger] project_lookup(id, read, files, tags, sources)
                &&& view_result(r) == project_lookup_result(read, files, tags, sources)
            },
    {
        let ghost decode = |row: Seq<SqlValue>| project_from_row(row);
        let ghost start = self.log();
        let ghost none: RowsRead = Err(DbError::QueryReturnedNoRows);
        let params = one_integer(id as i64);
        let found = query_one_decoded(self.connection, PROJECT_BY_ID_SQL, &params, 4, Self::row_to_project, Ghost(decode), &mut self.log);
        let ghost read = choose|read: OneRead|
            start.push(#[trigger] read_one(PROJECT_BY_ID_SQL@, args_of(params@), read)) == self.log()
            && view_result(found) == decode_one(read, decode);
        proof {
            assert(decode =~= (|row: Seq<SqlValue>| project_from_row(row)));
            assert(view_result(found) == project_read(read));
            assert(project_by_id_query(id, read) == read_one(PROJECT_BY_ID_SQL@, args_of(params@), read));
        }
        let base = match found {
            Ok(b) => b,
            Err(e) => {
                assert(self.log() =~= start + project_lookup(id, read, none, none, none));
                return Err(e);
            },
        };
        let ghost mid = self.log();
        let r = self.with_details(base);
        proof {
            let (f, t, s) = choose|f: RowsRead, t: RowsRead, s: RowsRead|
                self.log() == mid + #[trigger] details_trace(base.id, f, t, s)
                && view_result(r) == with_details_result(base@, f, t, s);
            assert(self.log() =~= start + project_lookup(id, read, f, t, s));
        }
        r
    }

    /// The projects whose name contains `name`, whose path is `path` and that
    /// carry every tag of `tags` (each filter where given), ordered by name,
    /// each with its files, tags and sources looked up by its own id.
    pub fn get_filtered_projects(&mut self, name: Option<String>, path: Option<String>, tags: Option<Vec<ProjectTag>>) -> (r: Result<Vec<Project>, DbError>)
        ensures
            final(self).connection() == old(self).connection(),
            exists|rows: RowsRead, reads: Seq<(RowsRead, RowsRead, RowsRead)>| {
                &&& final(self).log() == old(self).log().push(
                    #[trigger] listing_query(name, path, tags, rows),
                ) + #[trigger] listing_details_trace(rows, reads)
                &&& vec_result_view(r) == listing_result(rows, reads)
            },
    {
        let sql = Self::filtered_projects_sql(&name, &path, &tags);
        let ghost q = sql@;
        let fetched = query_rows(self.connection, sql.as_str(), &no_params(), 4, &mut self.log);
        let ghost rows = rows_read(fetched);
        let ghost start = self.log();
        let ghost empty_reads = Seq::<(RowsRead, RowsRead, RowsRead)>::empty();
        assert(start == old(self).log().push(read_all(q, Seq::<SqlArg>::empty(), rows)));
        assert(listing_query(name, path, tags, rows) == read_all(q, Seq::<SqlArg>::empty(), rows));
        let all_rows = match fetched {
            Ok(rs) => rs,
            Err(e) => {
                assert(self.log() =~= start + listing_details_trace(rows, empty_reads));
                return Err(e);
            },
        };
        let mut projects = match Self::rows_to_projects(&all_rows) {
            Ok(ps) => ps,
            Err(e) => {
                assert(self.log() =~= start + listing_details_trace(rows, empty_reads));
                return Err(e);
            },
        };
        let ghost bases = views(projects@);
        let ghost n = projects@.len();
        assert(projects_read(rows) == Ok::<Seq<ProjectView>, DbError>(bases));
        let mut out: Vec<Project> = Vec::new();
        let ghost mut reads = empty_reads;
        assert(views(out@) =~= Seq::<ProjectView>::empty());
        while projects.len() > 0
            invariant
                out@.len() + projects@.len() == n,
                n == bases.len(),
                reads.len() == out@.len(),
                projects_read(rows) == Ok::<Seq<ProjectView>, DbError>(bases),
                start == old(self).log().push(listing_query(name, path, tags, rows)),
                self.connection() == old(self).connection(),
                self.log() == start + all_details_trace(bases, reads, out@.len() as nat),
                all_details_result(bases, reads, out@.len() as nat) == Ok::<Seq<ProjectView>, DbError>(views(out@)),
                forall|k: int| 0 <= k < projects@.len() ==> (#[trigger] projects@[k])@ == bases[out@.len() + k],
            decreases projects.len(),
        {
            let ghost j = out@.len();
            let ghost before = projects@;
            let ghost log_before = self.log();
            let base = projects.remove(0);
            assert(base@ == bases[j as int]);
            let full = self.with_details(base);
            let ghost (f, t, s) = choose|f: RowsRead, t: RowsRead, s: RowsRead|
                self.log() == log_before + #[trigger] details_trace(bases[j as int].id, f, t, s)
                && view_result(full) == with_details_result(bases[j as int], f, t, s);
            let ghost new_reads = reads.push((f, t, s));
            proof {
                lemma_all_details_prefix(bases, reads, new_reads, j as nat);
                assert(self.log() == start + all_details_trace(bases, new_reads, (j + 1) as nat));
            }
            match full {
                Ok(p) => {
                    let ghost old_out = out@;
                    out.push(p);
                    proof {
                        reads = new_reads;
                        assert(views(out@) =~= views(old_out).push(p@));
                    }
                },
                Err(e) => {
                    proof {
                        lemma_all_details_stop(bases, new_reads, (j + 1) as nat, n);
                        assert(self.log() =~= start + listing_details_trace(rows, new_reads));
                        assert(vec_result_view(Err::<Vec<Project>, DbError>(e)) == listing_result(rows, new_reads));
                    }
                    return Err(e);
                },
            }
            assert forall|k: int| 0 <= k < projects@.len() implies (#[trigger] projects@[k])@ == bases[out@.len() + k] by {
                assert(projects@[k] == before[k + 1]);
            }
        }
        assert(self.log() =~= start + listing_details_trace(rows, reads));
        Ok(out)
    }

    /// Inserts `project` (its id, tags, files and sources are not used) and
    /// gives the project stored under the row id that SQLite then reports.
    pub fn create(&mut self, project: Project) -> (r: Result<Project, DbError>)
        ensures
            final(self).connection() == old(self).connection(),
            project_created(old(self).log(), final(self).log(), project@, view_result(r)),
    {
        let ghost v = project@;
        let ins = execute_checked(self.connection, INSERT_PROJECT_SQL, &Self::insert_params(project), &mut self.log);
        let k = match ins {
            Ok(k) => k,
            Err(e) => {
                assert(self.log() == old(self).log().push(insert_project_checked(v, Err(e))));
                return Err(e);
            },
        };
        let n = last_insert_rowid(self.connection, &mut self.log);
        let ghost mid = self.log();
        let last_id = match row_id_to_i32(n) {
            Ok(id) => id,
            Err(e) => {
                assert(self.log() =~= old(self).log() + seq![insert_project_checked(v, Ok(k)), row_id_read(n)]);
                return Err(e);
            },
        };
        let r = self.get_project(last_id);
        proof {
            let (read, f, t, s) = choose|read: OneRead, f: RowsRead, t: RowsRead, s: RowsRead|
                self.log() == mid + #[trigger] project_lookup(last_id, read, f, t, s)
                && view_result(r) == project_lookup_result(read, f, t, s);
            assert(self.log() =~= old(self).log() + seq![insert_project_checked(v, Ok(k)), row_id_read(n)]
                + project_lookup(n as i32, read, f, t, s));
        }
        r
    }

    /// Gives `project` the tag `tag` and reads the project back. A failing
    /// insert (such as a tag the project already has) is not reported.
    pub fn add_tag(&mut self, project: Project, tag: ProjectTag) -> (r: Result<Project, DbError>)
        ensures
            final(self).connection() == old(self).connection(),
            project_changed(old(self).log(), final(self).log(), link_tag_statement(project.id, tag.id), project.id, view_result(r)),
    {
        let mut stmt = prepare(self.connection, LINK_TAG_SQL)?;
        let _ = execute_prepared(&mut stmt, &two_integers(project.id as i64, tag.id as i64), &mut self.log);
        let ghost mid = self.log();
        let r = self.get_project(project.id);
        proof {
            let (read, f, t, s) = choose|read: OneRead, f: RowsRead, t: RowsRead, s: RowsRead|
                self.log() == mid + #[trigger] project_lookup(project.id, read, f, t, s)
                && view_result(r) == project_lookup_result(read, f, t, s);
            assert(self.log() =~= old(self).log().push(link_tag_statement(project.id, tag.id)) + project_lookup(project.id, read, f, t, s));
        }
        r
    }

    /// Takes the tag `tag` from `project` and reads the project back.
    pub fn remove_tag(&mut self, project: Project, tag: ProjectTag) -> (r: Result<Project, DbError>)
        ensures
            final(self).connection() == old(self).connection(),
            tag_unlinked(old(self).log(), final(self).log(), project.id, tag.id, view_result(r)),
    {
        let mut stmt = prepare(self.connection, UNLINK_TAG_SQL)?;
        let done = execute_prepared_checked(&mut stmt, &two_integers(project.id as i64, tag.id as i64), &mut self.log);
        let k = match done {
            Ok(k) => k,
            Err(e) => {
                assert(self.log() == old(self).log().push(unlink_tag_checked(project.id, tag.id, Err(e))));
                return Err(e);
            },
        };
        let ghost mid = self.log();
        let r = self.get_project(project.id);
        proof {
            let (read, f, t, s) = choose|read: OneRead, f: RowsRead, t: RowsRead, s: RowsRead|
                self.log() == mid + #[trigger] project_lookup(project.id, read, f, t, s)
                && view_result(r) == project_lookup_result(read, f, t, s);
            assert(self.log() =~= old(self).log().push(unlink_tag_checked(project.id, tag.id, Ok(k))) + project_lookup(project.id, read, f, t, s));
        }
        r
    }

    /// Updates the name, notes and path of the project with the id of
    /// `project` and reads it back. A failing update is not reported.
    pub fn save(&mut self, project: Project) -> (r: Result<Project, DbError>)
        ensures
            final(self).connection() == old(self).connection(),
            project_changed(old(self).log(), final(self).log(), update_project_statement(project@), project.id, view_result(r)),
    {
        let ghost v = project@;
        let mut stmt = prepare(self.connection, UPDATE_PROJECT_SQL)?;
        let id = project.id;
        let _ = execute_prepared(&mut stmt, &Self::update_params(project), &mut self.log);
        let ghost mid = self.log();
        let r = self.get_project(id);
        proof {
            let (read, f, t, s) = choose|read: OneRead, f: RowsRead, t: RowsRead, s: RowsRead|
                self.log() == mid + #[trigger] project_lookup(id, read, f, t, s)
                && view_result(r) == project_lookup_result(read, f, t, s);
            assert(self.log() =~= old(self).log().push(update_project_statement(v)) + project_lookup(id, read, f, t, s));
        }
        r
    }

    /// The query text that `get_filtered_projects` runs.
    pub fn filtered_projects_sql(name: &Option<String>, path: &Option<String>, tags: &Option<Vec<ProjectTag>>) -> (sql: String)
        ensures
            sql@ == filtered_projects_sql(
                opt_text_view(*name),
                opt_text_view(*path),
                match tags {
                    Some(ts) => Some(tag_ids(ts@)),
                    None => None,
                },
            ),
    {
        let mut sql = String::from_str("select p.* from projects p");
        if tags.is_some() {
            sql.append(" JOIN projects_tags pt ON pt.project_id = p.id");
        }
        if tags.is_some() || path.is_some() || name.is_some() {
            sql.append(" WHERE");
        }
        if let Some(n) = name {
            sql.append(" name LIKE '%");
            sql.append(n.as_str());
            sql.append("%'");
        }
        if let Some(p) = path {
            if name.is_some() {
                sql.append(" AND");
            }
            sql.append(" path = '");
            sql.append(p.as_str());
            sql.append("'");
        }
        if let Some(my_tags) = tags {
            if path.is_some() || name.is_some() {
                sql.append(" AND");
            }
            sql.append(" pt.tag_id IN (");
            let ghost ids = tag_ids(my_tags@);
            let ghost before = sql@;
            let mut k: usize = 0;
            assert(ids.take(0) =~= Seq::<i32>::empty());
            assert(sql@ =~= before + ids_text(ids.take(0)));
            while k < my_tags.len()
                invariant
                    k <= my_tags@.len(),
                    ids == tag_ids(my_tags@),
                    sql@ == before + ids_text(ids.take(k as int)),
                decreases my_tags.len() - k,
            {
                let ghost prev = sql@;
                if k > 0 {
                    sql.append(",");
                }
                let ghost mid = sql@;
                let d = i64_to_decimal(my_tags[k].id as i64);
                sql.append(d.as_str());
                proof {
                    reveal_strlit(",");
                    let t = ids.take(k + 1);
                    assert(t.drop_last() =~= ids.take(k as int));
                    assert(t.last() == my_tags@[k as int].id);
                    if k == 0 {
                        assert(t.len() == 1);
                        assert(t[0] == my_tags@[0].id);
                        assert(mid == prev);
                        assert(ids.take(0).len() == 0);
                        assert(ids_text(ids.take(0)) =~= Seq::<char>::empty());
                        assert(sql@ =~= before + ids_text(t));
                    } else {
                        assert(mid =~= prev + seq![',']);
                        assert(ids_text(t) == ids_text(ids.take(k as int)) + seq![','] + decimal_int(t.last() as int));
                        assert(sql@ =~= before + ids_text(t));
                    }
                }
                assert(sql@ =~= before + ids_text(ids.take(k + 1)));
                k = k + 1;
            }
            assert(ids.take(my_tags@.len() as int) =~= ids);
            sql.append(") GROUP BY p.id HAVING COUNT(DISTINCT pt.tag_id) = ");
            append_u64_decimal(&mut sql, my_tags.len() as u64);
        }
        sql.append(" ORDER BY p.name");
        sql
    }
}

} // verus!

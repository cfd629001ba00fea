//! The database connection of the application and its schema migrations.
use vstd::prelude::*;
use vstd::utf8::decode_utf8;

use crate::db::{decode_one, execute, execute_batch, open, query_one_decoded, read_one, run, OneRead, SqlEvent, SqlLog};
use crate::migration::{
    first_segment, first_segment_of, lemma_plan_empty_when_up_to_date, lemma_plan_runs_only_newer_up_scripts, applicable, file_views, migration_plan, plan_migrations, MigrationError, MigrationFile,
    MigrationFileView,
};
use crate::repository::project_repository::ProjectRepository;
use crate::sql_value::{args_of, column_text, get_text, no_params, one_text, string_from_utf8, view_result, DbError, SqlArg, SqlValue};
use crate::text::{parse_i64, parse_i64_spec};

verus! {

pub const CREATE_MIGRATIONS_TABLE_SQL: &'static str =
    "create table if not exists _migrations (version VARCHAR(50) NOT NULL, run_on TIMESTAMP DEFAULT CURRENT_TIMESTAMP NOT NULL)";
pub const LATEST_VERSION_SQL: &'static str = "SELECT * FROM _migrations ORDER BY version DESC LIMIT 1";
pub const INSERT_VERSION_SQL: &'static str = "INSERT INTO _migrations (version) VALUES (?)";

/// What applying the scripts at `steps` of `files` hands to SQLite: for each,
/// in order, its text as a batch, then the insert of its version (the part of
/// its name before the first `/`).
pub open spec fn migration_events(files: Seq<MigrationFileView>, steps: Seq<usize>) -> Seq<SqlEvent>
    decreases steps.len(),
{
    if steps.len() == 0 {
        Seq::empty()
    } else {
        let f = files[steps.last() as int];
        migration_events(files, steps.drop_last()) + seq![
            SqlEvent::Batch(decode_utf8(f.data)),
            run(INSERT_VERSION_SQL@, seq![SqlArg::Text(first_segment(f.name))]),
        ]
    }
}

/// Applying the planned scripts runs each of them and then records it, in
/// the order planned, and nothing else: for the `i`-th planned script, its
/// text goes to SQLite as a batch, and then its version, the part of its name
/// before the first `/`, is inserted into `_migrations`.
pub proof fn lemma_each_planned_script_runs_then_is_recorded(files: Seq<MigrationFileView>, steps: Seq<usize>)
    ensures
        migration_events(files, steps).len() == 2 * steps.len(),
        forall|i: int| 0 <= i < steps.len() ==> {
            &&& migration_events(files, steps)[2 * i] == SqlEvent::Batch(decode_utf8(files[#[trigger] steps[i] as int].data))
            &&& migration_events(files, steps)[2 * i + 1] == run(
                "INSERT INTO _migrations (version) VALUES (?)"@,
                seq![SqlArg::Text(first_segment(files[steps[i] as int].name))],
            )
        },
    decreases steps.len(),
{
    if steps.len() > 0 {
        let prev = steps.drop_last();
        lemma_each_planned_script_runs_then_is_recorded(files, prev);
        let ev = migration_events(files, steps);
        let pe = migration_events(files, prev);
        assert forall|i: int| 0 <= i < steps.len() implies {
            &&& ev[2 * i] == SqlEvent::Batch(decode_utf8(files[#[trigger] steps[i] as int].data))
            &&& ev[2 * i + 1] == run(
                "INSERT INTO _migrations (version) VALUES (?)"@,
                seq![SqlArg::Text(first_segment(files[steps[i] as int].name))],
            )
        } by {
            if i < prev.len() {
                assert(prev[i] == steps[i]);
                assert(ev[2 * i] == pe[2 * i]);
                assert(ev[2 * i + 1] == pe[2 * i + 1]);
            }
        }
    }
}

/// The version text that reading the latest recorded version gives: the
/// text in the first column of the one row, or `0` where the read gave no
/// row, more than one, or failed.
pub open spec fn version_read(read: OneRead) -> Seq<char> {
    match decode_one(read, |row: Seq<SqlValue>| column_text(row, 0)) {
        Ok(t) => t,
        Err(_) => "0"@,
    }
}

/// The query for the latest recorded version, and what reading it gave.
pub open spec fn latest_version_query(read: OneRead) -> SqlEvent {
    read_one(LATEST_VERSION_SQL@, Seq::empty(), read)
}

/// What a run of the scripts `files` does, from the log `before` to the log
/// `after`, with result `r`, where reading the latest recorded version gave
/// `read`: where the version read is not a number, the run stops there with
/// `InvalidStoredVersion`; else each script that the plan for that version
/// applies is run, in order, followed by the record of its version, and the
/// run ends as the plan does.
pub open spec fn migration_ran(
    before: Seq<SqlEvent>,
    after: Seq<SqlEvent>,
    read: OneRead,
    files: Seq<MigrationFileView>,
    r: Result<(), MigrationError>,
) -> bool {
    match parse_i64_spec(version_read(read)) {
        None => {
            &&& after == before.push(latest_version_query(read))
            &&& r == Err::<(), MigrationError>(MigrationError::InvalidStoredVersion)
        },
        Some(current) => {
            let plan = migration_plan(current, files, files.len());
            &&& after == before.push(latest_version_query(read)) + migration_events(files, plan.0)
            &&& r == match plan.1 {
                None => Ok::<(), MigrationError>(()),
                Some(e) => Err(e),
            }
        },
    }
}

/// A run whose read of the latest recorded version gives a number at or
/// above the version of every script (as after a complete run, whose last
/// record is the greatest version) hands SQLite nothing but that query, runs
/// no script, records no version, and succeeds.
pub proof fn lemma_up_to_date_run_hands_over_nothing(
    before: Seq<SqlEvent>,
    after: Seq<SqlEvent>,
    read: OneRead,
    files: Seq<MigrationFileView>,
    r: Result<(), MigrationError>,
)
    requires
        migration_ran(before, after, read, files, r),
        parse_i64_spec(version_read(read)) is Some,
        forall|i: int| 0 <= i < files.len() ==> (parse_i64_spec(first_segment(#[trigger] files[i].name)) matches Some(n)
            && n <= parse_i64_spec(version_read(read))->Some_0),
    ensures
        after == before.push(latest_version_query(read)),
        r == Ok::<(), MigrationError>(()),
{
    let current = parse_i64_spec(version_read(read))->Some_0;
    lemma_plan_empty_when_up_to_date(current, files, files.len());
    assert(migration_events(files, Seq::<usize>::empty()) =~= Seq::<SqlEvent>::empty());
    assert(before.push(latest_version_query(read)) + Seq::<SqlEvent>::empty() =~= before.push(latest_version_query(read)));
}

/// Owns the connection to the application's database, keeping a log of what
/// it hands to SQLite and what it reads back.
pub struct DbManager {
    connection: rusqlite::Connection,
    log: SqlLog,
}

/// Reads column 0 of a row as text.
fn text_column_0(row: &Vec<SqlValue>) -> (r: Result<String, DbError>)
    ensures
        crate::sql_value::view_result(r) == column_text(row@, 0),
{
    get_text(row, 0)
}

impl DbManager {
    /// Opens the database at `connection_string` and makes sure the table
    /// `_migrations` exists (a failure to create it is not reported).
    pub fn new(connection_string: String) -> (r: Result<DbManager, DbError>)
        ensures
            r matches Err(e) ==> e is Sqlite,
            r matches Ok(m) ==> m.log() == seq![run(CREATE_MIGRATIONS_TABLE_SQL@, Seq::<SqlArg>::empty())],
    {
        let conn = open(connection_string)?;
        let mut log = SqlLog::new();
        let _ = execute(&conn, CREATE_MIGRATIONS_TABLE_SQL, &no_params(), &mut log);
        let x = DbManager { connection: conn, log };
        let _ = ProjectRepository::new(&x.connection);
        proof {
            assert(x.log() =~= seq![run(CREATE_MIGRATIONS_TABLE_SQL@, Seq::<SqlArg>::empty())]);
        }
        Ok(x)
    }

    pub closed spec fn connection(&self) -> &rusqlite::Connection {
        &self.connection
    }

    /// What this manager has handed to SQLite and read back, in order.
    pub closed spec fn log(&self) -> Seq<SqlEvent> {
        self.log.events()
    }

    /// The open connection, for the repositories.
    pub fn get_connection(&self) -> (r: &rusqlite::Connection)
        ensures
            r == self.connection(),
    {
        &self.connection
    }

    /// The version that the latest recorded migration stored (the greatest in
    /// text order), or `0` when none can be read.
    pub fn stored_version(&mut self) -> (r: String)
        ensures
            final(self).connection() == old(self).connection(),
            exists|read: OneRead| {
                &&& final(self).log() == old(self).log().push(#[trigger] latest_version_query(read))
                &&& r@ == version_read(read)
            },
    {
        let ghost decode = |row: Seq<SqlValue>| column_text(row, 0);
        let params = no_params();
        let found = query_one_decoded(&self.connection, LATEST_VERSION_SQL, &params, 1, text_column_0, Ghost(decode), &mut self.log);
        let ghost read = choose|read: OneRead|
            self.log() == old(self).log().push(#[trigger] read_one(LATEST_VERSION_SQL@, args_of(params@), read))
            && view_result(found) == decode_one(read, decode);
        proof {
            assert(decode =~= (|row: Seq<SqlValue>| column_text(row, 0)));
            assert(latest_version_query(read) == read_one(LATEST_VERSION_SQL@, args_of(params@), read));
        }
        match found {
            Ok(v) => v,
            Err(_) => String::from_str("0"),
        }
    }

    /// Applies the scripts of `migrations` that are newer than the stored
    /// version and named `up.sql`, in order, recording the version of each
    /// (failures of a script or of the record are not reported). It stops with
    /// an error where the stored version is not a number, or where a script
    /// to run has no file name or is not UTF-8 text; the scripts before it
    /// that the plan applies are applied. Every script's name must begin with
    /// its version, a number.
    pub fn run_migration(&mut self, migrations: &Vec<MigrationFile>) -> (r: Result<(), MigrationError>)
        requires
            forall|i: int| 0 <= i < migrations@.len() ==> (#[trigger] parse_i64_spec(first_segment(migrations@[i].name@))) is Some,
        ensures
            final(self).connection() == old(self).connection(),
            exists|read: OneRead| #[trigger] migration_ran(old(self).log(), final(self).log(), read, file_views(migrations@), r),
    {
        let stored = self.stored_version();
        let ghost read = choose|read: OneRead|
            self.log() == old(self).log().push(#[trigger] latest_version_query(read)) && stored@ == version_read(read);
        let current = match parse_i64(stored.as_str()) {
            Some(v) => v,
            None => {
                assert(migration_ran(old(self).log(), self.log(), read, file_views(migrations@), Err(MigrationError::InvalidStoredVersion)));
                return Err(MigrationError::InvalidStoredVersion);
            },
        };
        let ghost files = file_views(migrations@);
        let ghost start = self.log.events();
        let (steps, error) = plan_migrations(current, migrations);
        let count = migrations.len();
        proof {
            assert(files.len() == migrations@.len());
            lemma_plan_runs_only_newer_up_scripts(current, files, count as nat);
            let plan = migration_plan(current, files, migrations@.len());
            assert(steps@ == plan.0);
            assert forall|i: int| 0 <= i < steps@.len() implies {
                &&& steps@[i] < migrations@.len()
                &&& applicable(current, files, #[trigger] steps@[i] as int)
            } by {
                assert(steps@[i] == plan.0[i]);
            }
            assert(steps@.subrange(0, 0) =~= Seq::<usize>::empty());
        }
        let mut s: usize = 0;
        while s < steps.len()
            invariant
                s <= steps@.len(),
                files == file_views(migrations@),
                files.len() == migrations@.len(),
                (steps@, error) == migration_plan(current, files, migrations@.len()),
                forall|i: int| 0 <= i < steps@.len() ==> {
                    &&& steps@[i] < migrations@.len()
                    &&& applicable(current, files, #[trigger] steps@[i] as int)
                },
                self.connection == old(self).connection,
                self.log.events() == start + migration_events(files, steps@.subrange(0, s as int)),
            decreases steps.len() - s,
        {
            let idx = steps[s];
            let file = &migrations[idx];
            assert(applicable(current, files, steps@[s as int] as int));
            assert(files[idx as int] == file@);
            let ghost before = self.log.events();
            match string_from_utf8(file.data.clone()) {
                Some(sql_to_run) => {
                    let _ = execute_batch(&self.connection, sql_to_run.as_str(), &mut self.log);
                    let version = first_segment_of(file.name.as_str());
                    let _ = execute(&self.connection, INSERT_VERSION_SQL, &one_text(version), &mut self.log);
                },
                None => {
                    assert(false);
                },
            }
            proof {
                let next = steps@.subrange(0, s + 1);
                assert(next.drop_last() =~= steps@.subrange(0, s as int));
                assert(next.last() == idx);
                assert(self.log.events() =~= start + migration_events(files, next));
            }
            s = s + 1;
        }
        proof {
            assert(steps@.subrange(0, steps@.len() as int) =~= steps@);
        }
        let r = match error {
            Some(e) => Err(e),
            None => Ok(()),
        };
        assert(migration_ran(old(self).log(), self.log(), read, files, r));
        r
    }
}

} // verus!

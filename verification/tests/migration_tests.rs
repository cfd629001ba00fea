use print_manager::db_manager::DbManager;
use print_manager::migration::{decide_migration, first_segment_of, plan_migrations, second_segment_of, MigrationError, MigrationFile};

fn script(name: &str, sql: &str) -> MigrationFile {
    MigrationFile { name: name.to_string(), data: sql.as_bytes().to_vec() }
}

#[test]
fn segments_of_a_path() {
    assert_eq!(first_segment_of("12/up.sql"), "12");
    assert_eq!(second_segment_of("12/up.sql"), Some("up.sql".to_string()));
    assert_eq!(first_segment_of("readme"), "readme");
    assert_eq!(second_segment_of("readme"), None);
    assert_eq!(second_segment_of("3/a/b"), Some("a".to_string()));
    assert_eq!(second_segment_of("3/"), Some("".to_string()));
}

#[test]
fn decisions() {
    assert_eq!(decide_migration(0, &script("1/up.sql", "x"), 0), Ok(true));
    assert_eq!(decide_migration(0, &script("1/down.sql", "x"), 0), Ok(false));
    assert_eq!(decide_migration(1, &script("1/up.sql", "x"), 0), Ok(false));
    assert_eq!(decide_migration(5, &script("2/whatever", "x"), 3), Ok(false));
    assert_eq!(decide_migration(0, &script("v1/up.sql", "x"), 4), Err(MigrationError::InvalidFileVersion(4)));
    assert_eq!(decide_migration(0, &script("7", "x"), 2), Err(MigrationError::MissingFileName(2)));
    assert_eq!(decide_migration(9, &script("7", "x"), 2), Ok(false));
    let bad = MigrationFile { name: "2/up.sql".to_string(), data: vec![0xff] };
    assert_eq!(decide_migration(0, &bad, 1), Err(MigrationError::InvalidUtf8(1)));
}

#[test]
fn plan_keeps_order_and_stops_at_first_error() {
    let files = vec![script("1/up.sql", ""), script("1/down.sql", ""), script("2/up.sql", ""), script("bad", ""), script("3/up.sql", "")];
    assert_eq!(plan_migrations(0, &files), (vec![0, 2], Some(MigrationError::InvalidFileVersion(3))));
    assert_eq!(plan_migrations(1, &files), (vec![2], Some(MigrationError::InvalidFileVersion(3))));
    let files = vec![script("1/up.sql", ""), script("2/up.sql", ""), script("3/up.sql", "")];
    assert_eq!(plan_migrations(1, &files), (vec![1, 2], None));
    assert_eq!(plan_migrations(3, &files), (vec![], None));
}

#[test]
fn running_migrations_again_runs_nothing() {
    let mut db = DbManager::new(":memory:".to_string()).unwrap();
    assert_eq!(db.stored_version(), "0");
    let files = vec![
        script("1/up.sql", "CREATE TABLE a (x INTEGER);"),
        script("1/down.sql", "DROP TABLE a;"),
        script("2/up.sql", "INSERT INTO a (x) VALUES (1);"),
    ];
    db.run_migration(&files).unwrap();
    assert_eq!(db.stored_version(), "2");
    db.run_migration(&files).unwrap();
    assert_eq!(db.stored_version(), "2");
    let count: i64 = db.get_connection().query_row("SELECT COUNT(*) FROM a", [], |r| r.get(0)).unwrap();
    assert_eq!(count, 1);
    let runs: i64 = db.get_connection().query_row("SELECT COUNT(*) FROM _migrations", [], |r| r.get(0)).unwrap();
    assert_eq!(runs, 2);
}

#[test]
fn a_stored_version_that_is_not_a_number_stops_the_run() {
    let mut db = DbManager::new(":memory:".to_string()).unwrap();
    db.get_connection().execute("INSERT INTO _migrations (version) VALUES ('abc')", []).unwrap();
    assert_eq!(db.stored_version(), "abc");
    assert_eq!(db.run_migration(&vec![script("1/up.sql", "")]), Err(MigrationError::InvalidStoredVersion));
}

#[test]
fn a_run_applies_scripts_before_the_one_it_stops_at() {
    let mut db = DbManager::new(":memory:".to_string()).unwrap();
    let files = vec![script("1/up.sql", "CREATE TABLE b (x INTEGER);"), script("5", "")];
    assert_eq!(db.run_migration(&files), Err(MigrationError::MissingFileName(1)));
    assert_eq!(db.stored_version(), "1");
}

#[test]
fn only_newer_up_scripts_run_after_a_stored_version() {
    let mut db = DbManager::new(":memory:".to_string()).unwrap();
    db.get_connection().execute("INSERT INTO _migrations (version) VALUES ('1'), ('2')", []).unwrap();
    let files = vec![
        script("1/down.sql", "CREATE TABLE d1 (x INTEGER);"),
        script("1/up.sql", "CREATE TABLE u1 (x INTEGER);"),
        script("2/down.sql", "CREATE TABLE d2 (x INTEGER);"),
        script("2/up.sql", "CREATE TABLE u2 (x INTEGER);"),
        script("3/down.sql", "CREATE TABLE d3 (x INTEGER);"),
        script("3/up.sql", "CREATE TABLE u3 (x INTEGER);"),
    ];
    assert_eq!(plan_migrations(2, &files), (vec![5], None));
    db.run_migration(&files).unwrap();
    assert_eq!(db.stored_version(), "3");
    let tables: Vec<String> = {
        let mut stmt = db.get_connection().prepare("SELECT name FROM sqlite_master WHERE type = 'table' AND name <> '_migrations' ORDER BY name").unwrap();
        let names = stmt.query_map([], |r| r.get(0)).unwrap();
        names.map(|n| n.unwrap()).collect()
    };
    assert_eq!(tables, vec!["u3".to_string()]);
    let versions: Vec<String> = {
        let mut stmt = db.get_connection().prepare("SELECT version FROM _migrations ORDER BY rowid").unwrap();
        let vs = stmt.query_map([], |r| r.get(0)).unwrap();
        vs.map(|v| v.unwrap()).collect()
    };
    assert_eq!(versions, vec!["1".to_string(), "2".to_string(), "3".to_string()]);
}

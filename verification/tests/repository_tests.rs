use print_manager::db_manager::DbManager;
use print_manager::migration::MigrationFile;
use print_manager::models::file::ProjectFile;
use print_manager::models::project::Project;
use print_manager::models::project_source::ProjectSource;
use print_manager::models::project_tag::ProjectTag;
use print_manager::repository::project_file_repository::ProjectFileRepository;
use print_manager::repository::project_repository::ProjectRepository;
use print_manager::repository::project_source_repository::ProjectSourceRepository;
use print_manager::repository::project_tag_repository::ProjectTagRepository;
use print_manager::sql_value::DbError;

const SCHEMA: &str = "
CREATE TABLE projects (id INTEGER PRIMARY KEY, name TEXT NOT NULL, path TEXT NOT NULL, notes TEXT NOT NULL DEFAULT '');
CREATE TABLE project_files (id INTEGER PRIMARY KEY, path TEXT NOT NULL, notes TEXT, project_id INTEGER NOT NULL, isdefault INTEGER NOT NULL DEFAULT 0);
CREATE TABLE tags (id INTEGER PRIMARY KEY, tag TEXT NOT NULL UNIQUE);
CREATE TABLE projects_tags (project_id INTEGER NOT NULL, tag_id INTEGER NOT NULL, PRIMARY KEY (project_id, tag_id));
CREATE TABLE project_sources (id INTEGER PRIMARY KEY, url TEXT NOT NULL, project_id INTEGER NOT NULL, name TEXT NOT NULL);
";

fn database() -> DbManager {
    let mut db = DbManager::new(":memory:".to_string()).unwrap();
    db.run_migration(&vec![MigrationFile { name: "1/up.sql".to_string(), data: SCHEMA.as_bytes().to_vec() }]).unwrap();
    db
}

fn project(name: &str, path: &str, notes: &str) -> Project {
    Project { id: 0, name: name.to_string(), path: path.to_string(), notes: notes.to_string(), tags: vec![], files: vec![], sources: vec![] }
}

fn file(path: &str, notes: Option<&str>, project_id: i32, default: bool) -> ProjectFile {
    ProjectFile { id: 0, path: path.to_string(), notes: notes.map(|n| n.to_string()), project_id, default }
}

#[test]
fn created_tags_read_back() {
    let db = database();
    let mut tags = ProjectTagRepository::new(db.get_connection());
    let pla = tags.create("pla".to_string()).unwrap();
    let abs = tags.create("abs".to_string()).unwrap();
    assert_eq!(pla.tag, "pla");
    assert_eq!(tags.get_tag(pla.id).unwrap(), pla);
    assert_eq!(tags.get_tag_by_tag("abs".to_string()).unwrap(), abs);
    assert_eq!(tags.get_tags().unwrap(), vec![abs.clone(), pla.clone()]);
    assert!(matches!(tags.get_tag_by_tag("petg".to_string()), Err(DbError::QueryReturnedNoRows)));
    assert!(matches!(tags.get_tag(999), Err(DbError::QueryReturnedNoRows)));
    assert!(matches!(tags.create("pla".to_string()), Err(DbError::Sqlite(_))));
}

#[test]
fn created_project_reads_back_with_details() {
    let db = database();
    let conn = db.get_connection();
    let mut projects = ProjectRepository::new(conn);
    let p = projects.create(project("Benchy", "/prints/benchy", "a boat")).unwrap();
    assert_eq!(p.name, "Benchy");
    assert_eq!(p.path, "/prints/benchy");
    assert_eq!(p.notes, "a boat");
    assert!(p.files.is_empty() && p.tags.is_empty() && p.sources.is_empty());
    assert_eq!(projects.get_project(p.id).unwrap(), p);

    let mut files = ProjectFileRepository::new(conn);
    let f = files.create(file("/prints/benchy/hull.stl", None, p.id, false)).unwrap();
    let mut sources = ProjectSourceRepository::new(conn);
    let s = sources.create(ProjectSource { id: 0, url: "https://example.org/benchy".to_string(), project_id: p.id, name: "example".to_string() }).unwrap();
    let t = ProjectTagRepository::new(conn).create("boat".to_string()).unwrap();
    let with_tag = projects.add_tag(p.clone(), t.clone()).unwrap();
    assert_eq!(with_tag.tags, vec![t.clone()]);
    assert_eq!(with_tag.files, vec![f.clone()]);
    assert_eq!(with_tag.sources, vec![s.clone()]);
    let again = projects.add_tag(with_tag.clone(), t.clone()).unwrap();
    assert_eq!(again.tags, vec![t.clone()]);
    let without = projects.remove_tag(again, t.clone()).unwrap();
    assert!(without.tags.is_empty());
    assert!(matches!(projects.get_project(p.id + 100), Err(DbError::QueryReturnedNoRows)));
}

#[test]
fn saved_project_reads_back() {
    let db = database();
    let mut projects = ProjectRepository::new(db.get_connection());
    let mut p = projects.create(project("a", "/a", "")).unwrap();
    p.name = "renamed".to_string();
    p.notes = "note".to_string();
    let saved = projects.save(p.clone()).unwrap();
    assert_eq!(saved.name, "renamed");
    assert_eq!(saved.notes, "note");
    assert_eq!(saved.path, "/a");
    assert_eq!(saved.id, p.id);
}

#[test]
fn created_file_reads_back() {
    let db = database();
    let conn = db.get_connection();
    let p = ProjectRepository::new(conn).create(project("p", "/p", "")).unwrap();
    let mut files = ProjectFileRepository::new(conn);
    let f = files.create(file("/p/a.stl", Some("first"), p.id, true)).unwrap();
    assert_eq!(f.path, "/p/a.stl");
    assert_eq!(f.notes, Some("first".to_string()));
    assert_eq!(f.project_id, p.id);
    assert!(f.default);
    let g = files.create(file("/p/b.stl", None, p.id, false)).unwrap();
    assert_eq!(g.notes, Some("".to_string()));
    assert!(!g.default);
    assert_eq!(files.get_project_file(f.id).unwrap(), f);
}

#[test]
fn saving_a_default_file_clears_the_other_defaults() {
    let db = database();
    let conn = db.get_connection();
    let p = ProjectRepository::new(conn).create(project("p", "/p", "")).unwrap();
    let q = ProjectRepository::new(conn).create(project("q", "/q", "")).unwrap();
    let mut files = ProjectFileRepository::new(conn);
    let a = files.create(file("/p/a", None, p.id, true)).unwrap();
    let b = files.create(file("/p/b", None, p.id, false)).unwrap();
    let other = files.create(file("/q/c", None, q.id, true)).unwrap();
    let mut b2 = b.clone();
    b2.default = true;
    b2.notes = Some("now default".to_string());
    let saved = files.save(b2).unwrap();
    assert!(saved.default);
    assert_eq!(saved.notes, Some("now default".to_string()));
    assert!(!files.get_project_file(a.id).unwrap().default);
    assert!(files.get_project_file(other.id).unwrap().default);
    let listed = files.get_files_for_project(p.clone()).unwrap();
    assert_eq!(listed.iter().map(|f| f.path.clone()).collect::<Vec<_>>(), vec!["/p/a".to_string(), "/p/b".to_string()]);
    assert_eq!(listed.iter().filter(|f| f.default).count(), 1);
    let mut a2 = files.get_project_file(a.id).unwrap();
    a2.notes = None;
    let saved = files.save(a2).unwrap();
    assert!(!saved.default);
    assert!(files.get_project_file(b.id).unwrap().default);
}

#[test]
fn deleting_files() {
    let db = database();
    let conn = db.get_connection();
    let p = ProjectRepository::new(conn).create(project("p", "/p", "")).unwrap();
    let mut files = ProjectFileRepository::new(conn);
    let a = files.create(file("/p/a", None, p.id, false)).unwrap();
    let b = files.create(file("/p/b", None, p.id, false)).unwrap();
    files.create(file("/p/c", None, p.id, false)).unwrap();
    files.delete(a.clone()).unwrap();
    assert!(matches!(files.get_project_file(a.id), Err(DbError::QueryReturnedNoRows)));
    files.delete_by_project_and_path(p.clone(), "/p/c".to_string()).unwrap();
    assert_eq!(files.get_files_for_project(p).unwrap(), vec![b]);
}

#[test]
fn sources_of_a_project() {
    let db = database();
    let conn = db.get_connection();
    let p = ProjectRepository::new(conn).create(project("p", "/p", "")).unwrap();
    let mut sources = ProjectSourceRepository::new(conn);
    let s1 = sources.create(ProjectSource { id: 0, url: "u1".to_string(), project_id: p.id, name: "n1".to_string() }).unwrap();
    let s2 = sources.create(ProjectSource { id: 0, url: "u2".to_string(), project_id: p.id, name: "n2".to_string() }).unwrap();
    assert_eq!(sources.get_source(s1.id).unwrap(), s1);
    assert_eq!(s2.url, "u2");
    assert_eq!(s2.name, "n2");
    assert_eq!(sources.get_sources_by_project(p).unwrap(), vec![s1, s2]);
}

#[test]
fn filtering_projects() {
    let db = database();
    let conn = db.get_connection();
    let mut projects = ProjectRepository::new(conn);
    let mut tags = ProjectTagRepository::new(conn);
    let boat = projects.create(project("Benchy boat", "/b", "")).unwrap();
    let cube = projects.create(project("Calibration cube", "/c", "")).unwrap();
    let arm = projects.create(project("Arm", "/a", "")).unwrap();
    let t1 = tags.create("calibration".to_string()).unwrap();
    let t2 = tags.create("quick".to_string()).unwrap();
    projects.add_tag(boat.clone(), t1.clone()).unwrap();
    projects.add_tag(boat.clone(), t2.clone()).unwrap();
    projects.add_tag(cube.clone(), t1.clone()).unwrap();

    let names = |ps: Vec<Project>| ps.into_iter().map(|p| p.name).collect::<Vec<_>>();
    assert_eq!(names(projects.get_filtered_projects(None, None, None).unwrap()), vec!["Arm", "Benchy boat", "Calibration cube"]);
    assert_eq!(names(projects.get_filtered_projects(Some("b".to_string()), None, None).unwrap()), vec!["Benchy boat", "Calibration cube"]);
    assert_eq!(names(projects.get_filtered_projects(None, Some("/a".to_string()), None).unwrap()), vec!["Arm"]);
    assert_eq!(names(projects.get_filtered_projects(None, None, Some(vec![t1.clone()])).unwrap()), vec!["Benchy boat", "Calibration cube"]);
    assert_eq!(names(projects.get_filtered_projects(None, None, Some(vec![t1.clone(), t2.clone()])).unwrap()), vec!["Benchy boat"]);
    assert_eq!(names(projects.get_filtered_projects(Some("cube".to_string()), None, Some(vec![t2.clone()])).unwrap()), Vec::<String>::new());
    let listed = projects.get_filtered_projects(None, None, Some(vec![t2.clone()])).unwrap();
    assert_eq!(listed[0].tags.len(), 2);
    assert_eq!(arm.tags, Vec::<ProjectTag>::new());
}

#[test]
fn tags_of_a_project() {
    let db = database();
    let conn = db.get_connection();
    let mut projects = ProjectRepository::new(conn);
    let mut tags = ProjectTagRepository::new(conn);
    let p = projects.create(project("p", "/p", "")).unwrap();
    let t = tags.create("x".to_string()).unwrap();
    projects.add_tag(p.clone(), t.clone()).unwrap();
    assert_eq!(tags.get_tags_by_project(p).unwrap(), vec![t]);
}

#[test]
fn repositories_report_a_missing_schema() {
    let db = DbManager::new(":memory:".to_string()).unwrap();
    let conn = db.get_connection();
    assert!(matches!(ProjectTagRepository::new(conn).get_tags(), Err(DbError::Sqlite(_))));
    assert!(matches!(ProjectRepository::new(conn).get_project(1), Err(DbError::Sqlite(_))));
    assert!(matches!(ProjectFileRepository::new(conn).delete(file("x", None, 1, false)), Err(DbError::Sqlite(_))));
}

#[test]
fn a_lookup_that_finds_two_rows_is_refused() {
    let mut db = DbManager::new(":memory:".to_string()).unwrap();
    db.run_migration(&vec![MigrationFile {
        name: "1/up.sql".to_string(),
        data: b"CREATE TABLE projects (id INTEGER, name TEXT, path TEXT, notes TEXT);
                INSERT INTO projects VALUES (1, 'a', '/a', ''), (1, 'b', '/b', '');"
            .to_vec(),
    }])
    .unwrap();
    let mut projects = ProjectRepository::new(db.get_connection());
    assert!(matches!(projects.get_project(1), Err(DbError::QueryReturnedMoreThanOneRow)));
}

#[test]
fn a_row_id_beyond_i32_is_refused() {
    let db = database();
    db.get_connection().execute("INSERT INTO tags (id, tag) VALUES (3000000000, 'big')", []).unwrap();
    let mut tags = ProjectTagRepository::new(db.get_connection());
    assert!(matches!(tags.create("next".to_string()), Err(DbError::RowIdOutOfRange(3000000001))));
}

#[test]
fn a_column_of_the_wrong_type_is_refused() {
    let db = database();
    db.get_connection().execute("INSERT INTO project_files (id, path, notes, project_id, isdefault) VALUES (1, 'p', NULL, 'x', 0)", []).unwrap();
    let mut files = ProjectFileRepository::new(db.get_connection());
    assert!(matches!(files.get_project_file(1), Err(DbError::InvalidColumnType(3))));
}

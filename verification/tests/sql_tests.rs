use print_manager::db::{bind_params, finish_one_row, prepare, row_id_to_i32, MoreRows};
use print_manager::models::file::ProjectFile;
use print_manager::models::project::Project;
use print_manager::models::project_source::ProjectSource;
use print_manager::models::project_tag::ProjectTag;
use print_manager::repository::project_file_repository::ProjectFileRepository;
use print_manager::repository::project_repository::ProjectRepository;
use print_manager::repository::project_source_repository::ProjectSourceRepository;
use print_manager::repository::project_tag_repository::ProjectTagRepository;
use print_manager::sql_value::{get_bool, get_i32, get_i64, get_opt_text, get_text, DbError, SqlParam, SqlValue};

fn text(s: &str) -> SqlValue {
    SqlValue::Text(s.as_bytes().to_vec())
}

fn param(s: &str) -> SqlParam {
    SqlParam::Text(s.to_string())
}

fn tag(id: i32, t: &str) -> ProjectTag {
    ProjectTag { id, tag: t.to_string() }
}

#[test]
fn filter_sql_without_filters_lists_all_by_name() {
    let sql = ProjectRepository::filtered_projects_sql(&None, &None, &None);
    assert_eq!(sql, "select p.* from projects p ORDER BY p.name");
}

#[test]
fn filter_sql_by_name() {
    let sql = ProjectRepository::filtered_projects_sql(&Some("benchy".to_string()), &None, &None);
    assert_eq!(sql, "select p.* from projects p WHERE name LIKE '%benchy%' ORDER BY p.name");
}

#[test]
fn filter_sql_by_path() {
    let sql = ProjectRepository::filtered_projects_sql(&None, &Some("/p/a".to_string()), &None);
    assert_eq!(sql, "select p.* from projects p WHERE path = '/p/a' ORDER BY p.name");
}

#[test]
fn filter_sql_by_name_and_path() {
    let sql = ProjectRepository::filtered_projects_sql(&Some("x".to_string()), &Some("/y".to_string()), &None);
    assert_eq!(sql, "select p.* from projects p WHERE name LIKE '%x%' AND path = '/y' ORDER BY p.name");
}

#[test]
fn filter_sql_by_tags() {
    let tags = vec![tag(3, "a"), tag(12, "b"), tag(-4, "c")];
    let sql = ProjectRepository::filtered_projects_sql(&None, &None, &Some(tags));
    assert_eq!(
        sql,
        "select p.* from projects p JOIN projects_tags pt ON pt.project_id = p.id WHERE pt.tag_id IN (3,12,-4) GROUP BY p.id HAVING COUNT(DISTINCT pt.tag_id) = 3 ORDER BY p.name"
    );
}

#[test]
fn filter_sql_with_every_filter() {
    let sql = ProjectRepository::filtered_projects_sql(&Some("n".to_string()), &Some("p".to_string()), &Some(vec![tag(1, "t")]));
    assert_eq!(
        sql,
        "select p.* from projects p JOIN projects_tags pt ON pt.project_id = p.id WHERE name LIKE '%n%' AND path = 'p' AND pt.tag_id IN (1) GROUP BY p.id HAVING COUNT(DISTINCT pt.tag_id) = 1 ORDER BY p.name"
    );
}

#[test]
fn filter_sql_with_name_and_tags() {
    let sql = ProjectRepository::filtered_projects_sql(&Some("n".to_string()), &None, &Some(vec![]));
    assert_eq!(
        sql,
        "select p.* from projects p JOIN projects_tags pt ON pt.project_id = p.id WHERE name LIKE '%n%' AND pt.tag_id IN () GROUP BY p.id HAVING COUNT(DISTINCT pt.tag_id) = 0 ORDER BY p.name"
    );
}

#[test]
fn column_reads() {
    let row = vec![SqlValue::Integer(5), text("héllo"), SqlValue::Null, SqlValue::Real, SqlValue::Blob(vec![1]), SqlValue::Integer(1i64 << 40)];
    assert_eq!(get_i64(&row, 0).unwrap(), 5);
    assert_eq!(get_i32(&row, 0).unwrap(), 5);
    assert_eq!(get_text(&row, 1).unwrap(), "héllo");
    assert_eq!(get_opt_text(&row, 1).unwrap(), Some("héllo".to_string()));
    assert_eq!(get_opt_text(&row, 2).unwrap(), None);
    assert!(get_bool(&row, 0).unwrap());
    assert!(matches!(get_i32(&row, 1), Err(DbError::InvalidColumnType(1))));
    assert!(matches!(get_text(&row, 0), Err(DbError::InvalidColumnType(0))));
    assert!(matches!(get_text(&row, 2), Err(DbError::InvalidColumnType(2))));
    assert!(matches!(get_i64(&row, 3), Err(DbError::InvalidColumnType(3))));
    assert!(matches!(get_text(&row, 4), Err(DbError::InvalidColumnType(4))));
    assert!(matches!(get_i32(&row, 5), Err(DbError::IntegralValueOutOfRange(5, v)) if v == 1i64 << 40));
    assert!(matches!(get_i64(&row, 6), Err(DbError::InvalidColumnIndex(6))));
    assert!(matches!(get_opt_text(&row, 9), Err(DbError::InvalidColumnIndex(9))));
}

#[test]
fn column_bool_is_true_unless_zero() {
    let row = vec![SqlValue::Integer(0), SqlValue::Integer(-3), SqlValue::Integer(1)];
    assert!(!get_bool(&row, 0).unwrap());
    assert!(get_bool(&row, 1).unwrap());
    assert!(get_bool(&row, 2).unwrap());
}

#[test]
fn text_column_must_be_utf8() {
    let row = vec![SqlValue::Text(vec![0xff, 0xfe])];
    assert!(matches!(get_text(&row, 0), Err(DbError::Utf8Error(0))));
    assert!(matches!(get_opt_text(&row, 0), Err(DbError::Utf8Error(0))));
}

#[test]
fn row_to_file_decodes_every_column() {
    let row = vec![SqlValue::Integer(7), text("/a/b.stl"), SqlValue::Null, SqlValue::Integer(3), SqlValue::Integer(1)];
    let f = ProjectFileRepository::row_to_file(&row).unwrap();
    assert_eq!(f, ProjectFile { id: 7, path: "/a/b.stl".to_string(), notes: None, project_id: 3, default: true });
    let row = vec![SqlValue::Integer(7), text("p"), text("n"), SqlValue::Integer(3), SqlValue::Integer(0)];
    let f = ProjectFileRepository::row_to_file(&row).unwrap();
    assert_eq!(f.notes, Some("n".to_string()));
    assert!(!f.default);
}

#[test]
fn row_to_file_reports_the_first_bad_column() {
    let row = vec![SqlValue::Integer(7), SqlValue::Integer(1), text("n"), text("x"), SqlValue::Integer(0)];
    assert!(matches!(ProjectFileRepository::row_to_file(&row), Err(DbError::InvalidColumnType(1))));
    let row = vec![SqlValue::Integer(7), text("p"), text("n"), text("x"), SqlValue::Null];
    assert!(matches!(ProjectFileRepository::row_to_file(&row), Err(DbError::InvalidColumnType(3))));
    let row = vec![SqlValue::Integer(7), text("p"), text("n"), SqlValue::Integer(1)];
    assert!(matches!(ProjectFileRepository::row_to_file(&row), Err(DbError::InvalidColumnIndex(4))));
}

#[test]
fn row_to_project_has_no_details() {
    let row = vec![SqlValue::Integer(2), text("Benchy"), text("/prints/benchy"), text("boat")];
    let p = ProjectRepository::row_to_project(&row).unwrap();
    assert_eq!(p.id, 2);
    assert_eq!(p.name, "Benchy");
    assert_eq!(p.path, "/prints/benchy");
    assert_eq!(p.notes, "boat");
    assert!(p.tags.is_empty() && p.files.is_empty() && p.sources.is_empty());
    let row = vec![SqlValue::Integer(2), text("Benchy"), text("/prints/benchy"), SqlValue::Null];
    assert!(matches!(ProjectRepository::row_to_project(&row), Err(DbError::InvalidColumnType(3))));
}

#[test]
fn row_to_source_and_tag() {
    let row = vec![SqlValue::Integer(4), text("https://x"), SqlValue::Integer(9), text("shop")];
    let s = ProjectSourceRepository::row_to_source(&row).unwrap();
    assert_eq!(s, ProjectSource { id: 4, url: "https://x".to_string(), project_id: 9, name: "shop".to_string() });
    let t = ProjectTagRepository::row_to_tag(&vec![SqlValue::Integer(1), text("pla")]).unwrap();
    assert_eq!(t, tag(1, "pla"));
    assert!(matches!(ProjectTagRepository::row_to_tag(&vec![SqlValue::Real, text("pla")]), Err(DbError::InvalidColumnType(0))));
}

#[test]
fn rows_decode_in_order_and_stop_at_first_error() {
    let rows = vec![vec![SqlValue::Integer(1), text("a")], vec![SqlValue::Integer(2), text("b")]];
    let ts = ProjectTagRepository::rows_to_tags(&rows).unwrap();
    assert_eq!(ts, vec![tag(1, "a"), tag(2, "b")]);
    let rows = vec![vec![SqlValue::Integer(1), text("a")], vec![SqlValue::Integer(2), SqlValue::Null], vec![SqlValue::Null, text("c")]];
    assert!(matches!(ProjectTagRepository::rows_to_tags(&rows), Err(DbError::InvalidColumnType(1))));
    assert!(ProjectTagRepository::rows_to_tags(&vec![]).unwrap().is_empty());
}

#[test]
fn file_parameters() {
    let f = ProjectFile { id: 11, path: "/a".to_string(), notes: None, project_id: -2, default: true };
    assert_eq!(ProjectFileRepository::insert_params(f.clone()), vec![param("/a"), param(""), param("1"), param("-2")]);
    assert_eq!(ProjectFileRepository::update_params(f), vec![param("/a"), param(""), param("1"), param("-2"), param("11")]);
    let f = ProjectFile { id: 0, path: "p".to_string(), notes: Some("n".to_string()), project_id: 40, default: false };
    assert_eq!(ProjectFileRepository::insert_params(f), vec![param("p"), param("n"), param("0"), param("40")]);
}

#[test]
fn project_and_source_parameters() {
    let p = Project { id: 5, name: "n".to_string(), path: "p".to_string(), notes: "o".to_string(), tags: vec![], files: vec![], sources: vec![] };
    assert_eq!(ProjectRepository::insert_params(p.clone()), vec![param("n"), param("p"), param("o")]);
    assert_eq!(ProjectRepository::update_params(p), vec![param("n"), param("o"), param("p"), param("5")]);
    let s = ProjectSource { id: 1, url: "u".to_string(), project_id: 77, name: "m".to_string() };
    assert_eq!(ProjectSourceRepository::insert_params(s), vec![param("m"), param("u"), param("77")]);
}

#[test]
fn attach_details_replaces_the_lists() {
    let p = Project { id: 5, name: "n".to_string(), path: "p".to_string(), notes: "o".to_string(), tags: vec![], files: vec![], sources: vec![] };
    let files = vec![ProjectFile { id: 1, path: "f".to_string(), notes: None, project_id: 5, default: false }];
    let r = ProjectRepository::attach_details(p, files.clone(), vec![tag(2, "t")], vec![]);
    assert_eq!(r.files, files);
    assert_eq!(r.tags, vec![tag(2, "t")]);
    assert_eq!(r.name, "n");
}

#[test]
fn exactly_one_row() {
    let r: Result<i32, DbError> = finish_one_row(Some(Ok(3)), MoreRows::No);
    assert_eq!(r.unwrap(), 3);
    let r: Result<i32, DbError> = finish_one_row(None, MoreRows::No);
    assert!(matches!(r, Err(DbError::QueryReturnedNoRows)));
    let r: Result<i32, DbError> = finish_one_row(Some(Ok(3)), MoreRows::Yes);
    assert!(matches!(r, Err(DbError::QueryReturnedMoreThanOneRow)));
    let r: Result<i32, DbError> = finish_one_row(Some(Err(DbError::InvalidColumnType(0))), MoreRows::Yes);
    assert!(matches!(r, Err(DbError::InvalidColumnType(0))));
}

#[test]
fn row_ids_must_fit_i32() {
    assert_eq!(row_id_to_i32(12).unwrap(), 12);
    assert_eq!(row_id_to_i32(i32::MAX as i64).unwrap(), i32::MAX);
    assert!(matches!(row_id_to_i32(i32::MAX as i64 + 1), Err(DbError::RowIdOutOfRange(v)) if v == 2147483648));
    assert!(matches!(row_id_to_i32(i32::MIN as i64 - 1), Err(DbError::RowIdOutOfRange(_))));
}

#[test]
fn binding_the_wrong_number_of_parameters_is_refused() {
    let conn = rusqlite::Connection::open_in_memory().unwrap();
    let mut stmt = prepare(&conn, "SELECT ?1, ?2").unwrap();
    assert!(matches!(bind_params(&mut stmt, &vec![SqlParam::Integer(1)]), Err(DbError::InvalidParameterCount(1, 2))));
    assert!(bind_params(&mut stmt, &vec![SqlParam::Integer(1), SqlParam::Text("a".to_string())]).is_ok());
    let mut one = prepare(&conn, "SELECT ?1").unwrap();
    let three = vec![SqlParam::Integer(1), SqlParam::Integer(2), SqlParam::Integer(3)];
    assert!(matches!(bind_params(&mut one, &three), Err(DbError::InvalidParameterCount(2, 1))));
}

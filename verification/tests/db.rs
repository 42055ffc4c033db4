use logsday::db::{check_table_schema, like_statement, schema_matches, table_schemas, TableAction, USERS_TABLE_SQL};
use logsday::site::{Like, LikeTarget};

#[test]
fn schemas_compare_by_syntax() {
    let a = "CREATE TABLE t (id INTEGER PRIMARY KEY, name TEXT NOT NULL)";
    let b = "create table t (\n  id INTEGER PRIMARY KEY, -- key\n  name TEXT NOT NULL\n);";
    let c = "CREATE TABLE t (id INTEGER PRIMARY KEY, name TEXT)";
    assert!(schema_matches(a, b));
    assert!(!schema_matches(a, c));
    assert!(!schema_matches(a, "not sql at all ("));
    assert!(!schema_matches("not sql at all (", "not sql at all ("));
}

#[test]
fn table_actions() {
    assert_eq!(check_table_schema(USERS_TABLE_SQL, None), TableAction::Create);
    assert_eq!(check_table_schema(USERS_TABLE_SQL, Some(USERS_TABLE_SQL)), TableAction::Keep);
    assert_eq!(check_table_schema(USERS_TABLE_SQL, Some("CREATE TABLE users (uid INTEGER)")), TableAction::Mismatch);
}

#[test]
fn all_tables_listed_and_parse() {
    let names: Vec<&str> = table_schemas().iter().map(|p| p.0).collect();
    assert_eq!(
        names,
        ["users", "projects", "logs", "log_comments", "log_likes", "project_likes", "user_likes", "user_follows"]
    );
    for (_, sql) in table_schemas() {
        assert!(schema_matches(sql, sql));
    }
}

#[test]
fn like_statements() {
    let (sql, binds_like) = like_statement(LikeTarget::Log, Some(Like { is_like: true }));
    assert!(sql.starts_with("INSERT INTO log_likes"));
    assert!(binds_like);
    let (sql, binds_like) = like_statement(LikeTarget::User, None);
    assert_eq!(sql, "DELETE FROM user_likes WHERE user_uid = ? AND user_profile_uid = ?");
    assert!(!binds_like);
    let (sql, _) = like_statement(LikeTarget::Project, Some(Like { is_like: false }));
    assert!(sql.contains("ON CONFLICT(user_uid, project_uid)"));
}

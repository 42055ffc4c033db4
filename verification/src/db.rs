//! The database's tables: their schemas, the check that an existing table
//! still has its schema, and the statements that set likes.

use vstd::prelude::*;
use crate::site::{Like, LikeTarget};

verus! {

/// The `CREATE TABLE` statement of the `users` table.
pub const USERS_TABLE_SQL: &'static str = "CREATE TABLE users (
    uid INTEGER PRIMARY KEY AUTOINCREMENT,
    username TEXT NOT NULL UNIQUE,
    displayname TEXT NOT NULL,
    password TEXT NOT NULL,
    week_len INTEGER NOT NULL DEFAULT 8,
    logsday_weekday INTEGER NOT NULL DEFAULT 3, -- Logsday is between Wednesday and Thursday; Monday is 0; Sunday is 6/7
    schedule_last_changed INTEGER NOT NULL,
    email TEXT,
    admin BOOLEAN NOT NULL DEFAULT FALSE,
    created_on INTEGER NOT NULL
);";

/// The `CREATE TABLE` statement of the `projects` table.
pub const PROJECTS_TABLE_SQL: &'static str = "CREATE TABLE projects (
    uid INTEGER PRIMARY KEY AUTOINCREMENT,
    user_uid INTEGER NOT NULL,
    title TEXT NOT NULL,
    slug TEXT NOT NULL,
    description TEXT,
    created_on INTEGER NOT NULL,

    UNIQUE(user_uid, slug),
    FOREIGN KEY (user_uid) REFERENCES users(uid) ON DELETE CASCADE
);";

/// The `CREATE TABLE` statement of the `logs` table.
pub const LOGS_TABLE_SQL: &'static str = "CREATE TABLE logs (
    uid INTEGER PRIMARY KEY AUTOINCREMENT,
    project_uid INTEGER NOT NULL,
    title TEXT NOT NULL,
    number INTEGER NOT NULL, -- this log's sequential number in the project
    created_on INTEGER NOT NULL,

    UNIQUE(project_uid, number),
    FOREIGN KEY (project_uid) REFERENCES projects(uid) ON DELETE CASCADE
);";

/// The `CREATE TABLE` statement of the `log_comments` table.
pub const LOG_COMMENTS_TABLE_SQL: &'static str = "CREATE TABLE log_comments (
    uid INTEGER PRIMARY KEY AUTOINCREMENT,
    log_uid INTEGER NOT NULL,
    user_uid INTEGER NOT NULL,
    text TEXT NOT NULL,
    created_on INTEGER NOT NULL,

    FOREIGN KEY (log_uid) REFERENCES logs(uid) ON DELETE CASCADE,
    FOREIGN KEY (user_uid) REFERENCES users(uid) ON DELETE CASCADE
);";

/// The `CREATE TABLE` statement of the `log_likes` table.
pub const LOG_LIKES_TABLE_SQL: &'static str = "CREATE TABLE log_likes (
    user_uid INTEGER NOT NULL,
    log_uid INTEGER NOT NULL,
    is_like BOOLEAN NOT NULL, -- like or dislike
    PRIMARY KEY (user_uid, log_uid),
    FOREIGN KEY (user_uid) REFERENCES users(uid) ON DELETE CASCADE,
    FOREIGN KEY (log_uid) REFERENCES logs(uid) ON DELETE CASCADE
);";

/// The `CREATE TABLE` statement of the `project_likes` table.
pub const PROJECT_LIKES_TABLE_SQL: &'static str = "CREATE TABLE project_likes (
    user_uid INTEGER NOT NULL,
    project_uid INTEGER NOT NULL,
    is_like BOOLEAN NOT NULL, -- like or dislike
    PRIMARY KEY (user_uid, project_uid),
    FOREIGN KEY (user_uid) REFERENCES users(uid) ON DELETE CASCADE,
    FOREIGN KEY (project_uid) REFERENCES projects(uid) ON DELETE CASCADE
);";

/// The `CREATE TABLE` statement of the `user_likes` table.
pub const USER_LIKES_TABLE_SQL: &'static str = "CREATE TABLE user_likes (
    user_uid INTEGER NOT NULL,
    user_profile_uid INTEGER NOT NULL,
    is_like BOOLEAN NOT NULL, -- like or dislike
    PRIMARY KEY (user_uid, user_profile_uid),
    FOREIGN KEY (user_uid) REFERENCES users(uid) ON DELETE CASCADE,
    FOREIGN KEY (user_profile_uid) REFERENCES users(uid) ON DELETE CASCADE
);";

/// The `CREATE TABLE` statement of the `user_follows` table.
pub const USER_FOLLOWS_TABLE_SQL: &'static str = "CREATE TABLE user_follows (
    user_uid INTEGER NOT NULL,
    user_profile_uid INTEGER NOT NULL,
    PRIMARY KEY (user_uid, user_profile_uid),
    FOREIGN KEY (user_uid) REFERENCES users(uid) ON DELETE CASCADE,
    FOREIGN KEY (user_profile_uid) REFERENCES users(uid) ON DELETE CASCADE
);";

/// The tables the site needs, each with its `CREATE TABLE` statement.
pub open spec fn table_schemas_of() -> Seq<(Seq<char>, Seq<char>)> {
    seq![
        ("users"@, USERS_TABLE_SQL@),
        ("projects"@, PROJECTS_TABLE_SQL@),
        ("logs"@, LOGS_TABLE_SQL@),
        ("log_comments"@, LOG_COMMENTS_TABLE_SQL@),
        ("log_likes"@, LOG_LIKES_TABLE_SQL@),
        ("project_likes"@, PROJECT_LIKES_TABLE_SQL@),
        ("user_likes"@, USER_LIKES_TABLE_SQL@),
        ("user_follows"@, USER_FOLLOWS_TABLE_SQL@)
    ]
}

/// The tables the site needs, each with its `CREATE TABLE` statement.
pub fn table_schemas() -> (r: Vec<(&'static str, &'static str)>)
    ensures
        r@.map_values(|p: (&'static str, &'static str)| (p.0@, p.1@)) == table_schemas_of(),
{
    let mut v: Vec<(&'static str, &'static str)> = Vec::new();
    v.push(("users", USERS_TABLE_SQL));
    v.push(("projects", PROJECTS_TABLE_SQL));
    v.push(("logs", LOGS_TABLE_SQL));
    v.push(("log_comments", LOG_COMMENTS_TABLE_SQL));
    v.push(("log_likes", LOG_LIKES_TABLE_SQL));
    v.push(("project_likes", PROJECT_LIKES_TABLE_SQL));
    v.push(("user_likes", USER_LIKES_TABLE_SQL));
    v.push(("user_follows", USER_FOLLOWS_TABLE_SQL));
    assert(v@.map_values(|p: (&'static str, &'static str)| (p.0@, p.1@)) =~= table_schemas_of());
    v
}

/// Whether sqlparser parses `sql` under its SQLite dialect.
pub uninterp spec fn sqlite_parses(sql: Seq<char>) -> bool;

/// Whether sqlparser parses two SQL texts, under its SQLite dialect, to equal
/// statement lists.
pub uninterp spec fn same_sqlite_ast(a: Seq<char>, b: Seq<char>) -> bool;

/// `sqlparser::parser::Parser::parse_sql` with `SQLiteDialect` on both texts,
/// and `PartialEq::eq` (derived by sqlparser) on the two statement lists:
/// whether both parse, to equal statements.
#[verifier::external_body]
fn same_sqlite_statements(a: &str, b: &str) -> (r: bool)
    ensures
        r == (sqlite_parses(a@) && sqlite_parses(b@) && same_sqlite_ast(a@, b@)),
{
    let dialect = sqlparser::dialect::SQLiteDialect {};
    match (
        sqlparser::parser::Parser::parse_sql(&dialect, a),
        sqlparser::parser::Parser::parse_sql(&dialect, b),
    ) {
        (Ok(x), Ok(y)) => x == y,
        _ => false,
    }
}

/// Whether a table's stored `CREATE TABLE` statement says what the expected
/// one says: both parse as SQLite, to equal syntax trees (so spacing and
/// comments do not count).
pub fn schema_matches(expected_sql: &str, actual_sql: &str) -> (r: bool)
    ensures
        r == (sqlite_parses(expected_sql@) && sqlite_parses(actual_sql@) && same_sqlite_ast(
            expected_sql@,
            actual_sql@,
        )),
{
    same_sqlite_statements(expected_sql, actual_sql)
}

/// What the start-up check does with a table.
#[derive(PartialEq, Eq, Structural, Debug, Clone, Copy)]
pub enum TableAction {
    /// The table exists with the expected schema.
    Keep,
    /// The table exists with another schema; this is reported, and the check
    /// fails.
    Mismatch,
    /// The table does not exist and is created.
    Create,
}

/// Decides what to do with a table, given the `CREATE TABLE` statement the
/// database holds for it (`None` where there is no such table).
pub fn check_table_schema(expected_sql: &str, stored_sql: Option<&str>) -> (r: TableAction)
    ensures
        stored_sql is None ==> r == TableAction::Create,
        stored_sql matches Some(s) ==> r == (if sqlite_parses(expected_sql@) && sqlite_parses(s@)
            && same_sqlite_ast(expected_sql@, s@) {
            TableAction::Keep
        } else {
            TableAction::Mismatch
        }),
{
    match stored_sql {
        None => TableAction::Create,
        Some(s) => if schema_matches(expected_sql, s) {
            TableAction::Keep
        } else {
            TableAction::Mismatch
        },
    }
}

/// The statement that records a like or dislike (replacing an earlier one).
pub open spec fn set_like_sql_of(target: LikeTarget) -> Seq<char> {
    match target {
        LikeTarget::Log => "INSERT INTO log_likes (user_uid, log_uid, is_like) VALUES (?, ?, ?) ON CONFLICT(user_uid, log_uid) DO UPDATE SET is_like = excluded.is_like"@,
        LikeTarget::Project => "INSERT INTO project_likes (user_uid, project_uid, is_like) VALUES (?, ?, ?) ON CONFLICT(user_uid, project_uid) DO UPDATE SET is_like = excluded.is_like"@,
        LikeTarget::User => "INSERT INTO user_likes (user_uid, user_profile_uid, is_like) VALUES (?, ?, ?) ON CONFLICT(user_uid, user_profile_uid) DO UPDATE SET is_like = excluded.is_like"@,
    }
}

/// The statement that removes a like or dislike.
pub open spec fn unset_like_sql_of(target: LikeTarget) -> Seq<char> {
    match target {
        LikeTarget::Log => "DELETE FROM log_likes WHERE user_uid = ? AND log_uid = ?"@,
        LikeTarget::Project => "DELETE FROM project_likes WHERE user_uid = ? AND project_uid = ?"@,
        LikeTarget::User => "DELETE FROM user_likes WHERE user_uid = ? AND user_profile_uid = ?"@,
    }
}

/// The statement that sets a user's reaction to a target, and whether the
/// reaction (`is_like`) is bound after the user and the target.
pub fn like_statement(target: LikeTarget, like: Option<Like>) -> (r: (&'static str, bool))
    ensures
        like is Some ==> r.0@ == set_like_sql_of(target) && r.1,
        like is None ==> r.0@ == unset_like_sql_of(target) && !r.1,
{
    match like {
        Some(_) => {
            let sql = match target {
                LikeTarget::Log => "INSERT INTO log_likes (user_uid, log_uid, is_like) VALUES (?, ?, ?) ON CONFLICT(user_uid, log_uid) DO UPDATE SET is_like = excluded.is_like",
                LikeTarget::Project => "INSERT INTO project_likes (user_uid, project_uid, is_like) VALUES (?, ?, ?) ON CONFLICT(user_uid, project_uid) DO UPDATE SET is_like = excluded.is_like",
                LikeTarget::User => "INSERT INTO user_likes (user_uid, user_profile_uid, is_like) VALUES (?, ?, ?) ON CONFLICT(user_uid, user_profile_uid) DO UPDATE SET is_like = excluded.is_like",
            };
            (sql, true)
        },
        None => {
            let sql = match target {
                LikeTarget::Log => "DELETE FROM log_likes WHERE user_uid = ? AND log_uid = ?",
                LikeTarget::Project => "DELETE FROM project_likes WHERE user_uid = ? AND project_uid = ?",
                LikeTarget::User => "DELETE FROM user_likes WHERE user_uid = ? AND user_profile_uid = ?",
            };
            (sql, false)
        },
    }
}

/// The table that holds the reactions to a kind of target.
pub open spec fn like_table_name(target: LikeTarget) -> Seq<char> {
    match target {
        LikeTarget::Log => "log_likes"@,
        LikeTarget::Project => "project_likes"@,
        LikeTarget::User => "user_likes"@,
    }
}

/// The column of a reaction table that names the target.
pub open spec fn like_subject_column(target: LikeTarget) -> Seq<char> {
    match target {
        LikeTarget::Log => "log_uid"@,
        LikeTarget::Project => "project_uid"@,
        LikeTarget::User => "user_profile_uid"@,
    }
}

/// An insert of a reaction that, where the user already reacted to the
/// target, does `action` instead.
pub open spec fn like_insert_sql(table: Seq<char>, col: Seq<char>, action: Seq<char>) -> Seq<char> {
    "INSERT INTO "@ + table + " (user_uid, "@ + col + ", is_like) VALUES (?, ?, ?) ON CONFLICT(user_uid, "@
        + col + ") DO "@ + action
}

/// The removal of a user's reaction to a target.
pub open spec fn like_delete_sql(table: Seq<char>, col: Seq<char>) -> Seq<char> {
    "DELETE FROM "@ + table + " WHERE user_uid = ? AND "@ + col + " = ?"@
}

/// What SQLite does to the rows of the reaction table of `target` when it
/// runs `sql` with the user, the target and `is_like` bound in that order.
/// The rows are keyed by (user, target), the table's primary key, and hold
/// `is_like`. `None` for a statement of another shape.
pub open spec fn like_statement_effect(
    sql: Seq<char>,
    target: LikeTarget,
    rows: Map<(i64, i64), bool>,
    user: i64,
    subject: i64,
    is_like: bool,
) -> Option<Map<(i64, i64), bool>> {
    let table = like_table_name(target);
    let col = like_subject_column(target);
    if sql == like_insert_sql(table, col, "UPDATE SET is_like = excluded.is_like"@) {
        Some(rows.insert((user, subject), is_like))
    } else if sql == like_insert_sql(table, col, "NOTHING"@) {
        Some(
            if rows.dom().contains((user, subject)) {
                rows
            } else {
                rows.insert((user, subject), is_like)
            },
        )
    } else if sql == like_delete_sql(table, col) {
        Some(rows.remove((user, subject)))
    } else {
        None
    }
}

proof fn lemma_like_sql_shapes(target: LikeTarget)
    ensures
        set_like_sql_of(target) == like_insert_sql(
            like_table_name(target),
            like_subject_column(target),
            "UPDATE SET is_like = excluded.is_like"@,
        ),
        unset_like_sql_of(target) == like_delete_sql(
            like_table_name(target),
            like_subject_column(target),
        ),
        unset_like_sql_of(target)[0] == 'D',
        like_insert_sql(like_table_name(target), like_subject_column(target), "NOTHING"@)[0] == 'I',
        like_insert_sql(
            like_table_name(target),
            like_subject_column(target),
            "UPDATE SET is_like = excluded.is_like"@,
        )[0] == 'I',
{
    reveal_strlit("INSERT INTO ");
    reveal_strlit(" (user_uid, ");
    reveal_strlit(", is_like) VALUES (?, ?, ?) ON CONFLICT(user_uid, ");
    reveal_strlit(") DO ");
    reveal_strlit("UPDATE SET is_like = excluded.is_like");
    reveal_strlit("NOTHING");
    reveal_strlit("DELETE FROM ");
    reveal_strlit(" WHERE user_uid = ? AND ");
    reveal_strlit(" = ?");
    reveal_strlit("log_likes");
    reveal_strlit("project_likes");
    reveal_strlit("user_likes");
    reveal_strlit("log_uid");
    reveal_strlit("project_uid");
    reveal_strlit("user_profile_uid");
    reveal_strlit("INSERT INTO log_likes (user_uid, log_uid, is_like) VALUES (?, ?, ?) ON CONFLICT(user_uid, log_uid) DO UPDATE SET is_like = excluded.is_like");
    reveal_strlit("INSERT INTO project_likes (user_uid, project_uid, is_like) VALUES (?, ?, ?) ON CONFLICT(user_uid, project_uid) DO UPDATE SET is_like = excluded.is_like");
    reveal_strlit("INSERT INTO user_likes (user_uid, user_profile_uid, is_like) VALUES (?, ?, ?) ON CONFLICT(user_uid, user_profile_uid) DO UPDATE SET is_like = excluded.is_like");
    reveal_strlit("DELETE FROM log_likes WHERE user_uid = ? AND log_uid = ?");
    reveal_strlit("DELETE FROM project_likes WHERE user_uid = ? AND project_uid = ?");
    reveal_strlit("DELETE FROM user_likes WHERE user_uid = ? AND user_profile_uid = ?");
    let table = like_table_name(target);
    let col = like_subject_column(target);
    assert(set_like_sql_of(target) =~= like_insert_sql(
        table,
        col,
        "UPDATE SET is_like = excluded.is_like"@,
    ));
    assert(unset_like_sql_of(target) =~= like_delete_sql(table, col));
}

/// A like or dislike replaces whatever the user had: after its statement runs,
/// the table holds exactly one row for the user and the target, with the
/// reaction given, whether or not a row was there before, and every other row
/// as it was. An unlike removes that row and leaves the others.
pub proof fn law_like_statement_sets_reaction(
    target: LikeTarget,
    like: Option<Like>,
    rows: Map<(i64, i64), bool>,
    user: i64,
    subject: i64,
)
    ensures
        like matches Some(l) ==> (like_statement_effect(
            set_like_sql_of(target),
            target,
            rows,
            user,
            subject,
            l.is_like,
        ) matches Some(after) && after.dom().contains((user, subject)) && after[(user, subject)]
            == l.is_like && forall|k: (i64, i64)|
            k != (user, subject) ==> (after.dom().contains(k) == rows.dom().contains(k) && (
            rows.dom().contains(k) ==> after[k] == rows[k]))),
        like is None ==> (like_statement_effect(
            unset_like_sql_of(target),
            target,
            rows,
            user,
            subject,
            false,
        ) matches Some(after) && !after.dom().contains((user, subject)) && forall|k: (i64, i64)|
            k != (user, subject) ==> (after.dom().contains(k) == rows.dom().contains(k) && (
            rows.dom().contains(k) ==> after[k] == rows[k]))),
{
    lemma_like_sql_shapes(target);
}

/// A log in a news feed, with its author and project.
pub struct News {
    pub username: String,
    pub displayname: String,
    pub project_title: String,
    pub project_slug: String,
    pub log_title: String,
    pub log_number: i64,
    pub log_created_on: i64,
}

} // verus!

use logsday::newlog::{
    file_response, log_dir_path, may_delete_from_log, may_upload_to_log, newlog_num_at, next_log_number_after,
    upload_web_path, NewlogResult,
};
use logsday::site::{LogEntry, Project, User};
use logsday::week::DAY_SECS;

fn user(admin: bool) -> User {
    User {
        uid: 7,
        username: "ann".to_string(),
        displayname: "Ann".to_string(),
        password: "x".to_string(),
        week_len: 7,
        logsday_weekday: 3,
        schedule_last_changed: 0,
        admin,
        created_on: 0,
    }
}

fn project() -> Project {
    Project {
        uid: 3,
        user_uid: 7,
        title: "Game".to_string(),
        slug: "game".to_string(),
        description: String::new(),
        created_on: 0,
    }
}

fn log(number: i64, created_on: i64) -> LogEntry {
    LogEntry { uid: 9, project_uid: 3, title: "l".to_string(), number, created_on }
}

// 70 days after the epoch is a Thursday (weekday 3) of a seven-day week.
const THURSDAY: i64 = 70 * DAY_SECS + 500;

#[test]
fn new_log_numbers() {
    match newlog_num_at(THURSDAY, &user(false), Some(project()), Some(log(4, 0)), Some(log(4, 63 * DAY_SECS))) {
        NewlogResult::New(p, n) => {
            assert_eq!(p.slug, "game");
            assert_eq!(n, 5);
        },
        _ => panic!("expected a new log"),
    }
    match newlog_num_at(THURSDAY, &user(false), Some(project()), None, None) {
        NewlogResult::New(_, n) => assert_eq!(n, 1),
        _ => panic!("expected a new log"),
    }
}

#[test]
fn new_log_refusals() {
    assert!(matches!(newlog_num_at(THURSDAY, &user(false), None, None, None), NewlogResult::ProjectNotFound));
    assert!(matches!(
        newlog_num_at(THURSDAY + DAY_SECS, &user(false), Some(project()), None, None),
        NewlogResult::NotLogsday
    ));
    assert!(matches!(
        newlog_num_at(THURSDAY, &user(false), Some(project()), Some(log(2, 70 * DAY_SECS)), Some(log(2, 70 * DAY_SECS))),
        NewlogResult::AlreadyUploaded
    ));
}

#[test]
fn law_admin_posts_any_day_any_number_of_times() {
    match newlog_num_at(THURSDAY + DAY_SECS, &user(true), Some(project()), Some(log(2, THURSDAY)), Some(log(2, THURSDAY))) {
        NewlogResult::New(_, n) => assert_eq!(n, 3),
        _ => panic!("admins may always post"),
    }
}

#[test]
fn file_descriptions() {
    let info = file_response("ü b.png", 42, "/uploads/ann/game/1/ü b.png");
    assert_eq!(info.filename, "ü b.png");
    assert_eq!(info.filesize, 42);
    assert_eq!(info.filepath, "/uploads/ann/game/1/%C3%BC%20b.png");
    let info = file_response("x", 0, "/a_b.c-d~e/F9?&");
    assert_eq!(info.filepath, "/a_b.c-d~e/F9%3F%26");
}

#[test]
fn log_paths() {
    assert_eq!(log_dir_path("ann", "game", 12), "uploads/users/ann/game/12");
    assert_eq!(log_dir_path("ann", "game", -3), "uploads/users/ann/game/-3");
    assert_eq!(log_dir_path("a", "b", i64::MIN), format!("uploads/users/a/b/{}", i64::MIN));
    assert_eq!(upload_web_path("ann", "game", 0, "a.png"), "/uploads/ann/game/0/a.png");
}

#[test]
fn upload_and_delete_targets() {
    let last = Some(log(4, 0));
    assert_eq!(next_log_number_after(&last), 5);
    assert_eq!(next_log_number_after(&None), 1);
    assert!(may_upload_to_log(5, &last));
    assert!(may_upload_to_log(2, &last));
    assert!(!may_upload_to_log(6, &last));
    assert!(may_delete_from_log(5, &last));
    assert!(!may_delete_from_log(4, &last));
    assert!(may_delete_from_log(1, &None));
}

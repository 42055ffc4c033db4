//! Starting a new log: whether a user may post one now and which number it
//! gets, and how uploaded files are described and found.

use vstd::prelude::*;
use crate::site::{LogEntry, Project, User};
use crate::text::{decimal, i64_to_decimal};
use crate::urlencode::{url_encode, url_encoded};
use crate::week::{
    DAY_SECS, UnixTime, days_between, days_since_at, fits_i64, is_logsday_tz_at, tdiv,
    valid_week_len, weekday_of,
};

verus! {

/// The answer to "may this user start a new log in this project now?".
pub enum NewlogResult {
    /// Yes: the project, and the number the new log gets.
    New(Project, i64),
    /// No: today is not the user's Logsday.
    NotLogsday,
    /// No: the user has no project with that slug.
    ProjectNotFound,
    /// No: the user already posted a log today.
    AlreadyUploaded,
}

/// The number of the next log of a project whose latest log is `last`.
pub open spec fn next_log_number(last: Option<LogEntry>) -> int {
    match last {
        Some(l) => l.number + 1,
        None => 1,
    }
}

/// When the user's latest log was created (the epoch where there is none).
pub open spec fn last_log_time(last: Option<LogEntry>) -> int {
    match last {
        Some(l) => l.created_on as int,
        None => 0,
    }
}

/// The inputs on which deciding can be done without a failing check or an
/// overflow: the week length is valid and the latest log is not from a later
/// day (both looked at only for users who are not admins), and, where a new
/// log may be started, its number fits in an `i64`.
pub open spec fn newlog_decidable(
    now: int,
    user: User,
    project: Option<Project>,
    last_project_log: Option<LogEntry>,
    last_log: Option<LogEntry>,
) -> bool {
    project is Some ==> {
        &&& !user.admin ==> valid_week_len(user.week_len as int)
        &&& !user.admin && weekday_of(now, user.week_len as int, 0) == user.logsday_weekday ==> tdiv(
            last_log_time(last_log),
            DAY_SECS as int,
        ) <= tdiv(now, DAY_SECS as int)
        &&& (user.admin || (weekday_of(now, user.week_len as int, 0) == user.logsday_weekday
            && days_between(last_log_time(last_log), now) != 0)) ==> fits_i64(
            next_log_number(last_project_log),
        )
    }
}

/// Decides, at time `now`, whether `user` may start a new log in `project`
/// (`None` where the user has no such project), given the project's latest
/// log and the user's latest log over all projects. Admins may post any day
/// and any number of times.
pub fn newlog_num_at(
    now: UnixTime,
    user: &User,
    project: Option<Project>,
    last_project_log: Option<LogEntry>,
    last_log: Option<LogEntry>,
) -> (r: NewlogResult)
    requires
        newlog_decidable(now as int, *user, project, last_project_log, last_log),
    ensures
        project is None ==> r is ProjectNotFound,
        project is Some && !user.admin && weekday_of(now as int, user.week_len as int, 0)
            != user.logsday_weekday ==> r is NotLogsday,
        project is Some && !user.admin && weekday_of(now as int, user.week_len as int, 0)
            == user.logsday_weekday && days_between(last_log_time(last_log), now as int) == 0
            ==> r is AlreadyUploaded,
        r matches NewlogResult::New(p, n) ==> project == Some(p) && n == next_log_number(
            last_project_log,
        ) && (user.admin || (weekday_of(now as int, user.week_len as int, 0)
            == user.logsday_weekday && days_between(last_log_time(last_log), now as int) != 0)),
        project is Some && (user.admin || (weekday_of(now as int, user.week_len as int, 0)
            == user.logsday_weekday && days_between(last_log_time(last_log), now as int) != 0))
            ==> r is New,
{
    let proj = match project {
        Some(p) => p,
        None => {
            return NewlogResult::ProjectNotFound;
        },
    };
    let last_number = match &last_project_log {
        Some(l) => l.number,
        None => 0,
    };
    if !user.admin {
        if !is_logsday_tz_at(now, user.week_len, user.logsday_weekday, 0) {
            return NewlogResult::NotLogsday;
        }
        let last_time = match &last_log {
            Some(l) => l.created_on,
            None => 0,
        };
        if days_since_at(now, last_time) == 0 {
            return NewlogResult::AlreadyUploaded;
        }
    }
    NewlogResult::New(proj, last_number + 1)
}

/// The number the next log of a project gets, given its latest log.
pub fn next_log_number_after(last_project_log: &Option<LogEntry>) -> (r: i64)
    requires
        fits_i64(next_log_number(*last_project_log)),
    ensures
        r == next_log_number(*last_project_log),
{
    match last_project_log {
        Some(l) => l.number + 1,
        None => 1,
    }
}

/// Whether files may be uploaded to log `log_number` of a project: to an
/// existing log, or to the one being written next.
pub fn may_upload_to_log(log_number: i64, last_project_log: &Option<LogEntry>) -> (r: bool)
    requires
        fits_i64(next_log_number(*last_project_log)),
    ensures
        r == (log_number <= next_log_number(*last_project_log)),
{
    log_number <= next_log_number_after(last_project_log)
}

/// Whether files of log `log_number` may be deleted: only of the log being
/// written next.
pub fn may_delete_from_log(log_number: i64, last_project_log: &Option<LogEntry>) -> (r: bool)
    requires
        fits_i64(next_log_number(*last_project_log)),
    ensures
        r == (log_number == next_log_number(*last_project_log)),
{
    log_number == next_log_number_after(last_project_log)
}

/// How an uploaded file is described to the editor: its name, size, and the
/// URL-encoded address it is served under.
pub struct FileInfo {
    pub filename: String,
    pub filesize: u64,
    pub filepath: String,
}

/// Describes an uploaded file.
pub fn file_response(file_name: &str, incoming_size: u64, log_file_web_path: &str) -> (r: FileInfo)
    ensures
        r.filename@ == file_name@,
        r.filesize == incoming_size,
        r.filepath@ == url_encoded(log_file_web_path@),
{
    FileInfo {
        filename: file_name.to_owned(),
        filesize: incoming_size,
        filepath: url_encode(log_file_web_path),
    }
}

/// The directory of a log: `uploads/users/{user}/{project}/{number}`.
pub open spec fn log_dir_path_of(username: Seq<char>, project_slug: Seq<char>, log_num: int) -> Seq<
    char,
> {
    "uploads/users/"@ + username + "/"@ + project_slug + "/"@ + decimal(log_num)
}

/// The address a log's file is served under:
/// `/uploads/{user}/{project}/{number}/{file}`.
pub open spec fn upload_web_path_of(
    username: Seq<char>,
    project_slug: Seq<char>,
    log_num: int,
    file_name: Seq<char>,
) -> Seq<char> {
    "/uploads/"@ + username + "/"@ + project_slug + "/"@ + decimal(log_num) + "/"@ + file_name
}

/// Builds the directory of a log.
pub fn log_dir_path(username: &str, project_slug: &str, log_num: i64) -> (r: String)
    ensures
        r@ == log_dir_path_of(username@, project_slug@, log_num as int),
{
    let mut s = String::from_str("uploads/users/");
    s.append(username);
    s.append("/");
    s.append(project_slug);
    s.append("/");
    let n = i64_to_decimal(log_num);
    s.append(n.as_str());
    s
}

/// Builds the address a log's file is served under.
pub fn upload_web_path(username: &str, project_slug: &str, log_num: i64, file_name: &str) -> (r:
    String)
    ensures
        r@ == upload_web_path_of(username@, project_slug@, log_num as int, file_name@),
{
    let mut s = String::from_str("/uploads/");
    s.append(username);
    s.append("/");
    s.append(project_slug);
    s.append("/");
    let n = i64_to_decimal(log_num);
    s.append(n.as_str());
    s.append("/");
    s.append(file_name);
    s
}

} // verus!

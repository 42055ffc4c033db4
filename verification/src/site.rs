//! The site's records and the rules its requests follow: sign-up, new
//! projects, logs, uploads, comments and likes.

use vstd::prelude::*;
use crate::filestuff::{
    MediaType, filename_valid, inferred_mime, is_valid_filename, media_type_of, mime_media_type,
    mime_media_type_of, normalize_extension, normalized_name, verify_magic_bytes_match_extension,
};
use crate::slug::{is_valid_slug, slug_from, slug_of, slug_valid};
use crate::text::{last_index_of, str_eq, trim, trimmed};
use crate::clock::ClockAnswer;
use crate::week::{DAY_SECS, UnixTime, days_between, days_since, days_since_at, tdiv};

verus! {

/// The number of bytes a string takes in UTF-8 (what `str::len` counts).
pub open spec fn byte_len(s: Seq<char>) -> nat {
    vstd::utf8::encode_utf8(s).len()
}

fn utf8_len(s: &str) -> (r: usize)
    ensures
        r == byte_len(s@),
{
    s.as_bytes().len()
}

/// A user account.
pub struct User {
    pub uid: i64,
    pub username: String,
    pub displayname: String,
    pub password: String,
    pub week_len: i64,
    pub logsday_weekday: i64,
    pub schedule_last_changed: UnixTime,
    pub admin: bool,
    pub created_on: UnixTime,
}

/// A project of a user; its logs are numbered from 1.
pub struct Project {
    pub uid: i64,
    pub user_uid: i64,
    pub title: String,
    pub slug: String,
    pub description: String,
    pub created_on: UnixTime,
}

/// A log of a project.
pub struct LogEntry {
    pub uid: i64,
    pub project_uid: i64,
    pub title: String,
    pub number: i64,
    pub created_on: UnixTime,
}

/// A comment on a log, with its author's names.
pub struct Comment {
    pub displayname: String,
    pub username: String,
    pub text: String,
    pub created_on: UnixTime,
}

impl LogEntry {
    /// Whether the log may still be edited at time `now`: only on the (UTC)
    /// day it was created. Admins are not considered here.
    pub fn can_edit_at(&self, now: UnixTime) -> (r: bool)
        requires
            tdiv(self.created_on as int, DAY_SECS as int) <= tdiv(now as int, DAY_SECS as int),
        ensures
            r == (days_between(self.created_on as int, now as int) == 0),
    {
        days_since_at(now, self.created_on) == 0
    }

    /// Whether the log may still be edited now, with the clock reading it was
    /// decided at. No answer where the clock reads before the epoch or before
    /// the day the log was created.
    pub fn can_edit(&self) -> (r: ClockAnswer<bool>)
        ensures
            r.answer is Some <==> (r.reading matches Some(t) && tdiv(
                self.created_on as int,
                DAY_SECS as int,
            ) <= tdiv(t as int, DAY_SECS as int)),
            r.answer matches Some(b) ==> (r.reading matches Some(t) && b == (days_between(
                self.created_on as int,
                t as int,
            ) == 0)),
            r.answer matches Some(b) ==> exists|t: i64|
                tdiv(self.created_on as int, DAY_SECS as int) <= tdiv(t as int, DAY_SECS as int)
                    && b == (days_between(self.created_on as int, t as int) == 0),
    {
        let d = days_since(self.created_on);
        let answer = match d.answer {
            Some(days) => Some(days == 0),
            None => None,
        };
        ClockAnswer { reading: d.reading, answer }
    }
}

/// The weekday names, Monday first.
pub open spec fn weekday_names() -> Seq<Seq<char>> {
    seq![
        "Monday"@,
        "Tuesday"@,
        "Wednesday"@,
        "Thursday"@,
        "Friday"@,
        "Saturday"@,
        "Sunday"@
    ]
}

/// The index into the weekday names for a weekday one week off at most.
pub open spec fn weekday_index(day: int) -> int {
    if day < 0 {
        day + 7
    } else if day > 6 {
        day - 7
    } else {
        day
    }
}

/// The name of a weekday (Monday = 0); a day of the week before or after is
/// brought into range first.
pub fn get_weekday_name(cur_day: i64) -> (r: &'static str)
    requires
        -7 <= cur_day <= 13,
    ensures
        r@ == weekday_names()[weekday_index(cur_day as int)],
{
    let mut d = cur_day;
    if d < 0 {
        d += 7;
    }
    if d > 6 {
        d -= 7;
    }
    if d == 0 {
        "Monday"
    } else if d == 1 {
        "Tuesday"
    } else if d == 2 {
        "Wednesday"
    } else if d == 3 {
        "Thursday"
    } else if d == 4 {
        "Friday"
    } else if d == 5 {
        "Saturday"
    } else {
        "Sunday"
    }
}

/// The longest display name, user name, password, title or slug, in bytes.
pub const MAX_NAME_BYTES: usize = 255;

/// Why a sign-up is refused.
#[derive(PartialEq, Eq, Structural, Debug, Clone, Copy)]
pub enum SignupError {
    /// The display name is empty or white space.
    EmptyDisplayname,
    /// The display name, user name or password is longer than 255 bytes.
    TooLong,
    /// The user name holds a character that may not stand in a slug.
    InvalidUsername,
    /// The week is not 7 or 8 days long, or the Logsday is not 0 to 6.
    InvalidSchedule,
}

/// An accepted sign-up: the names to store and the stored Logsday.
pub struct Signup {
    pub displayname: String,
    pub username: String,
    pub logsday_weekday: i64,
}

/// The user name of a sign-up: the one given, or, where it is blank, the
/// slug of the display name.
pub open spec fn signup_username(displayname: Seq<char>, username: Seq<char>) -> Seq<char> {
    if trimmed(username).len() == 0 {
        slug_of(trimmed(displayname))
    } else {
        username
    }
}

/// The Logsday stored for a schedule: in an eight-day week the weekdays after
/// Monday move up by one (Sunday is 6 in a seven-day week and 7 in an
/// eight-day week).
pub open spec fn stored_logsday(week_len: int, logsday_weekday: int) -> int {
    if week_len == 7 {
        logsday_weekday
    } else {
        logsday_weekday + 1
    }
}

/// The error of a sign-up, if any, in the order the checks are made.
pub open spec fn signup_error(
    displayname: Seq<char>,
    username: Seq<char>,
    password: Seq<char>,
    week_len: int,
    logsday_weekday: int,
) -> Option<SignupError> {
    let dn = trimmed(displayname);
    let un = signup_username(displayname, username);
    if dn.len() == 0 {
        Some(SignupError::EmptyDisplayname)
    } else if byte_len(dn) > 255 || byte_len(un) > 255 || byte_len(password) > 255 {
        Some(SignupError::TooLong)
    } else if !is_valid_slug(un) {
        Some(SignupError::InvalidUsername)
    } else if (week_len != 7 && week_len != 8) || logsday_weekday < 0 || logsday_weekday > 6 {
        Some(SignupError::InvalidSchedule)
    } else {
        None
    }
}

/// Checks a sign-up form and works out what to store.
pub fn validate_signup(
    displayname: &str,
    username: &str,
    password: &str,
    week_len: i64,
    logsday_weekday: i64,
) -> (r: Result<Signup, SignupError>)
    ensures
        r matches Err(e) ==> signup_error(displayname@, username@, password@, week_len as int, logsday_weekday as int) == Some(e),
        r matches Ok(s) ==> {
            &&& signup_error(displayname@, username@, password@, week_len as int, logsday_weekday as int) is None
            &&& s.displayname@ == trimmed(displayname@)
            &&& s.username@ == signup_username(displayname@, username@)
            &&& s.logsday_weekday == stored_logsday(week_len as int, logsday_weekday as int)
        },
{
    let dn = trim(displayname);
    if dn.is_empty() {
        return Err(SignupError::EmptyDisplayname);
    }
    let un = if trim(username).is_empty() {
        slug_from(dn)
    } else {
        username.to_owned()
    };
    if utf8_len(dn) > MAX_NAME_BYTES || utf8_len(un.as_str()) > MAX_NAME_BYTES || utf8_len(password)
        > MAX_NAME_BYTES {
        return Err(SignupError::TooLong);
    }
    if !slug_valid(un.as_str()) {
        return Err(SignupError::InvalidUsername);
    }
    if (week_len != 7 && week_len != 8) || logsday_weekday < 0 || logsday_weekday > 6 {
        return Err(SignupError::InvalidSchedule);
    }
    let stored = if week_len == 7 {
        logsday_weekday
    } else {
        logsday_weekday + 1
    };
    Ok(Signup { displayname: dn.to_owned(), username: un, logsday_weekday: stored })
}

/// The longest project description, in bytes.
pub const MAX_DESCRIPTION_BYTES: usize = 65535;

/// Why a new project is refused.
#[derive(PartialEq, Eq, Structural, Debug, Clone, Copy)]
pub enum NewProjectError {
    /// The title or slug is longer than 255 bytes.
    TooLong,
    /// The title or slug is empty.
    Empty,
    /// The description is longer than 65535 bytes.
    DescriptionTooLong,
    /// The thumbnail is not a picture.
    UnsupportedThumbnail,
    /// The slug holds a character that may not stand in a slug.
    InvalidSlug,
}

/// The slug of a new project: the one given, or, where it is empty, the slug
/// of the title.
pub open spec fn project_slug(title: Seq<char>, slug: Seq<char>) -> Seq<char> {
    if byte_len(slug) == 0 {
        slug_of(title)
    } else {
        slug
    }
}

/// The error of a new project, if any, in the order the checks are made.
pub open spec fn new_project_error(
    title: Seq<char>,
    slug: Seq<char>,
    description: Seq<char>,
    thumbnail_mime: Seq<char>,
) -> Option<NewProjectError> {
    let ps = project_slug(title, slug);
    if byte_len(title) > 255 || byte_len(ps) > 255 {
        Some(NewProjectError::TooLong)
    } else if byte_len(title) == 0 || byte_len(ps) == 0 {
        Some(NewProjectError::Empty)
    } else if byte_len(description) > 65535 {
        Some(NewProjectError::DescriptionTooLong)
    } else if mime_media_type_of(thumbnail_mime) != MediaType::Image {
        Some(NewProjectError::UnsupportedThumbnail)
    } else if !is_valid_slug(ps) {
        Some(NewProjectError::InvalidSlug)
    } else {
        None
    }
}

/// The error of a new project's names and description, if any.
pub open spec fn project_names_error(title: Seq<char>, slug: Seq<char>, description: Seq<char>) -> Option<
    NewProjectError,
> {
    let ps = project_slug(title, slug);
    if byte_len(title) > 255 || byte_len(ps) > 255 {
        Some(NewProjectError::TooLong)
    } else if byte_len(title) == 0 || byte_len(ps) == 0 {
        Some(NewProjectError::Empty)
    } else if byte_len(description) > 65535 {
        Some(NewProjectError::DescriptionTooLong)
    } else {
        None
    }
}

/// Checks the title, slug and description of a new project (the first
/// checks made) and returns the project's slug.
pub fn validate_project_names(title: &str, slug: &str, description: &str) -> (r: Result<
    String,
    NewProjectError,
>)
    ensures
        r matches Err(e) ==> project_names_error(title@, slug@, description@) == Some(e),
        r matches Ok(s) ==> project_names_error(title@, slug@, description@) is None && s@
            == project_slug(title@, slug@),
{
    let ps = if utf8_len(slug) == 0 {
        slug_from(title)
    } else {
        slug.to_owned()
    };
    if utf8_len(title) > MAX_NAME_BYTES || utf8_len(ps.as_str()) > MAX_NAME_BYTES {
        return Err(NewProjectError::TooLong);
    }
    if utf8_len(title) == 0 || utf8_len(ps.as_str()) == 0 {
        return Err(NewProjectError::Empty);
    }
    if utf8_len(description) > MAX_DESCRIPTION_BYTES {
        return Err(NewProjectError::DescriptionTooLong);
    }
    Ok(ps)
}

/// Checks the thumbnail (by its MIME type) and then the slug of a new
/// project (the last checks made).
pub fn validate_project_media(project_slug: &str, thumbnail_mime: &str) -> (r: Result<
    (),
    NewProjectError,
>)
    ensures
        r == (if mime_media_type_of(thumbnail_mime@) != MediaType::Image {
            Err(NewProjectError::UnsupportedThumbnail)
        } else if !is_valid_slug(project_slug@) {
            Err(NewProjectError::InvalidSlug)
        } else {
            Ok(())
        }),
{
    if mime_media_type(thumbnail_mime) != MediaType::Image {
        return Err(NewProjectError::UnsupportedThumbnail);
    }
    if !slug_valid(project_slug) {
        return Err(NewProjectError::InvalidSlug);
    }
    Ok(())
}

/// Checks a new-project form (the thumbnail by its MIME type) and returns
/// the project's slug.
pub fn validate_new_project(
    title: &str,
    slug: &str,
    description: &str,
    thumbnail_mime: &str,
) -> (r: Result<String, NewProjectError>)
    ensures
        r matches Err(e) ==> new_project_error(title@, slug@, description@, thumbnail_mime@) == Some(e),
        r matches Ok(s) ==> new_project_error(title@, slug@, description@, thumbnail_mime@) is None
            && s@ == project_slug(title@, slug@),
{
    let ps = validate_project_names(title, slug, description)?;
    match validate_project_media(ps.as_str(), thumbnail_mime) {
        Ok(()) => Ok(ps),
        Err(e) => Err(e),
    }
}

/// The longest log text, and the longest comment, in bytes (1 MiB).
pub const MAX_TEXT_BYTES: usize = 1048576;

/// The most space the files a log links may take (1 GiB).
pub const MAX_LOG_LINKED_BYTES: u64 = 1073741824;

/// The most space the files uploaded for one log may take (5 GiB).
pub const MAX_LOG_UPLOAD_BYTES: u64 = 5368709120;

/// Why a log is refused.
#[derive(PartialEq, Eq, Structural, Debug, Clone, Copy)]
pub enum LogSubmitError {
    /// The title is longer than 255 bytes.
    TitleTooLong,
    /// The text is longer than 1 MiB.
    ContentTooLong,
    /// The files the log links take more than 1 GiB.
    LinkedFilesTooLarge,
}

/// Checks the title and text of a log.
pub fn validate_log_submission(title: &str, content: &str) -> (r: Result<(), LogSubmitError>)
    ensures
        r == (if byte_len(title@) > 255 {
            Err(LogSubmitError::TitleTooLong)
        } else if byte_len(content@) > 1048576 {
            Err(LogSubmitError::ContentTooLong)
        } else {
            Ok(())
        }),
{
    if utf8_len(title) > MAX_NAME_BYTES {
        return Err(LogSubmitError::TitleTooLong);
    }
    if utf8_len(content) > MAX_TEXT_BYTES {
        return Err(LogSubmitError::ContentTooLong);
    }
    Ok(())
}

/// Checks the space taken by the files a log links.
pub fn check_log_linked_size(linked_bytes: u64) -> (r: Result<(), LogSubmitError>)
    ensures
        r == (if linked_bytes > 1073741824 {
            Err(LogSubmitError::LinkedFilesTooLarge)
        } else {
            Ok(())
        }),
{
    if linked_bytes > MAX_LOG_LINKED_BYTES {
        return Err(LogSubmitError::LinkedFilesTooLarge);
    }
    Ok(())
}

/// Whether a comment is short enough to be posted (at most 1 MiB).
pub fn comment_fits(text: &str) -> (r: bool)
    ensures
        r == (byte_len(text@) <= 1048576),
{
    utf8_len(text) <= MAX_TEXT_BYTES
}

/// Why an upload is refused.
#[derive(PartialEq, Eq, Structural, Debug, Clone, Copy)]
pub enum UploadError {
    /// It is not the user's Logsday (admins may upload on any day).
    NotLogsday,
    /// The upload came without a MIME type.
    NoContentType,
    /// The MIME type is not an image, video or audio type the site shows.
    UnsupportedType,
    /// The upload came without a file name.
    NoFileName,
    /// The file name is not valid.
    InvalidFilename,
    /// The contents are not of the kind the extension claims.
    ContentMismatch,
}

/// The checks of an upload up to its file name, in the order they are made.
pub open spec fn upload_precheck(
    admin: bool,
    is_logsday: bool,
    content_type: Option<Seq<char>>,
    file_name: Option<Seq<char>>,
) -> Option<UploadError> {
    if !admin && !is_logsday {
        Some(UploadError::NotLogsday)
    } else if content_type is None {
        Some(UploadError::NoContentType)
    } else if mime_media_type_of(content_type.unwrap()) == MediaType::Unsupported {
        Some(UploadError::UnsupportedType)
    } else if file_name is None {
        Some(UploadError::NoFileName)
    } else if !is_valid_filename(file_name.unwrap()) {
        Some(UploadError::InvalidFilename)
    } else {
        None
    }
}

pub open spec fn opt_view(s: Option<&str>) -> Option<Seq<char>> {
    match s {
        Some(t) => Some(t@),
        None => None,
    }
}

/// Checks an upload and returns the name it is stored under (its extension
/// normalized). A valid file name without a `.` cannot be normalized and is
/// left out.
pub fn validate_upload(
    admin: bool,
    is_logsday: bool,
    content_type: Option<&str>,
    file_name: Option<&str>,
    contents: &[u8],
) -> (r: Result<String, UploadError>)
    requires
        upload_precheck(admin, is_logsday, opt_view(content_type), opt_view(file_name)) is None
            ==> last_index_of(file_name.unwrap()@, '.') >= 0,
    ensures
        ({
            let pre = upload_precheck(admin, is_logsday, opt_view(content_type), opt_view(file_name));
            match r {
                Err(e) => pre == Some(e) || (pre is None && e == UploadError::ContentMismatch && !(
                inferred_mime(contents@) matches Some(m) && mime_media_type_of(m) == media_type_of(
                    normalized_name(file_name.unwrap()@),
                ))),
                Ok(name) => pre is None && name@ == normalized_name(file_name.unwrap()@) && (
                inferred_mime(contents@) matches Some(m) && mime_media_type_of(m) == media_type_of(
                    name@,
                )),
            }
        }),
        upload_precheck(admin, is_logsday, opt_view(content_type), opt_view(file_name)) matches Some(e)
            ==> r == Err::<String, UploadError>(e),
{
    if !admin && !is_logsday {
        return Err(UploadError::NotLogsday);
    }
    let ct = match content_type {
        Some(ct) => ct,
        None => {
            return Err(UploadError::NoContentType);
        },
    };
    if mime_media_type(ct) == MediaType::Unsupported {
        return Err(UploadError::UnsupportedType);
    }
    let name = match file_name {
        Some(n) => n,
        None => {
            return Err(UploadError::NoFileName);
        },
    };
    if !filename_valid(name) {
        return Err(UploadError::InvalidFilename);
    }
    let normalized = normalize_extension(name);
    if !verify_magic_bytes_match_extension(normalized.as_str(), contents) {
        return Err(UploadError::ContentMismatch);
    }
    Ok(normalized)
}

/// Whether an upload fits in what is left of a log's 5 GiB.
pub fn upload_fits(current_bytes: u64, incoming_bytes: u64) -> (r: bool)
    requires
        current_bytes + incoming_bytes <= u64::MAX,
    ensures
        r == (current_bytes + incoming_bytes <= 5368709120),
{
    current_bytes + incoming_bytes <= MAX_LOG_UPLOAD_BYTES
}

/// A like (`true`) or dislike (`false`).
#[derive(PartialEq, Eq, Structural, Debug, Clone, Copy)]
pub struct Like {
    pub is_like: bool,
}

/// Counts of likes and dislikes.
#[derive(PartialEq, Eq, Structural, Debug, Clone, Copy)]
pub struct Likes {
    pub likes: i32,
    pub dislikes: i32,
}

/// What can be liked.
#[derive(PartialEq, Eq, Structural, Debug, Clone, Copy)]
pub enum LikeTarget {
    User,
    Project,
    Log,
}

/// Why a like request is refused.
#[derive(PartialEq, Eq, Structural, Debug, Clone, Copy)]
pub enum LikeRequestError {
    InvalidType,
    InvalidAction,
}

/// The target named in a like request's path (`user`, `project`, `log`).
pub open spec fn like_target_of(ty: Seq<char>) -> Option<LikeTarget> {
    if ty == "user"@ {
        Some(LikeTarget::User)
    } else if ty == "project"@ {
        Some(LikeTarget::Project)
    } else if ty == "log"@ {
        Some(LikeTarget::Log)
    } else {
        None
    }
}

/// The reaction an action sets (`like`, `dislike`, or `unlike`, which
/// removes it).
pub open spec fn like_action_of(action: Seq<char>) -> Option<Option<Like>> {
    if action == "like"@ {
        Some(Some(Like { is_like: true }))
    } else if action == "dislike"@ {
        Some(Some(Like { is_like: false }))
    } else if action == "unlike"@ {
        Some(None)
    } else {
        None
    }
}

/// Reads the type of a like request.
pub fn parse_like_target(ty: &str) -> (r: Option<LikeTarget>)
    ensures
        r == like_target_of(ty@),
{
    if str_eq(ty, "user") {
        Some(LikeTarget::User)
    } else if str_eq(ty, "project") {
        Some(LikeTarget::Project)
    } else if str_eq(ty, "log") {
        Some(LikeTarget::Log)
    } else {
        None
    }
}

/// Reads a like request: its target type, then its action.
pub fn parse_like_request(ty: &str, action: &str) -> (r: Result<(LikeTarget, Option<Like>), LikeRequestError>)
    ensures
        r == (match like_target_of(ty@) {
            None => Err(LikeRequestError::InvalidType),
            Some(t) => match like_action_of(action@) {
                None => Err(LikeRequestError::InvalidAction),
                Some(l) => Ok((t, l)),
            },
        }),
{
    let target = match parse_like_target(ty) {
        Some(t) => t,
        None => {
            return Err(LikeRequestError::InvalidType);
        },
    };
    if str_eq(action, "like") {
        Ok((target, Some(Like { is_like: true })))
    } else if str_eq(action, "dislike") {
        Ok((target, Some(Like { is_like: false })))
    } else if str_eq(action, "unlike") {
        Ok((target, None))
    } else {
        Err(LikeRequestError::InvalidAction)
    }
}


/// An accepted sign-up stores a non-empty display name, a user name that is a
/// valid slug of at most 255 bytes, and a Logsday numbered from Monday = 0 in
/// a seven-day week (0 to 6) and one higher in an eight-day week (1 to 7).
pub proof fn law_signup_accepts_valid_accounts(
    displayname: Seq<char>,
    username: Seq<char>,
    password: Seq<char>,
    week_len: int,
    logsday_weekday: int,
)
    requires
        signup_error(displayname, username, password, week_len, logsday_weekday) is None,
    ensures
        trimmed(displayname).len() > 0,
        is_valid_slug(signup_username(displayname, username)),
        byte_len(signup_username(displayname, username)) <= 255,
        week_len == 7 ==> 0 <= stored_logsday(week_len, logsday_weekday) <= 6,
        week_len == 8 ==> 1 <= stored_logsday(week_len, logsday_weekday) <= 7,
{
}

/// A blank user name is never refused as invalid: the slug made from the
/// display name is always valid.
pub proof fn law_blank_username_is_valid(
    displayname: Seq<char>,
    username: Seq<char>,
    password: Seq<char>,
    week_len: int,
    logsday_weekday: int,
)
    requires
        trimmed(username).len() == 0,
    ensures
        signup_error(displayname, username, password, week_len, logsday_weekday) != Some(
            SignupError::InvalidUsername,
        ),
{
    crate::slug::law_slug_from_is_valid(trimmed(displayname));
}

/// An accepted new project gets a slug that is valid and not empty.
pub proof fn law_new_project_slug_is_valid(
    title: Seq<char>,
    slug: Seq<char>,
    description: Seq<char>,
    thumbnail_mime: Seq<char>,
)
    requires
        new_project_error(title, slug, description, thumbnail_mime) is None,
    ensures
        is_valid_slug(project_slug(title, slug)),
        byte_len(project_slug(title, slug)) > 0,
        byte_len(project_slug(title, slug)) <= 255,
{
}
} // verus!

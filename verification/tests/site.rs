use logsday::site::{
    check_log_linked_size, comment_fits, get_weekday_name, parse_like_request, parse_like_target, upload_fits,
    validate_log_submission, validate_new_project, validate_project_media, validate_project_names, validate_signup, validate_upload, Like, LikeRequestError,
    LikeTarget, LogEntry, LogSubmitError, NewProjectError, SignupError, UploadError,
};
use logsday::slug::slug_valid;

const PNG_MAGIC: [u8; 16] = [0x89, b'P', b'N', b'G', 0x0D, 0x0A, 0x1A, 0x0A, 0, 0, 0, 0x0D, b'I', b'H', b'D', b'R'];

#[test]
fn weekday_names() {
    assert_eq!(get_weekday_name(0), "Monday");
    assert_eq!(get_weekday_name(5), "Saturday");
    assert_eq!(get_weekday_name(-2), "Saturday");
    assert_eq!(get_weekday_name(6), "Sunday");
    assert_eq!(get_weekday_name(-1), "Sunday");
    assert_eq!(get_weekday_name(7), "Monday");
    assert_eq!(get_weekday_name(13), "Sunday");
    assert_eq!(get_weekday_name(-7), "Monday");
}

#[test]
fn signup_accepted() {
    let s = validate_signup("  Jane Doe ", "", "pw", 7, 2).unwrap();
    assert_eq!(s.displayname, "Jane Doe");
    assert_eq!(s.username, "jane_doe");
    assert_eq!(s.logsday_weekday, 2);
    let s = validate_signup("Jane", "jd", "pw", 8, 6).unwrap();
    assert_eq!(s.username, "jd");
    assert_eq!(s.logsday_weekday, 7);
}

#[test]
fn signup_errors() {
    assert_eq!(validate_signup(" \t ", "jd", "pw", 7, 0).err(), Some(SignupError::EmptyDisplayname));
    assert_eq!(validate_signup(&"a".repeat(256), "jd", "pw", 7, 0).err(), Some(SignupError::TooLong));
    assert_eq!(validate_signup("Jane", "jd", &"p".repeat(256), 7, 0).err(), Some(SignupError::TooLong));
    assert_eq!(validate_signup("Jane", "Jane D", "pw", 7, 0).err(), Some(SignupError::InvalidUsername));
    assert_eq!(validate_signup("Jane", "jd", "pw", 6, 0).err(), Some(SignupError::InvalidSchedule));
    assert_eq!(validate_signup("Jane", "jd", "pw", 7, 7).err(), Some(SignupError::InvalidSchedule));
    assert_eq!(validate_signup("Jane", "jd", "pw", 8, -1).err(), Some(SignupError::InvalidSchedule));
}

#[test]
fn signup_username_untrimmed_when_given() {
    assert_eq!(validate_signup("Jane", " jd", "pw", 7, 0).err(), Some(SignupError::InvalidUsername));
    assert_eq!(validate_signup("\u{3000}Jane\u{2003}", "", "pw", 7, 0).unwrap().displayname, "Jane");
}

#[test]
fn law_signup_stores_valid_slug_and_weekday() {
    for (dn, un, w, d) in [("Ann", "", 7, 0), ("Bob Smith", "", 8, 6), ("Ç", "", 7, 6), ("x", "x-1", 8, 0)] {
        let s = validate_signup(dn, un, "pw", w, d).unwrap();
        assert!(slug_valid(&s.username));
        assert!(!s.displayname.is_empty());
        if w == 7 {
            assert!((0..=6).contains(&s.logsday_weekday));
        } else {
            assert!((1..=7).contains(&s.logsday_weekday));
        }
    }
}

#[test]
fn new_project_accepted() {
    assert_eq!(validate_new_project("My Game", "", "about", "image/png").unwrap(), "my_game");
    assert_eq!(validate_new_project("My Game", "game-2", "", "image/x-icon").unwrap(), "game-2");
}

#[test]
fn new_project_errors() {
    assert_eq!(validate_new_project(&"t".repeat(256), "s", "", "image/png").err(), Some(NewProjectError::TooLong));
    assert_eq!(validate_new_project("", "s", "", "image/png").err(), Some(NewProjectError::Empty));
    assert_eq!(
        validate_new_project("t", "s", &"d".repeat(65536), "image/png").err(),
        Some(NewProjectError::DescriptionTooLong)
    );
    assert_eq!(validate_new_project("t", "s", "", "video/mp4").err(), Some(NewProjectError::UnsupportedThumbnail));
    assert_eq!(validate_new_project("t", "Bad Slug", "", "image/png").err(), Some(NewProjectError::InvalidSlug));
}

#[test]
fn log_submissions() {
    assert_eq!(validate_log_submission("t", "body"), Ok(()));
    assert_eq!(validate_log_submission(&"t".repeat(256), "body"), Err(LogSubmitError::TitleTooLong));
    assert_eq!(validate_log_submission("t", &"b".repeat(1048577)), Err(LogSubmitError::ContentTooLong));
    assert_eq!(validate_log_submission("t", &"b".repeat(1048576)), Ok(()));
    assert_eq!(check_log_linked_size(1073741824), Ok(()));
    assert_eq!(check_log_linked_size(1073741825), Err(LogSubmitError::LinkedFilesTooLarge));
    assert!(comment_fits("hello"));
    assert!(!comment_fits(&"c".repeat(1048577)));
}

#[test]
fn uploads_accepted() {
    let name = validate_upload(false, true, Some("image/png"), Some("Shot.PNG"), &PNG_MAGIC).unwrap();
    assert_eq!(name, "Shot.png");
    let name = validate_upload(true, false, Some("image/png"), Some("a.JPEG"), &PNG_MAGIC).unwrap();
    assert_eq!(name, "a.jpg");
}

#[test]
fn upload_errors() {
    let bytes = &PNG_MAGIC;
    assert_eq!(validate_upload(false, false, Some("image/png"), Some("a.png"), bytes), Err(UploadError::NotLogsday));
    assert_eq!(validate_upload(false, true, None, Some("a.png"), bytes), Err(UploadError::NoContentType));
    assert_eq!(validate_upload(false, true, Some("text/plain"), Some("a.png"), bytes), Err(UploadError::UnsupportedType));
    assert_eq!(validate_upload(false, true, Some("image/png"), None, bytes), Err(UploadError::NoFileName));
    assert_eq!(validate_upload(false, true, Some("image/png"), Some("a/b.png"), bytes), Err(UploadError::InvalidFilename));
    assert_eq!(validate_upload(false, true, Some("image/png"), Some("a.mp4"), bytes), Err(UploadError::ContentMismatch));
    assert!(upload_fits(5368709120, 0));
    assert!(!upload_fits(5368709120, 1));
}

#[test]
fn like_requests() {
    assert_eq!(parse_like_target("log"), Some(LikeTarget::Log));
    assert_eq!(parse_like_target("Log"), None);
    assert_eq!(parse_like_request("user", "like"), Ok((LikeTarget::User, Some(Like { is_like: true }))));
    assert_eq!(parse_like_request("project", "dislike"), Ok((LikeTarget::Project, Some(Like { is_like: false }))));
    assert_eq!(parse_like_request("log", "unlike"), Ok((LikeTarget::Log, None)));
    assert_eq!(parse_like_request("post", "like"), Err(LikeRequestError::InvalidType));
    assert_eq!(parse_like_request("post", "love"), Err(LikeRequestError::InvalidType));
    assert_eq!(parse_like_request("log", "love"), Err(LikeRequestError::InvalidAction));
}

#[test]
fn editing_only_on_creation_day() {
    let log = LogEntry { uid: 1, project_uid: 2, title: "t".to_string(), number: 1, created_on: 86_400 * 5 + 10 };
    assert!(log.can_edit_at(86_400 * 5 + 80_000));
    assert!(!log.can_edit_at(86_400 * 6));
    assert_eq!(log.can_edit(), Some(false));
}

#[test]
fn new_project_checks_in_two_stages() {
    assert_eq!(validate_project_names("A B", "", "").unwrap(), "a_b");
    assert_eq!(validate_project_names("t", "", &"d".repeat(65536)).err(), Some(NewProjectError::DescriptionTooLong));
    assert_eq!(validate_project_names("", "", "").err(), Some(NewProjectError::Empty));
    assert_eq!(validate_project_media("ok", "image/webp"), Ok(()));
    assert_eq!(validate_project_media("Not Ok", "text/html"), Err(NewProjectError::UnsupportedThumbnail));
    assert_eq!(validate_project_media("Not Ok", "image/gif"), Err(NewProjectError::InvalidSlug));
}

//! The Logsday reminder e-mail: its text, and the `curl` command line that
//! sends it through Gmail's SMTP server.

use vstd::prelude::*;

verus! {

/// The address reminders are sent from.
pub const GMAIL_ADDRESS: &'static str = "logsday.mail@gmail.com";

/// The raw message: `From`, `To` and `Subject` headers, a blank line, and the
/// body, with CRLF line ends.
pub open spec fn gmail_message_of(to_email: Seq<char>, subject: Seq<char>, body: Seq<char>) -> Seq<
    char,
> {
    "From: Logsday <"@ + "logsday.mail@gmail.com"@ + ">\r\nTo: "@ + to_email + "\r\nSubject: "@
        + subject + "\r\n\r\n"@ + body
}

/// Builds the raw message of an e-mail.
pub fn gmail_message(to_email: &str, subject: &str, body_text: &str) -> (r: String)
    ensures
        r@ == gmail_message_of(to_email@, subject@, body_text@),
{
    let mut s = String::from_str("From: Logsday <");
    s.append(GMAIL_ADDRESS);
    s.append(">\r\nTo: ");
    s.append(to_email);
    s.append("\r\nSubject: ");
    s.append(subject);
    s.append("\r\n\r\n");
    s.append(body_text);
    s
}

/// The `curl` arguments that send a message read from standard input over
/// SMTPS, signed in with the sender's app password.
pub open spec fn gmail_curl_args_of(to_email: Seq<char>, app_password: Seq<char>) -> Seq<Seq<char>> {
    seq![
        "--url"@,
        "smtps://smtp.gmail.com:465"@,
        "--ssl-reqd"@,
        "--mail-from"@,
        "logsday.mail@gmail.com"@,
        "--mail-rcpt"@,
        to_email,
        "--user"@,
        "logsday.mail@gmail.com"@ + ":"@ + app_password,
        "-T"@,
        "-"@
    ]
}

/// Builds the `curl` arguments that send a reminder to `to_email`.
pub fn gmail_curl_args(to_email: &str, app_password: &str) -> (r: Vec<String>)
    ensures
        r@.map_values(|s: String| s@) == gmail_curl_args_of(to_email@, app_password@),
{
    let mut user = String::from_str(GMAIL_ADDRESS);
    user.append(":");
    user.append(app_password);
    let mut v: Vec<String> = Vec::new();
    v.push(String::from_str("--url"));
    v.push(String::from_str("smtps://smtp.gmail.com:465"));
    v.push(String::from_str("--ssl-reqd"));
    v.push(String::from_str("--mail-from"));
    v.push(String::from_str(GMAIL_ADDRESS));
    v.push(String::from_str("--mail-rcpt"));
    v.push(to_email.to_owned());
    v.push(String::from_str("--user"));
    v.push(user);
    v.push(String::from_str("-T"));
    v.push(String::from_str("-"));
    assert(v@.map_values(|s: String| s@) =~= gmail_curl_args_of(to_email@, app_password@));
    v
}

} // verus!

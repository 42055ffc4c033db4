use logsday::email::{gmail_curl_args, gmail_message, GMAIL_ADDRESS};

#[test]
fn reminder_message() {
    assert_eq!(
        gmail_message("a@b.c", "Logsday", "Hey Logger. Logsday."),
        "From: Logsday <logsday.mail@gmail.com>\r\nTo: a@b.c\r\nSubject: Logsday\r\n\r\nHey Logger. Logsday."
    );
}

#[test]
fn curl_arguments() {
    let args = gmail_curl_args("a@b.c", "secret");
    assert_eq!(
        args,
        [
            "--url",
            "smtps://smtp.gmail.com:465",
            "--ssl-reqd",
            "--mail-from",
            GMAIL_ADDRESS,
            "--mail-rcpt",
            "a@b.c",
            "--user",
            "logsday.mail@gmail.com:secret",
            "-T",
            "-"
        ]
    );
}

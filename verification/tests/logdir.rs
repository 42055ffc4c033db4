use logsday::logdir::{
    count_log_directory_size, file_name, linked_file_names, linked_names_of_srcs, linked_size_for_srcs,
    plan_cleanup_for_srcs, plan_log_cleanup, plan_log_dir, LogDirCleanup,
};

#[test]
fn file_names_of_paths() {
    assert_eq!(file_name("/uploads/u/p/1/a.png"), Some("a.png"));
    assert_eq!(file_name("a.png"), Some("a.png"));
    assert_eq!(file_name("a/b/"), Some("b"));
    assert_eq!(file_name("a/b//"), Some("b"));
    assert_eq!(file_name("a/."), Some("a"));
    assert_eq!(file_name("./a"), Some("a"));
    assert_eq!(file_name("a/./."), Some("a"));
    assert_eq!(file_name("."), None);
    assert_eq!(file_name("/"), None);
    assert_eq!(file_name("a/.."), None);
    assert_eq!(file_name(""), None);
    assert_eq!(file_name("..."), Some("..."));
}

#[test]
fn file_names_agree_with_std() {
    for p in ["/uploads/u/p/1/a.png", "a/b/", "a/.", "./a", ".", "/", "a/..", "", "x//y", "/.", "..", "a/../b"] {
        let expected = std::path::Path::new(p).file_name().map(|f| f.to_str().unwrap());
        assert_eq!(file_name(p), expected, "{p}");
    }
}

#[test]
fn linked_names_are_distinct() {
    let html = r#"<p><img src="/uploads/u/p/1/a.png"><video controls><source src="/uploads/u/p/1/v.mp4" type="video/mp4"></source></video><img src="a.png"><a href="x.png">x</a><img src="/"></p>"#;
    let names = linked_file_names(html);
    assert_eq!(names, vec!["a.png".to_string(), "v.mp4".to_string()]);
}

#[test]
fn cleanup_removes_unlinked_uploads() {
    let html = r#"<img src="/uploads/u/p/1/my%20pic.png"><video controls><source src="/uploads/u/p/1/v.mp4" type="video/mp4"></source></video>"#;
    let files: Vec<String> = ["index.html", "index.md", "my pic.png", "old.png", "v.mp4", "v.mp4.tmp", "w.mp4"]
        .iter()
        .map(|s| s.to_string())
        .collect();
    let plan = plan_log_cleanup(html, &files);
    assert_eq!(plan.remove, vec!["old.png".to_string(), "w.mp4".to_string()]);
    assert_eq!(plan.compress, vec!["v.mp4".to_string()]);
}

#[test]
fn law_cleanup_never_removes_linked_or_index_files() {
    let html = r#"<img src="a.png"><img src="b.gif">"#;
    let files: Vec<String> = ["a.png", "b.gif", "c.png", "index.html", "index.md", "d.tmp"]
        .iter()
        .map(|s| s.to_string())
        .collect();
    let plan = plan_log_cleanup(html, &files);
    for f in &files {
        let removed = plan.remove.contains(f);
        let linked = ["a.png", "b.gif"].contains(&f.as_str());
        let special = f == "index.html" || f == "index.md" || f.ends_with(".tmp");
        assert_eq!(removed, !linked && !special, "{f}");
    }
    assert!(plan.compress.is_empty());
}

#[test]
fn linked_size_counts_linked_files() {
    let html = r#"<img src="/x/a.png"><img src="b.png">"#;
    let entries = vec![
        ("a.png".to_string(), 100u64),
        ("b.png".to_string(), 20),
        ("c.png".to_string(), 7),
        ("index.html".to_string(), 3),
    ];
    assert_eq!(count_log_directory_size(&entries, html), 120);
    assert_eq!(count_log_directory_size(&entries, "<p>nothing</p>"), 0);
    assert_eq!(count_log_directory_size(&vec![], html), 0);
}

#[test]
fn plans_from_src_values() {
    let srcs: Vec<String> = ["/u/a.png", "a.png", "b/v.mp4", "/", "c/..", "x/w.webm/."].iter().map(|s| s.to_string()).collect();
    assert_eq!(linked_names_of_srcs(&srcs), vec!["a.png".to_string(), "v.mp4".to_string(), "w.webm".to_string()]);
    let files: Vec<String> = ["a.png", "z.png", "index.md"].iter().map(|s| s.to_string()).collect();
    let plan = plan_cleanup_for_srcs(&srcs, &files);
    assert_eq!(plan.remove, vec!["z.png".to_string()]);
    assert_eq!(plan.compress, vec!["v.mp4".to_string(), "w.webm".to_string()]);
    let entries = vec![("a.png".to_string(), 5u64), ("v.mp4".to_string(), 6), ("q".to_string(), 100)];
    assert_eq!(linked_size_for_srcs(&entries, &srcs), 11);
}

#[test]
fn unsaved_log_directory_is_removed_whole() {
    let files = vec!["a.png".to_string(), "b.mp4".to_string()];
    assert!(matches!(plan_log_dir(None, &files), LogDirCleanup::RemoveAll));
    match plan_log_dir(Some(r#"<img src="/uploads/u/p/1/a.png">"#), &files) {
        LogDirCleanup::Clean(plan) => assert_eq!(plan.remove, vec!["b.mp4".to_string()]),
        LogDirCleanup::RemoveAll => panic!("a saved log is cleaned, not removed"),
    }
}

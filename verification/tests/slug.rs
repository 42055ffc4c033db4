use logsday::slug::{slug_from, slug_valid};

#[test]
fn slug_from_lowers_and_replaces_spaces() {
    assert_eq!(slug_from("Hello World"), "hello_world");
    assert_eq!(slug_from("My-Project_2!"), "my-project_2");
    assert_eq!(slug_from("tab\there"), "tab_here");
}

#[test]
fn slug_from_drops_other_characters() {
    assert_eq!(slug_from("Café au lait"), "caf_au_lait");
    assert_eq!(slug_from("a.b/c"), "abc");
}

#[test]
fn slug_from_empty_becomes_dash() {
    assert_eq!(slug_from(""), "-");
    assert_eq!(slug_from("!!!"), "-");
    assert_eq!(slug_from("日本"), "-");
}

#[test]
fn slug_valid_accepts_only_slug_characters() {
    assert!(slug_valid("abc-1_"));
    assert!(slug_valid(""));
    assert!(!slug_valid("Abc"));
    assert!(!slug_valid("a b"));
    assert!(!slug_valid("é"));
}

#[test]
fn law_slug_of_anything_is_valid() {
    for name in ["Hello World", "", "???", "Ünïcödé", "a\tb c", "UPPER lower 123"] {
        let s = slug_from(name);
        assert!(slug_valid(&s));
        assert!(!s.is_empty());
    }
}

#[test]
fn law_slug_keeps_valid_slug_and_is_idempotent() {
    for slug in ["abc", "a-b_c", "-", "0"] {
        assert_eq!(slug_from(slug), slug);
    }
    for name in ["Hello World", "!!", "X y Z"] {
        let once = slug_from(name);
        assert_eq!(slug_from(&once), once);
    }
}

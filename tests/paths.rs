use site_sync::paths::remap;
use site_sync::text::{concatenate, same_text, starts_with, strip_prefix_or_keep};

#[test]
fn remap_strips_prefix_and_reroots() {
    assert_eq!(remap("static/a.png", "static/", "site"), "site/a.png");
    assert_eq!(remap("static/img/b.svg", "static/", "site"), "site/img/b.svg");
}

#[test]
fn remap_with_trailing_separator_or_empty_destination() {
    assert_eq!(remap("static/a.png", "static/", "site/"), "site/a.png");
    assert_eq!(remap("static/a.png", "static/", ""), "a.png");
}

#[test]
fn remap_outside_prefix_keeps_path() {
    assert_eq!(remap("docs/static/a.png", "static/", "site"), "site/docs/static/a.png");
}

#[test]
fn text_helpers() {
    assert!(starts_with("static/a", "static/"));
    assert!(!starts_with("stat", "static/"));
    assert!(starts_with("ä/b", "ä/"));
    assert_eq!(strip_prefix_or_keep("ä/b", "ä/"), "b");
    assert_eq!(strip_prefix_or_keep("x/b", "ä/"), "x/b");
    assert_eq!(concatenate("ab", "cd"), "abcd");
    assert!(same_text("abc", "abc"));
    assert!(!same_text("abc", "abd"));
    assert!(!same_text("abc", "ab"));
}

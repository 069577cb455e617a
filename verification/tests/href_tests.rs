use icon_finder::href::resolve_href;
use icon_finder::text::{ends_with, starts_with};

#[test]
fn protocol_relative_takes_the_base_scheme() {
    assert_eq!(resolve_href("//x/y.png", "https://a.b"), "https://x/y.png");
    assert_eq!(
        resolve_href("//cdn.example.com/i.png", "https://site.com"),
        "https://cdn.example.com/i.png"
    );
    assert_eq!(resolve_href("//x/y.png", "http://a.b"), "http://x/y.png");
}

#[test]
fn root_relative_is_put_behind_the_base() {
    assert_eq!(resolve_href("/i.png", "https://a.b"), "https://a.b/i.png");
}

#[test]
fn path_relative_gets_a_slash() {
    assert_eq!(resolve_href("i.png", "https://a.b"), "https://a.b/i.png");
    assert_eq!(resolve_href("img/i.png", "http://a.b"), "http://a.b/img/i.png");
}

#[test]
fn absolute_is_unchanged() {
    assert_eq!(resolve_href("https://c.d/i.png", "https://a.b"), "https://c.d/i.png");
    assert_eq!(resolve_href("http://c.d/i.png", "https://a.b"), "http://c.d/i.png");
}

#[test]
fn resolving_twice_changes_nothing() {
    for href in ["//x/y.png", "/i.png", "i.png", "https://c.d/i.png"] {
        let once = resolve_href(href, "https://a.b");
        assert_eq!(resolve_href(&once, "https://a.b"), once);
    }
}

#[test]
fn prefix_and_suffix() {
    assert!(starts_with("https://a", "http"));
    assert!(starts_with("abc", ""));
    assert!(starts_with("abc", "abc"));
    assert!(!starts_with("ab", "abc"));
    assert!(!starts_with("xbc", "abc"));
    assert!(ends_with("a.png", ".png"));
    assert!(ends_with("png", ""));
    assert!(!ends_with("png", ".png"));
    assert!(!ends_with("a.pnx", ".png"));
    assert!(ends_with("\u{00e9}.png", ".png"));
}

//! Normalization behaviour against the real `url` crate.

use linkcheck::norm::{check_base_url, normalize, site_origin, strip_trailing_slash};

#[test]
fn normalize_strips_trailing_slash() {
    let a = normalize("http://example.com/a/", "http://example.com/").unwrap();
    let b = normalize("http://example.com/a", "http://example.com/").unwrap();
    assert_eq!(a, "http://example.com/a");
    assert_eq!(a, b);
}

#[test]
fn normalize_resolves_relative_reference() {
    let r = normalize("/a", "http://example.com/page").unwrap();
    assert_eq!(r, "http://example.com/a");
}

#[test]
fn normalize_resolves_sibling_reference() {
    let r = normalize("c.png", "https://example.net/a/b.html").unwrap();
    assert_eq!(r, "https://example.net/a/c.png");
}

#[test]
fn normalize_keeps_query() {
    let r = normalize("/a?x=1", "http://example.com/").unwrap();
    assert_eq!(r, "http://example.com/a?x=1");
}

#[test]
fn normalize_rejects_malformed_reference() {
    // A reference that cannot be resolved against any base.
    assert!(normalize("http://[broken", "http://example.com/").is_none());
    // A page URL that does not parse at all.
    assert!(normalize("/a", "not a url").is_none());
}

#[test]
fn site_origin_is_slash_resolved_and_stripped() {
    assert_eq!(site_origin("http://a.test/deep/path").unwrap(), "http://a.test");
    assert_eq!(site_origin("https://a.test/").unwrap(), "https://a.test");
}

#[test]
fn strip_trailing_slash_examples() {
    assert_eq!(strip_trailing_slash("http://x/y/"), "http://x/y");
    assert_eq!(strip_trailing_slash("http://x/y"), "http://x/y");
    assert_eq!(strip_trailing_slash(""), "");
    assert_eq!(strip_trailing_slash("/"), "");
}

#[test]
fn check_base_url_accepts_http_and_https() {
    assert!(check_base_url("http://example.com"));
    assert!(check_base_url("https://example.com:8080/path"));
    assert!(check_base_url("http://127.0.0.1:3000"));
}

#[test]
fn check_base_url_rejects_other_shapes() {
    assert!(!check_base_url("example.com"));
    assert!(!check_base_url("ftp://example.com"));
    assert!(!check_base_url("http://"));
    assert!(!check_base_url("https://"));
    assert!(!check_base_url("http://exa mple.com"));
    assert!(!check_base_url("mailto:someone@example.com"));
    assert!(!check_base_url(""));
}

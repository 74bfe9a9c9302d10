use router::location::{RouterContext, RouterUrlContext, UrlContext};
use router::resolve::{begins_with_query_or_hash, has_scheme, normalize, resolve_path};

fn norm(p: &str, omit_slash: bool) -> String {
    normalize(RouterContext::new(p), omit_slash)
        .forget_context(RouterUrlContext)
        .clone()
}

fn resolve(base: &str, path: &str, from: Option<&str>) -> String {
    resolve_path(UrlContext::new(base), UrlContext::new(path), UrlContext::new(from))
        .forget_context(RouterUrlContext)
        .clone()
}

#[test]
fn normalize_query_string_with_opening_slash() {
    assert_eq!(norm("/?foo=bar", false), "?foo=bar");
}

#[test]
fn normalize_retain_trailing_slash() {
    assert_eq!(norm("foo/bar/", false), "/foo/bar/");
}

#[test]
fn normalize_dedup_trailing_slashes() {
    assert_eq!(norm("foo/bar/////", false), "/foo/bar/");
}

#[test]
fn normalize_is_idempotent_on_examples() {
    for p in ["", "/", "///", "foo", "//foo//bar//", "?x=1", "/#top", "a//b", "/?a//"] {
        for omit in [false, true] {
            let once = norm(p, omit);
            assert_eq!(norm(&once, omit), once);
        }
    }
}

#[test]
fn normalize_edge_cases() {
    assert_eq!(norm("", false), "");
    assert_eq!(norm("////", false), "");
    assert_eq!(norm("foo", true), "foo");
    assert_eq!(norm("///foo//bar", false), "/foo//bar");
    assert_eq!(norm("#frag", false), "#frag");
    assert_eq!(norm("/?a//", false), "?a/");
}

#[test]
fn resolve_absolute_path_uses_base() {
    assert_eq!(resolve("/app", "/x", Some("/app/y")), "/app/x");
}

#[test]
fn resolve_relative_path_under_from() {
    assert_eq!(resolve("/app", "x", Some("/app/y")), "/app/y/x");
}

#[test]
fn resolve_relative_path_from_outside_base() {
    assert_eq!(resolve("/app", "x", Some("/other")), "/app/other/x");
}

#[test]
fn resolve_without_from() {
    assert_eq!(resolve("/app", "x", None), "/app/x");
    assert_eq!(resolve("", "x", None), "/x");
    assert_eq!(resolve("", "", None), "/");
}

#[test]
fn resolve_scheme_qualified_passes_through() {
    assert_eq!(resolve("/app", "mailto:a@b.com", Some("/app/y")), "mailto:a@b.com");
    assert_eq!(resolve("/app", "https://example.com/a", None), "https://example.com/a");
    assert_eq!(resolve("/app", "//cdn.example.com", None), "//cdn.example.com");
    assert_eq!(resolve("/app", "tel:123", None), "tel:123");
}

#[test]
fn scheme_detection() {
    assert!(has_scheme(UrlContext::new("http://x")));
    assert!(has_scheme(UrlContext::new("ftp2://x")));
    assert!(!has_scheme(UrlContext::new("a-b://x")));
    assert!(!has_scheme(UrlContext::new("/path://x")));
    assert!(!has_scheme(UrlContext::new("relative")));
    assert!(has_scheme(UrlContext::new("://x")));
}

#[test]
fn query_or_hash_start() {
    assert!(begins_with_query_or_hash("?a"));
    assert!(begins_with_query_or_hash("#a"));
    assert!(!begins_with_query_or_hash("a?"));
    assert!(!begins_with_query_or_hash(""));
}

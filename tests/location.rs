use router::location::{
    hash_browser_to_router_url, hash_mode_href, hash_router_to_browser_url, BrowserContext,
    BrowserUrlContext, LocationChange, RouterContext, RouterUrlContext, State, Url, UrlContext,
};
use router::location::decoded_or_input;
use router::params::ParamsMap;

fn url(origin: &str, path: &str, search: &str, hash: &str) -> Url {
    Url::new(
        origin.to_string(),
        path.to_string(),
        search.to_string(),
        ParamsMap::new(),
        hash.to_string(),
    )
}

#[test]
fn full_path_joins_query_and_fragment() {
    let u = RouterContext::new(url("https://a.dev", "/p", "x=1", "top"));
    assert_eq!(u.to_full_path().forget_context(RouterUrlContext), "/p?x=1#top");
    let u = RouterContext::new(url("https://a.dev", "/p", "", "#top"));
    assert_eq!(u.to_full_path().forget_context(RouterUrlContext), "/p#top");
    let u = RouterContext::new(url("https://a.dev", "/p", "", ""));
    assert_eq!(u.to_full_path().forget_context(RouterUrlContext), "/p");
}

#[test]
fn accessors_read_and_write_fields() {
    let mut u = RouterContext::new(url("https://a.dev", "/p", "x=1", "#h"));
    assert_eq!(*u.origin().forget_context(RouterUrlContext), "https://a.dev");
    assert_eq!(*u.path().forget_context(RouterUrlContext), "/p");
    assert_eq!(*u.search().forget_context(RouterUrlContext), "x=1");
    assert_eq!(*u.hash().forget_context(RouterUrlContext), "#h");
    {
        let mut p = u.path_mut();
        p.map_mut(|s: &mut &mut String| s.push_str("/q"));
    }
    u.hash_mut().map_mut(|s: &mut &mut String| s.clear());
    u.search_mut().map_mut(|s: &mut &mut String| s.push_str("&y=2"));
    u.origin_mut().map_mut(|s: &mut &mut String| s.push('/'));
    u.search_params_mut()
        .map_mut(|p: &mut &mut ParamsMap| p.insert("y".to_string(), "2".to_string()));
    assert_eq!(*u.path().forget_context(RouterUrlContext), "/p/q");
    assert_eq!(*u.hash().forget_context(RouterUrlContext), "");
    assert_eq!(*u.search().forget_context(RouterUrlContext), "x=1&y=2");
    assert_eq!(*u.origin().forget_context(RouterUrlContext), "https://a.dev/");
    assert_eq!(
        u.search_params().forget_context(RouterUrlContext).get_str("y"),
        Some("2")
    );
}

#[test]
fn context_map_and_change() {
    let c = RouterContext::new(5u32);
    let d = c.map(|v: &u32| *v * 2);
    assert_eq!(*d.forget_context(RouterUrlContext), 10);
    let e: BrowserContext<u32> = d.change_context(RouterUrlContext);
    assert_eq!(*e.forget_context(BrowserUrlContext), 10);
}

#[test]
fn escape_and_unescape() {
    let e = RouterContext::<Url>::escape(UrlContext::new("a b/c"));
    assert_eq!(e.forget_context(RouterUrlContext), "a%20b%2Fc");
    let e = RouterContext::<Url>::escape(UrlContext::new("abc123"));
    assert_eq!(e.forget_context(RouterUrlContext), "abc123");
    let d = RouterContext::<Url>::unescape(UrlContext::new("a%20b%2Fc"));
    assert_eq!(d.forget_context(RouterUrlContext), "a b/c");
    let d = RouterContext::<Url>::unescape(UrlContext::new("bad%FF"));
    assert_eq!(d.forget_context(RouterUrlContext), "bad%FF");
    let d = RouterContext::<Url>::unescape_minimal(UrlContext::new("/caf%C3%A9"));
    assert_eq!(d.forget_context(RouterUrlContext), "/café");
}

#[test]
fn url_equality_and_clone() {
    let a = url("https://a.dev", "/p", "", "");
    let b = a.clone();
    assert!(a == b);
    let c = url("https://a.dev", "/q", "", "");
    assert!(a != c);
}

#[test]
fn state_equality() {
    assert!(State::new(None) == State::default());
    assert!(State::new(Some("1".to_string())) != State::new(None));
    assert!(State::new(Some("1".to_string())) == State::new(Some("1".to_string())));
    assert!(State::new(Some("1".to_string())) != State::new(Some("2".to_string())));
    assert_eq!(State::new(Some("1".to_string())).value(), Some("1"));
}

#[test]
fn location_change_defaults() {
    let c = LocationChange::default();
    assert!(c.replace);
    assert!(c.scroll);
    assert_eq!(c.value.forget_context(RouterUrlContext), "");
    assert!(c.state == State::new(None));
}

#[test]
fn hash_mode_conversions() {
    let b = BrowserContext::new(url("https://a.dev", "/", "", "#/foo"));
    let r = hash_browser_to_router_url(b);
    assert_eq!(*r.path().forget_context(RouterUrlContext), "/foo");
    assert_eq!(*r.hash().forget_context(RouterUrlContext), "");
    let b = BrowserContext::new(url("https://a.dev", "/", "", ""));
    let r = hash_browser_to_router_url(b);
    assert_eq!(*r.path().forget_context(RouterUrlContext), "/");
    let r = RouterContext::new(url("https://a.dev", "/foo", "", ""));
    let b = hash_router_to_browser_url(r);
    assert_eq!(*b.path().forget_context(BrowserUrlContext), "/");
    assert_eq!(*b.hash().forget_context(BrowserUrlContext), "#/foo");
    let r = RouterContext::new(url("https://a.dev", "/foo", "x=1", ""));
    assert_eq!(
        hash_mode_href(r).forget_context(BrowserUrlContext),
        "https://a.dev/?x=1#/foo"
    );
}

#[test]
fn params_map_keeps_order_and_last_write() {
    let mut p = ParamsMap::new();
    p.insert("a".to_string(), "1".to_string());
    p.insert("b".to_string(), "2".to_string());
    p.insert("a".to_string(), "3".to_string());
    assert_eq!(p.get_str("a"), Some("3"));
    assert_eq!(p.get_str("b"), Some("2"));
    assert_eq!(p.get_str("c"), None);
    let q = p.clone();
    assert!(p == q);
}

#[test]
fn decoding_falls_back_to_the_input() {
    assert_eq!(decoded_or_input("a%FF", None), "a%FF");
    assert_eq!(decoded_or_input("a%20", Some("a ".to_string())), "a ");
}

use router::click::{handle_anchor_click, Anchor, ClickDecision, ClickEvent};
use router::location::{BrowserContext, BrowserUrlContext, RouterContext, RouterUrlContext, State, Url};
use router::navigation::{redirect_action, NavigateAction, Navigator, RedirectAction};
use router::params::ParamsMap;

fn url(origin: &str, path: &str, search: &str, hash: &str) -> Url {
    Url::new(
        origin.to_string(),
        path.to_string(),
        search.to_string(),
        ParamsMap::new(),
        hash.to_string(),
    )
}

fn plain_click() -> ClickEvent {
    ClickEvent {
        default_prevented: false,
        button: 0,
        meta_key: false,
        alt_key: false,
        ctrl_key: false,
        shift_key: false,
    }
}

fn anchor(href: &str) -> Anchor {
    Anchor {
        href: href.to_string(),
        target: String::new(),
        has_state_attribute: false,
        download: false,
        rel: String::new(),
        noscroll: false,
        data_noscroll: false,
        state: State::new(None),
        replace: false,
    }
}

const ORIGIN: &str = "https://a.dev";

fn decide(base: Option<&str>, ev: ClickEvent, a: Anchor, u: Url) -> ClickDecision {
    handle_anchor_click(base, ORIGIN, ev, Some(a), Some(RouterContext::new(u)))
}

#[test]
fn click_with_target_is_left_to_browser() {
    let mut a = anchor("https://a.dev/x");
    a.target = "_blank".to_string();
    let d = decide(None, plain_click(), a, url(ORIGIN, "/x", "", ""));
    assert!(matches!(d, ClickDecision::Native));
}

#[test]
fn click_with_modifier_is_left_to_browser() {
    for k in 0..4 {
        let mut ev = plain_click();
        match k {
            0 => ev.meta_key = true,
            1 => ev.ctrl_key = true,
            2 => ev.shift_key = true,
            _ => ev.alt_key = true,
        }
        let d = decide(None, ev, anchor("https://a.dev/x"), url(ORIGIN, "/x", "", ""));
        assert!(matches!(d, ClickDecision::Native));
    }
    let mut ev = plain_click();
    ev.button = 1;
    let d = decide(None, ev, anchor("https://a.dev/x"), url(ORIGIN, "/x", "", ""));
    assert!(matches!(d, ClickDecision::Native));
}

#[test]
fn plain_click_in_base_navigates() {
    let mut a = anchor("https://a.dev/app/x?q=a%20b#h");
    a.replace = true;
    a.noscroll = true;
    let d = decide(Some("/app"), plain_click(), a, url(ORIGIN, "/app/x", "q=a%20b", "#h"));
    match d {
        ClickDecision::Navigate(u, change) => {
            assert_eq!(*u.path().forget_context(RouterUrlContext), "/app/x");
            assert_eq!(change.value.forget_context(RouterUrlContext), "/app/x?q=a b#h");
            assert!(change.replace);
            assert!(!change.scroll);
        }
        ClickDecision::Native => panic!("expected a navigation"),
    }
}

#[test]
fn click_outside_base_or_origin_is_left_to_browser() {
    let d = decide(Some("/app"), plain_click(), anchor("https://a.dev/other"), url(ORIGIN, "/other", "", ""));
    assert!(matches!(d, ClickDecision::Native));
    let d = decide(None, plain_click(), anchor("https://b.dev/x"), url("https://b.dev", "/x", "", ""));
    assert!(matches!(d, ClickDecision::Native));
}

#[test]
fn click_on_external_download_or_missing_anchor_is_left_to_browser() {
    let mut a = anchor("https://a.dev/x");
    a.rel = "noopener\texternal".to_string();
    assert!(matches!(decide(None, plain_click(), a, url(ORIGIN, "/x", "", "")), ClickDecision::Native));
    let mut a = anchor("https://a.dev/x");
    a.rel = "externally".to_string();
    assert!(matches!(decide(None, plain_click(), a, url(ORIGIN, "/x", "", "")), ClickDecision::Navigate(..)));
    let mut a = anchor("https://a.dev/x");
    a.download = true;
    assert!(matches!(decide(None, plain_click(), a, url(ORIGIN, "/x", "", "")), ClickDecision::Native));
    let a = anchor("");
    assert!(matches!(decide(None, plain_click(), a, url(ORIGIN, "/", "", "")), ClickDecision::Native));
    let d = handle_anchor_click(None, ORIGIN, plain_click(), None, None);
    assert!(matches!(d, ClickDecision::Native));
    let d = handle_anchor_click(None, ORIGIN, plain_click(), Some(anchor("::")), None);
    assert!(matches!(d, ClickDecision::Native));
}

fn nav_url(path: &str) -> BrowserContext<Url> {
    BrowserContext::new(url(ORIGIN, path, "", ""))
}

#[test]
fn superseded_navigation_never_commits() {
    let mut n = Navigator::new(nav_url("/"));
    let a = n.navigate(nav_url("/a"));
    let b = n.navigate(nav_url("/b"));
    let (ta, tb) = match (a, b) {
        (NavigateAction::AwaitReady(ta), NavigateAction::AwaitReady(tb)) => (ta, tb),
        _ => panic!("both navigations should wait"),
    };
    assert_ne!(ta, tb);
    assert_eq!(n.ready_to_complete(), Some(tb));
    assert_eq!(n.ready_to_complete(), None);
    assert!(n.still_current(&nav_url("/b")));
    assert!(!n.still_current(&nav_url("/a")));
}

#[test]
fn same_path_commits_at_once() {
    let mut n = Navigator::new(nav_url("/a"));
    assert_eq!(n.navigate(BrowserContext::new(url(ORIGIN, "/a", "x=1", ""))), NavigateAction::CommitNow);
    assert_eq!(n.pending(), None);
    assert_eq!(*n.url().search().forget_context(BrowserUrlContext), "x=1");
}

#[test]
fn back_flag_detection() {
    let mut n = Navigator::new(nav_url("/a"));
    n.popstate(nav_url("/z"));
    assert!(n.is_back());
    n.complete_navigation(nav_url("/b"));
    n.complete_navigation(nav_url("/c"));
    assert_eq!(n.path_stack_len(), 3);
    assert!(!n.is_back());
    n.popstate(nav_url("/b"));
    assert!(n.is_back());
    n.popstate(nav_url("/x"));
    assert!(!n.is_back());
    assert_eq!(*n.url().path().forget_context(BrowserUrlContext), "/x");
}

#[test]
fn redirect_on_same_origin_stays_client_side() {
    assert_eq!(redirect_action("https://a.dev", "https://a.dev"), RedirectAction::ClientSide);
    assert_eq!(redirect_action("https://b.dev", "https://a.dev"), RedirectAction::FullLoad);
}

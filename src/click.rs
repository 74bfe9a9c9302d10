//! Deciding whether a click on a link is handled by the router or left to the browser.
use crate::location::{
    decoded_or_same, LocationChange, RouterUrlContext, State, Url, UrlContext, UrlView,
};
use crate::text::{is_prefix, starts_with};
use vstd::prelude::*;
use vstd::string::{StrSliceExecFns, StringExecFns};

verus! {

/// The parts of a mouse click that decide whether it may be a navigation.
#[derive(Debug, Clone, Copy)]
pub struct ClickEvent {
    pub default_prevented: bool,
    pub button: i16,
    pub meta_key: bool,
    pub alt_key: bool,
    pub ctrl_key: bool,
    pub shift_key: bool,
}

/// The clicked anchor element, as far as the decision reads it.
#[derive(Debug)]
pub struct Anchor {
    /// The resolved `href`; empty where the element has none.
    pub href: String,
    /// The `target` attribute; empty where the element has none.
    pub target: String,
    /// The element has a `state` attribute.
    pub has_state_attribute: bool,
    /// The element has a `download` attribute.
    pub download: bool,
    /// The `rel` attribute; empty where the element has none.
    pub rel: String,
    /// The element has a `noscroll` attribute.
    pub noscroll: bool,
    /// The element has a `data-noscroll` attribute.
    pub data_noscroll: bool,
    /// The `state` property set on the element.
    pub state: State,
    /// The `replace` property set on the element, `false` where it is not a boolean.
    pub replace: bool,
}

/// What to do with a click.
#[derive(Debug)]
pub enum ClickDecision {
    /// Let the browser handle the click.
    Native,
    /// Prevent the browser's default and navigate to the parsed URL.
    Navigate(UrlContext<RouterUrlContext, Url>, LocationChange),
}

pub open spec fn is_rel_separator(c: char) -> bool {
    c == ' ' || c == '\t'
}

/// The token `external` stands in `rel`, tokens split at spaces and tabs.
pub open spec fn has_external_token(rel: Seq<char>) -> bool {
    exists|i: int|
        0 <= i && i + 8 <= rel.len() && #[trigger] rel.subrange(i, i + 8) == seq![
            'e',
            'x',
            't',
            'e',
            'r',
            'n',
            'a',
            'l',
        ] && (i == 0 || is_rel_separator(rel[i - 1])) && (i + 8 == rel.len() || is_rel_separator(
            rel[i + 8],
        ))
}

/// A primary-button click with no modifier that nothing has handled yet.
pub open spec fn is_plain_click(ev: ClickEvent) -> bool {
    !ev.default_prevented && ev.button == 0 && !ev.meta_key && !ev.alt_key && !ev.ctrl_key
        && !ev.shift_key
}

/// An anchor the router may take over: no target, an `href` or a state,
/// no download, not marked external.
pub open spec fn anchor_is_routable(a: Anchor) -> bool {
    a.target@.len() == 0 && (a.href@.len() > 0 || a.has_state_attribute) && !a.download
        && !has_external_token(a.rel@)
}

/// The URL stays on this origin and, where the router has a base, under it.
pub open spec fn stays_in_router(base: Seq<char>, origin: Seq<char>, u: UrlView) -> bool {
    let path_name = decoded_or_same(u.path);
    u.origin == origin && !(base.len() > 0 && path_name.len() > 0 && !is_prefix(base, path_name))
}

/// The router-space target of a link: the decoded path, the query behind a
/// `?`, and the fragment.
pub open spec fn link_target(u: UrlView) -> Seq<char> {
    decoded_or_same(u.path) + (if u.search.len() == 0 {
        Seq::<char>::empty()
    } else {
        seq!['?']
    }) + decoded_or_same(u.search) + decoded_or_same(u.hash)
}

/// The router takes over the click.
pub open spec fn click_navigates(
    base: Seq<char>,
    origin: Seq<char>,
    ev: ClickEvent,
    anchor: Option<Anchor>,
    url: Option<UrlView>,
) -> bool {
    is_plain_click(ev) && anchor is Some && anchor_is_routable(anchor->0) && url is Some
        && stays_in_router(base, origin, url->0)
}

fn has_external(rel: &str) -> (r: bool)
    ensures
        r == has_external_token(rel@),
{
    let ghost pat = seq!['e', 'x', 't', 'e', 'r', 'n', 'a', 'l'];
    proof {
        reveal_strlit("external");
        assert("external"@ =~= pat);
    }
    let n = rel.unicode_len();
    let mut i: usize = 0;
    while i < n
        invariant
            n == rel@.len(),
            0 <= i <= n,
            "external"@ == pat,
            pat == seq!['e', 'x', 't', 'e', 'r', 'n', 'a', 'l'],
            forall|j: int|
                0 <= j < i ==> !(j + 8 <= rel@.len() && #[trigger] rel@.subrange(j, j + 8) == pat
                    && (j == 0 || is_rel_separator(rel@[j - 1])) && (j + 8 == rel@.len()
                    || is_rel_separator(rel@[j + 8]))),
        decreases n - i,
    {
        if n >= 8 && i <= n - 8 {
            let before_ok = i == 0 || {
                let c = rel.get_char(i - 1);
                c == ' ' || c == '\t'
            };
            let after_ok = i + 8 == n || {
                let c = rel.get_char(i + 8);
                c == ' ' || c == '\t'
            };
            let rest = rel.substring_char(i, n);
            if before_ok && after_ok && starts_with(rest, "external") {
                assert(pat.len() == 8);
                assert(rest@.subrange(0, 8) == pat);
                assert(rel@.subrange(i as int, i + 8) =~= rest@.subrange(0, 8));
                return true;
            }
            proof {
                if rel@.subrange(i as int, i + 8) == pat {
                    assert(rest@.subrange(0, 8) =~= rel@.subrange(i as int, i + 8));
                }
            }
        }
        i = i + 1;
    }
    false
}

/// Decides a click. `url` is the anchor's `href` parsed against `origin`,
/// `None` where it could not be parsed; `router_base` is the router's base path.
pub fn handle_anchor_click(
    router_base: Option<&str>,
    origin: &str,
    ev: ClickEvent,
    anchor: Option<Anchor>,
    url: Option<UrlContext<RouterUrlContext, Url>>,
) -> (r: ClickDecision)
    ensures
        r is Navigate <==> click_navigates(
            match router_base {
                Some(b) => b@,
                None => Seq::empty(),
            },
            origin@,
            ev,
            anchor,
            match url {
                Some(u) => Some(u.inner()@),
                None => None,
            },
        ),
        r matches ClickDecision::Navigate(u, change) ==> {
            &&& url == Some(u)
            &&& change.value.inner()@ == link_target(u.inner()@)
            &&& change.replace == anchor->0.replace
            &&& change.scroll == (!anchor->0.noscroll && !anchor->0.data_noscroll)
            &&& change.state@ == anchor->0.state@
        },
{
    let base: &str = match router_base {
        Some(b) => b,
        None => "",
    };
    proof {
        reveal_strlit("");
    }
    if ev.default_prevented || ev.button != 0 || ev.meta_key || ev.alt_key || ev.ctrl_key
        || ev.shift_key {
        return ClickDecision::Native;
    }
    let a = match anchor {
        Some(a) => a,
        None => {
            return ClickDecision::Native;
        },
    };
    if a.target.as_str().unicode_len() != 0 || (a.href.as_str().unicode_len() == 0
        && !a.has_state_attribute) {
        return ClickDecision::Native;
    }
    if a.download || has_external(a.rel.as_str()) {
        return ClickDecision::Native;
    }
    let url = match url {
        Some(u) => u,
        None => {
            return ClickDecision::Native;
        },
    };
    let path_name = UrlContext::<RouterUrlContext, Url>::unescape_minimal(url.path());
    let path_str: &str = path_name.forget_context(RouterUrlContext).as_str();
    let same_origin = crate::text::str_eq(url.origin().forget_context(RouterUrlContext), origin);
    if !same_origin || (base.unicode_len() != 0 && path_str.unicode_len() != 0 && !starts_with(
        path_str,
        base,
    )) {
        return ClickDecision::Native;
    }
    let search: &str = url.search().forget_context(RouterUrlContext);
    let mut to = String::from_str(path_str);
    if search.unicode_len() != 0 {
        proof {
            reveal_strlit("?");
            assert("?"@ =~= seq!['?']);
        }
        to.append("?");
    }
    let decoded_search = UrlContext::<RouterUrlContext, Url>::unescape(url.search());
    to.append(decoded_search.forget_context(RouterUrlContext).as_str());
    let decoded_hash = UrlContext::<RouterUrlContext, Url>::unescape(url.hash());
    to.append(decoded_hash.forget_context(RouterUrlContext).as_str());
    proof {
        if search@.len() == 0 {
            assert(path_str@ + Seq::<char>::empty() =~= path_str@);
        }
    }
    let change = LocationChange {
        value: UrlContext::new(to),
        replace: a.replace,
        scroll: !a.noscroll && !a.data_noscroll,
        state: a.state,
    };
    ClickDecision::Navigate(url, change)
}

/// A click on an anchor with a target, or with a modifier key held, is left
/// to the browser; a plain primary click on a routable anchor whose URL stays
/// on the origin and under the base is taken over.
pub proof fn lemma_click_interception(
    base: Seq<char>,
    origin: Seq<char>,
    ev: ClickEvent,
    anchor: Anchor,
    url: Option<UrlView>,
)
    ensures
        anchor.target@.len() > 0 ==> !click_navigates(base, origin, ev, Some(anchor), url),
        (ev.meta_key || ev.ctrl_key || ev.shift_key || ev.alt_key) ==> !click_navigates(
            base,
            origin,
            ev,
            Some(anchor),
            url,
        ),
        is_plain_click(ev) && anchor_is_routable(anchor) && url is Some && stays_in_router(
            base,
            origin,
            url->0,
        ) ==> click_navigates(base, origin, ev, Some(anchor), url),
{
}

} // verus!

//! URLs, tagged with the coordinate system they live in.
use crate::params::ParamsMap;
use crate::text::is_ascii_alnum;
use core::marker::PhantomData;
use vstd::prelude::*;
use vstd::string::{StrSliceExecFns, StringExecFns};

verus! {

/// A coordinate system a URL value may live in.
pub trait UrlContextType: Sized {
    /// The tag value itself; tags carry no data.
    fn produce_from_thin_air() -> Self;
}

/// The literal location the browser shows.
#[derive(Debug, Default, Clone, PartialEq, Eq)]
pub struct BrowserUrlContext;

impl UrlContextType for BrowserUrlContext {
    fn produce_from_thin_air() -> Self {
        BrowserUrlContext
    }
}

/// The router's logical location: absolute and relative to the router's base.
#[derive(Debug, Default, Clone, PartialEq, Eq)]
pub struct RouterUrlContext;

impl UrlContextType for RouterUrlContext {
    fn produce_from_thin_air() -> Self {
        RouterUrlContext
    }
}

/// A value tagged with the coordinate system `C` it belongs to.
#[derive(Debug)]
pub struct UrlContext<C: UrlContextType, T>(T, PhantomData<C>);

impl<C: UrlContextType, T: Clone> Clone for UrlContext<C, T> {
    fn clone(&self) -> (r: Self)
        ensures
            call_ensures(T::clone, (&self.inner(),), r.inner()),
    {
        UrlContext(self.0.clone(), PhantomData)
    }
}

impl<C: UrlContextType, T: Default> Default for UrlContext<C, T> {
    fn default() -> (r: Self)
        ensures
            call_ensures(T::default, (), r.inner()),
    {
        UrlContext(T::default(), PhantomData)
    }
}

pub type RouterContext<T> = UrlContext<RouterUrlContext, T>;

pub type BrowserContext<T> = UrlContext<BrowserUrlContext, T>;

impl<C: UrlContextType, T> UrlContext<C, T> {
    /// The tagged value.
    pub closed spec fn inner(&self) -> T {
        self.0
    }

    /// Tags `value` as living in `C`.
    pub fn new(value: T) -> (r: Self)
        ensures
            r.inner() == value,
    {
        UrlContext(value, PhantomData)
    }

    /// Applies `mapper` to the tagged value, keeping the tag.
    pub fn map<'a, Q>(&'a self, mapper: impl Fn(&'a T) -> Q) -> (r: UrlContext<C, Q>)
        requires
            mapper.requires((&self.inner(),)),
        ensures
            mapper.ensures((&self.inner(),), r.inner()),
    {
        UrlContext(mapper(&self.0), PhantomData)
    }

    /// Applies `mapper` to the tagged value through a mutable borrow, keeping the tag.
    pub fn map_mut<Q>(&mut self, mapper: impl FnOnce(&mut T) -> Q) -> (r: UrlContext<C, Q>)
        requires
            forall|v: &mut T| *v == old(self).inner() ==> mapper.requires((v,)),
        ensures
            exists|v: &mut T| *v == old(self).inner() && *final(v) == final(self).inner()
                && mapper.ensures((v,), r.inner()),
    {
        UrlContext(mapper(&mut self.0), PhantomData)
    }

    /// The tagged value; the caller names the coordinate system it expects.
    pub fn forget_context(&self, _context: C) -> (r: &T)
        ensures
            *r == self.inner(),
    {
        &self.0
    }

    /// Retags the value: the caller asserts that it is valid in `C2`.
    pub fn change_context<C2: UrlContextType>(self, _context: C) -> (r: UrlContext<C2, T>)
        ensures
            r.inner() == self.inner(),
    {
        UrlContext(self.0, PhantomData)
    }
}

/// What a [`Url`] holds.
pub ghost struct UrlView {
    pub origin: Seq<char>,
    pub path: Seq<char>,
    pub search: Seq<char>,
    pub search_params: Seq<(Seq<char>, Seq<char>)>,
    pub hash: Seq<char>,
}

/// A parsed URL. By convention `path` holds neither the query nor the
/// fragment, and `search` has no leading `?`; `hash` may or may not start
/// with `#`.
#[derive(Debug)]
pub struct Url {
    origin: String,
    path: String,
    search: String,
    search_params: ParamsMap,
    hash: String,
}

impl View for Url {
    type V = UrlView;

    closed spec fn view(&self) -> UrlView {
        UrlView {
            origin: self.origin@,
            path: self.path@,
            search: self.search@,
            search_params: self.search_params@,
            hash: self.hash@,
        }
    }
}

impl Url {
    pub fn new(origin: String, path: String, search: String, search_params: ParamsMap, hash: String) -> (r: Url)
        ensures
            r@ == (UrlView {
                origin: origin@,
                path: path@,
                search: search@,
                search_params: search_params@,
                hash: hash@,
            }),
    {
        Url { origin, path, search, search_params, hash }
    }
}

impl Clone for Url {
    fn clone(&self) -> (r: Url)
        ensures
            r@ == self@,
    {
        Url {
            origin: self.origin.clone(),
            path: self.path.clone(),
            search: self.search.clone(),
            search_params: self.search_params.clone(),
            hash: self.hash.clone(),
        }
    }
}

impl PartialEq for Url {
    fn eq(&self, other: &Url) -> (r: bool) {
        self.origin == other.origin && self.path == other.path && self.search == other.search
            && self.search_params == other.search_params && self.hash == other.hash
    }
}

impl vstd::std_specs::cmp::PartialEqSpecImpl for Url {
    open spec fn obeys_eq_spec() -> bool {
        true
    }

    open spec fn eq_spec(&self, other: &Url) -> bool {
        self@ == other@
    }
}

/// The path followed by `?` and the query when there is one, then the
/// fragment, given a `#` where it lacks one.
pub open spec fn full_path(u: UrlView) -> Seq<char> {
    let with_query = if u.search.len() == 0 {
        u.path
    } else {
        u.path + seq!['?'] + u.search
    };
    if u.hash.len() == 0 {
        with_query
    } else if u.hash[0] == '#' {
        with_query + u.hash
    } else {
        with_query + seq!['#'] + u.hash
    }
}

/// The result of percent-encoding every character of `s` but ASCII letters and digits.
pub uninterp spec fn percent_encoded(s: Seq<char>) -> Seq<char>;

/// The result of percent-decoding `s`, or `None` where the decoded bytes are not UTF-8.
pub uninterp spec fn percent_decoded(s: Seq<char>) -> Option<Seq<char>>;

/// `s` percent-decoded, or `s` itself where that gives no UTF-8 text.
pub open spec fn decoded_or_same(s: Seq<char>) -> Seq<char> {
    match percent_decoded(s) {
        Some(v) => v,
        None => s,
    }
}

/// Relies on `percent_encoding::utf8_percent_encode` with `NON_ALPHANUMERIC`:
/// it encodes every byte but ASCII letters and digits, which it keeps.
#[verifier::external_body]
fn encode_component(s: &str) -> (r: String)
    ensures
        r@ == percent_encoded(s@),
        (forall|i: int| 0 <= i < s@.len() ==> is_ascii_alnum(#[trigger] s@[i])) ==> r@ == s@,
{
    percent_encoding::utf8_percent_encode(s, percent_encoding::NON_ALPHANUMERIC).to_string()
}

/// Relies on `percent_encoding::percent_decode_str` and `decode_utf8`: text
/// without `%` decodes to itself.
#[verifier::external_body]
fn decode_component(s: &str) -> (r: Option<String>)
    ensures
        r is None <==> percent_decoded(s@) is None,
        r is Some ==> percent_decoded(s@) == Some(r->0@),
        (forall|i: int| 0 <= i < s@.len() ==> #[trigger] s@[i] != '%') ==> r is Some && r->0@
            == s@,
{
    match percent_encoding::percent_decode_str(s).decode_utf8() {
        Ok(v) => Some(v.into_owned()),
        Err(_) => None,
    }
}

/// The decoding of `s` where there is one, `s` itself otherwise.
pub fn decoded_or_input(s: &str, decoded: Option<String>) -> (r: String)
    ensures
        r@ == (match decoded {
            Some(v) => v@,
            None => s@,
        }),
{
    match decoded {
        Some(v) => v,
        None => String::from_str(s),
    }
}

impl<C: UrlContextType> UrlContext<C, Url> {
    pub fn origin(&self) -> (r: UrlContext<C, &str>)
        ensures
            r.inner()@ == self.inner()@.origin,
    {
        UrlContext(self.0.origin.as_str(), PhantomData)
    }

    pub fn origin_mut(&mut self) -> (r: UrlContext<C, &mut String>)
        ensures
            r.inner()@ == old(self).inner()@.origin,
            final(self).inner()@ == (UrlView { origin: final(r.inner())@, ..old(self).inner()@ }),
    {
        UrlContext(&mut self.0.origin, PhantomData)
    }

    pub fn path(&self) -> (r: UrlContext<C, &str>)
        ensures
            r.inner()@ == self.inner()@.path,
    {
        UrlContext(self.0.path.as_str(), PhantomData)
    }

    pub fn path_mut(&mut self) -> (r: UrlContext<C, &mut String>)
        ensures
            r.inner()@ == old(self).inner()@.path,
            final(self).inner()@ == (UrlView { path: final(r.inner())@, ..old(self).inner()@ }),
    {
        UrlContext(&mut self.0.path, PhantomData)
    }

    pub fn search(&self) -> (r: UrlContext<C, &str>)
        ensures
            r.inner()@ == self.inner()@.search,
    {
        UrlContext(self.0.search.as_str(), PhantomData)
    }

    pub fn search_mut(&mut self) -> (r: UrlContext<C, &mut String>)
        ensures
            r.inner()@ == old(self).inner()@.search,
            final(self).inner()@ == (UrlView { search: final(r.inner())@, ..old(self).inner()@ }),
    {
        UrlContext(&mut self.0.search, PhantomData)
    }

    pub fn search_params(&self) -> (r: UrlContext<C, &ParamsMap>)
        ensures
            r.inner()@ == self.inner()@.search_params,
    {
        UrlContext(&self.0.search_params, PhantomData)
    }

    pub fn search_params_mut(&mut self) -> (r: UrlContext<C, &mut ParamsMap>)
        ensures
            r.inner()@ == old(self).inner()@.search_params,
            final(self).inner()@ == (UrlView {
                search_params: final(r.inner())@,
                ..old(self).inner()@
            }),
    {
        UrlContext(&mut self.0.search_params, PhantomData)
    }

    pub fn hash(&self) -> (r: UrlContext<C, &str>)
        ensures
            r.inner()@ == self.inner()@.hash,
    {
        UrlContext(self.0.hash.as_str(), PhantomData)
    }

    pub fn hash_mut(&mut self) -> (r: UrlContext<C, &mut String>)
        ensures
            r.inner()@ == old(self).inner()@.hash,
            final(self).inner()@ == (UrlView { hash: final(r.inner())@, ..old(self).inner()@ }),
    {
        UrlContext(&mut self.0.hash, PhantomData)
    }

    /// The path with its query and fragment, as an address bar shows it; see [`full_path`].
    pub fn to_full_path(&self) -> (r: UrlContext<C, String>)
        ensures
            r.inner()@ == full_path(self.inner()@),
    {
        let u = &self.0;
        let mut path = u.path.clone();
        proof {
            reveal_strlit("?");
            reveal_strlit("#");
        }
        if u.search.as_str().unicode_len() != 0 {
            path.append("?");
            path.append(u.search.as_str());
        }
        let ghost with_query = path@;
        if u.hash.as_str().unicode_len() != 0 {
            if u.hash.as_str().get_char(0) != '#' {
                path.append("#");
            }
            path.append(u.hash.as_str());
        }
        assert("?"@ =~= seq!['?']);
        assert("#"@ =~= seq!['#']);
        UrlContext(path, PhantomData)
    }

    /// `s` with every character but ASCII letters and digits percent-encoded.
    pub fn escape(s: UrlContext<C, &str>) -> (r: UrlContext<C, String>)
        ensures
            r.inner()@ == percent_encoded(s.inner()@),
    {
        UrlContext(encode_component(s.0), PhantomData)
    }

    /// `s` percent-decoded; `s` unchanged where the decoded bytes are not UTF-8.
    pub fn unescape(s: UrlContext<C, &str>) -> (r: UrlContext<C, String>)
        ensures
            r.inner()@ == decoded_or_same(s.inner()@),
    {
        UrlContext(decoded_or_input(s.0, decode_component(s.0)), PhantomData)
    }

    /// Decoding for a whole path; the same as [`UrlContext::unescape`].
    pub fn unescape_minimal(s: UrlContext<C, &str>) -> (r: UrlContext<C, String>)
        ensures
            r.inner()@ == decoded_or_same(s.inner()@),
    {
        Self::unescape(s)
    }
}

/// The history state of an entry, in its serialized form; `None` is the
/// platform's "no state".
#[derive(Debug)]
pub struct State(Option<String>);

impl View for State {
    type V = Option<Seq<char>>;

    closed spec fn view(&self) -> Option<Seq<char>> {
        match self.0 {
            Some(v) => Some(v@),
            None => None,
        }
    }
}

impl State {
    pub fn new(state: Option<String>) -> (r: State)
        ensures
            r@ == (match state {
                Some(v) => Some(v@),
                None => None,
            }),
    {
        State(state)
    }

    /// The serialized state, if there is one.
    pub fn value(&self) -> (r: Option<&str>)
        ensures
            r is None <==> self@ is None,
            r is Some ==> self@ == Some(r->0@),
    {
        match &self.0 {
            Some(v) => Some(v.as_str()),
            None => None,
        }
    }
}

impl Default for State {
    fn default() -> (r: State)
        ensures
            r@ is None,
    {
        State(None)
    }
}

impl Clone for State {
    fn clone(&self) -> (r: State)
        ensures
            r@ == self@,
    {
        match &self.0 {
            Some(v) => State(Some(v.clone())),
            None => State(None),
        }
    }
}

impl PartialEq for State {
    fn eq(&self, other: &State) -> (r: bool) {
        match (&self.0, &other.0) {
            (Some(a), Some(b)) => *a == *b,
            (None, None) => true,
            _ => false,
        }
    }
}

impl vstd::std_specs::cmp::PartialEqSpecImpl for State {
    open spec fn obeys_eq_spec() -> bool {
        true
    }

    open spec fn eq_spec(&self, other: &State) -> bool {
        self@ == other@
    }
}

/// A navigation to carry out.
#[derive(Debug)]
pub struct LocationChange {
    /// The new URL.
    pub value: UrlContext<RouterUrlContext, String>,
    /// Overwrite the current history entry instead of pushing a new one.
    pub replace: bool,
    /// Scroll to the top, or to the fragment's element, once committed.
    pub scroll: bool,
    /// The history state to store with the entry.
    pub state: State,
}

impl Default for LocationChange {
    fn default() -> (r: LocationChange)
        ensures
            r.value.inner()@ == Seq::<char>::empty(),
            r.replace,
            r.scroll,
            r.state@ is None,
    {
        LocationChange {
            value: UrlContext::new(String::new()),
            replace: true,
            scroll: true,
            state: State::default(),
        }
    }
}

impl Clone for LocationChange {
    fn clone(&self) -> (r: LocationChange)
        ensures
            r.value.inner()@ == self.value.inner()@,
            r.replace == self.replace,
            r.scroll == self.scroll,
            r.state@ == self.state@,
    {
        LocationChange {
            value: UrlContext::new(self.value.forget_context(RouterUrlContext).clone()),
            replace: self.replace,
            scroll: self.scroll,
            state: self.state.clone(),
        }
    }
}

/// Hash mode: the router's URL for a browser URL, whose fragment after `#`
/// holds the logical path (`/` where the fragment is empty).
pub open spec fn hash_router_view(u: UrlView) -> UrlView {
    UrlView {
        path: if u.hash.len() > 0 && u.hash[0] == '#' {
            u.hash.drop_first()
        } else {
            seq!['/']
        },
        hash: Seq::empty(),
        ..u
    }
}

/// Hash mode: the browser's URL for a router URL, its path folded into the
/// fragment and the browser path fixed at `/`.
pub open spec fn hash_browser_view(u: UrlView) -> UrlView {
    UrlView { hash: seq!['#'] + u.path, path: seq!['/'], ..u }
}

/// Hash mode: unfolds the logical path out of the browser URL's fragment.
pub fn hash_browser_to_router_url(url: UrlContext<BrowserUrlContext, Url>) -> (r: UrlContext<
    RouterUrlContext,
    Url,
>)
    ensures
        r.inner()@ == hash_router_view(url.inner()@),
{
    let mut u = url.0;
    let n = u.hash.as_str().unicode_len();
    let path = if n > 0 && u.hash.as_str().get_char(0) == '#' {
        String::from_str(u.hash.as_str().substring_char(1, n))
    } else {
        proof {
            reveal_strlit("/");
            assert("/"@ =~= seq!['/']);
        }
        String::from_str("/")
    };
    assert(u.hash@.subrange(1, n as int) =~= u.hash@.drop_first());
    u.path = path;
    u.hash = String::new();
    UrlContext(u, PhantomData)
}

/// Hash mode: folds the logical path into the browser URL's fragment.
pub fn hash_router_to_browser_url(url: UrlContext<RouterUrlContext, Url>) -> (r: UrlContext<
    BrowserUrlContext,
    Url,
>)
    ensures
        r.inner()@ == hash_browser_view(url.inner()@),
{
    let mut u = url.0;
    proof {
        reveal_strlit("#");
        reveal_strlit("/");
        assert("#"@ =~= seq!['#']);
        assert("/"@ =~= seq!['/']);
    }
    u.hash = String::from_str("#").concat(u.path.as_str());
    u.path = String::from_str("/");
    UrlContext(u, PhantomData)
}

/// Hash mode: the address to put in the browser's history for a router URL.
pub fn hash_mode_href(url: UrlContext<RouterUrlContext, Url>) -> (r: UrlContext<
    BrowserUrlContext,
    String,
>)
    ensures
        r.inner()@ == url.inner()@.origin + full_path(hash_browser_view(url.inner()@)),
{
    let b = hash_router_to_browser_url(url);
    let full = b.to_full_path();
    UrlContext(b.0.origin.clone().concat(full.0.as_str()), PhantomData)
}

} // verus!

//! Path normalization and resolution of links against the router's base.
use crate::location::{RouterUrlContext, UrlContext, UrlContextType};
use crate::text::{is_ascii_alnum, is_prefix, starts_with};
use vstd::prelude::*;
use vstd::string::{StrSliceExecFns, StringExecFns};

verus! {

/// `s` with every leading `/` removed.
pub open spec fn strip_leading_slashes(s: Seq<char>) -> Seq<char>
    decreases s.len(),
{
    if s.len() > 0 && s[0] == '/' {
        strip_leading_slashes(s.drop_first())
    } else {
        s
    }
}

/// The length of the run of `/` that ends `s`.
pub open spec fn trailing_slashes(s: Seq<char>) -> nat
    decreases s.len(),
{
    if s.len() > 0 && s.last() == '/' {
        1 + trailing_slashes(s.drop_last())
    } else {
        0
    }
}

/// `s` without leading slashes, and with a closing run of slashes cut to one.
pub open spec fn trimmed(p: Seq<char>) -> Seq<char> {
    let s = strip_leading_slashes(p);
    let t = trailing_slashes(s);
    if t > 1 {
        s.subrange(0, s.len() - (t - 1))
    } else {
        s
    }
}

pub open spec fn starts_query_or_hash(s: Seq<char>) -> bool {
    s.len() > 0 && (s[0] == '?' || s[0] == '#')
}

/// The normal form of a path: edges trimmed, then one leading `/` unless the
/// rest is empty, starts a query or fragment, or `omit_slash` asks for none.
pub open spec fn normalized(p: Seq<char>, omit_slash: bool) -> Seq<char> {
    let s = trimmed(p);
    if s.len() == 0 || omit_slash || starts_query_or_hash(s) {
        s
    } else {
        seq!['/'] + s
    }
}

/// `s` names a scheme or a network location: `//`, `tel:`, `mailto:`, or
/// ASCII letters and digits followed by `://`.
pub open spec fn scheme_qualified(s: Seq<char>) -> bool {
    is_prefix(seq!['/', '/'], s) || is_prefix(seq!['t', 'e', 'l', ':'], s) || is_prefix(
        seq!['m', 'a', 'i', 'l', 't', 'o', ':'],
        s,
    ) || exists|i: int|
        0 <= i && i + 3 <= s.len() && #[trigger] s.subrange(i, i + 3) == seq![':', '/', '/']
            && forall|j: int| 0 <= j < i ==> is_ascii_alnum(#[trigger] s[j])
}

/// The path that `path` denotes when followed from `from` under `base`.
pub open spec fn resolved(base: Seq<char>, path: Seq<char>, from: Option<Seq<char>>) -> Seq<char> {
    if scheme_qualified(path) {
        path
    } else {
        let base_path = normalized(base, false);
        let result = match from {
            Some(f) => {
                let from_path = normalized(f, false);
                if path.len() > 0 && path[0] == '/' {
                    base_path
                } else if !is_prefix(base_path, from_path) {
                    base_path + from_path
                } else {
                    from_path
                }
            },
            None => base_path,
        };
        let prefix = if result.len() == 0 {
            seq!['/']
        } else {
            result
        };
        prefix + normalized(path, result.len() == 0)
    }
}

proof fn lemma_strip_leading(s: Seq<char>, k: int)
    requires
        0 <= k <= s.len(),
        forall|j: int| 0 <= j < k ==> s[j] == '/',
        k == s.len() || s[k] != '/',
    ensures
        strip_leading_slashes(s) == s.subrange(k, s.len() as int),
    decreases k,
{
    if k == 0 {
        assert(s.subrange(0, s.len() as int) =~= s);
    } else {
        let d = s.drop_first();
        assert forall|j: int| 0 <= j < k - 1 implies d[j] == '/' by {
            assert(d[j] == s[j + 1]);
        }
        lemma_strip_leading(d, k - 1);
        assert(d.subrange(k - 1, d.len() as int) =~= s.subrange(k, s.len() as int));
    }
}

proof fn lemma_trailing(s: Seq<char>, t: int)
    requires
        0 <= t <= s.len(),
        forall|j: int| s.len() - t <= j < s.len() ==> s[j] == '/',
        t == s.len() || s[s.len() - 1 - t] != '/',
    ensures
        trailing_slashes(s) == t,
    decreases t,
{
    if t > 0 {
        let d = s.drop_last();
        assert forall|j: int| d.len() - (t - 1) <= j < d.len() implies d[j] == '/' by {
            assert(d[j] == s[j]);
        }
        lemma_trailing(d, t - 1);
    }
}

/// Whether `text` starts a query string or a fragment.
pub fn begins_with_query_or_hash(text: &str) -> (r: bool)
    ensures
        r == starts_query_or_hash(text@),
{
    if text.unicode_len() == 0 {
        false
    } else {
        let c = text.get_char(0);
        c == '#' || c == '?'
    }
}

fn is_ascii_alnum_char(c: char) -> (r: bool)
    ensures
        r == is_ascii_alnum(c),
{
    ('a' <= c && c <= 'z') || ('A' <= c && c <= 'Z') || ('0' <= c && c <= '9')
}

/// Whether `path` is scheme-qualified and so never resolved against the router.
pub fn has_scheme(path: UrlContext<RouterUrlContext, &str>) -> (r: bool)
    ensures
        r == scheme_qualified(path.inner()@),
{
    let p: &str = path.forget_context(RouterUrlContext);
    proof {
        reveal_strlit("//");
        reveal_strlit("tel:");
        reveal_strlit("mailto:");
        assert("//"@ =~= seq!['/', '/']);
        assert("tel:"@ =~= seq!['t', 'e', 'l', ':']);
        assert("mailto:"@ =~= seq!['m', 'a', 'i', 'l', 't', 'o', ':']);
    }
    if starts_with(p, "//") || starts_with(p, "tel:") || starts_with(p, "mailto:") {
        return true;
    }
    let n = p.unicode_len();
    let mut i: usize = 0;
    while i < n && is_ascii_alnum_char(p.get_char(i))
        invariant
            n == p@.len(),
            0 <= i <= n,
            forall|j: int| 0 <= j < i ==> is_ascii_alnum(#[trigger] p@[j]),
        decreases n - i,
    {
        i = i + 1;
    }
    let found = n >= 3 && i <= n - 3 && p.get_char(i) == ':' && p.get_char(i + 1) == '/'
        && p.get_char(i + 2) == '/';
    proof {
        let pat = seq![':', '/', '/'];
        if found {
            assert(p@.subrange(i as int, i + 3) =~= pat);
        } else if exists|w: int|
            0 <= w && w + 3 <= p@.len() && #[trigger] p@.subrange(w, w + 3) == pat
                && forall|j: int| 0 <= j < w ==> is_ascii_alnum(#[trigger] p@[j]) {
            let w = choose|w: int|
                0 <= w && w + 3 <= p@.len() && #[trigger] p@.subrange(w, w + 3) == pat
                    && forall|j: int| 0 <= j < w ==> is_ascii_alnum(#[trigger] p@[j]);
            assert(p@[w] == p@.subrange(w, w + 3)[0]);
            assert(!is_ascii_alnum(p@[w]));
            if w < i {
                assert(is_ascii_alnum(p@[w]));
            }
            if i < w {
                assert(is_ascii_alnum(p@[i as int]));
            }
            assert(p@[w + 1] == p@.subrange(w, w + 3)[1]);
            assert(p@[w + 2] == p@.subrange(w, w + 3)[2]);
        }
    }
    found
}

/// Normalizes the edges of a path; see [`normalized`].
pub fn normalize<C: UrlContextType>(path: UrlContext<C, &str>, omit_slash: bool) -> (r: UrlContext<C, String>)
    ensures
        r.inner()@ == normalized(path.inner()@, omit_slash),
{
    let p: &str = path.forget_context(C::produce_from_thin_air());
    let n = p.unicode_len();
    let mut k: usize = 0;
    while k < n && p.get_char(k) == '/'
        invariant
            n == p@.len(),
            0 <= k <= n,
            forall|j: int| 0 <= j < k ==> p@[j] == '/',
        decreases n - k,
    {
        k = k + 1;
    }
    proof {
        lemma_strip_leading(p@, k as int);
    }
    let ghost s = p@.subrange(k as int, n as int);
    let mut t: usize = 0;
    while t < n - k && p.get_char(n - 1 - t) == '/'
        invariant
            n == p@.len(),
            k <= n,
            s == p@.subrange(k as int, n as int),
            0 <= t <= n - k,
            forall|j: int| s.len() - t <= j < s.len() ==> s[j] == '/',
        decreases n - k - t,
    {
        assert(s[s.len() - 1 - t] == p@[n - 1 - t]);
        t = t + 1;
    }
    proof {
        if t < n - k {
            assert(s[s.len() - 1 - t] == p@[n - 1 - t]);
        }
        lemma_trailing(s, t as int);
    }
    let end: usize = if t > 1 { n - (t - 1) } else { n };
    let core = p.substring_char(k, end);
    assert(core@ =~= trimmed(p@));
    if core.unicode_len() == 0 || omit_slash || begins_with_query_or_hash(core) {
        UrlContext::new(String::from_str(core))
    } else {
        let slash = String::from_str("/");
        proof {
            reveal_strlit("/");
        }
        let joined = slash.concat(core);
        assert(joined@ =~= seq!['/'] + core@);
        UrlContext::new(joined)
    }
}

} // verus!

verus! {

/// Resolves `path` against the router's `base`, following it from `from`
/// when given; scheme-qualified paths come back unchanged.
pub fn resolve_path(
    base: UrlContext<RouterUrlContext, &str>,
    path: UrlContext<RouterUrlContext, &str>,
    from: UrlContext<RouterUrlContext, Option<&str>>,
) -> (r: UrlContext<RouterUrlContext, String>)
    ensures
        r.inner()@ == resolved(
            base.inner()@,
            path.inner()@,
            match from.inner() {
                Some(f) => Some(f@),
                None => None,
            },
        ),
{
    let p: &str = path.forget_context(RouterUrlContext);
    if has_scheme(UrlContext::new(p)) {
        return UrlContext::new(String::from_str(p));
    }
    let base_path = normalize(base, false).change_context(RouterUrlContext);
    let base_str: &str = base_path.forget_context(RouterUrlContext).as_str();
    let result: String = match *from.forget_context(RouterUrlContext) {
        Some(f) => {
            let from_path = normalize(UrlContext::<RouterUrlContext, &str>::new(f), false);
            let from_str: &str = from_path.forget_context(RouterUrlContext).as_str();
            if p.unicode_len() > 0 && p.get_char(0) == '/' {
                String::from_str(base_str)
            } else if !starts_with(from_str, base_str) {
                String::from_str(base_str).concat(from_str)
            } else {
                String::from_str(from_str)
            }
        },
        None => String::from_str(base_str),
    };
    let result_empty = result.as_str().unicode_len() == 0;
    let prefix = if result_empty {
        proof {
            reveal_strlit("/");
        }
        String::from_str("/")
    } else {
        result
    };
    let tail = normalize(UrlContext::<RouterUrlContext, &str>::new(p), result_empty);
    let joined = prefix.concat(tail.forget_context(RouterUrlContext).as_str());
    proof {
        reveal_strlit("/");
        assert(seq!['/'] =~= "/"@);
    }
    UrlContext::new(joined)
}

} // verus!

verus! {

proof fn lemma_strip_leading_shape(s: Seq<char>)
    ensures
        strip_leading_slashes(s).len() == 0 || strip_leading_slashes(s)[0] != '/',
    decreases s.len(),
{
    if s.len() > 0 && s[0] == '/' {
        lemma_strip_leading_shape(s.drop_first());
    }
}

/// The characters that the trailing run counts are slashes, and the one
/// before it is not.
proof fn lemma_trailing_shape(s: Seq<char>)
    ensures
        trailing_slashes(s) <= s.len(),
        forall|j: int| s.len() - trailing_slashes(s) <= j < s.len() ==> s[j] == '/',
        trailing_slashes(s) == s.len() || s[s.len() - 1 - trailing_slashes(s)] != '/',
    decreases s.len(),
{
    if s.len() > 0 && s.last() == '/' {
        let d = s.drop_last();
        lemma_trailing_shape(d);
        assert forall|j: int| s.len() - trailing_slashes(s) <= j < s.len() implies s[j] == '/' by {
            if j < s.len() - 1 {
                assert(s[j] == d[j]);
            }
        }
    }
}

/// What `trimmed` leaves: no leading slash, at most one trailing slash.
proof fn lemma_trimmed_shape(p: Seq<char>)
    ensures
        trimmed(p).len() == 0 || trimmed(p)[0] != '/',
        trailing_slashes(trimmed(p)) <= 1,
{
    let s = strip_leading_slashes(p);
    lemma_strip_leading_shape(p);
    lemma_trailing_shape(s);
    let t = trailing_slashes(s);
    if t > 1 {
        let c = s.subrange(0, s.len() - (t - 1));
        assert(t < s.len());
        assert(c[c.len() - 1] == s[s.len() - t]);
        assert(c[c.len() - 2] == s[s.len() - 1 - t]);
        lemma_trailing(c, 1);
        assert(c[0] == s[0]);
    }
}

/// A path already in trimmed shape is its own trim, also behind one slash.
proof fn lemma_trimmed_fixed(c: Seq<char>)
    requires
        c.len() == 0 || c[0] != '/',
        trailing_slashes(c) <= 1,
    ensures
        trimmed(c) == c,
        c.len() > 0 ==> trimmed(seq!['/'] + c) == c,
{
    if c.len() > 0 {
        assert((seq!['/'] + c).drop_first() =~= c);
    }
}

/// Normalizing a normalized path changes nothing.
pub proof fn lemma_normalize_idempotent(p: Seq<char>, omit_slash: bool)
    ensures
        normalized(normalized(p, omit_slash), omit_slash) == normalized(p, omit_slash),
{
    let c = trimmed(p);
    lemma_trimmed_shape(p);
    lemma_trimmed_fixed(c);
}

/// A path `/?q` normalizes to the query `?q` itself, unless it ends in two
/// or more slashes.
pub proof fn lemma_normalize_query_with_slash(p: Seq<char>)
    requires
        p.len() >= 2,
        p[0] == '/',
        p[1] == '?',
        !(p[p.len() - 1] == '/' && p[p.len() - 2] == '/'),
    ensures
        normalized(p, false) == p.drop_first(),
{
    let d = p.drop_first();
    assert(strip_leading_slashes(d) == d);
    if d.last() == '/' {
        assert(d.drop_last().last() == p[p.len() - 2]);
        assert(trailing_slashes(d.drop_last()) == 0);
    }
}

} // verus!

verus! {

/// A run of `k` slashes.
pub open spec fn slashes(k: nat) -> Seq<char> {
    Seq::new(k, |_i: int| '/')
}

proof fn lemma_strip_leading_append(p: Seq<char>, x: Seq<char>)
    ensures
        strip_leading_slashes(p + x) == if strip_leading_slashes(p).len() > 0 {
            strip_leading_slashes(p) + x
        } else {
            strip_leading_slashes(x)
        },
    decreases p.len(),
{
    if p.len() == 0 {
        assert(p + x =~= x);
    } else if p[0] == '/' {
        assert((p + x).drop_first() =~= p.drop_first() + x);
        lemma_strip_leading_append(p.drop_first(), x);
    } else {
        assert((p + x)[0] == p[0]);
    }
}

proof fn lemma_trimmed_with_run(p: Seq<char>, k: nat)
    requires
        k >= 1,
    ensures
        trimmed(p + slashes(k)) == if strip_leading_slashes(p).len() > 0 {
            let s = strip_leading_slashes(p);
            s.subrange(0, s.len() - trailing_slashes(s)).push('/')
        } else {
            Seq::<char>::empty()
        },
{
    let x = slashes(k);
    lemma_strip_leading_append(p, x);
    let s = strip_leading_slashes(p);
    if s.len() > 0 {
        lemma_strip_leading_shape(p);
        lemma_trailing_shape(s);
        let r = trailing_slashes(s);
        assert(r < s.len());
        let q = s + x;
        assert forall|j: int| q.len() - (r + k) <= j < q.len() implies q[j] == '/' by {
            if j < s.len() {
                assert(q[j] == s[j]);
            }
        }
        assert(q[q.len() - 1 - (r + k)] == s[s.len() - 1 - r]);
        lemma_trailing(q, (r + k) as int);
        let want = s.subrange(0, s.len() - r).push('/');
        if r + k > 1 {
            assert(q.subrange(0, q.len() - (r + k - 1)) =~= want);
        } else {
            assert(q =~= want);
        }
    } else {
        lemma_strip_leading(x, k as int);
        assert(x.subrange(k as int, k as int) =~= Seq::<char>::empty());
    }
}

/// A closing run of slashes normalizes the same whatever its length: to a
/// single trailing slash where anything else remains.
pub proof fn lemma_normalize_trailing_run(p: Seq<char>, k: nat, omit_slash: bool)
    requires
        k >= 1,
    ensures
        normalized(p + slashes(k), omit_slash) == normalized(p + slashes(1), omit_slash),
{
    lemma_trimmed_with_run(p, k);
    lemma_trimmed_with_run(p, 1);
}

} // verus!

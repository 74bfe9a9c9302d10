//! An ordered map of query parameters.
use crate::text::str_eq;
use vstd::prelude::*;

verus! {

/// The first value stored under key `k` in `entries`.
pub open spec fn lookup(entries: Seq<(Seq<char>, Seq<char>)>, k: Seq<char>) -> Option<Seq<char>>
    decreases entries.len(),
{
    if entries.len() == 0 {
        None
    } else if entries[0].0 == k {
        Some(entries[0].1)
    } else {
        lookup(entries.drop_first(), k)
    }
}

/// No key occurs twice in `entries`.
pub open spec fn keys_unique(entries: Seq<(Seq<char>, Seq<char>)>) -> bool {
    forall|i: int, j: int|
        0 <= i < j < entries.len() ==> #[trigger] entries[i].0 != #[trigger] entries[j].0
}

/// Query parameters in the order their keys were first inserted; a later
/// insert under the same key replaces the value in place.
#[derive(Debug)]
pub struct ParamsMap(Vec<(String, String)>);

impl View for ParamsMap {
    type V = Seq<(Seq<char>, Seq<char>)>;

    closed spec fn view(&self) -> Seq<(Seq<char>, Seq<char>)> {
        self.0@.map_values(|p: (String, String)| (p.0@, p.1@))
    }
}

proof fn lemma_lookup_at(entries: Seq<(Seq<char>, Seq<char>)>, i: int)
    requires
        keys_unique(entries),
        0 <= i < entries.len(),
    ensures
        lookup(entries, entries[i].0) == Some(entries[i].1),
    decreases entries.len(),
{
    if i > 0 {
        assert(entries[0].0 != entries[i].0);
        assert(keys_unique(entries.drop_first()));
        assert(entries.drop_first()[i - 1] == entries[i]);
        lemma_lookup_at(entries.drop_first(), i - 1);
    }
}

proof fn lemma_lookup_absent(entries: Seq<(Seq<char>, Seq<char>)>, k: Seq<char>)
    requires
        forall|i: int| 0 <= i < entries.len() ==> #[trigger] entries[i].0 != k,
    ensures
        lookup(entries, k) is None,
    decreases entries.len(),
{
    if entries.len() > 0 {
        assert(entries[0].0 != k);
        assert forall|i: int| 0 <= i < entries.drop_first().len() implies
            #[trigger] entries.drop_first()[i].0 != k by {
            assert(entries.drop_first()[i] == entries[i + 1]);
        }
        lemma_lookup_absent(entries.drop_first(), k);
    }
}

impl ParamsMap {
    pub open spec fn wf(&self) -> bool {
        keys_unique(self@)
    }

    pub fn new() -> (r: ParamsMap)
        ensures
            r@ == Seq::<(Seq<char>, Seq<char>)>::empty(),
            r.wf(),
    {
        ParamsMap(Vec::new())
    }

    /// Stores `value` under `key`: in place of the old value where the key is
    /// present, at the end otherwise.
    pub fn insert(&mut self, key: String, value: String)
        requires
            old(self).wf(),
        ensures
            final(self).wf(),
            forall|i: int|
                0 <= i < old(self)@.len() && #[trigger] old(self)@[i].0 == key@ ==> final(self)@
                    == old(self)@.update(i, (key@, value@)),
            (forall|i: int| 0 <= i < old(self)@.len() ==> #[trigger] old(self)@[i].0 != key@)
                ==> final(self)@ == old(self)@.push((key@, value@)),
    {
        let n = self.0.len();
        let mut i: usize = 0;
        while i < n
            invariant
                n == self.0@.len(),
                self == old(self),
                self.wf(),
                0 <= i <= n,
                forall|j: int| 0 <= j < i ==> #[trigger] self@[j].0 != key@,
            decreases n - i,
        {
            assert(self@[i as int] == (self.0@[i as int].0@, self.0@[i as int].1@));
            if self.0[i].0 == key {
                assert forall|c: int| 0 <= c < old(self)@.len() && #[trigger] old(self)@[c].0 == key@
                    implies c == i by {
                    if c != i {
                        assert(old(self)@[c].0 == old(self)@[i as int].0);
                    }
                }
                assert(old(self)@[i as int].0 == key@);
                self.0.set(i, (key, value));
                assert(self@ =~= old(self)@.update(i as int, (key@, value@)));
                return;
            }
            i = i + 1;
        }
        self.0.push((key, value));
        assert(self@ =~= old(self)@.push((key@, value@)));
    }

    /// The value stored under `key`, if any.
    pub fn get_str(&self, key: &str) -> (r: Option<&str>)
        requires
            self.wf(),
        ensures
            r matches Some(v) ==> lookup(self@, key@) == Some(v@),
            r is None ==> lookup(self@, key@) is None,
    {
        let n = self.0.len();
        let mut i: usize = 0;
        while i < n
            invariant
                n == self.0@.len(),
                self.wf(),
                0 <= i <= n,
                forall|j: int| 0 <= j < i ==> #[trigger] self@[j].0 != key@,
            decreases n - i,
        {
            assert(self@[i as int] == (self.0@[i as int].0@, self.0@[i as int].1@));
            if str_eq(self.0[i].0.as_str(), key) {
                proof {
                    lemma_lookup_at(self@, i as int);
                }
                return Some(self.0[i].1.as_str());
            }
            i = i + 1;
        }
        proof {
            lemma_lookup_absent(self@, key@);
        }
        None
    }
}

impl Clone for ParamsMap {
    fn clone(&self) -> (r: ParamsMap)
        ensures
            r@ == self@,
    {
        let n = self.0.len();
        let mut out: Vec<(String, String)> = Vec::new();
        let mut i: usize = 0;
        while i < n
            invariant
                n == self.0@.len(),
                0 <= i <= n,
                out@.len() == i,
                forall|j: int| 0 <= j < i ==> (#[trigger] out@[j]).0@ == self.0@[j].0@ && out@[j].1@ == self.0@[j].1@,
            decreases n - i,
        {
            out.push((self.0[i].0.clone(), self.0[i].1.clone()));
            i = i + 1;
        }
        let r = ParamsMap(out);
        assert(r@ =~= self@);
        r
    }
}

impl PartialEq for ParamsMap {
    fn eq(&self, other: &ParamsMap) -> (r: bool) {
        let n = self.0.len();
        if n != other.0.len() {
            assert(self@.len() != other@.len());
            return false;
        }
        let mut i: usize = 0;
        while i < n
            invariant
                n == self.0@.len(),
                n == other.0@.len(),
                0 <= i <= n,
                forall|j: int| 0 <= j < i ==> #[trigger] self@[j] == other@[j],
            decreases n - i,
        {
            assert(self@[i as int] == (self.0@[i as int].0@, self.0@[i as int].1@));
            assert(other@[i as int] == (other.0@[i as int].0@, other.0@[i as int].1@));
            if !(self.0[i].0 == other.0[i].0 && self.0[i].1 == other.0[i].1) {
                return false;
            }
            i = i + 1;
        }
        assert(self@ =~= other@);
        true
    }
}

impl vstd::std_specs::cmp::PartialEqSpecImpl for ParamsMap {
    open spec fn obeys_eq_spec() -> bool {
        true
    }

    open spec fn eq_spec(&self, other: &ParamsMap) -> bool {
        self@ == other@
    }
}

} // verus!

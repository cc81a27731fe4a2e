//! An association map from strings to values, backed by a vector of pairs
//! whose keys are pairwise distinct. This is the shape shared by the option
//! maps, the header maps, the component directories and the server-side
//! session table.

use vstd::prelude::*;
use vstd::string::StrSliceExecFns;

verus! {

/// Character-for-character string equality, decided without trusting any
/// derived or external comparison.
pub fn str_eq(a: &str, b: &str) -> (r: bool)
    ensures
        r == (a@ == b@),
{
    let la = a.unicode_len();
    let lb = b.unicode_len();
    if la != lb {
        return false;
    }
    let mut i: usize = 0;
    while i < la
        invariant
            la == a@.len(),
            la == b@.len(),
            i <= la,
            forall|j: int| 0 <= j < i ==> a@[j] == b@[j],
        decreases la - i,
    {
        if a.get_char(i) != b.get_char(i) {
            return false;
        }
        i += 1;
    }
    proof {
        assert(a@ =~= b@);
    }
    true
}

/// String pairs, seen as sequences of characters.
pub open spec fn sview(s: Seq<(String, String)>) -> Seq<(Seq<char>, Seq<char>)> {
    Seq::new(s.len(), |i: int| (s[i].0@, s[i].1@))
}

/// The value of the first pair in `s` whose key reads `k`, if any.
pub open spec fn seq_get<V>(s: Seq<(String, V)>, k: Seq<char>) -> Option<V>
    decreases s.len(),
{
    if s.len() == 0 {
        None
    } else if s[0].0@ == k {
        Some(s[0].1)
    } else {
        seq_get(s.drop_first(), k)
    }
}

/// No two pairs of `s` share a key.
pub open spec fn keys_distinct<V>(s: Seq<(String, V)>) -> bool {
    forall|i: int, j: int| 0 <= i < j < s.len() ==> s[i].0@ != s[j].0@
}

pub proof fn lemma_seq_get_skip<V>(s: Seq<(String, V)>, k: Seq<char>, i: int)
    requires
        0 <= i <= s.len(),
        forall|j: int| 0 <= j < i ==> s[j].0@ != k,
    ensures
        seq_get(s, k) == seq_get(s.skip(i), k),
    decreases i,
{
    if i == 0 {
        assert(s.skip(0) =~= s);
    } else {
        assert(s.drop_first() =~= s.skip(1));
        assert(forall|j: int| 0 <= j < i - 1 ==> s.skip(1)[j].0@ != k);
        lemma_seq_get_skip(s.skip(1), k, i - 1);
        assert(s.skip(1).skip(i - 1) =~= s.skip(i));
    }
}

pub proof fn lemma_seq_get_absent<V>(s: Seq<(String, V)>, k: Seq<char>)
    ensures
        seq_get(s, k) is None <==> (forall|j: int| 0 <= j < s.len() ==> s[j].0@ != k),
    decreases s.len(),
{
    if s.len() > 0 {
        lemma_seq_get_absent(s.drop_first(), k);
        assert(forall|j: int| 0 <= j < s.drop_first().len() ==> s.drop_first()[j] == s[j + 1]);
        if seq_get(s, k) is None {
            assert(s[0].0@ != k);
            assert forall|j: int| 0 <= j < s.len() implies s[j].0@ != k by {
                if j > 0 {
                    assert(s.drop_first()[j - 1] == s[j]);
                }
            }
        } else {
            if s[0].0@ != k {
                assert(seq_get(s.drop_first(), k) is Some);
                let j = choose|j: int|
                    0 <= j < s.drop_first().len() && s.drop_first()[j].0@ == k;
                assert(s[j + 1].0@ == k);
            }
        }
    }
}

pub proof fn lemma_seq_get_present<V>(s: Seq<(String, V)>, k: Seq<char>)
    requires
        seq_get(s, k) is Some,
    ensures
        exists|i: int|
            0 <= i < s.len() && s[i].0@ == k && seq_get(s, k) == Some(s[i].1),
    decreases s.len(),
{
    if s.len() > 0 {
        if s[0].0@ == k {
            assert(seq_get(s, k) == Some(s[0].1));
        } else {
            lemma_seq_get_present(s.drop_first(), k);
            let i = choose|i: int|
                0 <= i < s.drop_first().len() && s.drop_first()[i].0@ == k && seq_get(
                    s.drop_first(),
                    k,
                ) == Some(s.drop_first()[i].1);
            assert(s.drop_first()[i] == s[i + 1]);
        }
    }
}

pub proof fn lemma_seq_get_update<V>(s: Seq<(String, V)>, i: int, p: (String, V))
    requires
        keys_distinct(s),
        0 <= i < s.len(),
        s[i].0@ == p.0@,
    ensures
        keys_distinct(s.update(i, p)),
        seq_get(s.update(i, p), p.0@) == Some(p.1),
        forall|k2: Seq<char>| k2 != p.0@ ==> seq_get(s.update(i, p), k2) == seq_get(s, k2),
    decreases i,
{
    let t = s.update(i, p);
    assert(forall|j: int| 0 <= j < s.len() && j != i ==> t[j] == s[j]);
    if i == 0 {
        assert(t[0] == p);
        assert(t.drop_first() =~= s.drop_first());
        assert forall|k2: Seq<char>| k2 != p.0@ implies seq_get(t, k2) == seq_get(s, k2) by {
            assert(seq_get(t, k2) == seq_get(t.drop_first(), k2));
            assert(seq_get(s, k2) == seq_get(s.drop_first(), k2));
        }
    } else {
        assert(t[0] == s[0]);
        assert(s[0].0@ != p.0@);
        assert(t.drop_first() =~= s.drop_first().update(i - 1, p));
        assert(keys_distinct(s.drop_first())) by {
            assert(forall|a: int|
                0 <= a < s.drop_first().len() ==> s.drop_first()[a] == s[a + 1]);
        }
        assert(s.drop_first()[i - 1] == s[i]);
        lemma_seq_get_update(s.drop_first(), i - 1, p);
        assert(seq_get(t, p.0@) == seq_get(t.drop_first(), p.0@));
        assert forall|k2: Seq<char>| k2 != p.0@ implies seq_get(t, k2) == seq_get(s, k2) by {
            if k2 == s[0].0@ {
                assert(seq_get(t, k2) == Some(t[0].1));
                assert(seq_get(s, k2) == Some(s[0].1));
            } else {
                assert(seq_get(t, k2) == seq_get(t.drop_first(), k2));
                assert(seq_get(s, k2) == seq_get(s.drop_first(), k2));
            }
        }
    }
}

pub proof fn lemma_seq_get_remove<V>(s: Seq<(String, V)>, i: int)
    requires
        keys_distinct(s),
        0 <= i < s.len(),
    ensures
        keys_distinct(s.remove(i)),
        seq_get(s.remove(i), s[i].0@) is None,
        forall|k2: Seq<char>| k2 != s[i].0@ ==> seq_get(s.remove(i), k2) == seq_get(s, k2),
    decreases i,
{
    let t = s.remove(i);
    assert(forall|j: int| 0 <= j < i ==> t[j] == s[j]);
    assert(forall|j: int| i <= j < t.len() ==> t[j] == s[j + 1]);
    if i == 0 {
        assert(t =~= s.drop_first());
        lemma_seq_get_absent(s.drop_first(), s[0].0@);
        assert forall|k2: Seq<char>| k2 != s[0].0@ implies seq_get(t, k2) == seq_get(s, k2) by {
            assert(seq_get(s, k2) == seq_get(s.drop_first(), k2));
        }
    } else {
        assert(t[0] == s[0]);
        assert(s[0].0@ != s[i].0@);
        assert(keys_distinct(s.drop_first())) by {
            assert(forall|a: int| 0 <= a < s.drop_first().len() ==> s.drop_first()[a] == s[a + 1]);
        }
        assert(t.drop_first() =~= s.drop_first().remove(i - 1));
        assert(s.drop_first()[i - 1] == s[i]);
        lemma_seq_get_remove(s.drop_first(), i - 1);
        assert(seq_get(t, s[i].0@) == seq_get(t.drop_first(), s[i].0@));
        assert forall|k2: Seq<char>| k2 != s[i].0@ implies seq_get(t, k2) == seq_get(s, k2) by {
            if k2 == s[0].0@ {
                assert(seq_get(t, k2) == Some(t[0].1));
                assert(seq_get(s, k2) == Some(s[0].1));
            } else {
                assert(seq_get(t, k2) == seq_get(t.drop_first(), k2));
                assert(seq_get(s, k2) == seq_get(s.drop_first(), k2));
            }
        }
    }
}

pub proof fn lemma_seq_get_push<V>(s: Seq<(String, V)>, p: (String, V), k2: Seq<char>)
    ensures
        seq_get(s, k2) is Some ==> seq_get(s.push(p), k2) == seq_get(s, k2),
        seq_get(s, k2) is None && k2 == p.0@ ==> seq_get(s.push(p), k2) == Some(p.1),
        seq_get(s, k2) is None && k2 != p.0@ ==> seq_get(s.push(p), k2) is None,
    decreases s.len(),
{
    if s.len() == 0 {
        assert(s.push(p)[0] == p);
        assert(s.push(p).drop_first() =~= Seq::<(String, V)>::empty());
        assert(seq_get(Seq::<(String, V)>::empty(), k2) is None);
        assert(k2 != p.0@ ==> seq_get(s.push(p), k2) == seq_get(s.push(p).drop_first(), k2));
    } else {
        assert(s.push(p)[0] == s[0]);
        assert(s.push(p).drop_first() =~= s.drop_first().push(p));
        lemma_seq_get_push(s.drop_first(), p, k2);
    }
}

/// A map from string keys to values of `V`, with first-match lookup and
/// replace-on-insert. `wf()` (distinct keys) is established by `new` and
/// preserved by every operation.
pub struct StrMap<V> {
    pairs: Vec<(String, V)>,
}

impl<V> StrMap<V> {
    /// The underlying key/value pairs, oldest insertion first.
    pub closed spec fn seq(&self) -> Seq<(String, V)> {
        self.pairs@
    }

    pub open spec fn wf(&self) -> bool {
        keys_distinct(self.seq())
    }

    pub open spec fn spec_contains(&self, k: Seq<char>) -> bool {
        seq_get(self.seq(), k) is Some
    }

    pub fn new() -> (r: StrMap<V>)
        ensures
            r.wf(),
            r.seq() == Seq::<(String, V)>::empty(),
    {
        StrMap { pairs: Vec::new() }
    }

    pub fn len(&self) -> (r: usize)
        ensures
            r == self.seq().len(),
    {
        self.pairs.len()
    }

    pub fn is_empty(&self) -> (r: bool)
        ensures
            r == (self.seq().len() == 0),
    {
        self.pairs.is_empty()
    }

    /// The pair at position `i`, for iteration.
    pub fn pair_at(&self, i: usize) -> (r: &(String, V))
        requires
            i < self.seq().len(),
        ensures
            *r == self.seq()[i as int],
    {
        &self.pairs[i]
    }

    /// Index of the pair holding `k`, if any.
    fn find(&self, k: &str) -> (r: Option<usize>)
        ensures
            match r {
                Some(i) => i < self.seq().len() && self.seq()[i as int].0@ == k@,
                None => seq_get(self.seq(), k@) is None,
            },
    {
        let n = self.pairs.len();
        let mut i: usize = 0;
        while i < n
            invariant
                n == self.seq().len(),
                i <= n,
                forall|j: int| 0 <= j < i ==> self.seq()[j].0@ != k@,
            decreases n - i,
        {
            if str_eq(self.pairs[i].0.as_str(), k) {
                return Some(i);
            }
            i += 1;
        }
        proof {
            lemma_seq_get_absent(self.seq(), k@);
        }
        None
    }

    pub fn get<'a>(&'a self, k: &str) -> (r: Option<&'a V>)
        requires
            self.wf(),
        ensures
            match r {
                Some(v) => seq_get(self.seq(), k@) == Some(*v),
                None => seq_get(self.seq(), k@) is None,
            },
    {
        match self.find(k) {
            Some(i) => {
                proof {
                    lemma_seq_get_skip(self.seq(), k@, i as int);
                    assert(self.seq().skip(i as int)[0] == self.seq()[i as int]);
                }
                Some(&self.pairs[i].1)
            },
            None => None,
        }
    }

    pub fn contains_key(&self, k: &str) -> (r: bool)
        requires
            self.wf(),
        ensures
            r == self.spec_contains(k@),
    {
        self.get(k).is_some()
    }

    /// Binds `k` to `v`, replacing in place any earlier binding of `k`.
    pub fn insert(&mut self, k: String, v: V)
        requires
            old(self).wf(),
        ensures
            final(self).wf(),
            seq_get(final(self).seq(), k@) == Some(v),
            forall|k2: Seq<char>|
                k2 != k@ ==> seq_get(final(self).seq(), k2) == seq_get(old(self).seq(), k2),
            old(self).spec_contains(k@) ==> exists|i: int|
                0 <= i < old(self).seq().len() && old(self).seq()[i].0@ == k@
                    && final(self).seq() == old(self).seq().update(i, (k, v)),
            !old(self).spec_contains(k@) ==> final(self).seq() == old(self).seq().push((k, v)),
    {
        match self.find(k.as_str()) {
            Some(i) => {
                proof {
                    lemma_seq_get_skip(self.seq(), k@, i as int);
                    assert(self.seq().skip(i as int)[0] == self.seq()[i as int]);
                    lemma_seq_get_update(self.seq(), i as int, (k, v));
                }
                self.pairs[i] = (k, v);
            },
            None => {
                proof {
                    lemma_seq_get_absent(self.seq(), k@);
                    assert forall|k2: Seq<char>| true implies {
                        &&& seq_get(self.seq(), k2) is Some ==> seq_get(
                            self.seq().push((k, v)),
                            k2,
                        ) == seq_get(self.seq(), k2)
                        &&& seq_get(self.seq(), k2) is None && k2 == k@ ==> seq_get(
                            self.seq().push((k, v)),
                            k2,
                        ) == Some(v)
                        &&& seq_get(self.seq(), k2) is None && k2 != k@ ==> seq_get(
                            self.seq().push((k, v)),
                            k2,
                        ) is None
                    } by {
                        lemma_seq_get_push(self.seq(), (k, v), k2);
                    }
                    assert(keys_distinct(self.seq().push((k, v)))) by {
                        assert(forall|j: int|
                            0 <= j < self.seq().len() ==> self.seq().push((k, v))[j]
                                == self.seq()[j]);
                    }
                }
                self.pairs.push((k, v));
            },
        }
    }

    /// Removes the binding of `k`, handing back its value.
    pub fn remove(&mut self, k: &str) -> (r: Option<V>)
        requires
            old(self).wf(),
        ensures
            final(self).wf(),
            r == seq_get(old(self).seq(), k@),
            seq_get(final(self).seq(), k@) is None,
            forall|k2: Seq<char>|
                k2 != k@ ==> seq_get(final(self).seq(), k2) == seq_get(old(self).seq(), k2),
            r is Some ==> exists|i: int|
                0 <= i < old(self).seq().len() && old(self).seq()[i].0@ == k@
                    && final(self).seq() == old(self).seq().remove(i),
            r is None ==> final(self).seq() == old(self).seq(),
    {
        match self.find(k) {
            Some(i) => {
                proof {
                    lemma_seq_get_skip(self.seq(), k@, i as int);
                    assert(self.seq().skip(i as int)[0] == self.seq()[i as int]);
                    lemma_seq_get_remove(self.seq(), i as int);
                }
                let p = self.pairs.remove(i);
                Some(p.1)
            },
            None => None,
        }
    }

    /// Drops every binding.
    pub fn clear(&mut self)
        ensures
            final(self).wf(),
            final(self).seq() == Seq::<(String, V)>::empty(),
    {
        self.pairs.clear();
    }
}

impl StrMap<String> {
    /// An exact copy of a string-valued map.
    pub fn duplicate(&self) -> (r: StrMap<String>)
        requires
            self.wf(),
        ensures
            r.wf(),
            r.seq() == self.seq(),
    {
        let mut r: StrMap<String> = StrMap::new();
        let n = self.len();
        let mut i: usize = 0;
        while i < n
            invariant
                self.wf(),
                n == self.seq().len(),
                i <= n,
                r.wf(),
                r.seq() =~= self.seq().subrange(0, i as int),
            decreases n - i,
        {
            let p = self.pair_at(i);
            let k = p.0.clone();
            let v = p.1.clone();
            proof {
                assert((k, v) == self.seq()[i as int]);
                lemma_seq_get_absent(r.seq(), k@);
            }
            r.insert(k, v);
            i += 1;
        }
        proof {
            assert(r.seq() =~= self.seq());
        }
        r
    }
}

} // verus!

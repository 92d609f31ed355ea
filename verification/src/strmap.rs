//! A string-keyed map held as a vector of entries with pairwise distinct
//! keys.  Lookup is specified by `assoc_get`, reading the newest binding
//! first; with distinct keys that is the one binding of the key.

use crate::text::str_eq;
use vstd::prelude::*;
use vstd::string::*;

verus! {

/// Looks `k` up in an association list, newest binding first.
pub open spec fn assoc_get(s: Seq<(Seq<char>, Seq<char>)>, k: Seq<char>) -> Option<Seq<char>>
    decreases s.len(),
{
    if s.len() == 0 {
        None
    } else if s.last().0 == k {
        Some(s.last().1)
    } else {
        assoc_get(s.drop_last(), k)
    }
}

/// When every key of `s` differs from `k`, lookup fails.
proof fn lemma_assoc_none(s: Seq<(Seq<char>, Seq<char>)>, k: Seq<char>)
    requires
        forall|j: int| 0 <= j < s.len() ==> (#[trigger] s[j]).0 != k,
    ensures
        assoc_get(s, k) is None,
    decreases s.len(),
{
    if s.len() > 0 {
        lemma_assoc_none(s.drop_last(), k);
    }
}

/// When entry `i` holds `k` and no later entry does, lookup returns its
/// value.
proof fn lemma_assoc_found(s: Seq<(Seq<char>, Seq<char>)>, k: Seq<char>, i: int)
    requires
        0 <= i < s.len(),
        s[i].0 == k,
        forall|j: int| i < j < s.len() ==> (#[trigger] s[j]).0 != k,
    ensures
        assoc_get(s, k) == Some(s[i].1),
    decreases s.len(),
{
    if i == s.len() - 1 {
    } else {
        assert(s.last().0 != k);
        lemma_assoc_found(s.drop_last(), k, i);
    }
}

/// Replacing the value at entry `i` leaves every other key's lookup
/// unchanged.
proof fn lemma_assoc_update_other(
    s: Seq<(Seq<char>, Seq<char>)>,
    i: int,
    v: Seq<char>,
    k2: Seq<char>,
)
    requires
        0 <= i < s.len(),
        k2 != s[i].0,
    ensures
        assoc_get(s.update(i, (s[i].0, v)), k2) == assoc_get(s, k2),
    decreases s.len(),
{
    let s2 = s.update(i, (s[i].0, v));
    if i == s.len() - 1 {
        assert(s2.drop_last() =~= s.drop_last());
    } else {
        assert(s2.last() == s.last());
        if s.last().0 == k2 {
        } else {
            assert(s2.drop_last() =~= s.drop_last().update(i, (s.drop_last()[i].0, v)));
            lemma_assoc_update_other(s.drop_last(), i, v, k2);
        }
    }
}

/// Removing the one entry that holds `k` empties `k`'s lookup and leaves
/// every other key's lookup unchanged.
proof fn lemma_assoc_remove(s: Seq<(Seq<char>, Seq<char>)>, i: int, k: Seq<char>, k2: Seq<char>)
    requires
        0 <= i < s.len(),
        s[i].0 == k,
        forall|j: int| 0 <= j < s.len() && j != i ==> (#[trigger] s[j]).0 != k,
    ensures
        assoc_get(s.remove(i), k) is None,
        k2 != k ==> assoc_get(s.remove(i), k2) == assoc_get(s, k2),
    decreases s.len(),
{
    let s2 = s.remove(i);
    if i == s.len() - 1 {
        assert(s2 =~= s.drop_last());
        lemma_assoc_none(s.drop_last(), k);
    } else {
        assert(s2.last() == s.last());
        assert(s2.drop_last() =~= s.drop_last().remove(i));
        assert(s.last().0 != k);
        lemma_assoc_remove(s.drop_last(), i, k, k2);
        if k2 != k && s.last().0 == k2 {
        } else {
        }
    }
}

/// A map from strings to strings: a vector of entries with pairwise
/// distinct keys.
pub struct StrMap {
    entries: Vec<(String, String)>,
}

impl View for StrMap {
    type V = Seq<(Seq<char>, Seq<char>)>;

    closed spec fn view(&self) -> Seq<(Seq<char>, Seq<char>)> {
        self.entries@.map_values(|p: (String, String)| (p.0@, p.1@))
    }
}

impl StrMap {
    /// The map's invariant: keys are pairwise distinct.
    pub open spec fn wf(self) -> bool {
        forall|i: int, j: int|
            0 <= i < self@.len() && 0 <= j < self@.len() && i != j ==> (#[trigger] self@[i]).0 != (
            #[trigger] self@[j]).0
    }

    /// What the key maps to, if anything.
    pub open spec fn spec_get(self, k: Seq<char>) -> Option<Seq<char>> {
        assoc_get(self@, k)
    }

    /// An empty map.
    pub fn new() -> (r: StrMap)
        ensures
            r@.len() == 0,
            r.wf(),
            forall|k: Seq<char>| #[trigger] r.spec_get(k) is None,
    {
        let r = StrMap { entries: Vec::new() };
        proof {
            assert(r@ =~= Seq::<(Seq<char>, Seq<char>)>::empty());
        }
        r
    }

    /// How many keys the map holds.
    pub fn len(&self) -> (r: usize)
        ensures
            r == self@.len(),
    {
        self.entries.len()
    }

    /// The entries themselves, for callers that walk the whole map.
    pub fn entries(&self) -> (r: &Vec<(String, String)>)
        ensures
            r@.map_values(|p: (String, String)| (p.0@, p.1@)) == self@,
    {
        &self.entries
    }

    /// The index of the entry holding `key`, if any.
    fn find_index(&self, key: &str) -> (r: Option<usize>)
        ensures
            (r matches Some(i) ==> i < self@.len() && self@[i as int].0 == key@),
            (r is None ==> forall|j: int|
                0 <= j < self@.len() ==> (#[trigger] self@[j]).0 != key@),
    {
        let n = self.entries.len();
        let mut i: usize = 0;
        while i < n
            invariant
                i <= n,
                n == self@.len(),
                n == self.entries@.len(),
                forall|j: int| 0 <= j < i ==> (#[trigger] self@[j]).0 != key@,
        decreases n - i,
        {
            if str_eq(self.entries[i].0.as_str(), key) {
                return Some(i);
            }
            i = i + 1;
        }
        None
    }

    /// The value under `key`, if any: exactly `spec_get`.
    pub fn get(&self, key: &str) -> (r: Option<&String>)
        requires
            self.wf(),
        ensures
            (r matches Some(v) ==> self.spec_get(key@) == Some(v@)),
            (r is None ==> self.spec_get(key@) is None),
    {
        match self.find_index(key) {
            Some(i) => {
                proof {
                    lemma_assoc_found(self@, key@, i as int);
                }
                Some(&self.entries[i].1)
            },
            None => {
                proof {
                    lemma_assoc_none(self@, key@);
                }
                None
            },
        }
    }

    /// Binds `key` to `value`, replacing any earlier binding; no other
    /// key's lookup moves.
    pub fn insert(&mut self, key: &str, value: &str)
        requires
            old(self).wf(),
        ensures
            final(self).wf(),
            final(self).spec_get(key@) == Some(value@),
            forall|k: Seq<char>|
                k != key@ ==> #[trigger] final(self).spec_get(k) == old(self).spec_get(k),
            old(self)@.len() <= final(self)@.len() <= old(self)@.len() + 1,
    {
        match self.find_index(key) {
            Some(i) => {
                let entry = &mut self.entries[i];
                entry.1 = String::from_str(value);
                proof {
                    assert(self@ =~= old(self)@.update(i as int, (old(self)@[i as int].0, value@)));
                    lemma_assoc_found(self@, key@, i as int);
                    assert forall|k: Seq<char>| k != key@ implies #[trigger] assoc_get(self@, k)
                        == assoc_get(old(self)@, k) by {
                        lemma_assoc_update_other(old(self)@, i as int, value@, k);
                    }
                }
            },
            None => {
                self.entries.push((String::from_str(key), String::from_str(value)));
                proof {
                    assert(self@ =~= old(self)@.push((key@, value@)));
                    assert(self@.drop_last() =~= old(self)@);
                    assert(assoc_get(self@, key@) == Some(value@));
                }
            },
        }
    }

    /// Unbinds `key`, reporting whether it was bound; no other key's
    /// lookup moves.
    pub fn remove(&mut self, key: &str) -> (r: bool)
        requires
            old(self).wf(),
        ensures
            final(self).wf(),
            r == (old(self).spec_get(key@) is Some),
            final(self).spec_get(key@) is None,
            forall|k: Seq<char>|
                k != key@ ==> #[trigger] final(self).spec_get(k) == old(self).spec_get(k),
    {
        match self.find_index(key) {
            Some(i) => {
                proof {
                    lemma_assoc_found(old(self)@, key@, i as int);
                }
                self.entries.remove(i);
                proof {
                    assert(self@ =~= old(self)@.remove(i as int));
                    lemma_assoc_remove(old(self)@, i as int, key@, key@);
                    assert forall|k: Seq<char>| k != key@ implies #[trigger] assoc_get(self@, k)
                        == assoc_get(old(self)@, k) by {
                        lemma_assoc_remove(old(self)@, i as int, key@, k);
                    }
                }
                true
            },
            None => {
                proof {
                    lemma_assoc_none(self@, key@);
                }
                false
            },
        }
    }
}

} // verus!

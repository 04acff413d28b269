//! A string-keyed map of strings, used for headers, query parameters,
//! path parameters and per-function environments.
//!
//! The map is an association list with unique keys; its abstract value
//! is a `Map<Seq<char>, Seq<char>>`.

use vstd::prelude::*;
use vstd::pervasive::VecAdditionalExecFns;
use crate::strutil::str_eq;

verus! {

/// One key/value entry of a [`StrMap`].
#[derive(Debug, PartialEq)]
pub struct StrPair {
    pub key: String,
    pub value: String,
}

impl Clone for StrPair {
    /// A clone keeps both the key and the value.
    fn clone(&self) -> (res: Self)
        ensures
            res.key@ == self.key@,
            res.value@ == self.value@,
    {
        StrPair { key: self.key.clone(), value: self.value.clone() }
    }
}

/// No two entries share a key.
pub open spec fn unique_keys(s: Seq<StrPair>) -> bool {
    forall|i: int, j: int| 0 <= i < j < s.len() ==> s[i].key@ != s[j].key@
}

/// The map described by an association list; later entries win, which is
/// moot under `unique_keys`.
pub open spec fn map_of(s: Seq<StrPair>) -> Map<Seq<char>, Seq<char>>
    decreases s.len(),
{
    if s.len() == 0 {
        Map::empty()
    } else {
        map_of(s.drop_last()).insert(s.last().key@, s.last().value@)
    }
}

/// A string-keyed map of strings.
#[derive(Debug, PartialEq)]
pub struct StrMap {
    entries: Vec<StrPair>,
}

impl View for StrMap {
    type V = Map<Seq<char>, Seq<char>>;

    closed spec fn view(&self) -> Map<Seq<char>, Seq<char>> {
        map_of(self.entries@)
    }
}

proof fn lemma_map_of_contains(s: Seq<StrPair>, k: Seq<char>)
    ensures
        map_of(s).contains_key(k) <==> (exists|i: int| 0 <= i < s.len() && s[i].key@ == k),
    decreases s.len(),
{
    if s.len() > 0 {
        lemma_map_of_contains(s.drop_last(), k);
        if map_of(s).contains_key(k) {
            if s.last().key@ == k {
                assert(s[s.len() - 1].key@ == k);
            } else {
                let i = choose|i: int|
                    0 <= i < s.drop_last().len() && s.drop_last()[i].key@ == k;
                assert(s[i].key@ == k);
            }
        }
        if exists|i: int| 0 <= i < s.len() && s[i].key@ == k {
            let i = choose|i: int| 0 <= i < s.len() && s[i].key@ == k;
            if i < s.len() - 1 {
                assert(s.drop_last()[i].key@ == k);
            }
        }
    }
}

proof fn lemma_map_of_value(s: Seq<StrPair>, i: int)
    requires
        unique_keys(s),
        0 <= i < s.len(),
    ensures
        map_of(s).contains_key(s[i].key@),
        map_of(s)[s[i].key@] == s[i].value@,
    decreases s.len(),
{
    if i == s.len() - 1 {
    } else {
        assert(s.drop_last()[i] == s[i]);
        lemma_map_of_value(s.drop_last(), i);
        assert(s.last().key@ != s[i].key@);
    }
}

proof fn lemma_map_of_update(s: Seq<StrPair>, i: int, p: StrPair)
    requires
        unique_keys(s),
        0 <= i < s.len(),
        s[i].key@ == p.key@,
    ensures
        map_of(s.update(i, p)) =~= map_of(s).insert(p.key@, p.value@),
    decreases s.len(),
{
    let t = s.update(i, p);
    if i == s.len() - 1 {
        assert(t.drop_last() =~= s.drop_last());
        assert(t.last() == p);
    } else {
        assert(t.drop_last() =~= s.drop_last().update(i, p));
        assert(s.drop_last()[i] == s[i]);
        lemma_map_of_update(s.drop_last(), i, p);
        assert(t.last() == s.last());
        assert(s.last().key@ != p.key@);
    }
}

impl StrMap {
    #[verifier::type_invariant]
    spec fn wf(self) -> bool {
        unique_keys(self.entries@)
    }

    /// The empty map.
    pub fn new() -> (r: Self)
        ensures
            r@ == Map::<Seq<char>, Seq<char>>::empty(),
    {
        StrMap { entries: Vec::new() }
    }

    /// Whether `k` is bound.
    pub fn contains_key(&self, k: &str) -> (r: bool)
        ensures
            r == self@.contains_key(k@),
    {
        proof {
            use_type_invariant(self);
        }
        self.lookup_index(k).is_some()
    }

    /// The value bound to `k`, if any.
    pub fn get<'a>(&'a self, k: &str) -> (r: Option<&'a String>)
        ensures
            match r {
                Some(v) => self@.contains_key(k@) && v@ == self@[k@],
                None => !self@.contains_key(k@),
            },
    {
        proof {
            use_type_invariant(self);
        }
        match self.lookup_index(k) {
            Some(i) => {
                proof {
                    lemma_map_of_value(self.entries@, i as int);
                }
                Some(&self.entries[i].value)
            },
            None => None,
        }
    }

    /// Index of the entry holding `k`, if any.
    fn lookup_index(&self, k: &str) -> (r: Option<usize>)
        requires
            unique_keys(self.entries@),
        ensures
            match r {
                Some(i) => i < self.entries@.len() && self.entries@[i as int].key@ == k@
                    && self@.contains_key(k@),
                None => !self@.contains_key(k@),
            },
    {
        let mut i: usize = 0;
        while i < self.entries.len()
            invariant
                i <= self.entries@.len(),
                unique_keys(self.entries@),
                forall|j: int| 0 <= j < i ==> self.entries@[j].key@ != k@,
            decreases self.entries@.len() - i,
        {
            if str_eq(self.entries[i].key.as_str(), k) {
                proof {
                    lemma_map_of_value(self.entries@, i as int);
                }
                return Some(i);
            }
            i += 1;
        }
        proof {
            lemma_map_of_contains(self.entries@, k@);
        }
        None
    }

    /// Bind `k` to `v`, replacing any earlier binding.
    pub fn insert(&mut self, k: String, v: String)
        ensures
            final(self)@ == old(self)@.insert(k@, v@),
    {
        proof {
            use_type_invariant(&*self);
        }
        let ghost s0 = self.entries@;
        match self.lookup_index(k.as_str()) {
            Some(i) => {
                proof {
                    lemma_map_of_update(s0, i as int, StrPair { key: k, value: v });
                }
                self.set_entry(i, StrPair { key: k, value: v });
            },
            None => {
                proof {
                    lemma_map_of_contains(s0, k@);
                }
                self.push_entry(StrPair { key: k, value: v });
            },
        }
    }

    /// Replace the entry at `i` with `p`, which carries the same key.
    fn set_entry(&mut self, i: usize, p: StrPair)
        requires
            unique_keys(old(self).entries@),
            i < old(self).entries@.len(),
            old(self).entries@[i as int].key@ == p.key@,
        ensures
            final(self).entries@ == old(self).entries@.update(i as int, p),
    {
        let ghost s0 = self.entries@;
        let mut entries = Vec::new();
        core::mem::swap(&mut entries, &mut self.entries);
        entries.set(i, p);
        proof {
            assert(forall|a: int, b: int|
                0 <= a < b < entries@.len() ==> entries@[a].key@ != entries@[b].key@) by {
                assert(forall|a: int| 0 <= a < entries@.len() && a != i
                    ==> entries@[a] == s0[a]);
            }
        }
        core::mem::swap(&mut entries, &mut self.entries);
    }

    /// Append an entry whose key is not yet bound.
    fn push_entry(&mut self, p: StrPair)
        requires
            unique_keys(old(self).entries@),
            forall|j: int| 0 <= j < old(self).entries@.len()
                ==> old(self).entries@[j].key@ != p.key@,
        ensures
            final(self).entries@ == old(self).entries@.push(p),
            final(self)@ == old(self)@.insert(p.key@, p.value@),
    {
        let ghost s0 = self.entries@;
        let mut entries = Vec::new();
        core::mem::swap(&mut entries, &mut self.entries);
        entries.push(p);
        proof {
            assert(forall|a: int, b: int|
                0 <= a < b < entries@.len() ==> entries@[a].key@ != entries@[b].key@) by {
                assert(forall|a: int| 0 <= a < s0.len() ==> entries@[a] == s0[a]);
                assert(entries@[entries@.len() - 1] == p);
            }
            assert(entries@.drop_last() =~= s0);
        }
        core::mem::swap(&mut entries, &mut self.entries);
    }

    /// The entries of the map, in insertion order.
    pub fn entries(&self) -> (r: &Vec<StrPair>)
        ensures
            r@.len() == self@.dom().len(),
            forall|j: int| 0 <= j < r@.len()
                ==> self@.contains_key(#[trigger] r@[j].key@)
                    && self@[r@[j].key@] == r@[j].value@,
    {
        proof {
            use_type_invariant(self);
            lemma_map_of_len(self.entries@);
            assert forall|j: int| 0 <= j < self.entries@.len()
                implies self@.contains_key(#[trigger] self.entries@[j].key@)
                    && self@[self.entries@[j].key@] == self.entries@[j].value@ by {
                lemma_map_of_value(self.entries@, j);
            }
        }
        &self.entries
    }
}

proof fn lemma_map_of_len(s: Seq<StrPair>)
    requires
        unique_keys(s),
    ensures
        map_of(s).dom().finite(),
        map_of(s).dom().len() == s.len(),
    decreases s.len(),
{
    if s.len() > 0 {
        lemma_map_of_len(s.drop_last());
        lemma_map_of_contains(s.drop_last(), s.last().key@);
        assert(!map_of(s.drop_last()).contains_key(s.last().key@));
        assert(map_of(s).dom() =~= map_of(s.drop_last()).dom().insert(s.last().key@));
        vstd::set::axiom_set_insert_len(map_of(s.drop_last()).dom(), s.last().key@);
    }
}

impl Clone for StrMap {
    /// A clone describes the same map.
    fn clone(&self) -> (res: Self)
        ensures
            res@ == self@,
    {
        proof {
            use_type_invariant(self);
        }
        let mut entries: Vec<StrPair> = Vec::new();
        let mut i: usize = 0;
        while i < self.entries.len()
            invariant
                i <= self.entries@.len(),
                entries@.len() == i as nat,
                forall|j: int| 0 <= j < i
                    ==> #[trigger] entries@[j].key@ == self.entries@[j].key@
                        && entries@[j].value@ == self.entries@[j].value@,
                unique_keys(self.entries@),
            decreases self.entries@.len() - i,
        {
            let p = self.entries[i].clone();
            entries.push(p);
            proof {
                assert(entries@[i as int].key@ == self.entries@[i as int].key@);
                assert(entries@[i as int].value@ == self.entries@[i as int].value@);
            }
            i += 1;
        }
        proof {
            lemma_map_of_congruent(entries@, self.entries@);
        }
        StrMap { entries }
    }
}

proof fn lemma_map_of_congruent(a: Seq<StrPair>, b: Seq<StrPair>)
    requires
        a.len() == b.len(),
        forall|j: int| 0 <= j < a.len()
            ==> #[trigger] a[j].key@ == b[j].key@ && a[j].value@ == b[j].value@,
    ensures
        map_of(a) == map_of(b),
    decreases a.len(),
{
    if a.len() > 0 {
        assert(forall|j: int| 0 <= j < a.len() - 1
            ==> #[trigger] a.drop_last()[j].key@ == b.drop_last()[j].key@
                && a.drop_last()[j].value@ == b.drop_last()[j].value@);
        lemma_map_of_congruent(a.drop_last(), b.drop_last());
        assert(a.last().key@ == b.last().key@ && a.last().value@ == b.last().value@);
        assert(map_of(a) =~= map_of(b));
    }
}

} // verus!

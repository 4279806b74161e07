//! Symbol tables keyed by names: a later entry for a name hides earlier ones.
use vstd::prelude::*;
use crate::strs::str_eq;

verus! {

#[derive(Debug, Clone)]
pub struct Entry<V> {
    pub key: String,
    pub val: V,
}

/// A map from names to values, in insertion order.
#[derive(Debug, Clone)]
pub struct StrMap<V> {
    pub entries: Vec<Entry<V>>,
}

/// The value of the last entry named `k`.
pub open spec fn lookup<V>(s: Seq<Entry<V>>, k: Seq<char>) -> Option<V>
    decreases s.len(),
{
    if s.len() == 0 {
        None
    } else if s.last().key@ == k {
        Some(s.last().val)
    } else {
        lookup(s.drop_last(), k)
    }
}

/// Index of the last entry named `k`, if any.
pub open spec fn last_index<V>(s: Seq<Entry<V>>, k: Seq<char>) -> int
    decreases s.len(),
{
    if s.len() == 0 {
        -1
    } else if s.last().key@ == k {
        s.len() - 1
    } else {
        last_index(s.drop_last(), k)
    }
}

proof fn lemma_last_index<V>(s: Seq<Entry<V>>, k: Seq<char>)
    ensures
        -1 <= last_index(s, k) < s.len(),
        last_index(s, k) >= 0 ==> s[last_index(s, k)].key@ == k
            && lookup(s, k) == Some(s[last_index(s, k)].val),
        last_index(s, k) < 0 ==> lookup(s, k) is None,
        forall|j: int| last_index(s, k) < j < s.len() ==> s[j].key@ != k,
    decreases s.len(),
{
    if s.len() > 0 && s.last().key@ != k {
        lemma_last_index(s.drop_last(), k);
        let t = s.drop_last();
        assert forall|j: int| last_index(s, k) < j < s.len() implies s[j].key@ != k by {
            if j < s.len() - 1 {
                assert(s[j] == t[j]);
            }
        }
        if last_index(s, k) >= 0 {
            assert(s[last_index(s, k)] == t[last_index(s, k)]);
        }
    }
}

/// The map that inserting `s`'s pairs in order builds (a later pair wins).
pub open spec fn pairs_map<W>(s: Seq<(Seq<char>, W)>) -> Map<Seq<char>, W>
    decreases s.len(),
{
    if s.len() == 0 {
        Map::empty()
    } else {
        pairs_map(s.drop_last()).insert(s.last().0, s.last().1)
    }
}

/// Looking a name up in the entries agrees with the map of their pairs.
pub proof fn lemma_lookup_pairs<V, W>(s: Seq<Entry<V>>, t: Seq<(Seq<char>, W)>, f: spec_fn(V) -> W, k: Seq<char>)
    requires
        s.len() == t.len(),
        forall|i: int| 0 <= i < s.len() ==> (#[trigger] t[i]).0 == s[i].key@ && t[i].1 == f(s[i].val),
    ensures
        pairs_map(t).contains_key(k) == lookup(s, k) is Some,
        lookup(s, k) is Some ==> pairs_map(t)[k] == f(lookup(s, k).unwrap()),
    decreases s.len(),
{
    if s.len() > 0 {
        assert(t.last() == t[t.len() - 1]);
        lemma_lookup_pairs(s.drop_last(), t.drop_last(), f, k);
    }
}

impl<V> StrMap<V> {
    pub open spec fn get_spec(&self, k: Seq<char>) -> Option<V> {
        lookup(self.entries@, k)
    }

    pub fn new() -> (r: Self)
        ensures
            forall|k: Seq<char>| r.get_spec(k) is None,
            r.entries@.len() == 0,
    {
        StrMap { entries: Vec::new() }
    }

    fn find(&self, k: &str) -> (r: Option<usize>)
        ensures
            r matches Some(i) ==> i as int == last_index(self.entries@, k@),
            r is None ==> last_index(self.entries@, k@) == -1,
    {
        proof {
            lemma_last_index(self.entries@, k@);
        }
        let mut i = self.entries.len();
        while i > 0
            invariant
                i <= self.entries@.len(),
                forall|j: int| i <= j < self.entries@.len() ==> self.entries@[j].key@ != k@,
                -1 <= last_index(self.entries@, k@) < i,
            decreases i,
        {
            proof {
                lemma_last_index(self.entries@, k@);
            }
            if str_eq(self.entries[i - 1].key.as_str(), k) {
                return Some(i - 1);
            }
            i -= 1;
        }
        None
    }

    /// The value last bound to `k`.
    pub fn get(&self, k: &str) -> (r: Option<&V>)
        ensures
            r matches Some(v) ==> self.get_spec(k@) == Some(*v),
            r is None <==> self.get_spec(k@) is None,
    {
        proof {
            lemma_last_index(self.entries@, k@);
        }
        match self.find(k) {
            Some(i) => Some(&self.entries[i].val),
            None => None,
        }
    }

    pub fn contains_key(&self, k: &str) -> (r: bool)
        ensures
            r == self.get_spec(k@) is Some,
    {
        self.get(k).is_some()
    }

    /// Binds `k` to `v`, hiding any earlier binding.
    pub fn insert(&mut self, k: String, v: V)
        ensures
            final(self).get_spec(k@) == Some(v),
            forall|q: Seq<char>| q != k@ ==> final(self).get_spec(q) == old(self).get_spec(q),
            final(self).entries@ == old(self).entries@.push(Entry { key: k, val: v }),
    {
        let ghost old_entries = self.entries@;
        self.entries.push(Entry { key: k, val: v });
        assert(self.entries@.drop_last() =~= old_entries);
    }

    pub fn len(&self) -> (r: usize)
        ensures
            r == self.entries@.len(),
    {
        self.entries.len()
    }

    /// Whether entry `i` is the last one for its name.
    pub fn is_latest(&self, i: usize) -> (r: bool)
        requires
            i < self.entries@.len(),
        ensures
            r == forall|j: int| i < j < self.entries@.len() ==> (#[trigger] self.entries@[j]).key@ != self.entries@[i as int].key@,
    {
        proof {
            lemma_last_index(self.entries@, self.entries@[i as int].key@);
        }
        match self.find(self.entries[i].key.as_str()) {
            Some(j) => j == i,
            None => false,
        }
    }
}

/// A set of names.
#[derive(Debug, Clone)]
pub struct StrSet {
    pub items: Vec<String>,
}

impl StrSet {
    pub open spec fn has(&self, k: Seq<char>) -> bool {
        exists|i: int| 0 <= i < self.items@.len() && self.items@[i]@ == k
    }

    /// The names in the set.
    pub open spec fn names(&self) -> Set<Seq<char>> {
        Set::new(|k: Seq<char>| self.has(k))
    }

    pub fn new() -> (r: Self)
        ensures
            forall|k: Seq<char>| !r.has(k),
            r.items@.len() == 0,
    {
        StrSet { items: Vec::new() }
    }

    pub fn contains(&self, k: &str) -> (r: bool)
        ensures
            r == self.has(k@),
    {
        let mut i: usize = 0;
        while i < self.items.len()
            invariant
                i <= self.items@.len(),
                forall|j: int| 0 <= j < i ==> self.items@[j]@ != k@,
            decreases self.items@.len() - i,
        {
            if str_eq(self.items[i].as_str(), k) {
                return true;
            }
            i += 1;
        }
        false
    }

    pub fn insert(&mut self, k: String)
        ensures
            forall|q: Seq<char>| final(self).has(q) == (old(self).has(q) || q == k@),
            final(self).names() == old(self).names().insert(k@),
    {
        let ghost old_items = self.items@;
        let ghost key = k@;
        self.items.push(k);
        assert forall|q: Seq<char>| self.has(q) == (old(self).has(q) || q == key) by {
            if old(self).has(q) {
                let i = choose|i: int| 0 <= i < old_items.len() && old_items[i]@ == q;
                assert(self.items@[i] == old_items[i]);
            }
            if q == key {
                assert(self.items@[old_items.len() as int]@ == key);
            }
            if self.has(q) {
                let i = choose|i: int| 0 <= i < self.items@.len() && self.items@[i]@ == q;
                if i < old_items.len() {
                    assert(self.items@[i] == old_items[i]);
                }
            }
        }
        assert(self.names() =~= old(self).names().insert(key));
    }

    pub fn remove(&mut self, k: &str)
        ensures
            forall|q: Seq<char>| final(self).has(q) == (old(self).has(q) && q != k@),
            final(self).names() == old(self).names().remove(k@),
    {
        let mut kept: Vec<String> = Vec::new();
        let mut i: usize = 0;
        while i < self.items.len()
            invariant
                i <= self.items@.len(),
                forall|q: Seq<char>| #[trigger] seq_has(kept@, kept@.len() as int, q) == (
                    seq_has(self.items@, i as int, q) && q != k@),
            decreases self.items@.len() - i,
        {
            let s = self.items[i].clone();
            let ghost kept_old = kept@;
            if !str_eq(s.as_str(), k) {
                kept.push(s);
            }
            assert forall|q: Seq<char>| #[trigger] seq_has(kept@, kept@.len() as int, q) == (
                seq_has(self.items@, i + 1, q) && q != k@) by {
                if seq_has(kept@, kept@.len() as int, q) {
                    let j = choose|j: int| 0 <= j < kept@.len() && kept@[j]@ == q;
                    if j < kept_old.len() {
                        assert(kept@[j] == kept_old[j]);
                        assert(seq_has(kept_old, kept_old.len() as int, q));
                    }
                }
                if seq_has(self.items@, i + 1, q) && q != k@ {
                    let j = choose|j: int| 0 <= j < i + 1 && self.items@[j]@ == q;
                    if j < i {
                        assert(seq_has(self.items@, i as int, q));
                        assert(seq_has(kept_old, kept_old.len() as int, q));
                        let m = choose|m: int| 0 <= m < kept_old.len() && kept_old[m]@ == q;
                        assert(kept@[m] == kept_old[m]);
                    } else {
                        assert(kept@[kept_old.len() as int]@ == q);
                    }
                }
            }
            i += 1;
        }
        let ghost items = self.items@;
        self.items = kept;
        assert forall|q: Seq<char>| self.has(q) == (old(self).has(q) && q != k@) by {
            assert(self.has(q) == seq_has(self.items@, self.items@.len() as int, q));
            assert(old(self).has(q) == seq_has(items, items.len() as int, q));
        }
        assert(self.names() =~= old(self).names().remove(k@));
    }
}

pub open spec fn seq_has(s: Seq<String>, n: int, q: Seq<char>) -> bool {
    exists|j: int| 0 <= j < n && s[j]@ == q
}

/// The import aliases as a map from alias to module.
pub open spec fn ia_view(m: StrMap<String>) -> Map<Seq<char>, Seq<char>> {
    Map::new(|k: Seq<char>| m.get_spec(k) is Some, |k: Seq<char>| m.get_spec(k).unwrap()@)
}

/// The namespace aliases as a map from alias to (module, namespace).
pub open spec fn al_view(m: StrMap<(String, String)>) -> Map<Seq<char>, (Seq<char>, Seq<char>)> {
    Map::new(|k: Seq<char>| m.get_spec(k) is Some,
        |k: Seq<char>| (m.get_spec(k).unwrap().0@, m.get_spec(k).unwrap().1@))
}

/// The (alias, module) pairs of the import aliases, in insertion order.
pub open spec fn ie_of(m: StrMap<String>) -> Seq<(Seq<char>, Seq<char>)> {
    Seq::new(m.entries@.len(), |i: int| (m.entries@[i].key@, m.entries@[i].val@))
}

/// The (alias, (module, namespace)) pairs of the namespace aliases, in insertion order.
pub open spec fn ae_of(m: StrMap<(String, String)>) -> Seq<(Seq<char>, (Seq<char>, Seq<char>))> {
    Seq::new(m.entries@.len(), |i: int| (m.entries@[i].key@, (m.entries@[i].val.0@, m.entries@[i].val.1@)))
}

/// The import-alias map agrees with its pairs in insertion order.
pub proof fn lemma_ia_view(m: StrMap<String>)
    ensures
        ia_view(m) == pairs_map(ie_of(m)),
{
    assert forall|k: Seq<char>| #[trigger] ia_view(m).contains_key(k) == pairs_map(ie_of(m)).contains_key(k)
        && (ia_view(m).contains_key(k) ==> ia_view(m)[k] == pairs_map(ie_of(m))[k]) by {
        lemma_lookup_pairs(m.entries@, ie_of(m), |v: String| v@, k);
    }
    assert(ia_view(m) =~= pairs_map(ie_of(m)));
}

/// The namespace-alias map agrees with its pairs in insertion order.
pub proof fn lemma_al_view(m: StrMap<(String, String)>)
    ensures
        al_view(m) == pairs_map(ae_of(m)),
{
    assert forall|k: Seq<char>| #[trigger] al_view(m).contains_key(k) == pairs_map(ae_of(m)).contains_key(k)
        && (al_view(m).contains_key(k) ==> al_view(m)[k] == pairs_map(ae_of(m))[k]) by {
        lemma_lookup_pairs(m.entries@, ae_of(m), |v: (String, String)| (v.0@, v.1@), k);
    }
    assert(al_view(m) =~= pairs_map(ae_of(m)));
}

} // verus!

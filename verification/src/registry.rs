//! Small verified maps that back the per-connection registries.
//!
//! Each is a vector of pairs with unique keys, seen in specifications as a
//! `Map`. The registries a broker owns stay small — one entry per
//! outstanding call, execution or subscription — so linear lookup is fine.

use vstd::prelude::*;

verus! {

/// No key occurs twice.
pub open spec fn unique_keys<K, V>(s: Seq<(K, V)>) -> bool {
    forall|i: int, j: int| 0 <= i < j < s.len() ==> s[i].0 != s[j].0
}

/// The map an association list stands for; later entries win.
pub open spec fn spec_map_of<K, V>(s: Seq<(K, V)>) -> Map<K, V>
    decreases s.len(),
{
    if s.len() == 0 {
        Map::empty()
    } else {
        spec_map_of(s.drop_last()).insert(s.last().0, s.last().1)
    }
}

/// A key is in the map exactly when some entry holds it.
pub proof fn lemma_map_of_contains<K, V>(s: Seq<(K, V)>, k: K)
    ensures
        spec_map_of(s).dom().contains(k) <==> exists|i: int| 0 <= i < s.len() && s[i].0 == k,
    decreases s.len(),
{
    if s.len() > 0 {
        lemma_map_of_contains(s.drop_last(), k);
        if spec_map_of(s).dom().contains(k) {
            if s.last().0 == k {
                assert(s[s.len() - 1].0 == k);
            } else {
                let i = choose|i: int| 0 <= i < s.drop_last().len() && s.drop_last()[i].0 == k;
                assert(s[i].0 == k);
            }
        }
        if exists|i: int| 0 <= i < s.len() && s[i].0 == k {
            let i = choose|i: int| 0 <= i < s.len() && s[i].0 == k;
            if i < s.len() - 1 {
                assert(s.drop_last()[i].0 == k);
            }
        }
    }
}

/// With unique keys, each entry is the one its key maps to.
pub proof fn lemma_map_of_get<K, V>(s: Seq<(K, V)>, i: int)
    requires
        unique_keys(s),
        0 <= i < s.len(),
    ensures
        spec_map_of(s).dom().contains(s[i].0),
        spec_map_of(s)[s[i].0] == s[i].1,
    decreases s.len(),
{
    if i == s.len() - 1 {
    } else {
        assert(s.drop_last()[i] == s[i]);
        lemma_map_of_get(s.drop_last(), i);
        assert(s[i].0 != s.last().0);
    }
}

/// Removing the entry at `idx` removes its key from the map.
pub proof fn lemma_map_of_remove<K, V>(s: Seq<(K, V)>, idx: int)
    requires
        unique_keys(s),
        0 <= idx < s.len(),
    ensures
        unique_keys(s.remove(idx)),
        spec_map_of(s.remove(idx)) == spec_map_of(s).remove(s[idx].0),
    decreases s.len(),
{
    let k = s[idx].0;
    if idx == s.len() - 1 {
        assert(s.remove(idx) =~= s.drop_last());
        lemma_map_of_contains(s.drop_last(), k);
        assert(spec_map_of(s).remove(k) =~= spec_map_of(s.drop_last()));
    } else {
        let t = s.drop_last();
        assert(s.remove(idx).drop_last() =~= t.remove(idx));
        assert(s.remove(idx).last() == s.last());
        lemma_map_of_remove(t, idx);
        assert(t[idx] == s[idx]);
        assert(s.last().0 != k);
        assert(spec_map_of(t).insert(s.last().0, s.last().1).remove(k) =~= spec_map_of(t).remove(
            k,
        ).insert(s.last().0, s.last().1));
    }
}

/// Replacing the value at `idx` updates the key's image in the map.
pub proof fn lemma_map_of_update<K, V>(s: Seq<(K, V)>, idx: int, v: V)
    requires
        unique_keys(s),
        0 <= idx < s.len(),
    ensures
        unique_keys(s.update(idx, (s[idx].0, v))),
        spec_map_of(s.update(idx, (s[idx].0, v))) == spec_map_of(s).insert(s[idx].0, v),
    decreases s.len(),
{
    let k = s[idx].0;
    let s2 = s.update(idx, (k, v));
    if idx == s.len() - 1 {
        assert(s2.drop_last() =~= s.drop_last());
        assert(s2.last() == (k, v));
    } else {
        let t = s.drop_last();
        assert(s2.drop_last() =~= t.update(idx, (k, v)));
        assert(t[idx] == s[idx]);
        lemma_map_of_update(t, idx, v);
        assert(s2.last() == s.last());
        assert(s.last().0 != k);
        assert(spec_map_of(t).insert(k, v).insert(s.last().0, s.last().1) =~= spec_map_of(
            t,
        ).insert(s.last().0, s.last().1).insert(k, v));
    }
}

/// Appending an entry inserts its key into the map.
pub proof fn lemma_map_of_push<K, V>(s: Seq<(K, V)>, k: K, v: V)
    ensures
        spec_map_of(s.push((k, v))) == spec_map_of(s).insert(k, v),
{
    assert(s.push((k, v)).drop_last() =~= s);
}

/// A map from message keys to values, backed by a vector of pairs with
/// unique keys.
pub struct Registry<V> {
    entries: Vec<(u64, V)>,
}

impl<V> View for Registry<V> {
    type V = Map<u64, V>;

    closed spec fn view(&self) -> Map<u64, V> {
        spec_map_of(self.entries@)
    }
}

impl<V> Registry<V> {
    /// The backing entries hold each key at most once.
    pub closed spec fn wf(self) -> bool {
        unique_keys(self.entries@)
    }

    /// An empty registry.
    pub fn new() -> (r: Self)
        ensures
            r.wf(),
            r@ == Map::<u64, V>::empty(),
    {
        Registry { entries: Vec::new() }
    }

    /// Where `k` sits in the backing vector.
    fn position(&self, k: u64) -> (r: Option<usize>)
        ensures
            match r {
                Some(i) => i < self.entries@.len() && self.entries@[i as int].0 == k,
                None => forall|i: int| 0 <= i < self.entries@.len() ==> self.entries@[i].0 != k,
            },
    {
        let n = self.entries.len();
        let mut i: usize = 0;
        while i < n
            invariant
                i <= n,
                n == self.entries@.len(),
                forall|j: int| 0 <= j < i ==> self.entries@[j].0 != k,
            decreases n - i,
        {
            if self.entries[i].0 == k {
                return Some(i);
            }
            i = i + 1;
        }
        None
    }

    /// Whether `k` is registered.
    pub fn contains_key(&self, k: u64) -> (r: bool)
        requires
            self.wf(),
        ensures
            r == self@.dom().contains(k),
    {
        proof {
            lemma_map_of_contains(self.entries@, k);
        }
        self.position(k).is_some()
    }

    /// Registers `v` under `k`, replacing what was there.
    pub fn insert(&mut self, k: u64, v: V)
        requires
            old(self).wf(),
        ensures
            final(self).wf(),
            final(self)@ == old(self)@.insert(k, v),
    {
        match self.position(k) {
            Some(i) => {
                proof {
                    lemma_map_of_update(self.entries@, i as int, v);
                }
                vstd::pervasive::VecAdditionalExecFns::set(&mut self.entries, i, (k, v));
            },
            None => {
                proof {
                    lemma_map_of_push(self.entries@, k, v);
                }
                self.entries.push((k, v));
            },
        }
    }

    /// Takes the value registered under `k` out, if any.
    pub fn remove(&mut self, k: u64) -> (r: Option<V>)
        requires
            old(self).wf(),
        ensures
            final(self).wf(),
            final(self)@ == old(self)@.remove(k),
            match r {
                Some(v) => old(self)@.dom().contains(k) && old(self)@[k] == v,
                None => !old(self)@.dom().contains(k),
            },
    {
        proof {
            lemma_map_of_contains(self.entries@, k);
        }
        match self.position(k) {
            Some(i) => {
                proof {
                    lemma_map_of_get(self.entries@, i as int);
                    lemma_map_of_remove(self.entries@, i as int);
                }
                let (_, v) = self.entries.remove(i);
                Some(v)
            },
            None => {
                proof {
                    assert(self@.remove(k) =~= self@);
                }
                None
            },
        }
    }

    /// A borrow of the value registered under `k`, if any.
    pub fn get(&self, k: u64) -> (r: Option<&V>)
        requires
            self.wf(),
        ensures
            match r {
                Some(v) => self@.dom().contains(k) && self@[k] == *v,
                None => !self@.dom().contains(k),
            },
    {
        proof {
            lemma_map_of_contains(self.entries@, k);
        }
        match self.position(k) {
            Some(i) => {
                proof {
                    lemma_map_of_get(self.entries@, i as int);
                }
                Some(&self.entries[i].1)
            },
            None => None,
        }
    }

    /// Empties the registry, handing every entry out, each key once.
    pub fn take_entries(&mut self) -> (r: Vec<(u64, V)>)
        requires
            old(self).wf(),
        ensures
            final(self).wf(),
            final(self)@ == Map::<u64, V>::empty(),
            unique_keys(r@),
            spec_map_of(r@) == old(self)@,
            forall|i: int|
                0 <= i < r@.len() ==> old(self)@.dom().contains(#[trigger] r@[i].0) && old(
                    self,
                )@[r@[i].0] == r@[i].1,
    {
        let mut out: Vec<(u64, V)> = Vec::new();
        core::mem::swap(&mut out, &mut self.entries);
        proof {
            assert forall|i: int| 0 <= i < out@.len() implies old(self)@.dom().contains(
                #[trigger] out@[i].0,
            ) && old(self)@[out@[i].0] == out@[i].1 by {
                lemma_map_of_get(out@, i);
            }
        }
        out
    }
}

/// The entries of a topic table, keyed by the characters of each topic.
pub open spec fn view_pairs<V>(s: Seq<(String, V)>) -> Seq<(Seq<char>, V)> {
    s.map_values(|p: (String, V)| (p.0@, p.1))
}

/// A map from topic names to values, backed by a vector of pairs whose
/// topics are unique.
pub struct TopicMap<V> {
    entries: Vec<(String, V)>,
}

impl<V> View for TopicMap<V> {
    type V = Map<Seq<char>, V>;

    closed spec fn view(&self) -> Map<Seq<char>, V> {
        spec_map_of(view_pairs(self.entries@))
    }
}

impl<V> TopicMap<V> {
    /// The backing entries hold each topic at most once.
    pub closed spec fn wf(self) -> bool {
        unique_keys(view_pairs(self.entries@))
    }

    /// An empty topic table.
    pub fn new() -> (r: Self)
        ensures
            r.wf(),
            r@ == Map::<Seq<char>, V>::empty(),
    {
        TopicMap { entries: Vec::new() }
    }

    /// Where `k` sits in the backing vector.
    fn position(&self, k: &String) -> (r: Option<usize>)
        ensures
            match r {
                Some(i) => i < self.entries@.len() && self.entries@[i as int].0@ == k@,
                None => forall|i: int| 0 <= i < self.entries@.len() ==> self.entries@[i].0@ != k@,
            },
    {
        let n = self.entries.len();
        let mut i: usize = 0;
        while i < n
            invariant
                i <= n,
                n == self.entries@.len(),
                forall|j: int| 0 <= j < i ==> self.entries@[j].0@ != k@,
            decreases n - i,
        {
            if self.entries[i].0 == *k {
                return Some(i);
            }
            i = i + 1;
        }
        None
    }

    /// Whether the topic `k` has an entry.
    pub fn contains_key(&self, k: &String) -> (r: bool)
        requires
            self.wf(),
        ensures
            r == self@.dom().contains(k@),
    {
        proof {
            lemma_map_of_contains(view_pairs(self.entries@), k@);
        }
        match self.position(k) {
            Some(i) => {
                proof {
                    assert(view_pairs(self.entries@)[i as int].0 == k@);
                }
                true
            },
            None => {
                proof {
                    assert forall|i: int| 0 <= i < view_pairs(self.entries@).len() implies
                        #[trigger] view_pairs(self.entries@)[i].0 != k@ by {
                        assert(self.entries@[i].0@ != k@);
                    }
                }
                false
            },
        }
    }

    /// Registers `v` under the topic `k`, replacing what was there.
    pub fn insert(&mut self, k: String, v: V)
        requires
            old(self).wf(),
        ensures
            final(self).wf(),
            final(self)@ == old(self)@.insert(k@, v),
    {
        match self.position(&k) {
            Some(i) => {
                proof {
                    lemma_map_of_update(view_pairs(self.entries@), i as int, v);
                    assert(view_pairs(self.entries@.update(i as int, (k, v))) =~= view_pairs(
                        self.entries@,
                    ).update(i as int, (k@, v)));
                }
                vstd::pervasive::VecAdditionalExecFns::set(&mut self.entries, i, (k, v));
            },
            None => {
                proof {
                    lemma_map_of_push(view_pairs(self.entries@), k@, v);
                    assert(view_pairs(self.entries@.push((k, v))) =~= view_pairs(
                        self.entries@,
                    ).push((k@, v)));
                }
                self.entries.push((k, v));
            },
        }
    }

    /// Takes the value registered under the topic `k` out, if any.
    pub fn remove(&mut self, k: &String) -> (r: Option<V>)
        requires
            old(self).wf(),
        ensures
            final(self).wf(),
            final(self)@ == old(self)@.remove(k@),
            match r {
                Some(v) => old(self)@.dom().contains(k@) && old(self)@[k@] == v,
                None => !old(self)@.dom().contains(k@),
            },
    {
        proof {
            lemma_map_of_contains(view_pairs(self.entries@), k@);
        }
        match self.position(k) {
            Some(i) => {
                proof {
                    lemma_map_of_get(view_pairs(self.entries@), i as int);
                    lemma_map_of_remove(view_pairs(self.entries@), i as int);
                    assert(view_pairs(self.entries@.remove(i as int)) =~= view_pairs(
                        self.entries@,
                    ).remove(i as int));
                }
                let (_, v) = self.entries.remove(i);
                Some(v)
            },
            None => {
                proof {
                    assert(self@.remove(k@) =~= self@);
                }
                None
            },
        }
    }

    /// A borrow of the value registered under the topic `k`, if any.
    pub fn get(&self, k: &String) -> (r: Option<&V>)
        requires
            self.wf(),
        ensures
            match r {
                Some(v) => self@.dom().contains(k@) && self@[k@] == *v,
                None => !self@.dom().contains(k@),
            },
    {
        proof {
            lemma_map_of_contains(view_pairs(self.entries@), k@);
        }
        match self.position(k) {
            Some(i) => {
                proof {
                    lemma_map_of_get(view_pairs(self.entries@), i as int);
                }
                Some(&self.entries[i].1)
            },
            None => None,
        }
    }

    /// Drops every entry.
    pub fn clear(&mut self)
        ensures
            final(self).wf(),
            final(self)@ == Map::<Seq<char>, V>::empty(),
    {
        self.entries.clear();
        proof {
            assert(view_pairs(self.entries@) =~= Seq::<(Seq<char>, V)>::empty());
        }
    }
}

} // verus!

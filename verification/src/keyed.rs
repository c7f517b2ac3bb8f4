//! A small map keyed by session identifiers, modelled as a `Map` from the key's
//! characters to the stored value.
use vstd::prelude::*;
use crate::text::{str_eq, views};

verus! {

broadcast use vstd::string::group_string_axioms;

/// The map built from parallel key and value sequences, later pairs winning.
pub open spec fn pairs_map<V>(keys: Seq<Seq<char>>, vals: Seq<V>) -> Map<Seq<char>, V>
    decreases keys.len(),
{
    if keys.len() == 0 || vals.len() == 0 {
        Map::empty()
    } else {
        pairs_map(keys.drop_last(), vals.drop_last()).insert(keys.last(), vals.last())
    }
}

/// The keys present in `pairs_map(keys, vals)` are exactly the listed ones.
pub proof fn lemma_pairs_dom<V>(keys: Seq<Seq<char>>, vals: Seq<V>)
    requires
        keys.len() == vals.len(),
    ensures
        forall|k: Seq<char>| pairs_map(keys, vals).contains_key(k) <==> keys.contains(k),
    decreases keys.len(),
{
    if keys.len() > 0 {
        lemma_pairs_dom(keys.drop_last(), vals.drop_last());
        assert forall|k: Seq<char>| pairs_map(keys, vals).contains_key(k) <==> keys.contains(k) by {
            if keys.contains(k) && k != keys.last() {
                let i = choose|i: int| 0 <= i < keys.len() && keys[i] == k;
                assert(keys.drop_last()[i] == k);
            }
            if keys.drop_last().contains(k) {
                let i = choose|i: int| 0 <= i < keys.len() - 1 && keys.drop_last()[i] == k;
                assert(keys[i] == k);
            }
            if k == keys.last() {
                assert(keys[keys.len() - 1] == k);
            }
        }
    }
}

/// With distinct keys, the value stored under `keys[i]` is `vals[i]`.
pub proof fn lemma_pairs_index<V>(keys: Seq<Seq<char>>, vals: Seq<V>, i: int)
    requires
        keys.len() == vals.len(),
        keys.no_duplicates(),
        0 <= i < keys.len(),
    ensures
        pairs_map(keys, vals).contains_key(keys[i]),
        pairs_map(keys, vals)[keys[i]] == vals[i],
    decreases keys.len(),
{
    if i < keys.len() - 1 {
        lemma_pairs_index(keys.drop_last(), vals.drop_last(), i);
        assert(keys.drop_last()[i] == keys[i]);
    }
}

/// Removing the pair at `i` removes its key from the map.
pub proof fn lemma_pairs_remove<V>(keys: Seq<Seq<char>>, vals: Seq<V>, i: int)
    requires
        keys.len() == vals.len(),
        keys.no_duplicates(),
        0 <= i < keys.len(),
    ensures
        pairs_map(keys.remove(i), vals.remove(i)) == pairs_map(keys, vals).remove(keys[i]),
    decreases keys.len(),
{
    let k = keys[i];
    if i == keys.len() - 1 {
        assert(keys.remove(i) =~= keys.drop_last());
        assert(vals.remove(i) =~= vals.drop_last());
        lemma_pairs_dom(keys.drop_last(), vals.drop_last());
        assert(!keys.drop_last().contains(k)) by {
            if keys.drop_last().contains(k) {
                let j = choose|j: int| 0 <= j < keys.len() - 1 && keys.drop_last()[j] == k;
                assert(keys[j] == keys[i]);
            }
        }
        assert(pairs_map(keys.remove(i), vals.remove(i)) =~= pairs_map(keys, vals).remove(k));
    } else {
        lemma_pairs_remove(keys.drop_last(), vals.drop_last(), i);
        assert(keys.remove(i).drop_last() =~= keys.drop_last().remove(i));
        assert(vals.remove(i).drop_last() =~= vals.drop_last().remove(i));
        assert(keys.remove(i).last() == keys.last());
        assert(vals.remove(i).last() == vals.last());
        assert(keys.last() != k);
        assert(pairs_map(keys.remove(i), vals.remove(i)) =~= pairs_map(keys, vals).remove(k));
    }
}

/// The keys of key-value entries.
pub open spec fn entry_keys<V>(e: Seq<(String, V)>) -> Seq<Seq<char>> {
    e.map_values(|p: (String, V)| p.0@)
}

/// The values of key-value entries.
pub open spec fn entry_vals<V>(e: Seq<(String, V)>) -> Seq<V> {
    e.map_values(|p: (String, V)| p.1)
}

/// The position of the first entry with key `k`, in a list of key-value entries.
pub fn entry_position<V>(entries: &Vec<(String, V)>, k: &str) -> (r: Option<usize>)
    ensures
        match r {
            Some(i) => crate::runtime::first_index(entry_keys(entries@), k@) == Some(i as int) && i < entries@.len()
                && entries@[i as int].0@ == k@,
            None => crate::runtime::first_index(entry_keys(entries@), k@) is None,
        },
{
    let ghost ks = entry_keys(entries@);
    let mut i: usize = 0;
    while i < entries.len()
        invariant
            i <= entries@.len(),
            ks == entry_keys(entries@),
            forall|j: int| 0 <= j < i ==> ks[j] != k@,
        decreases entries@.len() - i,
    {
        if str_eq(entries[i].0.as_str(), k) {
            assert(ks[i as int] == k@);
            assert(ks.contains(k@));
            let ghost c = choose|c: int| 0 <= c < ks.len() && ks[c] == k@ && forall|j: int| 0 <= j < c ==> ks[j] != k@;
            assert(c == i as int) by {
                if c < i {
                } else if c > i {
                }
            }
            return Some(i);
        }
        i += 1;
    }
    assert(!ks.contains(k@));
    None
}

/// The value stored under `k` in `m`, if any.
pub open spec fn lookup<V>(m: Map<Seq<char>, V>, k: Seq<char>) -> Option<V> {
    if m.contains_key(k) {
        Some(m[k])
    } else {
        None
    }
}

/// Values stored under session identifiers, at most one per identifier.
pub struct KeyedMap<V> {
    entries: Vec<(String, V)>,
}

impl<V> View for KeyedMap<V> {
    type V = Map<Seq<char>, V>;

    closed spec fn view(&self) -> Map<Seq<char>, V> {
        pairs_map(entry_keys(self.entries@), entry_vals(self.entries@))
    }
}

impl<V> KeyedMap<V> {
    #[verifier::type_invariant]
    spec fn distinct_keys(&self) -> bool {
        entry_keys(self.entries@).no_duplicates()
    }

    /// An empty map.
    pub fn new() -> (m: Self)
        ensures
            m@ == Map::<Seq<char>, V>::empty(),
    {
        let m = KeyedMap { entries: Vec::new() };
        assert(entry_keys(m.entries@) =~= Seq::<Seq<char>>::empty());
        m
    }

    fn find(&self, k: &str) -> (r: Option<usize>)
        ensures
            match r {
                Some(i) => i < self.entries@.len() && entry_keys(self.entries@)[i as int] == k@,
                None => !entry_keys(self.entries@).contains(k@),
            },
    {
        let mut i: usize = 0;
        while i < self.entries.len()
            invariant
                i <= self.entries@.len(),
                forall|j: int| 0 <= j < i ==> entry_keys(self.entries@)[j] != k@,
            decreases self.entries@.len() - i,
        {
            if str_eq(self.entries[i].0.as_str(), k) {
                return Some(i);
            }
            i += 1;
        }
        None
    }

    /// The value stored under `k`, if any.
    pub fn get(&self, k: &str) -> (r: Option<&V>)
        ensures
            match r {
                Some(v) => self@.contains_key(k@) && *v == self@[k@],
                None => !self@.contains_key(k@),
            },
    {
        proof {
            use_type_invariant(self);
            lemma_pairs_dom(entry_keys(self.entries@), entry_vals(self.entries@));
        }
        match self.find(k) {
            Some(i) => {
                proof {
                    lemma_pairs_index(entry_keys(self.entries@), entry_vals(self.entries@), i as int);
                }
                Some(&self.entries[i].1)
            },
            None => None,
        }
    }

    /// Remove the value stored under `k`, returning it.
    pub fn remove(&mut self, k: &str) -> (r: Option<V>)
        ensures
            final(self)@ == old(self)@.remove(k@),
            r == lookup(old(self)@, k@),
    {
        proof {
            use_type_invariant(&*self);
            lemma_pairs_dom(entry_keys(self.entries@), entry_vals(self.entries@));
        }
        match self.find(k) {
            Some(i) => {
                let ghost es = self.entries@;
                let ghost ks = entry_keys(es);
                let ghost vs = entry_vals(es);
                proof {
                    lemma_pairs_index(ks, vs, i as int);
                    lemma_pairs_remove(ks, vs, i as int);
                    assert(entry_keys(es.remove(i as int)) =~= ks.remove(i as int));
                    assert(entry_vals(es.remove(i as int)) =~= vs.remove(i as int));
                    assert forall|a: int, b: int|
                        0 <= a < b < ks.remove(i as int).len() implies ks.remove(i as int)[a]
                        != ks.remove(i as int)[b] by {
                        let a2 = if a < i { a } else { a + 1 };
                        let b2 = if b < i { b } else { b + 1 };
                        assert(ks.remove(i as int)[a] == ks[a2]);
                        assert(ks.remove(i as int)[b] == ks[b2]);
                    }
                }
                let mut taken: Vec<(String, V)> = Vec::new();
                std::mem::swap(&mut taken, &mut self.entries);
                let (_key, v) = taken.remove(i);
                self.entries = taken;
                Some(v)
            },
            None => {
                proof {
                    assert(self@.remove(k@) =~= self@);
                }
                None
            },
        }
    }

    /// Store `v` under `k`, replacing any earlier value.
    pub fn insert(&mut self, k: String, v: V)
        ensures
            final(self)@ == old(self)@.insert(k@, v),
    {
        let _ = self.remove(k.as_str());
        proof {
            use_type_invariant(&*self);
            lemma_pairs_dom(entry_keys(self.entries@), entry_vals(self.entries@));
        }
        let ghost es = self.entries@;
        let ghost kv = k@;
        let ghost vv = v;
        let mut taken: Vec<(String, V)> = Vec::new();
        std::mem::swap(&mut taken, &mut self.entries);
        taken.push((k, v));
        proof {
            assert(entry_keys(taken@) =~= entry_keys(es).push(kv));
            assert(entry_keys(es).push(kv).drop_last() =~= entry_keys(es));
            assert forall|a: int, b: int|
                0 <= a < b < entry_keys(taken@).len() implies entry_keys(taken@)[a]
                != entry_keys(taken@)[b] by {
                assert(entry_keys(es)[a] == entry_keys(taken@)[a]);
                if b == entry_keys(taken@).len() - 1 {
                    assert(entry_keys(taken@)[b] == kv);
                    if entry_keys(es)[a] == kv {
                        assert(entry_keys(es).contains(kv));
                    }
                } else {
                    assert(entry_keys(es)[b] == entry_keys(taken@)[b]);
                }
            }
        }
        self.entries = taken;
        proof {
            assert(entry_keys(self.entries@) =~= entry_keys(es).push(kv));
            assert(entry_vals(self.entries@) =~= entry_vals(es).push(vv));
            assert(entry_keys(self.entries@).drop_last() =~= entry_keys(es));
            assert(entry_vals(self.entries@).drop_last() =~= entry_vals(es));
            assert(self@ =~= old(self)@.insert(kv, vv));
        }
    }
}


impl<V> KeyedMap<V> {
    /// Keep only the entries whose key `keep` accepts; `keep` is asked once per key.
    pub fn retain<F: Fn(&str) -> bool>(&mut self, keep: F)
        requires
            forall|k: &str| keep.requires((k,)),
        ensures
            forall|k: Seq<char>| #[trigger] final(self)@.contains_key(k) ==> old(self)@.contains_key(k)
                && final(self)@[k] == old(self)@[k],
            forall|k: Seq<char>| #[trigger] old(self)@.contains_key(k) ==> {
                &&& final(self)@.contains_key(k) ==> exists|s: &str| s@ == k && keep.ensures((s,), true)
                &&& !final(self)@.contains_key(k) ==> exists|s: &str| s@ == k && keep.ensures((s,), false)
            },
    {
        proof {
            use_type_invariant(&*self);
        }
        let ghost es = self.entries@;
        let ghost ks = entry_keys(es);
        let mut taken: Vec<(String, V)> = Vec::new();
        std::mem::swap(&mut taken, &mut self.entries);
        let mut kept: Vec<(String, V)> = Vec::new();
        while taken.len() > 0
            invariant
                es == old(self).entries@,
                ks == entry_keys(es),
                ks.no_duplicates(),
                taken@ == es.take(taken@.len() as int),
                taken@.len() <= es.len(),
                forall|k: &str| keep.requires((k,)),
                entry_keys(kept@).no_duplicates(),
                forall|m: int| 0 <= m < kept@.len() ==> exists|j: int| taken@.len() <= j < es.len() && #[trigger] kept@[m] == es[j],
                forall|j: int| taken@.len() <= j < es.len() ==> {
                    &&& entry_keys(kept@).contains(#[trigger] ks[j]) ==> exists|s: &str| s@ == ks[j] && keep.ensures((s,), true)
                    &&& !entry_keys(kept@).contains(ks[j]) ==> exists|s: &str| s@ == ks[j] && keep.ensures((s,), false)
                },
            decreases taken@.len(),
        {
            let ghost n = taken@.len() - 1;
            let ghost before = kept@;
            let (k, v) = taken.pop().unwrap();
            assert(taken@ =~= es.take(n as int));
            assert(k@ == ks[n as int]);
            let ks_ref = k.as_str();
            let decision = keep(ks_ref);
            assert(keep.ensures((ks_ref,), decision));
            // keys of earlier kept entries come from later positions, so differ from k
            assert forall|m: int| 0 <= m < before.len() implies entry_keys(before)[m] != k@ by {
                let j = choose|j: int| n < j < es.len() && before[m] == es[j];
                assert(entry_keys(before)[m] == ks[j]);
            }
            if decision {
                kept.push((k, v));
                assert(entry_keys(kept@) =~= entry_keys(before).push(ks[n as int]));
                assert(kept@[before.len() as int] == es[n as int]);
                assert forall|a: int, b: int| 0 <= a < b < entry_keys(kept@).len() implies entry_keys(kept@)[a]
                    != entry_keys(kept@)[b] by {
                    if b < before.len() {
                        assert(entry_keys(before)[a] != entry_keys(before)[b]);
                    } else {
                        assert(entry_keys(before)[a] != k@);
                    }
                }
                assert forall|j: int| n <= j < es.len() implies {
                    &&& entry_keys(kept@).contains(#[trigger] ks[j]) ==> exists|s: &str| s@ == ks[j] && keep.ensures((s,), true)
                    &&& !entry_keys(kept@).contains(ks[j]) ==> exists|s: &str| s@ == ks[j] && keep.ensures((s,), false)
                } by {
                    if j > n {
                        assert(ks[j] != ks[n as int]);
                        if entry_keys(kept@).contains(ks[j]) {
                            let m = choose|m: int| 0 <= m < entry_keys(kept@).len() && entry_keys(kept@)[m] == ks[j];
                            assert(m < before.len());
                            assert(entry_keys(before)[m] == ks[j]);
                        }
                        if entry_keys(before).contains(ks[j]) {
                            let m = choose|m: int| 0 <= m < entry_keys(before).len() && entry_keys(before)[m] == ks[j];
                            assert(entry_keys(kept@)[m] == ks[j]);
                        }
                    } else {
                        assert(entry_keys(kept@)[before.len() as int] == ks[j]);
                    }
                }
            } else {
                assert forall|j: int| n <= j < es.len() implies {
                    &&& entry_keys(kept@).contains(#[trigger] ks[j]) ==> exists|s: &str| s@ == ks[j] && keep.ensures((s,), true)
                    &&& !entry_keys(kept@).contains(ks[j]) ==> exists|s: &str| s@ == ks[j] && keep.ensures((s,), false)
                } by {
                    if j == n {
                        if entry_keys(kept@).contains(ks[j]) {
                            let m = choose|m: int| 0 <= m < entry_keys(kept@).len() && entry_keys(kept@)[m] == ks[j];
                            assert(entry_keys(before)[m] != k@);
                        }
                    }
                }
            }
        }
        let ghost fin = kept@;
        self.entries = kept;
        proof {
            lemma_pairs_dom(entry_keys(fin), entry_vals(fin));
            lemma_pairs_dom(ks, entry_vals(es));
            assert forall|k: Seq<char>| #[trigger] self@.contains_key(k) implies old(self)@.contains_key(k)
                && self@[k] == old(self)@[k] by {
                assert(self.entries@ == fin);
                assert(entry_keys(fin).contains(k));
                let m = choose|m: int| 0 <= m < entry_keys(fin).len() && entry_keys(fin)[m] == k;
                assert(0 <= m < fin.len());
                assert(exists|j: int| 0 <= j < es.len() && #[trigger] fin[m] == es[j]);
                let j = choose|j: int| 0 <= j < es.len() && fin[m] == es[j];
                assert(entry_keys(fin)[m] == fin[m].0@);
                assert(ks[j] == es[j].0@);
                assert(ks[j] == k);
                assert(ks.contains(k));
                lemma_pairs_index(entry_keys(fin), entry_vals(fin), m);
                lemma_pairs_index(ks, entry_vals(es), j);
            }
            assert forall|k: Seq<char>| #[trigger] old(self)@.contains_key(k) implies {
                &&& self@.contains_key(k) ==> exists|s: &str| s@ == k && keep.ensures((s,), true)
                &&& !self@.contains_key(k) ==> exists|s: &str| s@ == k && keep.ensures((s,), false)
            } by {
                assert(old(self)@ == pairs_map(ks, entry_vals(es)));
                assert(ks.contains(k));
                let j = choose|j: int| 0 <= j < ks.len() && ks[j] == k;
                assert(self.entries@ == fin);
                assert(entry_keys(fin).contains(ks[j]) == self@.contains_key(k));
            }
        }
    }
}

} // verus!

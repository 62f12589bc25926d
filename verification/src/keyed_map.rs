//! A map keyed by strings, kept as a list of members with distinct keys.

use vstd::prelude::*;

verus! {

/// The members of a keyed list as a map.
pub open spec fn map_of<V: View>(e: Seq<(String, V)>) -> Map<Seq<char>, V::V>
    decreases e.len(),
{
    if e.len() == 0 {
        Map::empty()
    } else {
        map_of(e.drop_last()).insert(e.last().0@, e.last().1@)
    }
}

/// No two members share a key.
pub open spec fn keys_distinct<V>(e: Seq<(String, V)>) -> bool {
    forall|i: int, j: int| 0 <= i < e.len() && 0 <= j < e.len() && i != j ==> e[i].0@ != e[j].0@
}

/// With distinct keys, the map holds each member and nothing else.
pub proof fn lemma_map_of<V: View>(e: Seq<(String, V)>)
    requires
        keys_distinct(e),
    ensures
        forall|k: Seq<char>| #[trigger] map_of(e).dom().contains(k) <==> exists|i: int| 0 <= i < e.len() && e[i].0@ == k,
        forall|i: int| 0 <= i < e.len() ==> #[trigger] map_of(e)[e[i].0@] == e[i].1@,
    decreases e.len(),
{
    if e.len() > 0 {
        let p = e.drop_last();
        assert(keys_distinct(p));
        lemma_map_of(p);
        assert forall|k: Seq<char>| #[trigger] map_of(e).dom().contains(k) implies exists|i: int| 0 <= i < e.len() && e[i].0@ == k by {
            if k != e.last().0@ {
                assert(map_of(p).dom().contains(k));
                let i = choose|i: int| 0 <= i < p.len() && p[i].0@ == k;
                assert(p[i] == e[i]);
                assert(e[i].0@ == k);
            } else {
                assert(e[e.len() - 1].0@ == k);
            }
        }
        assert forall|k: Seq<char>| (exists|i: int| 0 <= i < e.len() && e[i].0@ == k) implies #[trigger] map_of(e).dom().contains(k) by {
            let i = choose|i: int| 0 <= i < e.len() && e[i].0@ == k;
            if i < e.len() - 1 {
                assert(p[i] == e[i]);
                assert(p[i].0@ == k);
                assert(map_of(p).dom().contains(k));
            }
        }
        assert forall|i: int| 0 <= i < e.len() implies #[trigger] map_of(e)[e[i].0@] == e[i].1@ by {
            if i < e.len() - 1 {
                assert(p[i] == e[i]);
                assert(e[i].0@ != e[e.len() - 1].0@);
                assert(map_of(p)[p[i].0@] == p[i].1@);
            }
        }
    }
}

/// A map from strings to values of `V`, in insertion order.
#[derive(Debug)]
pub struct KeyedMap<V: View> {
    entries: Vec<(String, V)>,
}

impl<V: View> View for KeyedMap<V> {
    type V = Map<Seq<char>, V::V>;

    closed spec fn view(&self) -> Map<Seq<char>, V::V> {
        map_of(self.entries@)
    }
}

impl<V: View> KeyedMap<V> {
    #[verifier::type_invariant]
    spec fn wf(self) -> bool {
        keys_distinct(self.entries@)
    }

    /// The members in order.
    pub closed spec fn members(&self) -> Seq<(String, V)> {
        self.entries@
    }

    /// An empty map.
    pub fn new() -> (r: Self)
        ensures
            r@ == Map::<Seq<char>, V::V>::empty(),
    {
        KeyedMap { entries: Vec::new() }
    }

    /// Number of members; the members are those of the map, each key once.
    pub fn len(&self) -> (r: usize)
        ensures
            r == self.members().len(),
            r == self@.dom().len(),
            keys_distinct(self.members()),
            self@ == map_of(self.members()),
            forall|k: Seq<char>| #[trigger] self@.dom().contains(k) <==> exists|i: int| 0 <= i < self.members().len() && self.members()[i].0@ == k,
            forall|i: int| 0 <= i < self.members().len() ==> #[trigger] self@[self.members()[i].0@] == self.members()[i].1@,
            self@.dom().finite(),
    {
        proof {
            use_type_invariant(self);
            lemma_map_of_len(self.entries@);
            lemma_map_of(self.entries@);
            lemma_map_of_finite(self.entries@);
        }
        self.entries.len()
    }

    /// Whether the map is empty.
    pub fn is_empty(&self) -> (r: bool)
        ensures
            r == (self@ == Map::<Seq<char>, V::V>::empty()),
    {
        proof {
            use_type_invariant(self);
            lemma_map_of(self.entries@);
            if self.entries@.len() > 0 {
                assert(self@.dom().contains(self.entries@[0].0@));
            } else {
                assert(self@ =~= Map::<Seq<char>, V::V>::empty());
            }
        }
        self.entries.len() == 0
    }

    /// Index of the member with key `k`.
    fn index_of(&self, k: &str) -> (r: Option<usize>)
        ensures
            match r {
                Some(i) => i < self.entries@.len() && self.entries@[i as int].0@ == k@,
                None => forall|i: int| 0 <= i < self.entries@.len() ==> self.entries@[i].0@ != k@,
            },
    {
        let ks = String::from_str(k);
        let mut i: usize = 0;
        while i < self.entries.len()
            invariant
                i <= self.entries@.len(),
                ks@ == k@,
                forall|j: int| 0 <= j < i ==> self.entries@[j].0@ != k@,
            decreases self.entries@.len() - i,
        {
            if self.entries[i].0 == ks {
                return Some(i);
            }
            i = i + 1;
        }
        None
    }

    /// The member at position `i`, in insertion order.
    pub fn member_at(&self, i: usize) -> (r: (&String, &V))
        requires
            i < self.members().len(),
        ensures
            *r.0 == self.members()[i as int].0,
            *r.1 == self.members()[i as int].1,
    {
        (&self.entries[i].0, &self.entries[i].1)
    }

    /// `HashMap::get`.
    pub fn get(&self, k: &str) -> (r: Option<&V>)
        ensures
            match r {
                Some(v) => self@.dom().contains(k@) && self@[k@] == v@,
                None => !self@.dom().contains(k@),
            },
    {
        proof {
            use_type_invariant(self);
            lemma_map_of(self.entries@);
        }
        match self.index_of(k) {
            Some(i) => Some(&self.entries[i].1),
            None => None,
        }
    }

    /// `HashMap::contains_key`.
    pub fn contains_key(&self, k: &str) -> (r: bool)
        ensures
            r == self@.dom().contains(k@),
    {
        proof {
            use_type_invariant(self);
            lemma_map_of(self.entries@);
        }
        self.index_of(k).is_some()
    }

    /// `HashMap::insert`.
    pub fn insert(&mut self, k: String, v: V)
        ensures
            final(self)@ == old(self)@.insert(k@, v@),
    {
        proof {
            use_type_invariant(&*self);
            lemma_map_of(self.entries@);
        }
        let ghost old_map = self@;
        let ghost kv = k@;
        let ghost vv = v@;
        let idx = self.index_of(k.as_str());
        let mut entries = Vec::new();
        std::mem::swap(&mut entries, &mut self.entries);
        let ghost old_entries = entries@;
        match idx {
            Some(i) => {
                entries.set(i, (k, v));
            },
            None => {
                entries.push((k, v));
            },
        }
        proof {
            assert(keys_distinct(entries@));
            lemma_map_of(entries@);
            assert(map_of(entries@) =~= old_map.insert(kv, vv)) by {
                assert forall|key: Seq<char>| #[trigger] map_of(entries@).dom().contains(key) <==> old_map.insert(kv, vv).dom().contains(key) by {
                    if old_map.insert(kv, vv).dom().contains(key) && key != kv {
                        let j = choose|j: int| 0 <= j < old_entries.len() && old_entries[j].0@ == key;
                        assert(entries@[j].0@ == key);
                    }
                    if map_of(entries@).dom().contains(key) && key != kv {
                        let j = choose|j: int| 0 <= j < entries@.len() && entries@[j].0@ == key;
                        assert(old_entries[j].0@ == key);
                    }
                    if key == kv {
                        match idx {
                            Some(i) => assert(entries@[i as int].0@ == key),
                            None => assert(entries@[entries@.len() - 1].0@ == key),
                        }
                    }
                }
                assert forall|key: Seq<char>| #[trigger] map_of(entries@).dom().contains(key) implies map_of(entries@)[key] == old_map.insert(kv, vv)[key] by {
                    let j = choose|j: int| 0 <= j < entries@.len() && entries@[j].0@ == key;
                    if key != kv {
                        assert(old_entries[j] == entries@[j]);
                    }
                }
            }
        }
        self.entries = entries;
    }

    /// `HashMap::remove`.
    pub fn remove(&mut self, k: &str)
        ensures
            final(self)@ == old(self)@.remove(k@),
    {
        proof {
            use_type_invariant(&*self);
            lemma_map_of(self.entries@);
        }
        let ghost old_map = self@;
        match self.index_of(k) {
            Some(i) => {
                let mut entries = Vec::new();
                std::mem::swap(&mut entries, &mut self.entries);
                let ghost old_entries = entries@;
                let _ = entries.remove(i);
                proof {
                    assert forall|a: int, b: int| 0 <= a < entries@.len() && 0 <= b < entries@.len() && a != b implies entries@[a].0@ != entries@[b].0@ by {
                        let oa = if a < i { a } else { a + 1 };
                        let ob = if b < i { b } else { b + 1 };
                        assert(entries@[a] == old_entries[oa]);
                        assert(entries@[b] == old_entries[ob]);
                    }
                    lemma_map_of(entries@);
                    assert(map_of(entries@) =~= old_map.remove(k@)) by {
                        assert forall|key: Seq<char>| #[trigger] map_of(entries@).dom().contains(key) <==> old_map.remove(k@).dom().contains(key) by {
                            if old_map.remove(k@).dom().contains(key) {
                                let j = choose|j: int| 0 <= j < old_entries.len() && old_entries[j].0@ == key;
                                assert(j != i);
                                let nj = if j < i { j } else { j - 1 };
                                assert(entries@[nj] == old_entries[j]);
                            }
                            if map_of(entries@).dom().contains(key) {
                                let j = choose|j: int| 0 <= j < entries@.len() && entries@[j].0@ == key;
                                let oj = if j < i { j } else { j + 1 };
                                assert(entries@[j] == old_entries[oj]);
                            }
                        }
                        assert forall|key: Seq<char>| #[trigger] map_of(entries@).dom().contains(key) implies map_of(entries@)[key] == old_map.remove(k@)[key] by {
                            let j = choose|j: int| 0 <= j < entries@.len() && entries@[j].0@ == key;
                            let oj = if j < i { j } else { j + 1 };
                            assert(entries@[j] == old_entries[oj]);
                        }
                    }
                }
                self.entries = entries;
            },
            None => {
                proof {
                    assert(old_map.remove(k@) =~= old_map);
                }
            },
        }
    }

    /// `HashMap::retain` keeping the keys that `other` has.
    pub fn retain_keys_of<W: View>(&mut self, other: &KeyedMap<W>)
        ensures
            final(self)@ == old(self)@.restrict(other@.dom()),
    {
        proof {
            use_type_invariant(&*self);
            lemma_map_of(self.entries@);
        }
        let ghost old_map = self@;
        let mut rest: Vec<(String, V)> = Vec::new();
        std::mem::swap(&mut rest, &mut self.entries);
        let ghost orig = rest@;
        let ghost n = orig.len();
        let total = rest.len();
        let mut kept: Vec<(String, V)> = Vec::new();
        let mut i: usize = 0;
        while rest.len() > 0
            invariant
                i <= n,
                n == orig.len(),
                total == n,
                keys_distinct(orig),
                old_map == map_of(orig),
                rest@ == orig.subrange(i as int, n as int),
                keys_distinct(kept@),
                forall|j: int| 0 <= j < kept@.len() ==> exists|o: int| 0 <= o < i && #[trigger] kept@[j].0@ == orig[o].0@,
                map_of(kept@) == map_of(orig.subrange(0, i as int)).restrict(other@.dom()),
            decreases rest@.len(),
        {
            let x = rest.remove(0);
            assert(x == orig[i as int]);
            let ghost p = orig.subrange(0, i + 1);
            proof {
                assert(p.drop_last() =~= orig.subrange(0, i as int));
            }
            if other.contains_key(x.0.as_str()) {
                let ghost before = kept@;
                kept.push(x);
                proof {
                    assert(kept@.drop_last() =~= before);
                    assert forall|a: int, b: int| 0 <= a < kept@.len() && 0 <= b < kept@.len() && a != b implies kept@[a].0@ != kept@[b].0@ by {
                        if a == kept@.len() - 1 && b < a {
                            let o = choose|o: int| 0 <= o < i && before[b].0@ == orig[o].0@;
                            assert(orig[o].0@ != orig[i as int].0@);
                        } else if b == kept@.len() - 1 && a < b {
                            let o = choose|o: int| 0 <= o < i && before[a].0@ == orig[o].0@;
                            assert(orig[o].0@ != orig[i as int].0@);
                        }
                    }
                    assert forall|j: int| 0 <= j < kept@.len() implies exists|o: int| 0 <= o < i + 1 && #[trigger] kept@[j].0@ == orig[o].0@ by {
                        if j < kept@.len() - 1 {
                            let o = choose|o: int| 0 <= o < i && before[j].0@ == orig[o].0@;
                            assert(kept@[j].0@ == orig[o].0@);
                        } else {
                            assert(kept@[j].0@ == orig[i as int].0@);
                        }
                    }
                    assert(map_of(kept@) =~= map_of(p).restrict(other@.dom()));
                }
            } else {
                proof {
                    assert forall|j: int| 0 <= j < kept@.len() implies exists|o: int| 0 <= o < i + 1 && #[trigger] kept@[j].0@ == orig[o].0@ by {
                        let o = choose|o: int| 0 <= o < i && kept@[j].0@ == orig[o].0@;
                        assert(kept@[j].0@ == orig[o].0@);
                    }
                    assert(map_of(kept@) =~= map_of(p).restrict(other@.dom()));
                }
            }
            i = i + 1;
            assert(rest@ =~= orig.subrange(i as int, n as int));
        }
        assert(orig.subrange(0, n as int) =~= orig);
        self.entries = kept;
    }

    /// `HashMap::clear`.
    pub fn clear(&mut self)
        ensures
            final(self)@ == Map::<Seq<char>, V::V>::empty(),
    {
        self.entries = Vec::new();
    }
}

proof fn lemma_map_of_finite<V: View>(e: Seq<(String, V)>)
    ensures
        map_of(e).dom().finite(),
    decreases e.len(),
{
    if e.len() > 0 {
        lemma_map_of_finite(e.drop_last());
    }
}

proof fn lemma_map_of_len<V: View>(e: Seq<(String, V)>)
    requires
        keys_distinct(e),
    ensures
        map_of(e).dom().len() == e.len(),
    decreases e.len(),
{
    if e.len() > 0 {
        let p = e.drop_last();
        assert(keys_distinct(p));
        lemma_map_of_len(p);
        lemma_map_of(p);
        lemma_map_of_finite(p);
        assert(!map_of(p).dom().contains(e.last().0@)) by {
            if map_of(p).dom().contains(e.last().0@) {
                let i = choose|i: int| 0 <= i < p.len() && p[i].0@ == e.last().0@;
                assert(e[i].0@ == e[e.len() - 1].0@);
            }
        }
    }
}

} // verus!

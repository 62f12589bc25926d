//! A map keyed by 128-bit identifiers (UUIDs), kept as a list of members
//! with distinct keys, in insertion order.

use vstd::prelude::*;

verus! {

/// The members of a keyed list as a map.
pub open spec fn id_map_of<V: View>(e: Seq<(u128, V)>) -> Map<u128, V::V>
    decreases e.len(),
{
    if e.len() == 0 {
        Map::empty()
    } else {
        id_map_of(e.drop_last()).insert(e.last().0, e.last().1@)
    }
}

/// No two members share a key.
pub open spec fn ids_distinct<V>(e: Seq<(u128, V)>) -> bool {
    forall|i: int, j: int| 0 <= i < e.len() && 0 <= j < e.len() && i != j ==> e[i].0 != e[j].0
}

/// With distinct keys, the map holds each member and nothing else.
pub proof fn lemma_id_map_of<V: View>(e: Seq<(u128, V)>)
    requires
        ids_distinct(e),
    ensures
        forall|k: u128| #[trigger] id_map_of(e).dom().contains(k) <==> exists|i: int| 0 <= i < e.len() && e[i].0 == k,
        forall|i: int| 0 <= i < e.len() ==> #[trigger] id_map_of(e)[e[i].0] == e[i].1@,
    decreases e.len(),
{
    if e.len() > 0 {
        let p = e.drop_last();
        assert(ids_distinct(p));
        lemma_id_map_of(p);
        assert forall|k: u128| #[trigger] id_map_of(e).dom().contains(k) implies exists|i: int| 0 <= i < e.len() && e[i].0 == k by {
            if k != e.last().0 {
                assert(id_map_of(p).dom().contains(k));
                let i = choose|i: int| 0 <= i < p.len() && p[i].0 == k;
                assert(p[i] == e[i]);
                assert(e[i].0 == k);
            } else {
                assert(e[e.len() - 1].0 == k);
            }
        }
        assert forall|k: u128| (exists|i: int| 0 <= i < e.len() && e[i].0 == k) implies #[trigger] id_map_of(e).dom().contains(k) by {
            let i = choose|i: int| 0 <= i < e.len() && e[i].0 == k;
            if i < e.len() - 1 {
                assert(p[i] == e[i]);
                assert(p[i].0 == k);
                assert(id_map_of(p).dom().contains(k));
            }
        }
        assert forall|i: int| 0 <= i < e.len() implies #[trigger] id_map_of(e)[e[i].0] == e[i].1@ by {
            if i < e.len() - 1 {
                assert(p[i] == e[i]);
                assert(e[i].0 != e[e.len() - 1].0);
                assert(id_map_of(p)[p[i].0] == p[i].1@);
            }
        }
    }
}

/// A map from identifiers to values of `V`, in insertion order.
#[derive(Debug)]
pub struct IdMap<V: View> {
    entries: Vec<(u128, V)>,
}

impl<V: View> View for IdMap<V> {
    type V = Map<u128, V::V>;

    closed spec fn view(&self) -> Map<u128, V::V> {
        id_map_of(self.entries@)
    }
}

impl<V: View> IdMap<V> {
    #[verifier::type_invariant]
    spec fn wf(self) -> bool {
        ids_distinct(self.entries@)
    }

    /// The members in order.
    pub closed spec fn members(&self) -> Seq<(u128, V)> {
        self.entries@
    }

    /// An empty map.
    pub fn new() -> (r: Self)
        ensures
            r@ == Map::<u128, V::V>::empty(),
    {
        IdMap { entries: Vec::new() }
    }

    /// Number of members; the members are those of the map, each key once.
    pub fn len(&self) -> (r: usize)
        ensures
            r == self.members().len(),
            r == self@.dom().len(),
            ids_distinct(self.members()),
            self@ == id_map_of(self.members()),
            forall|k: u128| #[trigger] self@.dom().contains(k) <==> exists|i: int| 0 <= i < self.members().len() && self.members()[i].0 == k,
            forall|i: int| 0 <= i < self.members().len() ==> #[trigger] self@[self.members()[i].0] == self.members()[i].1@,
            self@.dom().finite(),
    {
        proof {
            use_type_invariant(self);
            lemma_id_map_of_len(self.entries@);
            lemma_id_map_of(self.entries@);
            lemma_id_map_of_finite(self.entries@);
        }
        self.entries.len()
    }

    /// Whether the map is empty.
    pub fn is_empty(&self) -> (r: bool)
        ensures
            r == (self@ == Map::<u128, V::V>::empty()),
    {
        proof {
            use_type_invariant(self);
            lemma_id_map_of(self.entries@);
            if self.entries@.len() > 0 {
                assert(self@.dom().contains(self.entries@[0].0));
            } else {
                assert(self@ =~= Map::<u128, V::V>::empty());
            }
        }
        self.entries.len() == 0
    }

    /// Index of the member with key `k`.
    fn index_of(&self, k: u128) -> (r: Option<usize>)
        ensures
            match r {
                Some(i) => i < self.entries@.len() && self.entries@[i as int].0 == k,
                None => forall|i: int| 0 <= i < self.entries@.len() ==> self.entries@[i].0 != k,
            },
    {
        let mut i: usize = 0;
        while i < self.entries.len()
            invariant
                i <= self.entries@.len(),
                forall|j: int| 0 <= j < i ==> self.entries@[j].0 != k,
            decreases self.entries@.len() - i,
        {
            if self.entries[i].0 == k {
                return Some(i);
            }
            i = i + 1;
        }
        None
    }

    /// The member at position `i`, in insertion order.
    pub fn member_at(&self, i: usize) -> (r: (u128, &V))
        requires
            i < self.members().len(),
        ensures
            r.0 == self.members()[i as int].0,
            *r.1 == self.members()[i as int].1,
    {
        (self.entries[i].0, &self.entries[i].1)
    }

    /// The value of key `k`.
    pub fn get(&self, k: u128) -> (r: Option<&V>)
        ensures
            match r {
                Some(v) => self@.dom().contains(k) && self@[k] == v@,
                None => !self@.dom().contains(k),
            },
    {
        proof {
            use_type_invariant(self);
            lemma_id_map_of(self.entries@);
        }
        match self.index_of(k) {
            Some(i) => Some(&self.entries[i].1),
            None => None,
        }
    }

    /// Whether key `k` is present.
    pub fn contains_key(&self, k: u128) -> (r: bool)
        ensures
            r == self@.dom().contains(k),
    {
        proof {
            use_type_invariant(self);
            lemma_id_map_of(self.entries@);
        }
        self.index_of(k).is_some()
    }

    /// Sets the value of key `k`: in place when present, else at the end.
    pub fn insert(&mut self, k: u128, v: V)
        ensures
            final(self)@ == old(self)@.insert(k, v@),
    {
        proof {
            use_type_invariant(&*self);
            lemma_id_map_of(self.entries@);
        }
        let ghost old_map = self@;
        let ghost kv = k;
        let ghost vv = v@;
        let idx = self.index_of(k);
        let mut entries = Vec::new();
        std::mem::swap(&mut entries, &mut self.entries);
        let ghost old_entries = entries@;
        match idx {
            Some(i) => {
                entries.set(i, (k, v));
            },
            None => {
                entries.push((k, v));
            },
        }
        proof {
            assert(ids_distinct(entries@));
            lemma_id_map_of(entries@);
            assert(id_map_of(entries@) =~= old_map.insert(kv, vv)) by {
                assert forall|key: u128| #[trigger] id_map_of(entries@).dom().contains(key) <==> old_map.insert(kv, vv).dom().contains(key) by {
                    if old_map.insert(kv, vv).dom().contains(key) && key != kv {
                        let j = choose|j: int| 0 <= j < old_entries.len() && old_entries[j].0 == key;
                        assert(entries@[j].0 == key);
                    }
                    if id_map_of(entries@).dom().contains(key) && key != kv {
                        let j = choose|j: int| 0 <= j < entries@.len() && entries@[j].0 == key;
                        assert(old_entries[j].0 == key);
                    }
                    if key == kv {
                        match idx {
                            Some(i) => assert(entries@[i as int].0 == key),
                            None => assert(entries@[entries@.len() - 1].0 == key),
                        }
                    }
                }
                assert forall|key: u128| #[trigger] id_map_of(entries@).dom().contains(key) implies id_map_of(entries@)[key] == old_map.insert(kv, vv)[key] by {
                    let j = choose|j: int| 0 <= j < entries@.len() && entries@[j].0 == key;
                    if key != kv {
                        assert(old_entries[j] == entries@[j]);
                    }
                }
            }
        }
        self.entries = entries;
    }

    /// Removes key `k`.
    pub fn remove(&mut self, k: u128) -> (r: Option<V>)
        ensures
            final(self)@ == old(self)@.remove(k),
            match r {
                Some(v) => old(self)@.dom().contains(k) && old(self)@[k] == v@,
                None => !old(self)@.dom().contains(k),
            },
    {
        proof {
            use_type_invariant(&*self);
            lemma_id_map_of(self.entries@);
        }
        let ghost old_map = self@;
        match self.index_of(k) {
            Some(i) => {
                let mut entries = Vec::new();
                std::mem::swap(&mut entries, &mut self.entries);
                let ghost old_entries = entries@;
                let removed = entries.remove(i);
                proof {
                    assert forall|a: int, b: int| 0 <= a < entries@.len() && 0 <= b < entries@.len() && a != b implies entries@[a].0 != entries@[b].0 by {
                        let oa = if a < i { a } else { a + 1 };
                        let ob = if b < i { b } else { b + 1 };
                        assert(entries@[a] == old_entries[oa]);
                        assert(entries@[b] == old_entries[ob]);
                    }
                    lemma_id_map_of(entries@);
                    assert(id_map_of(entries@) =~= old_map.remove(k)) by {
                        assert forall|key: u128| #[trigger] id_map_of(entries@).dom().contains(key) <==> old_map.remove(k).dom().contains(key) by {
                            if old_map.remove(k).dom().contains(key) {
                                let j = choose|j: int| 0 <= j < old_entries.len() && old_entries[j].0 == key;
                                assert(j != i);
                                let nj = if j < i { j } else { j - 1 };
                                assert(entries@[nj] == old_entries[j]);
                            }
                            if id_map_of(entries@).dom().contains(key) {
                                let j = choose|j: int| 0 <= j < entries@.len() && entries@[j].0 == key;
                                let oj = if j < i { j } else { j + 1 };
                                assert(entries@[j] == old_entries[oj]);
                            }
                        }
                        assert forall|key: u128| #[trigger] id_map_of(entries@).dom().contains(key) implies id_map_of(entries@)[key] == old_map.remove(k)[key] by {
                            let j = choose|j: int| 0 <= j < entries@.len() && entries@[j].0 == key;
                            let oj = if j < i { j } else { j + 1 };
                            assert(entries@[j] == old_entries[oj]);
                        }
                    }
                }
                self.entries = entries;
                Some(removed.1)
            },
            None => {
                proof {
                    assert(old_map.remove(k) =~= old_map);
                }
                None
            },
        }
    }

    /// Removes every member.
    pub fn clear(&mut self)
        ensures
            final(self)@ == Map::<u128, V::V>::empty(),
    {
        self.entries = Vec::new();
    }
}

proof fn lemma_id_map_of_finite<V: View>(e: Seq<(u128, V)>)
    ensures
        id_map_of(e).dom().finite(),
    decreases e.len(),
{
    if e.len() > 0 {
        lemma_id_map_of_finite(e.drop_last());
    }
}

proof fn lemma_id_map_of_len<V: View>(e: Seq<(u128, V)>)
    requires
        ids_distinct(e),
    ensures
        id_map_of(e).dom().len() == e.len(),
    decreases e.len(),
{
    if e.len() > 0 {
        let p = e.drop_last();
        assert(ids_distinct(p));
        lemma_id_map_of_len(p);
        lemma_id_map_of(p);
        lemma_id_map_of_finite(p);
        assert(!id_map_of(p).dom().contains(e.last().0)) by {
            if id_map_of(p).dom().contains(e.last().0) {
                let i = choose|i: int| 0 <= i < p.len() && p[i].0 == e.last().0;
                assert(e[i].0 == e[e.len() - 1].0);
            }
        }
    }
}

} // verus!

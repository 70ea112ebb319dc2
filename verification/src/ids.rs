//! 32-byte identifiers and a small map keyed by them.
use vstd::prelude::*;

verus! {

broadcast use vstd::array::group_array_axioms;

/// Compares two 32-byte identifiers byte by byte.
pub fn same_id(a: &[u8; 32], b: &[u8; 32]) -> (r: bool)
    ensures
        r == (*a == *b),
{
    let mut i: usize = 0;
    while i < 32
        invariant
            0 <= i <= 32,
            forall|j: int| 0 <= j < i ==> a[j] == b[j],
        decreases 32 - i,
    {
        if a[i] != b[i] {
            return false;
        }
        i = i + 1;
    }
    assert(*a =~= *b);
    true
}

} // verus!

verus! {

/// No two entries of `s` carry the same key.
pub open spec fn distinct_keys<V>(s: Seq<([u8; 32], V)>) -> bool {
    forall|i: int, j: int| 0 <= i < j < s.len() ==> s[i].0 != s[j].0
}

/// The map that a list of entries stands for; a later entry wins over an earlier one.
pub open spec fn entries_map<V>(s: Seq<([u8; 32], V)>) -> Map<[u8; 32], V>
    decreases s.len(),
{
    if s.len() == 0 {
        Map::empty()
    } else {
        entries_map(s.drop_last()).insert(s.last().0, s.last().1)
    }
}

/// A key that no entry carries is not in the map.
pub proof fn lemma_entries_absent<V>(s: Seq<([u8; 32], V)>, k: [u8; 32])
    requires
        forall|i: int| 0 <= i < s.len() ==> s[i].0 != k,
    ensures
        !entries_map(s).contains_key(k),
    decreases s.len(),
{
    if s.len() > 0 {
        lemma_entries_absent(s.drop_last(), k);
    }
}

/// Every entry of a list with distinct keys is found in its map.
pub proof fn lemma_entries_lookup<V>(s: Seq<([u8; 32], V)>, i: int)
    requires
        distinct_keys(s),
        0 <= i < s.len(),
    ensures
        entries_map(s).contains_key(s[i].0),
        entries_map(s)[s[i].0] == s[i].1,
    decreases s.len(),
{
    if i < s.len() - 1 {
        lemma_entries_lookup(s.drop_last(), i);
    }
}

/// The keys of the map are exactly the keys of the entries.
pub proof fn lemma_entries_domain<V>(s: Seq<([u8; 32], V)>, k: [u8; 32])
    ensures
        entries_map(s).contains_key(k) <==> exists|i: int| 0 <= i < s.len() && s[i].0 == k,
    decreases s.len(),
{
    if s.len() > 0 {
        lemma_entries_domain(s.drop_last(), k);
        if entries_map(s).contains_key(k) && k != s.last().0 {
            let i = choose|i: int| 0 <= i < s.drop_last().len() && s.drop_last()[i].0 == k;
            assert(s[i].0 == k);
        }
        if exists|i: int| 0 <= i < s.len() && s[i].0 == k {
            let i = choose|i: int| 0 <= i < s.len() && s[i].0 == k;
            if i < s.len() - 1 {
                assert(s.drop_last()[i].0 == k);
            }
        }
    }
}

/// Replacing the value of an entry replaces the value under its key.
pub proof fn lemma_entries_update<V>(s: Seq<([u8; 32], V)>, i: int, v: V)
    requires
        distinct_keys(s),
        0 <= i < s.len(),
    ensures
        entries_map(s.update(i, (s[i].0, v))) == entries_map(s).insert(s[i].0, v),
        distinct_keys(s.update(i, (s[i].0, v))),
    decreases s.len(),
{
    let t = s.update(i, (s[i].0, v));
    let k = s[i].0;
    if i == s.len() - 1 {
        assert(t.drop_last() =~= s.drop_last());
        assert(entries_map(t) =~= entries_map(s).insert(k, v));
    } else {
        assert(t.drop_last() =~= s.drop_last().update(i, (k, v)));
        lemma_entries_update(s.drop_last(), i, v);
        assert(entries_map(t) =~= entries_map(s).insert(k, v));
    }
}

/// Removing an entry removes its key from the map.
pub proof fn lemma_entries_remove<V>(s: Seq<([u8; 32], V)>, i: int)
    requires
        distinct_keys(s),
        0 <= i < s.len(),
    ensures
        entries_map(s.remove(i)) == entries_map(s).remove(s[i].0),
        distinct_keys(s.remove(i)),
    decreases s.len(),
{
    let t = s.remove(i);
    let k = s[i].0;
    if i == s.len() - 1 {
        assert(t =~= s.drop_last());
        assert forall|j: int| 0 <= j < t.len() implies t[j].0 != k by {
            assert(t[j] == s[j]);
        }
        lemma_entries_absent(t, k);
        assert(entries_map(t) =~= entries_map(s).remove(k));
    } else {
        assert(t.drop_last() =~= s.drop_last().remove(i));
        lemma_entries_remove(s.drop_last(), i);
        assert(t.last() == s.last());
        assert(entries_map(t) =~= entries_map(s).remove(k));
    }
}

/// Appending an entry under a fresh key keeps the keys distinct.
pub proof fn lemma_entries_push<V>(s: Seq<([u8; 32], V)>, k: [u8; 32], v: V)
    requires
        distinct_keys(s),
        forall|i: int| 0 <= i < s.len() ==> s[i].0 != k,
    ensures
        entries_map(s.push((k, v))) == entries_map(s).insert(k, v),
        distinct_keys(s.push((k, v))),
{
    assert(s.push((k, v)).drop_last() =~= s);
}

/// A map from 32-byte identifiers to values, kept as a list of entries with distinct keys.
pub struct IdMap<V> {
    entries: Vec<([u8; 32], V)>,
}

impl<V> View for IdMap<V> {
    type V = Map<[u8; 32], V>;

    closed spec fn view(&self) -> Map<[u8; 32], V> {
        entries_map(self.entries@)
    }
}

impl<V> IdMap<V> {
    #[verifier::type_invariant]
    closed spec fn keys_are_distinct(self) -> bool {
        distinct_keys(self.entries@)
    }

    /// An empty map.
    pub fn new() -> (r: Self)
        ensures
            r@ == Map::<[u8; 32], V>::empty(),
    {
        IdMap { entries: Vec::new() }
    }

    /// The position of the entry with key `k`, if there is one.
    fn position(&self, k: &[u8; 32]) -> (r: Option<usize>)
        ensures
            match r {
                Some(i) => i < self.entries@.len() && self.entries@[i as int].0 == *k,
                None => forall|i: int| 0 <= i < self.entries@.len() ==> self.entries@[i].0 != *k,
            },
    {
        let mut i: usize = 0;
        while i < self.entries.len()
            invariant
                0 <= i <= self.entries@.len(),
                forall|j: int| 0 <= j < i ==> self.entries@[j].0 != *k,
            decreases self.entries@.len() - i,
        {
            if same_id(&self.entries[i].0, k) {
                return Some(i);
            }
            i = i + 1;
        }
        None
    }

    /// Whether the map holds key `k`.
    pub fn contains_key(&self, k: &[u8; 32]) -> (r: bool)
        ensures
            r == self@.contains_key(*k),
    {
        proof {
            lemma_entries_domain(self.entries@, *k);
        }
        self.position(k).is_some()
    }

    /// The value under key `k`, if there is one.
    pub fn get(&self, k: &[u8; 32]) -> (r: Option<&V>)
        ensures
            match r {
                Some(v) => self@.contains_key(*k) && *v == self@[*k],
                None => !self@.contains_key(*k),
            },
    {
        proof {
            use_type_invariant(self);
        }
        match self.position(k) {
            Some(i) => {
                proof {
                    lemma_entries_lookup(self.entries@, i as int);
                }
                Some(&self.entries[i].1)
            },
            None => {
                proof {
                    lemma_entries_absent(self.entries@, *k);
                }
                None
            },
        }
    }

    /// Puts `v` under key `k`, replacing what was there.
    pub fn insert(&mut self, k: [u8; 32], v: V)
        ensures
            final(self)@ == old(self)@.insert(k, v),
    {
        proof {
            use_type_invariant(&*self);
        }
        let pos = self.position(&k);
        let mut entries: Vec<([u8; 32], V)> = Vec::new();
        std::mem::swap(&mut entries, &mut self.entries);
        match pos {
            Some(i) => {
                proof {
                    lemma_entries_update(entries@, i as int, v);
                }
                entries.set(i, (k, v));
            },
            None => {
                proof {
                    lemma_entries_push(entries@, k, v);
                }
                entries.push((k, v));
            },
        }
        self.entries = entries;
    }

    /// Takes the value under key `k` out of the map.
    pub fn remove(&mut self, k: &[u8; 32]) -> (r: Option<V>)
        ensures
            final(self)@ == old(self)@.remove(*k),
            match r {
                Some(v) => old(self)@.contains_key(*k) && v == old(self)@[*k],
                None => !old(self)@.contains_key(*k),
            },
    {
        proof {
            use_type_invariant(&*self);
        }
        let pos = self.position(k);
        match pos {
            Some(i) => {
                let mut entries: Vec<([u8; 32], V)> = Vec::new();
                std::mem::swap(&mut entries, &mut self.entries);
                proof {
                    lemma_entries_lookup(entries@, i as int);
                    lemma_entries_remove(entries@, i as int);
                }
                let (_, v) = entries.remove(i);
                self.entries = entries;
                Some(v)
            },
            None => {
                proof {
                    lemma_entries_absent(self.entries@, *k);
                    assert(self@.remove(*k) =~= self@);
                }
                None
            },
        }
    }

    /// The entries of the map, each key once.
    pub fn into_entries(self) -> (r: Vec<([u8; 32], V)>)
        ensures
            distinct_keys(r@),
            entries_map(r@) == self@,
    {
        proof {
            use_type_invariant(&self);
        }
        self.entries
    }
}

} // verus!

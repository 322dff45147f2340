//! Keyed collections over strings, modelled as finite maps and sets.

use vstd::prelude::*;
use crate::pairs::{
    keys_unique, lemma_pairs_absent, lemma_pairs_index, lemma_pairs_push, lemma_pairs_remove,
    lemma_pairs_update, pairs_to_map,
};
use crate::text::str_eq;

verus! {

/// The view of a list of string pairs.
pub open spec fn string_pairs_view(s: Seq<(String, String)>) -> Seq<(Seq<char>, Seq<char>)> {
    s.map_values(|e: (String, String)| (e.0@, e.1@))
}

/// A map from strings to strings.
#[derive(Debug)]
pub struct StringMap {
    entries: Vec<(String, String)>,
}

impl StringMap {
    /// The association list behind the map.
    pub closed spec fn pairs(&self) -> Seq<(Seq<char>, Seq<char>)> {
        string_pairs_view(self.entries@)
    }

    #[verifier::type_invariant]
    closed spec fn wf(&self) -> bool {
        keys_unique(self.pairs())
    }
}

impl View for StringMap {
    type V = Map<Seq<char>, Seq<char>>;

    closed spec fn view(&self) -> Map<Seq<char>, Seq<char>> {
        pairs_to_map(self.pairs())
    }
}

impl StringMap {
    /// An empty map.
    pub fn new() -> (m: Self)
        ensures
            m@ == Map::<Seq<char>, Seq<char>>::empty(),
    {
        let m = StringMap { entries: Vec::new() };
        assert(m.pairs() =~= Seq::<(Seq<char>, Seq<char>)>::empty());
        m
    }

    fn position(&self, key: &str) -> (r: Option<usize>)
        ensures
            r matches Some(i) ==> i < self.pairs().len() && self.pairs()[i as int].0 == key@,
            r is None ==> forall|i: int| 0 <= i < self.pairs().len() ==> self.pairs()[i].0 != key@,
    {
        let mut i: usize = 0;
        while i < self.entries.len()
            invariant
                i <= self.entries@.len(),
                self.pairs().len() == self.entries@.len(),
                forall|j: int| 0 <= j < i ==> self.pairs()[j].0 != key@,
            decreases self.entries@.len() - i,
        {
            if str_eq(self.entries[i].0.as_str(), key) {
                return Some(i);
            }
            i = i + 1;
        }
        None
    }

    /// The value stored under `key`.
    pub fn get(&self, key: &str) -> (r: Option<&String>)
        ensures
            r matches Some(v) ==> self@.contains_key(key@) && v@ == self@[key@],
            r is None ==> !self@.contains_key(key@),
    {
        proof {
            use_type_invariant(self);
        }
        match self.position(key) {
            Some(i) => {
                proof {
                    lemma_pairs_index(self.pairs(), i as int);
                }
                Some(&self.entries[i].1)
            },
            None => {
                proof {
                    lemma_pairs_absent(self.pairs(), key@);
                }
                None
            },
        }
    }

    /// Stores `value` under `key`, replacing what was there.
    pub fn insert(&mut self, key: String, value: String)
        ensures
            final(self)@ == old(self)@.insert(key@, value@),
    {
        proof {
            use_type_invariant(&*self);
        }
        match self.position(key.as_str()) {
            Some(i) => {
                proof {
                    lemma_pairs_update(self.pairs(), i as int, value@);
                }
                let ghost old_pairs = self.pairs();
                let mut entries = Vec::new();
                std::mem::swap(&mut entries, &mut self.entries);
                entries.set(i, (key, value));
                assert(string_pairs_view(entries@) =~= old_pairs.update(
                    i as int,
                    (old_pairs[i as int].0, value@),
                ));
                self.entries = entries;
            },
            None => {
                proof {
                    lemma_pairs_push(self.pairs(), key@, value@);
                }
                let ghost old_pairs = self.pairs();
                let mut entries = Vec::new();
                std::mem::swap(&mut entries, &mut self.entries);
                entries.push((key, value));
                assert(string_pairs_view(entries@) =~= old_pairs.push((key@, value@)));
                self.entries = entries;
            },
        }
    }

    /// Removes what is stored under `key`.
    pub fn remove(&mut self, key: &str)
        ensures
            final(self)@ == old(self)@.remove(key@),
    {
        proof {
            use_type_invariant(&*self);
        }
        match self.position(key) {
            Some(i) => {
                proof {
                    lemma_pairs_remove(self.pairs(), i as int);
                }
                let ghost old_pairs = self.pairs();
                let mut entries = Vec::new();
                std::mem::swap(&mut entries, &mut self.entries);
                entries.remove(i);
                assert(string_pairs_view(entries@) =~= old_pairs.remove(i as int));
                self.entries = entries;
            },
            None => {
                proof {
                    lemma_pairs_absent(self.pairs(), key@);
                }
                assert(self@ =~= self@.remove(key@));
            },
        }
    }
}


impl StringMap {
    /// The map that holds the given pairs; a later pair for a key wins.
    pub fn from_pairs(pairs: &Vec<(String, String)>) -> (m: Self)
        ensures
            m@ == pairs_to_map(string_pairs_view(pairs@)),
    {
        let ghost all = string_pairs_view(pairs@);
        let mut m = StringMap::new();
        let mut i: usize = 0;
        while i < pairs.len()
            invariant
                i <= pairs@.len(),
                all == string_pairs_view(pairs@),
                m@ == pairs_to_map(all.subrange(0, i as int)),
            decreases pairs@.len() - i,
        {
            let k = pairs[i].0.clone();
            let v = pairs[i].1.clone();
            m.insert(k, v);
            assert(all.subrange(0, i + 1).drop_last() =~= all.subrange(0, i as int));
            i = i + 1;
        }
        assert(all.subrange(0, pairs@.len() as int) =~= all);
        m
    }

    /// The pairs of the map, each key once.
    pub fn to_pairs(&self) -> (r: Vec<(String, String)>)
        ensures
            keys_unique(string_pairs_view(r@)),
            pairs_to_map(string_pairs_view(r@)) == self@,
    {
        proof {
            use_type_invariant(self);
        }
        let mut r: Vec<(String, String)> = Vec::new();
        let mut i: usize = 0;
        while i < self.entries.len()
            invariant
                i <= self.entries@.len(),
                keys_unique(self.pairs()),
                r@.len() == i,
                self.pairs().len() == self.entries@.len(),
                string_pairs_view(r@) == self.pairs().subrange(0, i as int),
            decreases self.entries@.len() - i,
        {
            let k = self.entries[i].0.clone();
            let v = self.entries[i].1.clone();
            assert(self.pairs()[i as int] == (k@, v@));
            let ghost old_r = r@;
            r.push((k, v));
            assert forall|j: int| 0 <= j < r@.len() implies #[trigger] string_pairs_view(r@)[j]
                == self.pairs().subrange(0, i + 1)[j] by {
                if j < i {
                    assert(r@[j] == old_r[j]);
                    assert(string_pairs_view(old_r)[j] == self.pairs().subrange(0, i as int)[j]);
                }
            }
            assert(string_pairs_view(r@) =~= self.pairs().subrange(0, i + 1));
            i = i + 1;
        }
        assert(self.pairs().subrange(0, self.entries@.len() as int) =~= self.pairs());
        r
    }
}

/// A finite set of strings.
#[derive(Debug)]
pub struct KeySet {
    items: Vec<String>,
}

impl View for KeySet {
    type V = Set<Seq<char>>;

    closed spec fn view(&self) -> Set<Seq<char>> {
        Set::new(|k: Seq<char>| exists|i: int| 0 <= i < self.items@.len() && self.items@[i]@ == k)
    }
}

impl KeySet {
    /// An empty set.
    pub fn new() -> (s: Self)
        ensures
            s@ == Set::<Seq<char>>::empty(),
    {
        let s = KeySet { items: Vec::new() };
        assert(s@ =~= Set::<Seq<char>>::empty());
        s
    }

    /// Whether `key` is in the set.
    pub fn contains(&self, key: &str) -> (r: bool)
        ensures
            r == self@.contains(key@),
    {
        let mut i: usize = 0;
        while i < self.items.len()
            invariant
                i <= self.items@.len(),
                forall|j: int| 0 <= j < i ==> self.items@[j]@ != key@,
            decreases self.items@.len() - i,
        {
            if str_eq(self.items[i].as_str(), key) {
                return true;
            }
            i = i + 1;
        }
        false
    }

    /// Adds `key`; tells whether it was new.
    pub fn insert(&mut self, key: String) -> (r: bool)
        ensures
            r == !old(self)@.contains(key@),
            final(self)@ == old(self)@.insert(key@),
    {
        if self.contains(key.as_str()) {
            assert(self@ =~= self@.insert(key@));
            false
        } else {
            let ghost old_items = self.items@;
            self.items.push(key);
            assert forall|k: Seq<char>| #![auto] self@.contains(k) <==> old(self)@.insert(key@).contains(k) by {
                if k != key@ && self@.contains(k) {
                    let i = choose|i: int| 0 <= i < self.items@.len() && self.items@[i]@ == k;
                    assert(old_items[i]@ == k);
                }
                if k == key@ {
                    assert(self.items@[old_items.len() as int]@ == k);
                }
                if old(self)@.contains(k) {
                    let i = choose|i: int| 0 <= i < old_items.len() && old_items[i]@ == k;
                    assert(self.items@[i]@ == k);
                }
            }
            assert(self@ =~= old(self)@.insert(key@));
            true
        }
    }
}

/// A list of positions appended under `k`.
pub open spec fn map_push(m: Map<Seq<char>, Seq<usize>>, k: Seq<char>, v: usize) -> Map<
    Seq<char>,
    Seq<usize>,
> {
    m.insert(
        k,
        if m.contains_key(k) {
            m[k].push(v)
        } else {
            seq![v]
        },
    )
}

/// The view of the entries of an index.
pub open spec fn index_pairs_view(s: Seq<(String, Vec<usize>)>) -> Seq<(Seq<char>, Seq<usize>)> {
    s.map_values(|e: (String, Vec<usize>)| (e.0@, e.1@))
}

/// An index from names to lists of positions in a device list.
#[derive(Debug)]
pub struct CoreNameIndex {
    entries: Vec<(String, Vec<usize>)>,
}

impl CoreNameIndex {
    pub closed spec fn pairs(&self) -> Seq<(Seq<char>, Seq<usize>)> {
        index_pairs_view(self.entries@)
    }

    #[verifier::type_invariant]
    closed spec fn wf(&self) -> bool {
        keys_unique(self.pairs())
    }
}

impl View for CoreNameIndex {
    type V = Map<Seq<char>, Seq<usize>>;

    closed spec fn view(&self) -> Map<Seq<char>, Seq<usize>> {
        pairs_to_map(self.pairs())
    }
}

/// A copy of a list of positions.
pub fn copy_positions(v: &Vec<usize>) -> (r: Vec<usize>)
    ensures
        r@ == v@,
{
    let mut r: Vec<usize> = Vec::new();
    let mut i: usize = 0;
    while i < v.len()
        invariant
            i <= v@.len(),
            r@ == v@.subrange(0, i as int),
        decreases v@.len() - i,
    {
        r.push(v[i]);
        i = i + 1;
        assert(r@ =~= v@.subrange(0, i as int));
    }
    assert(r@ =~= v@);
    r
}

impl CoreNameIndex {
    /// An empty index.
    pub fn new() -> (m: Self)
        ensures
            m@ == Map::<Seq<char>, Seq<usize>>::empty(),
    {
        let m = CoreNameIndex { entries: Vec::new() };
        assert(m.pairs() =~= Seq::<(Seq<char>, Seq<usize>)>::empty());
        m
    }

    /// Empties the index.
    pub fn clear(&mut self)
        ensures
            final(self)@ == Map::<Seq<char>, Seq<usize>>::empty(),
    {
        *self = CoreNameIndex::new();
    }

    fn position(&self, key: &str) -> (r: Option<usize>)
        ensures
            r matches Some(i) ==> i < self.pairs().len() && self.pairs()[i as int].0 == key@,
            r is None ==> forall|i: int| 0 <= i < self.pairs().len() ==> self.pairs()[i].0 != key@,
    {
        let mut i: usize = 0;
        while i < self.entries.len()
            invariant
                i <= self.entries@.len(),
                self.pairs().len() == self.entries@.len(),
                forall|j: int| 0 <= j < i ==> self.pairs()[j].0 != key@,
            decreases self.entries@.len() - i,
        {
            if str_eq(self.entries[i].0.as_str(), key) {
                return Some(i);
            }
            i = i + 1;
        }
        None
    }

    /// The positions stored under `key`.
    pub fn get(&self, key: &str) -> (r: Option<&Vec<usize>>)
        ensures
            r matches Some(v) ==> self@.contains_key(key@) && v@ == self@[key@],
            r is None ==> !self@.contains_key(key@),
    {
        proof {
            use_type_invariant(self);
        }
        match self.position(key) {
            Some(i) => {
                proof {
                    lemma_pairs_index(self.pairs(), i as int);
                }
                Some(&self.entries[i].1)
            },
            None => {
                proof {
                    lemma_pairs_absent(self.pairs(), key@);
                }
                None
            },
        }
    }

    /// Appends `v` to the positions stored under `key`.
    pub fn push_position(&mut self, key: String, v: usize)
        ensures
            final(self)@ == map_push(old(self)@, key@, v),
    {
        proof {
            use_type_invariant(&*self);
        }
        match self.position(key.as_str()) {
            Some(i) => {
                proof {
                    lemma_pairs_index(self.pairs(), i as int);
                }
                let mut list = copy_positions(&self.entries[i].1);
                list.push(v);
                proof {
                    lemma_pairs_update(self.pairs(), i as int, list@);
                }
                let ghost old_pairs = self.pairs();
                let mut entries = Vec::new();
                std::mem::swap(&mut entries, &mut self.entries);
                entries.set(i, (key, list));
                assert(index_pairs_view(entries@) =~= old_pairs.update(
                    i as int,
                    (old_pairs[i as int].0, list@),
                ));
                self.entries = entries;
            },
            None => {
                proof {
                    lemma_pairs_absent(self.pairs(), key@);
                    lemma_pairs_push(self.pairs(), key@, seq![v]);
                }
                let ghost old_pairs = self.pairs();
                let mut entries = Vec::new();
                std::mem::swap(&mut entries, &mut self.entries);
                let mut list: Vec<usize> = Vec::new();
                list.push(v);
                assert(list@ =~= seq![v]);
                entries.push((key, list));
                assert(index_pairs_view(entries@) =~= old_pairs.push((key@, seq![v])));
                self.entries = entries;
            },
        }
    }
}

} // verus!

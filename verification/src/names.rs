//! Small keyed collections of names: a set of strings and a map from a
//! name to a list of names, each kept without duplicate keys.

use vstd::prelude::*;
use crate::text::eq_chars;
use crate::text::chars_of;

verus! {

pub open spec fn names_of(v: Seq<String>) -> Seq<Seq<char>> {
    v.map_values(|s: String| s@)
}

/// No name occurs twice.
pub open spec fn distinct(v: Seq<Seq<char>>) -> bool {
    forall|i: int, j: int| 0 <= i < j < v.len() ==> v[i] != v[j]
}

fn same_text(a: &String, b: &str) -> (r: bool)
    ensures
        r == (a@ == b@),
{
    let av = chars_of(a.as_str());
    let bv = chars_of(b);
    eq_chars(av.as_slice(), bv.as_slice())
}

/// A set of names.
pub struct NameSet {
    items: Vec<String>,
}

impl NameSet {
    #[verifier::type_invariant]
    spec fn no_duplicates(&self) -> bool {
        distinct(names_of(self.items@))
    }

    /// The names in the set.
    pub closed spec fn view(&self) -> Set<Seq<char>> {
        names_of(self.items@).to_set()
    }

    pub fn new() -> (r: Self)
        ensures
            r.view() == Set::<Seq<char>>::empty(),
    {
        let r = NameSet { items: Vec::new() };
        proof {
            assert(names_of(r.items@) =~= Seq::<Seq<char>>::empty());
            assert(names_of(r.items@).to_set() =~= Set::<Seq<char>>::empty());
        }
        r
    }

    /// Empties the set.
    pub fn clear(&mut self)
        ensures
            final(self).view() == Set::<Seq<char>>::empty(),
    {
        *self = NameSet::new();
    }

    fn position(&self, name: &str) -> (r: Option<usize>)
        ensures
            match r {
                Some(i) => i < self.items@.len() && self.items@[i as int]@ == name@,
                None => !self.view().contains(name@),
            },
    {
        let mut i: usize = 0;
        while i < self.items.len()
            invariant
                i <= self.items@.len(),
                forall|j: int| 0 <= j < i ==> self.items@[j]@ != name@,
            decreases self.items@.len() - i,
        {
            if same_text(&self.items[i], name) {
                return Some(i);
            }
            i = i + 1;
        }
        proof {
            if names_of(self.items@).to_set().contains(name@) {
                let k = names_of(self.items@).index_of(name@);
                assert(names_of(self.items@)[k] == self.items@[k]@);
            }
        }
        None
    }

    pub fn contains(&self, name: &str) -> (b: bool)
        ensures
            b == self.view().contains(name@),
    {
        match self.position(name) {
            Some(i) => {
                proof {
                    assert(names_of(self.items@)[i as int] == name@);
                }
                true
            },
            None => false,
        }
    }

    /// Adds `name`; returns whether it was new.
    pub fn insert(&mut self, name: String) -> (b: bool)
        ensures
            final(self).view() == old(self).view().insert(name@),
            b == !old(self).view().contains(name@),
    {
        proof {
            use_type_invariant(&*self);
        }
        match self.position(name.as_str()) {
            Some(i) => {
                proof {
                    assert(names_of(self.items@)[i as int] == name@);
                    assert(self.view().insert(name@) =~= self.view());
                }
                false
            },
            None => {
                let ghost before = names_of(self.items@);
                let mut items: Vec<String> = Vec::new();
                std::mem::swap(&mut items, &mut self.items);
                let ghost nv = name@;
                items.push(name);
                proof {
                    assert(names_of(items@) =~= before.push(nv));
                    before.lemma_push_to_set_commute(nv);
                    assert(names_of(items@).to_set() =~= before.to_set().insert(nv));
                }
                self.items = items;
                true
            },
        }
    }

    /// Removes `name`; returns whether it was there.
    pub fn remove(&mut self, name: &str) -> (b: bool)
        ensures
            final(self).view() == old(self).view().remove(name@),
            b == old(self).view().contains(name@),
    {
        proof {
            use_type_invariant(&*self);
        }
        match self.position(name) {
            Some(i) => {
                let ghost before = names_of(self.items@);
                let mut items: Vec<String> = Vec::new();
                std::mem::swap(&mut items, &mut self.items);
                items.remove(i);
                proof {
                    let after = names_of(items@);
                    assert(after =~= before.remove(i as int));
                    assert(before[i as int] == name@);
                    assert forall|x: Seq<char>| #[trigger] after.to_set().contains(x) <==> before.to_set().remove(name@).contains(x) by {
                        if after.to_set().contains(x) {
                            let k = after.index_of(x);
                            if k < i {
                                assert(before[k] == x);
                            } else {
                                assert(before[k + 1] == x);
                            }
                            assert(before.contains(x));
                        }
                        if before.to_set().remove(name@).contains(x) {
                            let k = before.index_of(x);
                            assert(k != i);
                            if k < i {
                                assert(after[k] == x);
                            } else {
                                assert(after[k - 1] == x);
                            }
                        }
                    }
                    assert(after.to_set() =~= before.to_set().remove(name@));
                    assert(forall|a: int, b: int| 0 <= a < b < after.len() ==> after[a] != after[b]) by {
                        assert forall|a: int, b: int| 0 <= a < b < after.len() implies after[a] != after[b] by {
                            let a2 = if a < i { a } else { a + 1 };
                            let b2 = if b < i { b } else { b + 1 };
                            assert(after[a] == before[a2]);
                            assert(after[b] == before[b2]);
                        }
                    }
                }
                self.items = items;
                true
            },
            None => {
                proof {
                    assert(self.view().remove(name@) =~= self.view());
                }
                false
            },
        }
    }

    /// The names, in the order they were added.
    pub fn names(&self) -> (r: &Vec<String>)
        ensures
            names_of(r@).to_set() == self.view(),
            distinct(names_of(r@)),
    {
        proof {
            use_type_invariant(self);
        }
        &self.items
    }
}

/// A map from a name to a list of names.
pub struct NameListMap {
    entries: Vec<(String, Vec<String>)>,
}

pub open spec fn keys_of(v: Seq<(String, Vec<String>)>) -> Seq<Seq<char>> {
    v.map_values(|e: (String, Vec<String>)| e.0@)
}

pub open spec fn entry_map(v: Seq<(String, Vec<String>)>) -> Map<Seq<char>, Seq<Seq<char>>>
    decreases v.len(),
{
    if v.len() == 0 {
        Map::empty()
    } else {
        entry_map(v.drop_last()).insert(v.last().0@, names_of(v.last().1@))
    }
}

impl NameListMap {
    #[verifier::type_invariant]
    spec fn unique_keys(&self) -> bool {
        distinct(keys_of(self.entries@))
    }

    /// Each name mapped to its list.
    pub closed spec fn view(&self) -> Map<Seq<char>, Seq<Seq<char>>> {
        entry_map(self.entries@)
    }

    pub fn new() -> (r: Self)
        ensures
            r.view() == Map::<Seq<char>, Seq<Seq<char>>>::empty(),
    {
        let r = NameListMap { entries: Vec::new() };
        proof {
            assert(keys_of(r.entries@) =~= Seq::<Seq<char>>::empty());
        }
        r
    }

    proof fn lemma_lookup(v: Seq<(String, Vec<String>)>, i: int)
        requires
            distinct(keys_of(v)),
            0 <= i < v.len(),
        ensures
            entry_map(v).contains_key(v[i].0@),
            entry_map(v)[v[i].0@] == names_of(v[i].1@),
        decreases v.len(),
    {
        if i < v.len() - 1 {
            let w = v.drop_last();
            assert(keys_of(w) =~= keys_of(v).drop_last());
            Self::lemma_lookup(w, i);
            assert(keys_of(v)[i] != keys_of(v)[v.len() - 1]);
        }
    }

    proof fn lemma_absent(v: Seq<(String, Vec<String>)>, k: Seq<char>)
        requires
            forall|j: int| 0 <= j < v.len() ==> v[j].0@ != k,
        ensures
            !entry_map(v).contains_key(k),
        decreases v.len(),
    {
        if v.len() > 0 {
            Self::lemma_absent(v.drop_last(), k);
        }
    }

    proof fn lemma_update(v: Seq<(String, Vec<String>)>, i: int, e: (String, Vec<String>))
        requires
            distinct(keys_of(v)),
            0 <= i < v.len(),
            e.0@ == v[i].0@,
        ensures
            entry_map(v.update(i, e)) == entry_map(v).insert(e.0@, names_of(e.1@)),
        decreases v.len(),
    {
        if i == v.len() - 1 {
            assert(v.update(i, e).drop_last() =~= v.drop_last());
            assert forall|j: int| 0 <= j < v.drop_last().len() implies v.drop_last()[j].0@ != e.0@ by {
                assert(keys_of(v)[j] != keys_of(v)[i]);
            }
            Self::lemma_absent(v.drop_last(), e.0@);
            assert(entry_map(v.update(i, e)) =~= entry_map(v).insert(e.0@, names_of(e.1@)));
        } else {
            let w = v.drop_last();
            assert(keys_of(w) =~= keys_of(v).drop_last());
            assert(v.update(i, e).drop_last() =~= w.update(i, e));
            Self::lemma_update(w, i, e);
            assert(keys_of(v)[i] != keys_of(v)[v.len() - 1]);
            assert(entry_map(v.update(i, e)) =~= entry_map(v).insert(e.0@, names_of(e.1@)));
        }
    }

    fn position(&self, key: &str) -> (r: Option<usize>)
        ensures
            match r {
                Some(i) => i < self.entries@.len() && self.entries@[i as int].0@ == key@,
                None => forall|j: int| 0 <= j < self.entries@.len() ==> self.entries@[j].0@ != key@,
            },
    {
        let mut i: usize = 0;
        while i < self.entries.len()
            invariant
                i <= self.entries@.len(),
                forall|j: int| 0 <= j < i ==> self.entries@[j].0@ != key@,
            decreases self.entries@.len() - i,
        {
            if same_text(&self.entries[i].0, key) {
                return Some(i);
            }
            i = i + 1;
        }
        None
    }

    pub fn get(&self, key: &str) -> (r: Option<&Vec<String>>)
        ensures
            match r {
                Some(v) => self.view().contains_key(key@) && self.view()[key@] == names_of(v@),
                None => !self.view().contains_key(key@),
            },
    {
        proof {
            use_type_invariant(self);
        }
        match self.position(key) {
            Some(i) => {
                proof {
                    Self::lemma_lookup(self.entries@, i as int);
                }
                Some(&self.entries[i].1)
            },
            None => {
                proof {
                    Self::lemma_absent(self.entries@, key@);
                }
                None
            },
        }
    }

    pub fn contains_key(&self, key: &str) -> (b: bool)
        ensures
            b == self.view().contains_key(key@),
    {
        self.get(key).is_some()
    }

    /// Maps `key` to `value`, replacing any list it had.
    pub fn insert(&mut self, key: String, value: Vec<String>)
        ensures
            final(self).view() == old(self).view().insert(key@, names_of(value@)),
    {
        proof {
            use_type_invariant(&*self);
        }
        let ghost kv = key@;
        let ghost vv = names_of(value@);
        match self.position(key.as_str()) {
            Some(i) => {
                let mut entries: Vec<(String, Vec<String>)> = Vec::new();
                std::mem::swap(&mut entries, &mut self.entries);
                let ghost before = entries@;
                entries.set(i, (key, value));
                proof {
                    Self::lemma_update(before, i as int, entries@[i as int]);
                    assert(entries@ =~= before.update(i as int, entries@[i as int]));
                    assert(keys_of(entries@) =~= keys_of(before));
                }
                self.entries = entries;
            },
            None => {
                let mut entries: Vec<(String, Vec<String>)> = Vec::new();
                std::mem::swap(&mut entries, &mut self.entries);
                let ghost before = entries@;
                entries.push((key, value));
                proof {
                    assert(entries@.drop_last() =~= before);
                    assert(keys_of(entries@) =~= keys_of(before).push(kv));
                    assert forall|a: int, b: int| 0 <= a < b < keys_of(entries@).len() implies keys_of(entries@)[a] != keys_of(entries@)[b] by {
                        if b == before.len() {
                            assert(keys_of(entries@)[a] == before[a].0@);
                        }
                    }
                }
                self.entries = entries;
            },
        }
    }
}

} // verus!

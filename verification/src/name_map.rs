//! A finite map keyed by signal name.

use vstd::prelude::*;

verus! {

/// A finite map from names to values of type `V`.
///
/// The entries are kept in the order in which their names were first inserted,
/// and no name occurs twice. The view is the mathematical map from a name, as a
/// sequence of characters, to the value stored under it.
#[derive(Debug)]
pub struct NameMap<V> {
    entries: Vec<(String, V)>,
}

impl<V> View for NameMap<V> {
    type V = Map<Seq<char>, V>;

    open spec fn view(&self) -> Map<Seq<char>, V> {
        Map::new(
            |name: Seq<char>| self.names().contains(name),
            |name: Seq<char>| self.values()[self.names().index_of(name)],
        )
    }
}

impl<V> NameMap<V> {
    /// The stored names, in storage order.
    pub closed spec fn names(&self) -> Seq<Seq<char>> {
        Self::names_of(self.entries@)
    }

    /// The names of `entries`, in order.
    spec fn names_of(entries: Seq<(String, V)>) -> Seq<Seq<char>> {
        Seq::new(entries.len(), |i: int| entries[i].0@)
    }

    /// The stored values, in storage order: `values()[i]` belongs to
    /// `names()[i]`.
    pub closed spec fn values(&self) -> Seq<V> {
        Seq::new(self.entries@.len(), |i: int| self.entries@[i].1)
    }

    #[verifier::type_invariant]
    spec fn distinct_names(&self) -> bool {
        self.names().no_duplicates()
    }

    /// In a duplicate-free sequence, `index_of` is the inverse of indexing.
    proof fn lemma_index_of(names: Seq<Seq<char>>, i: int)
        requires
            names.no_duplicates(),
            0 <= i < names.len(),
        ensures
            names.contains(names[i]),
            names.index_of(names[i]) == i,
    {
        let j = names.index_of(names[i]);
        assert(0 <= j < names.len() && names[j] == names[i]);
    }

    /// The map without any entry.
    pub fn new() -> (map: Self)
        ensures
            map@ == Map::<Seq<char>, V>::empty(),
            map.names() == Seq::<Seq<char>>::empty(),
    {
        let map = NameMap { entries: Vec::new() };
        map
    }

    /// The number of entries.
    pub fn len(&self) -> (count: usize)
        ensures
            count == self@.len(),
            count == self.names().len(),
            count == self.values().len(),
            self.names().no_duplicates(),
            self@.dom().finite(),
    {
        proof {
            use_type_invariant(self);
            let names = self.names();
            names.unique_seq_to_set();
        }
        self.entries.len()
    }

    /// Where `name` is stored, if it is.
    fn position(&self, name: &String) -> (found: Option<usize>)
        ensures
            match found {
                Some(i) => i < self.names().len() && self.names()[i as int] == name@,
                None => !self.names().contains(name@),
            },
    {
        let mut i: usize = 0;
        while i < self.entries.len()
            invariant
                i <= self.entries@.len(),
                self.names().len() == self.entries@.len(),
                forall|j: int| 0 <= j < i ==> self.names()[j] != name@,
            decreases self.entries@.len() - i,
        {
            if self.entries[i].0 == *name {
                return Some(i);
            }
            i += 1;
        }
        None
    }

    /// Whether a value is stored under `name`.
    pub fn contains_key(&self, name: &String) -> (present: bool)
        ensures
            present == self@.contains_key(name@),
    {
        self.position(name).is_some()
    }

    /// The value stored under `name`.
    pub fn get(&self, name: &String) -> (value: Option<&V>)
        ensures
            match value {
                Some(v) => self@.contains_key(name@) && *v == self@[name@],
                None => !self@.contains_key(name@),
            },
    {
        match self.position(name) {
            Some(i) => {
                proof {
                    use_type_invariant(self);
                }
                Some(&self.entries[i].1)
            },
            None => None,
        }
    }

    /// The `i`-th entry in storage order. Together with [`NameMap::len`] this
    /// walks the whole map: every name of the map is `names()[i]` for exactly
    /// one `i`.
    pub fn entry(&self, i: usize) -> (entry: (&String, &V))
        requires
            i < self.names().len(),
        ensures
            entry.0@ == self.names()[i as int],
            *entry.1 == self.values()[i as int],
            self@.contains_key(entry.0@),
            self@[entry.0@] == *entry.1,
    {
        proof {
            use_type_invariant(self);
        }
        let pair = &self.entries[i];
        (&pair.0, &pair.1)
    }

    /// Stores `value` under `name`, replacing what was stored there before.
    /// A name that is new to the map goes to the end of the storage order; a
    /// name that the map holds keeps its place.
    pub fn insert(&mut self, name: String, value: V)
        ensures
            final(self)@ == old(self)@.insert(name@, value),
            final(self).names() == if old(self).names().contains(name@) {
                old(self).names()
            } else {
                old(self).names().push(name@)
            },
            final(self).values() == if old(self).names().contains(name@) {
                old(self).values().update(old(self).names().index_of(name@), value)
            } else {
                old(self).values().push(value)
            },
    {
        proof {
            use_type_invariant(&*self);
        }
        let found = self.position(&name);
        let ghost before = *self;
        let ghost key = name@;
        let mut entries: Vec<(String, V)> = Vec::new();
        std::mem::swap(&mut entries, &mut self.entries);
        match found {
            Some(i) => {
                entries.set(i, (name, value));
                assert(Self::names_of(entries@) =~= before.names());
            },
            None => {
                entries.push((name, value));
                assert(Self::names_of(entries@) =~= before.names().push(key));
            },
        }
        self.entries = entries;
        proof {
            let old_names = before.names();
            let new_names = self.names();
            let updated = before@.insert(key, value);
            let at = match found {
                Some(i) => i as int,
                None => old_names.len() as int,
            };
            Self::lemma_index_of(new_names, at);
            match found {
                Some(i) => {
                    assert(self.values() =~= before.values().update(at, value));
                },
                None => {
                    assert(self.values() =~= before.values().push(value));
                },
            }
            assert forall|k: Seq<char>| #[trigger]
                self@.dom().contains(k) == updated.dom().contains(k) by {
                if new_names.contains(k) {
                    let j = new_names.index_of(k);
                    if j < old_names.len() {
                        assert(old_names[j] == k);
                    }
                }
                if old_names.contains(k) {
                    let j = old_names.index_of(k);
                    assert(new_names[j] == k);
                }
            }
            assert(self@ =~= updated);
        }
    }
}

impl<V: Clone> Clone for NameMap<V> {
    /// A map with the same names in the same order, each value cloned.
    fn clone(&self) -> (copy: Self)
        ensures
            copy.names() == self.names(),
            copy.values().len() == self.values().len(),
            forall|i: int|
                0 <= i < self.values().len() ==> cloned::<V>(
                    #[trigger] self.values()[i],
                    copy.values()[i],
                ),
    {
        proof {
            use_type_invariant(self);
        }
        let mut entries: Vec<(String, V)> = Vec::new();
        let mut i: usize = 0;
        while i < self.entries.len()
            invariant
                i <= self.entries@.len(),
                entries@.len() == i,
                forall|j: int|
                    0 <= j < i ==> (#[trigger] entries@[j]).0@ == self.entries@[j].0@
                        && cloned::<V>(self.entries@[j].1, entries@[j].1),
            decreases self.entries@.len() - i,
        {
            let pair = &self.entries[i];
            entries.push((pair.0.clone(), pair.1.clone()));
            i += 1;
        }
        assert(Self::names_of(entries@) =~= self.names());
        let copy = NameMap { entries };
        copy
    }
}

} // verus!

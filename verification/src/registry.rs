//! A registry of named entries in which the first definition of a name
//! stays: a name is never redefined, and an entry never changes.

use vstd::prelude::*;

verus! {

/// Entries found by name. Seen as a map from names to entries.
pub struct Registry<T> {
    names: Vec<String>,
    items: Vec<T>,
}

impl<T> View for Registry<T> {
    type V = Map<Seq<char>, T>;

    closed spec fn view(&self) -> Map<Seq<char>, T> {
        Map::new(
            |name: Seq<char>| self.keys().contains(name),
            |name: Seq<char>| self.items@[self.keys().index_of(name)],
        )
    }
}

impl<T> Registry<T> {
    /// The names, in the order in which they were registered.
    pub closed spec fn keys(&self) -> Seq<Seq<char>> {
        Seq::new(self.names@.len(), |i: int| self.names@[i]@)
    }

    #[verifier::type_invariant]
    spec fn well_formed(&self) -> bool {
        &&& self.names@.len() == self.items@.len()
        &&& self.keys().no_duplicates()
    }

    proof fn lemma_view(&self)
        requires
            self.well_formed(),
        ensures
            self@.dom() == self.keys().to_set(),
            self@.dom().finite(),
            self@.dom().len() == self.names@.len(),
            forall|i: int|
                0 <= i < self.names@.len() ==> self@.contains_key(#[trigger] self.names@[i]@)
                    && self@[self.names@[i]@] == self.items@[i],
    {
        let keys = self.keys();
        assert(self@.dom() =~= keys.to_set());
        keys.unique_seq_to_set();
        vstd::seq_lib::seq_to_set_is_finite(keys);
        assert forall|i: int| 0 <= i < self.names@.len() implies self@.contains_key(
            #[trigger] self.names@[i]@,
        ) && self@[self.names@[i]@] == self.items@[i] by {
            assert(keys[i] == self.names@[i]@);
            let j = keys.index_of(keys[i]);
            assert(keys[j] == keys[i]);
        }
    }

    /// A registry without entries.
    pub fn new() -> (registry: Registry<T>)
        ensures
            registry@ == Map::<Seq<char>, T>::empty(),
    {
        let registry = Registry { names: Vec::new(), items: Vec::new() };
        assert(registry@ =~= Map::<Seq<char>, T>::empty());
        registry
    }

    /// How many names are registered.
    pub fn len(&self) -> (n: usize)
        ensures
            self@.dom().finite(),
            n == self@.dom().len(),
    {
        proof {
            use_type_invariant(self);
            self.lemma_view();
        }
        self.names.len()
    }

    fn position(&self, name: &String) -> (r: Option<usize>)
        ensures
            match r {
                Some(i) => i < self.names@.len() && self.keys()[i as int] == name@,
                None => !self.keys().contains(name@),
            },
            r is Some <==> self@.contains_key(name@),
    {
        let mut i: usize = 0;
        while i < self.names.len()
            invariant
                0 <= i <= self.names@.len(),
                forall|j: int| 0 <= j < i ==> self.names@[j]@ != name@,
            decreases self.names@.len() - i,
        {
            if self.names[i] == *name {
                assert(self.keys()[i as int] == name@);
                return Some(i);
            }
            i += 1;
        }
        None
    }

    /// Whether `name` is registered.
    pub fn contains_key(&self, name: &str) -> (found: bool)
        ensures
            found == self@.contains_key(name@),
    {
        let key = name.to_owned();
        self.position(&key).is_some()
    }

    /// The entry registered under `name`.
    pub fn get(&self, name: &str) -> (entry: Option<&T>)
        ensures
            match entry {
                Some(item) => self@.contains_key(name@) && *item == self@[name@],
                None => !self@.contains_key(name@),
            },
    {
        let key = name.to_owned();
        proof {
            use_type_invariant(self);
            self.lemma_view();
        }
        match self.position(&key) {
            Some(i) => Some(&self.items[i]),
            None => None,
        }
    }

    /// Registers `item` under `name`, unless the name is taken: the first
    /// definition of a name stays. Says whether the item was registered.
    pub fn insert(&mut self, name: String, item: T) -> (registered: bool)
        ensures
            registered == !old(self)@.contains_key(name@),
            registered ==> final(self)@ == old(self)@.insert(name@, item),
            !registered ==> final(self)@ == old(self)@,
    {
        proof {
            use_type_invariant(&*self);
            self.lemma_view();
        }
        if self.position(&name).is_some() {
            return false;
        }
        let ghost before = *self;
        let ghost key = name@;
        let mut taken = Registry::new();
        std::mem::swap(self, &mut taken);
        let Registry { mut names, mut items } = taken;
        names.push(name);
        items.push(item);
        proof {
            let grown = Registry { names, items };
            assert(grown.keys() =~= before.keys().push(key));
        }
        *self = Registry { names, items };
        proof {
            let keys = self.keys();
            assert(keys =~= before.keys().push(key));
            assert(keys.no_duplicates());
            self.lemma_view();
            assert(self@.dom() =~= before@.dom().insert(key)) by {
                assert forall|k: Seq<char>| self@.dom().contains(k) <==> before@.dom().insert(
                    key,
                ).contains(k) by {
                    if keys.contains(k) {
                        let j = keys.index_of(k);
                        if j < before.keys().len() {
                            assert(before.keys()[j] == k);
                        }
                    }
                    if before.keys().contains(k) {
                        let j = before.keys().index_of(k);
                        assert(keys[j] == k);
                    }
                    if k == key {
                        assert(keys[keys.len() - 1] == k);
                    }
                }
            }
            assert forall|k: Seq<char>| self@.dom().contains(k) implies #[trigger] self@[k]
                == before@.insert(key, item)[k] by {
                let j = keys.index_of(k);
                assert(keys[j] == k);
                if k != key {
                    let i = before.keys().index_of(k);
                    assert(before.keys()[i] == k);
                    assert(keys[i] == k);
                    assert(i == j);
                }
            }
            assert(self@ =~= before@.insert(key, item));
        }
        true
    }
}

} // verus!

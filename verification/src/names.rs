//! A map keyed by names.

use vstd::prelude::*;
use crate::text::same_text;

verus! {

/// A map from names to values that keeps the names in the order in which they
/// were first inserted. No name occurs twice.
#[derive(Debug)]
pub struct NameMap<T> {
    names: Vec<String>,
    values: Vec<T>,
}

impl<T> View for NameMap<T> {
    type V = Map<Seq<char>, T>;

    /// The map as a mathematical map: each name with the value at its index.
    open spec fn view(&self) -> Map<Seq<char>, T> {
        Map::new(
            |k: Seq<char>| self.keys().contains(k),
            |k: Seq<char>| self.vals()[self.keys().index_of(k)],
        )
    }
}

impl<T> NameMap<T> {
    /// The names, in the order in which they were first inserted.
    pub closed spec fn keys(&self) -> Seq<Seq<char>> {
        self.names@.map_values(|s: String| s@)
    }

    /// The values: the one at index `i` belongs to the name at index `i`.
    pub closed spec fn vals(&self) -> Seq<T> {
        self.values@
    }

    /// Every name has one value, and no name occurs twice.
    #[verifier::type_invariant]
    pub open spec fn wf(&self) -> bool {
        self.keys().len() == self.vals().len() && self.keys().no_duplicates()
    }

    /// In a well-formed map the value of the name at index `i` is the value at index `i`.
    pub proof fn lemma_view_at(&self, i: int)
        requires
            self.wf(),
            0 <= i < self.keys().len(),
        ensures
            self@.contains_key(self.keys()[i]),
            self@[self.keys()[i]] == self.vals()[i],
    {
        let k = self.keys()[i];
        assert(self.keys().contains(k));
        let j = self.keys().index_of(k);
        assert(self.keys()[j] == k);
    }

    /// The map that holds nothing.
    pub fn new() -> (r: Self)
        ensures
            r.keys() == Seq::<Seq<char>>::empty(),
            r.vals() == Seq::<T>::empty(),
            r@ == Map::<Seq<char>, T>::empty(),
    {
        let r = NameMap { names: Vec::new(), values: Vec::new() };
        proof {
            assert(r.keys() =~= Seq::<Seq<char>>::empty());
            assert(r@ =~= Map::<Seq<char>, T>::empty());
        }
        r
    }

    /// How many names the map holds.
    pub fn len(&self) -> (n: usize)
        ensures
            n == self.keys().len(),
            n == self.vals().len(),
    {
        proof {
            use_type_invariant(self);
        }
        self.names.len()
    }

    /// Whether the map holds nothing.
    pub fn is_empty(&self) -> (r: bool)
        ensures
            r == (self.keys().len() == 0),
    {
        self.names.len() == 0
    }

    /// The name at index `i` in insertion order.
    pub fn name_at(&self, i: usize) -> (r: &String)
        requires
            i < self.keys().len(),
        ensures
            r@ == self.keys()[i as int],
    {
        &self.names[i]
    }

    /// The value of the name at index `i`.
    pub fn value_at(&self, i: usize) -> (r: &T)
        requires
            i < self.keys().len(),
        ensures
            *r == self.vals()[i as int],
            self@.contains_key(self.keys()[i as int]),
            *r == self@[self.keys()[i as int]],
    {
        proof {
            use_type_invariant(self);
            self.lemma_view_at(i as int);
        }
        &self.values[i]
    }

    /// The index of `name`, if the map holds it.
    pub fn position(&self, name: &str) -> (r: Option<usize>)
        ensures
            match r {
                Some(i) => i < self.keys().len() && self.keys()[i as int] == name@,
                None => !self.keys().contains(name@),
            },
    {
        let mut i: usize = 0;
        while i < self.names.len()
            invariant
                i <= self.names@.len(),
                forall|k: int| 0 <= k < i ==> self.keys()[k] != name@,
            decreases self.names@.len() - i,
        {
            if same_text(self.names[i].as_str(), name) {
                return Some(i);
            }
            i += 1;
        }
        None
    }

    /// Whether the map holds `name`.
    pub fn contains_key(&self, name: &str) -> (r: bool)
        ensures
            r == self@.contains_key(name@),
    {
        self.position(name).is_some()
    }

    /// The value of `name`, if the map holds it.
    pub fn get(&self, name: &str) -> (r: Option<&T>)
        ensures
            match r {
                Some(v) => self@.contains_key(name@) && *v == self@[name@],
                None => !self@.contains_key(name@),
            },
    {
        proof {
            use_type_invariant(self);
        }
        match self.position(name) {
            Some(i) => {
                proof {
                    self.lemma_view_at(i as int);
                }
                Some(&self.values[i])
            },
            None => None,
        }
    }

    /// Gives `name` the value `value`. A name that the map already holds keeps
    /// its place and its former value is returned; a new name goes to the end.
    pub fn insert(&mut self, name: String, value: T) -> (r: Option<T>)
        ensures
            final(self)@ == old(self)@.insert(name@, value),
            match r {
                Some(v) => old(self)@.contains_key(name@) && v == old(self)@[name@]
                    && final(self).keys() == old(self).keys(),
                None => !old(self)@.contains_key(name@)
                    && final(self).keys() == old(self).keys().push(name@)
                    && final(self).vals() == old(self).vals().push(value),
            },
    {
        proof {
            use_type_invariant(&*self);
        }
        let found = self.position(name.as_str());
        let mut taken = NameMap { names: Vec::new(), values: Vec::new() };
        proof {
            assert(taken.keys() =~= Seq::<Seq<char>>::empty());
        }
        std::mem::swap(self, &mut taken);
        let NameMap { names, values } = taken;
        let mut names = names;
        let mut values = values;
        let ghost before = NameMap { names, values };
        let r = match found {
            Some(i) => {
                proof {
                    before.lemma_view_at(i as int);
                }
                let former = values.remove(i);
                values.insert(i, value);
                Some(former)
            },
            None => {
                names.push(name);
                values.push(value);
                None
            },
        };
        proof {
            let after = NameMap { names, values };
            match found {
                Some(i) => {
                    assert(after.keys() =~= before.keys());
                    assert(after.vals() =~= before.vals().update(i as int, value));
                    assert forall|k: Seq<char>| after@.contains_key(k) implies #[trigger] after@[k]
                        == before@.insert(name@, value)[k] by {
                        let j = after.keys().index_of(k);
                        assert(after.keys()[j] == k);
                    }
                    assert(after@ =~= before@.insert(name@, value));
                },
                None => {
                    assert(after.keys() =~= before.keys().push(name@));
                    assert(after.vals() =~= before.vals().push(value));
                    assert forall|k: Seq<char>| after.keys().contains(k) <==> (k == name@
                        || before.keys().contains(k)) by {
                        if before.keys().contains(k) {
                            let j = before.keys().index_of(k);
                            assert(after.keys()[j] == k);
                        }
                        if k == name@ {
                            assert(after.keys()[before.keys().len() as int] == k);
                        }
                    }
                    assert forall|k: Seq<char>| after@.contains_key(k) implies #[trigger] after@[k]
                        == before@.insert(name@, value)[k] by {
                        let j = after.keys().index_of(k);
                        assert(after.keys()[j] == k);
                        if k != name@ {
                            let j0 = before.keys().index_of(k);
                            assert(before.keys()[j0] == k);
                            assert(after.keys()[j0] == k);
                        }
                    }
                    assert(after@ =~= before@.insert(name@, value));
                },
            }
            assert(after.wf());
        }
        *self = NameMap { names, values };
        r
    }
}

impl<T: Copy> Clone for NameMap<T> {
    /// A copy with the same names and values, in the same order.
    fn clone(&self) -> (r: Self)
        ensures
            r.keys() == self.keys(),
            r.vals() == self.vals(),
            r@ == self@,
    {
        proof {
            use_type_invariant(self);
        }
        let mut names: Vec<String> = Vec::new();
        let mut values: Vec<T> = Vec::new();
        let mut i: usize = 0;
        while i < self.names.len()
            invariant
                self.names@.len() == self.values@.len(),
                i <= self.names@.len(),
                names@.len() == i,
                values@.len() == i,
                forall|k: int| 0 <= k < i ==> names@[k]@ == self.names@[k]@,
                forall|k: int| 0 <= k < i ==> values@[k] == self.values@[k],
            decreases self.names@.len() - i,
        {
            names.push(self.names[i].clone());
            values.push(self.values[i]);
            i += 1;
        }
        proof {
            let r = NameMap { names, values };
            assert(r.keys() =~= self.keys());
            assert(r.vals() =~= self.vals());
            assert(r@ =~= self@);
        }
        NameMap { names, values }
    }
}

} // verus!

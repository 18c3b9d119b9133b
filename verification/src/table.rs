//! Tables keyed by name: each name occurs once, and the entries keep the order
//! in which their names first came.

use vstd::prelude::*;

verus! {

/// What a table holds: the names in order, and the value under each.
pub struct Table<T> {
    pub names: Seq<Seq<char>>,
    pub values: Seq<T>,
}

impl<T> Table<T> {
    /// Each name has its value, and no name occurs twice.
    pub open spec fn wf(self) -> bool {
        &&& self.names.len() == self.values.len()
        &&& self.names.no_duplicates()
    }

    /// The table without entries.
    pub open spec fn empty() -> Table<T> {
        Table { names: Seq::empty(), values: Seq::empty() }
    }

    /// The number of entries.
    pub open spec fn len(self) -> nat {
        self.names.len()
    }

    /// Whether `name` has an entry.
    pub open spec fn contains(self, name: Seq<char>) -> bool {
        self.names.contains(name)
    }

    /// Where the entry of `name` stands.
    pub open spec fn position(self, name: Seq<char>) -> int {
        self.names.index_of(name)
    }

    /// The value under `name`, if it has an entry.
    pub open spec fn get(self, name: Seq<char>) -> Option<T> {
        if self.contains(name) {
            Some(self.values[self.position(name)])
        } else {
            None
        }
    }

    /// The table with `value` under `name`: in place of the value that was
    /// there, or as a new last entry.
    pub open spec fn put(self, name: Seq<char>, value: T) -> Table<T> {
        if self.contains(name) {
            Table { names: self.names, values: self.values.update(self.position(name), value) }
        } else {
            Table { names: self.names.push(name), values: self.values.push(value) }
        }
    }

    /// The table with `value` in the entry at `i`.
    pub open spec fn replace(self, i: int, value: T) -> Table<T> {
        Table { names: self.names, values: self.values.update(i, value) }
    }

    /// In a well-formed table a name stands at one place only.
    pub proof fn lemma_position(self, i: int)
        requires
            self.wf(),
            0 <= i < self.len(),
        ensures
            self.contains(self.names[i]),
            self.position(self.names[i]) == i,
            self.get(self.names[i]) == Some(self.values[i]),
    {
        let j = self.position(self.names[i]);
        assert(0 <= j < self.names.len() && self.names[j] == self.names[i]);
    }

    /// Putting keeps a table well-formed, and changes what is under the name
    /// put and nothing else.
    pub proof fn lemma_put(self, name: Seq<char>, value: T)
        requires
            self.wf(),
        ensures
            self.put(name, value).wf(),
            self.put(name, value).get(name) == Some(value),
            forall|other: Seq<char>|
                other != name ==> #[trigger] self.put(name, value).get(other) == self.get(other),
            forall|other: Seq<char>|
                #[trigger] self.put(name, value).contains(other) <==> (other == name
                    || self.contains(other)),
    {
        let after = self.put(name, value);
        if self.contains(name) {
            let p = self.position(name);
            assert(after.names[p] == name);
            after.lemma_position(p);
            assert forall|other: Seq<char>| other != name implies #[trigger] after.get(other)
                == self.get(other) by {
                if self.contains(other) {
                    let q = self.position(other);
                    assert(after.values[q] == self.values[q]);
                }
            }
        } else {
            let p = self.names.len() as int;
            assert(after.names[p] == name);
            assert forall|i: int, j: int|
                0 <= i < after.names.len() && 0 <= j < after.names.len() && i != j implies after.names[i]
                != after.names[j] by {
                if i == p {
                    assert(self.names[j] == after.names[j]);
                } else if j == p {
                    assert(self.names[i] == after.names[i]);
                } else {
                    assert(self.names[i] == after.names[i]);
                    assert(self.names[j] == after.names[j]);
                }
            }
            after.lemma_position(p);
            assert forall|other: Seq<char>| #[trigger] after.contains(other) <==> (other == name
                || self.contains(other)) by {
                if after.contains(other) {
                    let q = after.position(other);
                    if q < p {
                        assert(self.names[q] == other);
                    }
                }
                if self.contains(other) {
                    let q = self.position(other);
                    assert(after.names[q] == other);
                }
            }
            assert forall|other: Seq<char>| other != name implies #[trigger] after.get(other)
                == self.get(other) by {
                if self.contains(other) {
                    let q = self.position(other);
                    assert(after.names[q] == other);
                    after.lemma_position(q);
                }
            }
        }
    }
}

/// A table keyed by name.
#[derive(Debug)]
pub struct NameMap<V> {
    names: Vec<String>,
    values: Vec<V>,
}

impl<V> View for NameMap<V> {
    type V = Table<V>;

    closed spec fn view(&self) -> Table<V> {
        Table { names: Seq::new(self.names.len() as nat, |i: int| self.names[i]@), values: self.values@ }
    }
}

impl<V> NameMap<V> {
    /// No name occurs twice.
    #[verifier::type_invariant]
    pub open spec fn wf(self) -> bool {
        self@.wf()
    }

    /// A table without entries.
    pub fn new() -> (r: Self)
        ensures
            r@ == Table::<V>::empty(),
    {
        let r = NameMap { names: Vec::new(), values: Vec::new() };
        assert(r@.names =~= Seq::empty());
        r
    }

    /// The number of entries.
    pub fn len(&self) -> (r: usize)
        ensures
            r == self@.len(),
            self@.wf(),
    {
        proof {
            use_type_invariant(self);
        }
        self.names.len()
    }

    /// Whether there is no entry.
    pub fn is_empty(&self) -> (r: bool)
        ensures
            r == (self@.len() == 0),
    {
        self.names.len() == 0
    }

    /// Where the entry of `name` stands, if it has one.
    pub fn position(&self, name: &str) -> (r: Option<usize>)
        ensures
            self@.wf(),
            r is Some <==> self@.contains(name@),
            r matches Some(i) ==> i < self@.len() && i == self@.position(name@),
    {
        proof {
            use_type_invariant(self);
        }
        let key = name.to_owned();
        let mut i: usize = 0;
        while i < self.names.len()
            invariant
                i <= self.names.len(),
                key@ == name@,
                self@.wf(),
                self@.names.len() == self.names.len(),
                forall|j: int| 0 <= j < i ==> self@.names[j] != name@,
            decreases self.names.len() - i,
        {
            if self.names[i] == key {
                proof {
                    self@.lemma_position(i as int);
                }
                return Some(i);
            }
            i += 1;
        }
        None
    }

    /// Whether `name` has an entry.
    pub fn contains_key(&self, name: &str) -> (r: bool)
        ensures
            r == self@.contains(name@),
    {
        self.position(name).is_some()
    }

    /// The value under `name`, if it has an entry.
    pub fn get(&self, name: &str) -> (r: Option<&V>)
        ensures
            self@.wf(),
            r is Some <==> self@.contains(name@),
            r matches Some(v) ==> self@.get(name@) == Some(*v),
    {
        match self.position(name) {
            Some(i) => Some(&self.values[i]),
            None => None,
        }
    }

    /// The name of the entry at `i`.
    pub fn name_at(&self, i: usize) -> (r: &String)
        requires
            i < self@.len(),
        ensures
            r@ == self@.names[i as int],
    {
        &self.names[i]
    }

    /// The value of the entry at `i`.
    pub fn value_at(&self, i: usize) -> (r: &V)
        requires
            i < self@.len(),
        ensures
            *r == self@.values[i as int],
    {
        proof {
            use_type_invariant(self);
        }
        &self.values[i]
    }

    /// Puts `value` under `name`: in place of the value that was there, or as a
    /// new last entry.
    pub fn insert(&mut self, name: String, value: V)
        ensures
            final(self)@ == old(self)@.put(name@, value),
            old(self)@.wf(),
            final(self)@.wf(),
    {
        proof {
            use_type_invariant(&*self);
            self@.lemma_put(name@, value);
        }
        let found = self.position(name.as_str());
        let mut taken = NameMap::new();
        core::mem::swap(self, &mut taken);
        let NameMap { mut names, mut values } = taken;
        match found {
            Some(i) => {
                values.set(i, value);
            },
            None => {
                names.push(name);
                values.push(value);
            },
        }
        let ghost before = old(self)@;
        let ghost after = before.put(name@, value);
        assert(Seq::new(names.len() as nat, |i: int| names[i]@) =~= after.names);
        *self = NameMap { names, values };
    }

    /// Puts `value` in the entry at `i`.
    pub fn set_value_at(&mut self, i: usize, value: V)
        requires
            i < old(self)@.len(),
        ensures
            final(self)@ == old(self)@.replace(i as int, value),
            old(self)@.wf(),
            final(self)@.wf(),
    {
        proof {
            use_type_invariant(&*self);
        }
        let mut taken = NameMap::new();
        core::mem::swap(self, &mut taken);
        let NameMap { names, mut values } = taken;
        values.set(i, value);
        assert(Seq::new(names.len() as nat, |i: int| names[i]@) =~= old(self)@.names);
        *self = NameMap { names, values };
    }
}

impl<V: Clone> Clone for NameMap<V> {
    /// A table with the same names in the same order, and under each a clone of
    /// the value.
    fn clone(&self) -> (r: Self)
        ensures
            r@.names == self@.names,
            r@.values.len() == self@.values.len(),
            forall|i: int|
                0 <= i < self@.values.len() ==> vstd::pervasive::cloned::<V>(
                    self@.values[i],
                    #[trigger] r@.values[i],
                ),
    {
        proof {
            use_type_invariant(self);
        }
        let mut names: Vec<String> = Vec::new();
        let mut values: Vec<V> = Vec::new();
        let mut i: usize = 0;
        while i < self.names.len()
            invariant
                i <= self.names.len(),
                self.names.len() == self.values.len(),
                names.len() == i,
                values.len() == i,
                forall|j: int| 0 <= j < i ==> names[j]@ == self.names[j]@,
                forall|j: int|
                    0 <= j < i ==> vstd::pervasive::cloned::<V>(self.values[j], #[trigger] values[j]),
            decreases self.names.len() - i,
        {
            names.push(self.names[i].clone());
            values.push(self.values[i].clone());
            i += 1;
        }
        assert(Seq::new(names.len() as nat, |i: int| names[i]@) =~= self@.names);
        NameMap { names, values }
    }
}

} // verus!

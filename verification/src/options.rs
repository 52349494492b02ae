//! Tables keyed by name and tables keyed by slot.

use std::collections::HashMap;
use std::marker::PhantomData;
use vstd::prelude::*;

verus! {

broadcast use vstd::std_specs::hash::group_hash_axioms;

/// Error while building options from a template.
#[derive(Debug)]
pub enum Error {
    /// The template has a name that the values lack.
    ParameterMissing(String),
}

/// An identifier that names a slot by a small integer.
pub trait Slot: Copy {
    /// The integer that the identifier stands for.
    spec fn id(&self) -> u32;

    /// Returns the integer that the identifier stands for.
    fn index(&self) -> (r: u32)
        ensures
            r == self.id(),
    ;
}

/// What a list of named entries maps each name to. Where a name occurs
/// twice, the later entry counts.
pub open spec fn named<T>(entries: Seq<(String, T)>) -> Map<Seq<char>, T>
    decreases entries.len(),
{
    if entries.len() == 0 {
        Map::empty()
    } else {
        named(entries.drop_last()).insert(entries.last().0@, entries.last().1)
    }
}

/// What a list of slots with their values maps each slot's integer to.
/// Where a slot occurs twice, the later entry counts.
pub open spec fn indexed<I: Slot, V>(entries: Seq<(I, V)>) -> Map<u32, V>
    decreases entries.len(),
{
    if entries.len() == 0 {
        Map::empty()
    } else {
        indexed(entries.drop_last()).insert(entries.last().0.id(), entries.last().1)
    }
}

/// The table that results from looking each of `names` up twice: in `ids`
/// for the slot and in `values` for what the slot gets. Where two names
/// share a slot, the later name counts.
pub open spec fn joined<I: Slot, V>(
    names: Seq<Seq<char>>,
    ids: Map<Seq<char>, I>,
    values: Map<Seq<char>, V>,
) -> Map<u32, V>
    decreases names.len(),
{
    if names.len() == 0 {
        Map::empty()
    } else {
        joined(names.drop_last(), ids, values).insert(
            ids[names.last()].id(),
            values[names.last()],
        )
    }
}

/// No name occurs twice among the entries.
spec fn distinct<T>(entries: Seq<(String, T)>) -> bool {
    forall|i: int, j: int|
        0 <= i < j < entries.len() ==> (#[trigger] entries[i]).0@ != (#[trigger] entries[j]).0@
}

spec fn names_of<T>(entries: Seq<(String, T)>) -> Seq<Seq<char>> {
    Seq::new(entries.len(), |i: int| entries[i].0@)
}

proof fn lemma_named_dom<T>(entries: Seq<(String, T)>, key: Seq<char>)
    ensures
        named(entries).contains_key(key) <==> exists|i: int|
            0 <= i < entries.len() && (#[trigger] entries[i]).0@ == key,
    decreases entries.len(),
{
    if entries.len() > 0 {
        let front = entries.drop_last();
        lemma_named_dom(front, key);
        if named(entries).contains_key(key) {
            if entries.last().0@ == key {
                assert(entries[entries.len() - 1].0@ == key);
            } else {
                let i = choose|i: int| 0 <= i < front.len() && (#[trigger] front[i]).0@ == key;
                assert(entries[i].0@ == key);
            }
        }
        if exists|i: int| 0 <= i < entries.len() && (#[trigger] entries[i]).0@ == key {
            let i = choose|i: int| 0 <= i < entries.len() && (#[trigger] entries[i]).0@ == key;
            if i < entries.len() - 1 {
                assert(front[i].0@ == key);
            }
        }
    }
}

proof fn lemma_named_at<T>(entries: Seq<(String, T)>, i: int)
    requires
        distinct(entries),
        0 <= i < entries.len(),
    ensures
        named(entries).contains_key(entries[i].0@),
        named(entries)[entries[i].0@] == entries[i].1,
    decreases entries.len(),
{
    let front = entries.drop_last();
    if i < entries.len() - 1 {
        assert(distinct(front)) by {
            assert forall|a: int, b: int| 0 <= a < b < front.len() implies (#[trigger] front[a]).0@
                != (#[trigger] front[b]).0@ by {
                assert(entries[a].0@ != entries[b].0@);
            }
        }
        lemma_named_at(front, i);
        assert(front[i] == entries[i]);
        assert(entries[i].0@ != entries[entries.len() - 1].0@);
    }
}

proof fn lemma_named_update<T>(entries: Seq<(String, T)>, i: int, entry: (String, T))
    requires
        distinct(entries),
        0 <= i < entries.len(),
        entry.0@ == entries[i].0@,
    ensures
        distinct(entries.update(i, entry)),
        named(entries.update(i, entry)) == named(entries).insert(entry.0@, entry.1),
        names_of(entries.update(i, entry)) == names_of(entries),
    decreases entries.len(),
{
    let after = entries.update(i, entry);
    let front = entries.drop_last();
    assert(names_of(after) =~= names_of(entries));
    assert(distinct(after)) by {
        assert forall|a: int, b: int| 0 <= a < b < after.len() implies (#[trigger] after[a]).0@
            != (#[trigger] after[b]).0@ by {
            assert(entries[a].0@ != entries[b].0@);
        }
    }
    if i == entries.len() - 1 {
        assert(after.drop_last() =~= front);
        assert(named(after) =~= named(entries).insert(entry.0@, entry.1));
    } else {
        assert(distinct(front)) by {
            assert forall|a: int, b: int| 0 <= a < b < front.len() implies (#[trigger] front[a]).0@
                != (#[trigger] front[b]).0@ by {
                assert(entries[a].0@ != entries[b].0@);
            }
        }
        lemma_named_update(front, i, entry);
        assert(after.drop_last() =~= front.update(i, entry));
        assert(after.last() == entries.last());
        assert(entries[i].0@ != entries[entries.len() - 1].0@);
        assert(named(after) =~= named(entries).insert(entry.0@, entry.1));
    }
}

/// A table from names to values that remembers the order in which the names
/// came.
pub struct Names<T> {
    entries: Vec<(String, T)>,
}

impl<T> View for Names<T> {
    type V = Map<Seq<char>, T>;

    closed spec fn view(&self) -> Map<Seq<char>, T> {
        named(self.entries@)
    }
}

impl<T> Names<T> {
    #[verifier::type_invariant]
    spec fn well_formed(self) -> bool {
        distinct(self.entries@)
    }

    /// The names of the table, each once, in the order in which they were
    /// first inserted.
    pub closed spec fn names(&self) -> Seq<Seq<char>> {
        names_of(self.entries@)
    }

    /// Makes an empty table.
    pub fn new() -> (r: Self)
        ensures
            r@ == Map::<Seq<char>, T>::empty(),
            r.names() == Seq::<Seq<char>>::empty(),
    {
        let r = Names { entries: Vec::new() };
        assert(r.names() =~= Seq::<Seq<char>>::empty());
        r
    }

    /// Returns the number of names. The names are the table's keys: each
    /// key is among them once.
    pub fn len(&self) -> (n: usize)
        ensures
            n == self.names().len(),
            self.names().no_duplicates(),
            forall|key: Seq<char>| #[trigger] self@.contains_key(key) <==> self.names().contains(key),
    {
        proof {
            use_type_invariant(self);
            let entries = self.entries@;
            assert forall|key: Seq<char>| self@.contains_key(key) <==> self.names().contains(
                key,
            ) by {
                lemma_named_dom(entries, key);
                if self.names().contains(key) {
                    let i = choose|i: int| 0 <= i < self.names().len() && self.names()[i] == key;
                    assert(entries[i].0@ == key);
                }
                if self@.contains_key(key) {
                    let i = choose|i: int| 0 <= i < entries.len() && (#[trigger] entries[i]).0@ == key;
                    assert(self.names()[i] == key);
                }
            }
            assert forall|i: int, j: int|
                0 <= i < self.names().len() && 0 <= j < self.names().len() && i != j implies self.names()[i]
                != self.names()[j] by {
                if i < j {
                    assert(entries[i].0@ != entries[j].0@);
                } else {
                    assert(entries[j].0@ != entries[i].0@);
                }
            }
        }
        self.entries.len()
    }

    /// Returns the place of `key` among the entries.
    fn position(&self, key: &String) -> (r: Option<usize>)
        ensures
            match r {
                Some(i) => i < self.entries@.len() && self.entries@[i as int].0@ == key@,
                None => !self@.contains_key(key@),
            },
    {
        let mut i: usize = 0;
        while i < self.entries.len()
            invariant
                i <= self.entries@.len(),
                forall|j: int| 0 <= j < i ==> (#[trigger] self.entries@[j]).0@ != key@,
            decreases self.entries@.len() - i,
        {
            if self.entries[i].0 == *key {
                return Some(i);
            }
            i += 1;
        }
        proof {
            lemma_named_dom(self.entries@, key@);
        }
        None
    }

    /// Maps `key` to `value`, in place of what `key` was mapped to before.
    pub fn insert(&mut self, key: &str, value: T)
        ensures
            final(self)@ == old(self)@.insert(key@, value),
            final(self).names() == if old(self)@.contains_key(key@) {
                old(self).names()
            } else {
                old(self).names().push(key@)
            },
    {
        proof {
            use_type_invariant(&*self);
        }
        let name = key.to_owned();
        let ghost before = self.entries@;
        let found = self.position(&name);
        let mut entries: Vec<(String, T)> = Vec::new();
        std::mem::swap(&mut self.entries, &mut entries);
        match found {
            Some(i) => {
                proof {
                    lemma_named_update(before, i as int, (name, value));
                    lemma_named_dom(before, key@);
                }
                entries[i] = (name, value);
            },
            None => {
                proof {
                    let after = before.push((name, value));
                    assert(after.drop_last() =~= before);
                    assert(names_of(after) =~= names_of(before).push(key@));
                    assert(distinct(after)) by {
                        assert forall|a: int, b: int| 0 <= a < b < after.len() implies (
                        #[trigger] after[a]).0@ != (#[trigger] after[b]).0@ by {
                            lemma_named_dom(before, key@);
                            if b < before.len() {
                                assert(before[a].0@ != before[b].0@);
                            } else {
                                assert(before[a].0@ != key@);
                            }
                        }
                    }
                }
                entries.push((name, value));
            },
        }
        self.entries = entries;
    }

    /// Returns what `key` is mapped to.
    pub fn get(&self, key: &str) -> (r: Option<&T>)
        ensures
            r == if self@.contains_key(key@) {
                Some(&self@[key@])
            } else {
                None
            },
    {
        proof {
            use_type_invariant(self);
        }
        let name = key.to_owned();
        match self.position(&name) {
            Some(i) => {
                proof {
                    lemma_named_at(self.entries@, i as int);
                }
                Some(&self.entries[i].1)
            },
            None => None,
        }
    }

    /// Returns the name at place `i`.
    pub fn name(&self, i: usize) -> (r: &str)
        requires
            i < self.names().len(),
        ensures
            r@ == self.names()[i as int],
    {
        self.entries[i].0.as_str()
    }

    /// Returns what the name at place `i` is mapped to.
    pub fn value(&self, i: usize) -> (r: &T)
        requires
            i < self.names().len(),
        ensures
            self@.contains_key(self.names()[i as int]),
            *r == self@[self.names()[i as int]],
    {
        proof {
            use_type_invariant(self);
            lemma_named_at(self.entries@, i as int);
        }
        &self.entries[i].1
    }
}

/// Stores a map between String name and its index `I`.
pub struct OptionsTemplate<I> {
    key_indices: Names<I>,
}

impl<I: Slot> View for OptionsTemplate<I> {
    type V = Map<Seq<char>, I>;

    closed spec fn view(&self) -> Map<Seq<char>, I> {
        self.key_indices@
    }
}

impl<I: Slot> OptionsTemplate<I> {
    /// The names of the template, each once, in the order in which they
    /// were first pushed.
    pub closed spec fn names(&self) -> Seq<Seq<char>> {
        self.key_indices.names()
    }

    pub fn new(key_indices: Names<I>) -> (r: OptionsTemplate<I>)
        ensures
            r@ == key_indices@,
            r.names() == key_indices.names(),
    {
        OptionsTemplate::<I> { key_indices: key_indices }
    }

    pub fn empty() -> (r: OptionsTemplate<I>)
        ensures
            r@ == Map::<Seq<char>, I>::empty(),
            r.names() == Seq::<Seq<char>>::empty(),
    {
        OptionsTemplate::<I> { key_indices: Names::new() }
    }

    pub fn push(&mut self, key: &str, index: I)
        ensures
            final(self)@ == old(self)@.insert(key@, index),
            final(self).names() == if old(self)@.contains_key(key@) {
                old(self).names()
            } else {
                old(self).names().push(key@)
            },
    {
        self.key_indices.insert(key, index);
    }

    /// Given this template, build a parameter map for specified value map.
    ///
    /// This efectivelly gets rid of string mapping for values. The names are
    /// taken in the template's order: the first that `parameters` lacks is
    /// the error, and where two share an index the later gives the value.
    pub fn build<V: Copy>(&self, parameters: &Names<V>) -> (r: Result<Options<I, V>, Error>)
        ensures
            match r {
                Ok(built) => {
                    &&& forall|key: Seq<char>|
                        self@.contains_key(key) ==> parameters@.contains_key(key)
                    &&& built@ == joined(self.names(), self@, parameters@)
                },
                Err(Error::ParameterMissing(name)) => exists|i: int|
                    {
                        &&& 0 <= i < self.names().len()
                        &&& #[trigger] self.names()[i] == name@
                        &&& !parameters@.contains_key(name@)
                        &&& forall|j: int|
                            0 <= j < i ==> parameters@.contains_key(#[trigger] self.names()[j])
                    },
            },
    {
        let mut map: Options<I, V> = Options::empty();
        let n = self.key_indices.len();
        let ghost names = self.names();
        let mut i: usize = 0;
        while i < n
            invariant
                i <= n,
                n == names.len(),
                names == self.names(),
                names == self.key_indices.names(),
                forall|key: Seq<char>| #[trigger] self@.contains_key(key) <==> names.contains(key),
                forall|j: int| 0 <= j < i ==> parameters@.contains_key(#[trigger] names[j]),
                map@ == joined(names.take(i as int), self@, parameters@),
            decreases n - i,
        {
            let name = self.key_indices.name(i);
            let index = *self.key_indices.value(i);
            match parameters.get(name) {
                Some(value) => {
                    proof {
                        assert(names.take(i + 1).drop_last() =~= names.take(i as int));
                        assert(names.take(i + 1).last() == names[i as int]);
                    }
                    map.push(index, *value);
                },
                None => {
                    proof {
                        assert(self.names()[i as int] == name@);
                    }
                    return Err(Error::ParameterMissing(name.to_owned()));
                },
            }
            i += 1;
        }
        proof {
            assert(names.take(n as int) =~= names);
            assert forall|key: Seq<char>| self@.contains_key(key) implies parameters@.contains_key(
                key,
            ) by {
                assert(names.contains(key));
                let j = choose|j: int| 0 <= j < names.len() && names[j] == key;
                assert(parameters@.contains_key(names[j]));
            }
        }
        Ok(map)
    }

    /// Return the index of a string name in this template.
    pub fn index_of(&self, key: &str) -> (r: Option<I>)
        ensures
            r == if self@.contains_key(key@) {
                Some(self@[key@])
            } else {
                None
            },
    {
        match self.key_indices.get(key) {
            Some(i) => Some(*i),
            None => None,
        }
    }
}

/// Runtime options maped to index list.
pub struct Options<I, V> {
    map: HashMap<u32, V>,
    marker: PhantomData<I>,
}

impl<I: Slot, V> View for Options<I, V> {
    type V = Map<u32, V>;

    closed spec fn view(&self) -> Map<u32, V> {
        self.map@
    }
}

impl<I: Slot, V> Options<I, V> {
    /// Makes the table that `entries` describe, taken in their order.
    pub fn new(entries: Vec<(I, V)>) -> (r: Options<I, V>)
        ensures
            r@ == indexed(entries@),
    {
        let mut r: Options<I, V> = Options::empty();
        let ghost all = entries@;
        for entry in it: entries
            invariant
                it.seq() == all,
                r@ == indexed(all.take(it.index() as int)),
        {
            proof {
                let i = it.index() as int;
                assert(all.take(i + 1).drop_last() =~= all.take(i));
                assert(all.take(i + 1).last() == all[i]);
            }
            r.push(entry.0, entry.1);
        }
        proof {
            assert(all.take(all.len() as int) =~= all);
        }
        r
    }

    pub fn empty() -> (r: Options<I, V>)
        ensures
            r@ == Map::<u32, V>::empty(),
    {
        Options::<I, V> { map: HashMap::new(), marker: PhantomData }
    }

    pub fn push(&mut self, index: I, value: V)
        ensures
            final(self)@ == old(self)@.insert(index.id(), value),
    {
        self.map.insert(index.index(), value);
    }

    pub fn get<'a>(&'a self, index: I) -> (r: Option<&'a V>)
        ensures
            r == if self@.contains_key(index.id()) {
                Some(&self@[index.id()])
            } else {
                None
            },
    {
        let key = index.index();
        self.map.get(&key)
    }
}

} // verus!

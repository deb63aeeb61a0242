//! A table from text keys to values that keeps its entries in the order in
//! which their keys first came in.

use vstd::prelude::*;

verus! {

/// The keys of a sequence of keyed values, in order.
pub open spec fn keys_of<T>(entries: Seq<(Seq<char>, T)>) -> Seq<Seq<char>> {
    Seq::new(entries.len(), |i: int| entries[i].0)
}

/// The value that stands under `key`, if the key occurs.
pub open spec fn value_at<T>(entries: Seq<(Seq<char>, T)>, key: Seq<char>) -> Option<T> {
    match keys_of(entries).index_of_first(key) {
        Some(i) => Some(entries[i].1),
        None => None,
    }
}

/// `entries` with `value` under `key`: in the place of the value that the key
/// had, or at the end if the key is new.
pub open spec fn with_entry<T>(entries: Seq<(Seq<char>, T)>, key: Seq<char>, value: T) -> Seq<
    (Seq<char>, T),
> {
    match keys_of(entries).index_of_first(key) {
        Some(i) => entries.update(i, (key, value)),
        None => entries.push((key, value)),
    }
}

/// Setting a value leaves distinct keys distinct.
pub proof fn lemma_with_entry_keys<T>(entries: Seq<(Seq<char>, T)>, key: Seq<char>, value: T)
    ensures
        keys_of(with_entry(entries, key, value)) == match keys_of(entries).index_of_first(key) {
            Some(_) => keys_of(entries),
            None => keys_of(entries).push(key),
        },
        keys_of(entries).no_duplicates() ==> keys_of(
            with_entry(entries, key, value),
        ).no_duplicates(),
{
    let keys = keys_of(entries);
    keys.index_of_first_ensures(key);
    let after = keys_of(with_entry(entries, key, value));
    match keys.index_of_first(key) {
        Some(i) => {
            assert(after =~= keys);
        },
        None => {
            assert(after =~= keys.push(key));
            if keys.no_duplicates() {
                assert forall|a: int, b: int|
                    0 <= a < after.len() && 0 <= b < after.len() && a != b implies after[a]
                    != after[b] by {
                    if a < keys.len() {
                        assert(keys.contains(keys[a]));
                    }
                    if b < keys.len() {
                        assert(keys.contains(keys[b]));
                    }
                }
            }
        },
    }
}

/// What `value_at` finds after `with_entry`.
pub proof fn lemma_with_entry_value<T>(
    entries: Seq<(Seq<char>, T)>,
    key: Seq<char>,
    value: T,
    other: Seq<char>,
)
    ensures
        value_at(with_entry(entries, key, value), other) == if other == key {
            Some(value)
        } else {
            value_at(entries, other)
        },
{
    let keys = keys_of(entries);
    let after = with_entry(entries, key, value);
    lemma_with_entry_keys(entries, key, value);
    keys.index_of_first_ensures(key);
    keys.index_of_first_ensures(other);
    keys_of(after).index_of_first_ensures(other);
    match keys.index_of_first(key) {
        Some(i) => {
            if other != key {
                match keys.index_of_first(other) {
                    Some(j) => {
                        let k = keys_of(after).index_of_first(other)->0;
                        assert(k == j) by {
                            if k < j {
                                assert(keys[k] == other);
                            } else if j < k {
                                assert(keys_of(after)[j] == other);
                            }
                        }
                    },
                    None => {},
                }
            } else {
                let k = keys_of(after).index_of_first(other)->0;
                assert(k == i) by {
                    if k < i {
                        assert(keys[k] == key);
                    } else if i < k {
                        assert(keys_of(after)[i] == key);
                    }
                }
            }
        },
        None => {
            let after_keys = keys_of(after);
            assert(after_keys == keys.push(key));
            if other == key {
                assert(after_keys[keys.len() as int] == key);
                assert(after_keys.contains(key));
                let k = after_keys.index_of_first(key)->0;
                if k < keys.len() {
                    assert(keys[k] == key);
                    assert(keys.contains(key));
                }
            } else {
                match keys.index_of_first(other) {
                    Some(j) => {
                        assert(after_keys[j] == other);
                        assert(after_keys.contains(other));
                        let k = after_keys.index_of_first(other)->0;
                        assert(k == j) by {
                            if k < j {
                                assert(keys[k] == other);
                            } else if j < k {
                                assert(after_keys[j] == other);
                            }
                        }
                    },
                    None => {
                        if after_keys.contains(other) {
                            let k = after_keys.index_of_first(other)->0;
                            assert(k < keys.len());
                            assert(keys[k] == other);
                            assert(keys.contains(other));
                        }
                    },
                }
            }
        },
    }
}

/// A table from text keys to values. A key stands in it once: setting a key
/// that is there replaces its value and leaves the entry in its place, a new
/// key goes to the end.
#[derive(Clone, Debug, PartialEq, Eq)]
pub struct Table<V> {
    pub entries: Vec<(String, V)>,
}

impl<V> Table<V> {
    /// The table as a sequence of keys and values, in the order of the
    /// entries.
    pub open spec fn pairs(&self) -> Seq<(Seq<char>, V)> {
        Seq::new(self.entries@.len(), |i: int| (self.entries@[i].0@, self.entries@[i].1))
    }

    /// The keys, in the order of the entries.
    pub open spec fn keys(&self) -> Seq<Seq<char>> {
        keys_of(self.pairs())
    }

    /// The values, in the order of the entries.
    pub open spec fn values(&self) -> Seq<V> {
        Seq::new(self.entries@.len(), |i: int| self.entries@[i].1)
    }

    /// No key stands in the table twice.
    pub open spec fn wf(&self) -> bool {
        self.keys().no_duplicates()
    }

    /// The index of the first entry under `key`.
    pub open spec fn position(&self, key: Seq<char>) -> Option<int> {
        self.keys().index_of_first(key)
    }

    /// The value under `key`.
    pub open spec fn value_of(&self, key: Seq<char>) -> Option<V> {
        value_at(self.pairs(), key)
    }

    /// What `position` says, spelled out.
    pub proof fn lemma_position(&self, key: Seq<char>)
        ensures
            match self.position(key) {
                Some(i) => 0 <= i < self.entries@.len() && self.entries@[i].0@ == key && forall|
                    j: int,
                | 0 <= j < i ==> self.entries@[j].0@ != key,
                None => forall|j: int| 0 <= j < self.entries@.len() ==> self.entries@[j].0@ != key,
            },
    {
        let keys = self.keys();
        keys.index_of_first_ensures(key);
        match self.position(key) {
            Some(i) => {
                assert forall|j: int| 0 <= j < i implies self.entries@[j].0@ != key by {
                    assert(keys[j] != key);
                }
            },
            None => {
                assert forall|j: int| 0 <= j < self.entries@.len() implies self.entries@[j].0@
                    != key by {
                    assert(keys[j] == self.entries@[j].0@);
                    assert(!keys.contains(key));
                }
            },
        }
    }

    /// An index that holds `key` with no earlier one that does is the key's
    /// position.
    pub proof fn lemma_position_is(&self, key: Seq<char>, i: int)
        requires
            0 <= i < self.entries@.len(),
            self.entries@[i].0@ == key,
            forall|j: int| 0 <= j < i ==> self.entries@[j].0@ != key,
        ensures
            self.position(key) == Some(i),
    {
        let keys = self.keys();
        assert(keys[i] == key);
        assert(keys.contains(key));
        keys.index_of_first_ensures(key);
        let k = keys.index_of_first(key)->0;
        if k < i {
            assert(self.entries@[k].0@ == key);
        } else if i < k {
            assert(keys[i] == key);
        }
    }

    /// No entry holds `key`: the key has no position.
    pub proof fn lemma_position_none(&self, key: Seq<char>)
        requires
            forall|j: int| 0 <= j < self.entries@.len() ==> self.entries@[j].0@ != key,
        ensures
            self.position(key) is None,
    {
        let keys = self.keys();
        keys.index_of_first_ensures(key);
        if keys.contains(key) {
            let k = keys.index_of_first(key)->0;
            assert(self.entries@[k].0@ == key);
        }
    }

    /// An empty table.
    pub fn new() -> (r: Self)
        ensures
            r.pairs() == Seq::<(Seq<char>, V)>::empty(),
            r.wf(),
            forall|key: Seq<char>| #[trigger] r.value_of(key) is None,
    {
        let table = Table { entries: Vec::new() };
        proof {
            assert(table.pairs() =~= Seq::<(Seq<char>, V)>::empty());
            assert forall|key: Seq<char>| #[trigger] table.value_of(key) is None by {
                table.lemma_position_none(key);
            }
        }
        table
    }

    /// The number of entries.
    pub fn len(&self) -> (r: usize)
        ensures
            r == self.pairs().len(),
    {
        self.entries.len()
    }

    /// Whether the table has no entry.
    pub fn is_empty(&self) -> (r: bool)
        ensures
            r == (self.pairs().len() == 0),
    {
        self.entries.len() == 0
    }

    /// The index of the entry under `key`.
    pub fn find(&self, key: &str) -> (r: Option<usize>)
        ensures
            match r {
                Some(i) => self.position(key@) == Some(i as int) && i < self.entries@.len(),
                None => self.position(key@) is None,
            },
    {
        let wanted = key.to_owned();
        let mut i: usize = 0;
        while i < self.entries.len()
            invariant
                i <= self.entries@.len(),
                wanted@ == key@,
                forall|j: int| 0 <= j < i ==> self.entries@[j].0@ != key@,
            decreases self.entries@.len() - i,
        {
            if self.entries[i].0 == wanted {
                proof {
                    self.lemma_position_is(key@, i as int);
                }
                return Some(i);
            }
            i += 1;
        }
        proof {
            self.lemma_position_none(key@);
        }
        None
    }

    /// Whether an entry stands under `key`.
    pub fn contains_key(&self, key: &str) -> (r: bool)
        ensures
            r == self.value_of(key@).is_some(),
    {
        self.find(key).is_some()
    }

    /// The value under `key`.
    pub fn get(&self, key: &str) -> (r: Option<&V>)
        ensures
            match r {
                Some(v) => self.value_of(key@) == Some(*v),
                None => self.value_of(key@) is None,
            },
    {
        match self.find(key) {
            Some(i) => Some(&self.entries[i].1),
            None => None,
        }
    }

    /// The value under `key`, to change it in place. The table then holds
    /// under `key` what the value was changed to; its other entries, its
    /// keys and their order stay.
    pub fn get_mut(&mut self, key: &str) -> (r: Option<&mut V>)
        ensures
            match r {
                Some(v) => {
                    &&& old(self).value_of(key@) == Some(*v)
                    &&& final(self).pairs() =~= with_entry(old(self).pairs(), key@, *final(v))
                    &&& final(self).keys() =~= old(self).keys()
                },
                None => old(self).value_of(key@) is None && final(self).pairs() =~= old(
                    self,
                ).pairs(),
            },
    {
        match self.find(key) {
            Some(i) => {
                proof {
                    self.lemma_position(key@);
                }
                Some(&mut self.entries[i].1)
            },
            None => None,
        }
    }

    /// Puts `value` under `key` and returns the value that stood there.
    pub fn insert(&mut self, key: String, value: V) -> (r: Option<V>)
        ensures
            r == old(self).value_of(key@),
            final(self).pairs() == with_entry(old(self).pairs(), key@, value),
            final(self).value_of(key@) == Some(value),
            forall|other: Seq<char>|
                other != key@ ==> #[trigger] final(self).value_of(other) == old(self).value_of(
                    other,
                ),
            old(self).wf() ==> final(self).wf(),
    {
        let found = self.find(key.as_str());
        proof {
            self.lemma_position(key@);
            lemma_with_entry_keys(old(self).pairs(), key@, value);
            lemma_with_entry_value(old(self).pairs(), key@, value, key@);
            assert forall|other: Seq<char>| other != key@ implies #[trigger] value_at(
                with_entry(old(self).pairs(), key@, value),
                other,
            ) == old(self).value_of(other) by {
                lemma_with_entry_value(old(self).pairs(), key@, value, other);
            }
        }
        match found {
            Some(i) => {
                let mut held = value;
                core::mem::swap(&mut self.entries[i].1, &mut held);
                proof {
                    assert(self.pairs() =~= with_entry(old(self).pairs(), key@, value));
                }
                Some(held)
            },
            None => {
                self.entries.push((key, value));
                proof {
                    assert(self.pairs() =~= with_entry(old(self).pairs(), key@, value));
                }
                None
            },
        }
    }
}

impl<V: DeepView> Table<V> {
    /// The table as a mathematical value: its keys, each with the deep view
    /// of its value, in the order of the entries.
    pub open spec fn model(&self) -> Seq<(Seq<char>, V::V)> {
        Seq::new(
            self.entries@.len(),
            |i: int| (self.entries@[i].0@, self.entries@[i].1.deep_view()),
        )
    }

    /// The model has the table's keys, and under each the deep view of the
    /// table's value.
    pub proof fn lemma_model(&self, key: Seq<char>)
        ensures
            keys_of(self.model()) == self.keys(),
            value_at(self.model(), key) == match self.value_of(key) {
                Some(v) => Some(v.deep_view()),
                None => None,
            },
    {
        assert(keys_of(self.model()) =~= self.keys());
        self.keys().index_of_first_ensures(key);
    }

    /// Setting a value in the table sets its deep view in the model.
    pub proof fn lemma_model_insert(before: Self, after: Self, key: Seq<char>, value: V)
        requires
            after.pairs() == with_entry(before.pairs(), key, value),
        ensures
            after.model() == with_entry(before.model(), key, value.deep_view()),
    {
        before.lemma_model(key);
        before.keys().index_of_first_ensures(key);
        let target = with_entry(before.model(), key, value.deep_view());
        assert(after.pairs().len() == after.model().len());
        assert(before.pairs().len() == before.model().len());
        assert(keys_of(before.model()).index_of_first(key) == before.keys().index_of_first(key));
        assert(after.model().len() == target.len());
        assert forall|i: int| 0 <= i < target.len() implies after.model()[i] == target[i] by {
            assert(after.pairs()[i] == with_entry(before.pairs(), key, value)[i]);
            if i < before.pairs().len() {
                assert(before.pairs()[i].1 == before.entries@[i].1);
            }
        }
        assert(after.model() =~= target);
    }
}

} // verus!

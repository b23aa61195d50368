//! An insertion-ordered table from identifier indices to values.

use crate::ordered::{
    index_set_insert, index_set_key_at, index_set_keys, index_set_new, index_set_position,
    index_set_remove, index_set_with_capacity,
};
use indexmap::IndexSet;
use vstd::prelude::*;

verus! {

/// What a table holds: its keys in table order, and the value of each key at
/// the same position.
pub struct TableView<V> {
    /// The keys, in table order.
    pub keys: Seq<usize>,
    /// The values, each at the position of its key.
    pub values: Seq<V>,
}

impl<V> TableView<V> {
    /// Every key has one value and no key stands twice.
    pub open spec fn wf(self) -> bool {
        &&& self.keys.len() == self.values.len()
        &&& self.keys.no_duplicates()
    }

    /// The table without entries.
    pub open spec fn empty() -> Self {
        TableView { keys: Seq::empty(), values: Seq::empty() }
    }

    /// The number of entries.
    pub open spec fn len(self) -> nat {
        self.keys.len()
    }

    /// Whether there is an entry under `key`.
    pub open spec fn has(self, key: usize) -> bool {
        self.keys.contains(key)
    }

    /// The position of `key`, meaningful where the table has it.
    pub open spec fn position(self, key: usize) -> int {
        self.keys.index_of(key)
    }

    /// The value under `key`, if any.
    pub open spec fn get(self, key: usize) -> Option<V> {
        if self.has(key) {
            Some(self.values[self.position(key)])
        } else {
            None
        }
    }

    /// The table with another value at a position.
    pub open spec fn with_value_at(self, position: int, value: V) -> Self {
        TableView { keys: self.keys, values: self.values.update(position, value) }
    }

    /// The table after `value` was put under `key`: in place where the key was
    /// there, at the end where it was not.
    pub open spec fn inserted(self, key: usize, value: V) -> Self {
        if self.has(key) {
            self.with_value_at(self.position(key), value)
        } else {
            TableView { keys: self.keys.push(key), values: self.values.push(value) }
        }
    }

    /// The table after the entry under `key` was taken out: the entries behind
    /// it move up, their order stays.
    pub open spec fn removed(self, key: usize) -> Self {
        if self.has(key) {
            TableView {
                keys: self.keys.remove(self.position(key)),
                values: self.values.remove(self.position(key)),
            }
        } else {
            self
        }
    }

    /// The table with one more entry at the end.
    pub open spec fn pushed(self, key: usize, value: V) -> Self {
        TableView { keys: self.keys.push(key), values: self.values.push(value) }
    }

    /// The entries from a position on.
    pub open spec fn skip(self, position: int) -> Self {
        TableView { keys: self.keys.skip(position), values: self.values.skip(position) }
    }

    /// The entries of this table followed by those of another.
    pub open spec fn followed_by(self, other: Self) -> Self {
        TableView { keys: self.keys + other.keys, values: self.values + other.values }
    }

    /// Those of the first `count` entries whose value meets `keep`, in order.
    pub open spec fn kept(self, keep: spec_fn(V) -> bool, count: nat) -> Self
        decreases count,
    {
        if count == 0 {
            TableView::empty()
        } else if keep(self.values[count - 1]) {
            self.kept(keep, (count - 1) as nat).pushed(self.keys[count - 1], self.values[count - 1])
        } else {
            self.kept(keep, (count - 1) as nat)
        }
    }

    /// No more entries are kept than were looked at, and as many keys as
    /// values.
    pub proof fn lemma_kept(self, keep: spec_fn(V) -> bool, count: nat)
        ensures
            self.kept(keep, count).keys.len() <= count,
            self.kept(keep, count).keys.len() == self.kept(keep, count).values.len(),
        decreases count,
    {
        if count > 0 {
            self.lemma_kept(keep, (count - 1) as nat);
        }
    }

    /// The table with `f` applied to every value.
    pub open spec fn map<W>(self, f: spec_fn(V) -> W) -> TableView<W> {
        TableView { keys: self.keys, values: self.values.map_values(f) }
    }

    /// Looking a key up in the table with `f` applied to every value gives
    /// `f` of what the table itself has under the key.
    pub proof fn lemma_map_get<W>(self, f: spec_fn(V) -> W, key: usize)
        requires
            self.wf(),
        ensures
            self.map(f).wf(),
            self.map(f).has(key) == self.has(key),
            self.map(f).position(key) == self.position(key),
            self.map(f).get(key) == match self.get(key) {
                Some(found) => Some(f(found)),
                None => None,
            },
    {
    }

    /// Putting a value in and then applying `f` to every value is the same
    /// as applying `f` to every value and then putting `f` of the value in.
    pub proof fn lemma_map_inserted<W>(self, f: spec_fn(V) -> W, key: usize, value: V)
        requires
            self.wf(),
        ensures
            self.inserted(key, value).map(f) == self.map(f).inserted(key, f(value)),
    {
        assert(self.inserted(key, value).map(f).values =~= self.map(f).inserted(key, f(value)).values);
    }

    /// Taking a key out goes along with applying `f` to every value.
    pub proof fn lemma_map_removed<W>(self, f: spec_fn(V) -> W, key: usize)
        requires
            self.wf(),
        ensures
            self.removed(key).map(f) == self.map(f).removed(key),
    {
        assert(self.removed(key).map(f).values =~= self.map(f).removed(key).values);
    }

    /// Changing a value in place goes along with applying `f` to every
    /// value.
    pub proof fn lemma_map_value_at<W>(self, f: spec_fn(V) -> W, position: int, value: V)
        requires
            0 <= position < self.values.len(),
        ensures
            self.with_value_at(position, value).map(f) == self.map(f).with_value_at(position, f(value)),
    {
        assert(self.with_value_at(position, value).map(f).values =~= self.map(f).with_value_at(
            position,
            f(value),
        ).values);
    }

    /// A key stands at its position and nowhere else.
    pub proof fn lemma_position(self, key: usize, i: int)
        requires
            self.wf(),
            0 <= i < self.keys.len(),
            self.keys[i] == key,
        ensures
            self.has(key),
            self.position(key) == i,
            self.get(key) == Some(self.values[i]),
    {
        let j = self.keys.index_of(key);
        assert(self.keys[j] == key && 0 <= j < self.keys.len());
    }

    /// The position of a key that the table has is a position of the table.
    pub proof fn lemma_has(self, key: usize)
        requires
            self.has(key),
        ensures
            0 <= self.position(key) < self.keys.len(),
            self.keys[self.position(key)] == key,
    {
    }

    /// Putting a value under a key keeps the table in order, gives that value
    /// under that key, and leaves every other key as it was.
    pub proof fn lemma_inserted(self, key: usize, value: V)
        requires
            self.wf(),
        ensures
            self.inserted(key, value).wf(),
            self.inserted(key, value).get(key) == Some(value),
            forall|other: usize|
                other != key ==> #[trigger] self.inserted(key, value).get(other) == self.get(other),
            forall|other: usize|
                #[trigger] self.inserted(key, value).has(other) == (other == key || self.has(other)),
    {
        let after = self.inserted(key, value);
        if self.has(key) {
            let p = self.position(key);
            assert(after.keys =~= self.keys);
            assert forall|other: usize| other != key implies #[trigger] after.get(other)
                == self.get(other) by {
                if self.has(other) {
                    assert(self.position(other) != p);
                }
            }
        } else {
            assert forall|i: int, j: int|
                0 <= i < after.keys.len() && 0 <= j < after.keys.len() && i != j implies after.keys[i]
                != after.keys[j] by {
                if i < self.keys.len() && j < self.keys.len() {
                } else if i < self.keys.len() {
                    assert(self.keys.contains(self.keys[i]));
                } else {
                    assert(self.keys.contains(self.keys[j]));
                }
            }
            after.lemma_position(key, self.keys.len() as int);
            assert forall|other: usize| #[trigger]
                after.has(other) == (other == key || self.has(other)) by {
                if after.has(other) {
                    let i = after.keys.index_of(other);
                    if i < self.keys.len() {
                        assert(self.keys[i] == other);
                    }
                }
                if self.has(other) {
                    let i = self.keys.index_of(other);
                    assert(after.keys[i] == other);
                }
                if other == key {
                    assert(after.keys[self.keys.len() as int] == key);
                }
            }
            assert forall|other: usize| other != key implies #[trigger] after.get(other)
                == self.get(other) by {
                if self.has(other) {
                    let i = self.position(other);
                    after.lemma_position(other, i);
                }
            }
        }
    }

    /// Taking a key out keeps the table in order, leaves nothing under that
    /// key, and leaves every other key as it was.
    pub proof fn lemma_removed(self, key: usize)
        requires
            self.wf(),
        ensures
            self.removed(key).wf(),
            !self.removed(key).has(key),
            forall|other: usize|
                other != key ==> #[trigger] self.removed(key).get(other) == self.get(other),
            forall|other: usize|
                #[trigger] self.removed(key).has(other) == (other != key && self.has(other)),
    {
        let after = self.removed(key);
        if self.has(key) {
            let p = self.position(key);
            assert forall|a: int| 0 <= a < after.keys.len() implies #[trigger] after.keys[a]
                == self.keys[if a < p { a } else { a + 1 }] && after.values[a]
                == self.values[if a < p { a } else { a + 1 }] by {}
            assert forall|a: int, b: int|
                0 <= a < after.keys.len() && 0 <= b < after.keys.len() && a != b implies after.keys[a]
                != after.keys[b] by {
                let a0 = if a < p { a } else { a + 1 };
                let b0 = if b < p { b } else { b + 1 };
                assert(after.keys[a] == self.keys[a0]);
                assert(after.keys[b] == self.keys[b0]);
            }
            assert forall|other: usize| #[trigger]
                after.has(other) == (other != key && self.has(other)) by {
                if after.has(other) {
                    let a = after.keys.index_of(other);
                    let a0 = if a < p { a } else { a + 1 };
                    assert(after.keys[a] == self.keys[a0]);
                    assert(self.keys[a0] == other);
                    assert(a0 != p);
                }
                if other != key && self.has(other) {
                    let i = self.keys.index_of(other);
                    let a = if i < p { i } else { i - 1 };
                    assert(after.keys[a] == other);
                }
            }
            assert forall|other: usize| other != key implies #[trigger] after.get(other)
                == self.get(other) by {
                if self.has(other) {
                    let i = self.position(other);
                    let a = if i < p { i } else { i - 1 };
                    assert(after.keys[a] == other);
                    after.lemma_position(other, a);
                }
            }
        }
    }
}

/// A table that keeps its entries in the order in which their keys first
/// arrived. The keys live in an index set, which finds a key's position; the
/// values stand at the same positions in a vector.
pub struct IdTable<V> {
    keys: IndexSet<usize>,
    values: Vec<V>,
}

impl<V> View for IdTable<V> {
    type V = TableView<V>;

    closed spec fn view(&self) -> TableView<V> {
        TableView { keys: index_set_keys(self.keys), values: self.values@ }
    }
}

/// Puts a key and its value into the two halves of a table.
fn insert_entry<V>(keys: &mut IndexSet<usize>, values: &mut Vec<V>, key: usize, value: V) -> (replaced:
    Option<V>)
    requires
        (TableView { keys: index_set_keys(*old(keys)), values: old(values)@ }).wf(),
    ensures
        (TableView { keys: index_set_keys(*final(keys)), values: final(values)@ }) == (TableView {
            keys: index_set_keys(*old(keys)),
            values: old(values)@,
        }).inserted(key, value),
        (TableView { keys: index_set_keys(*final(keys)), values: final(values)@ }).wf(),
        replaced == (TableView { keys: index_set_keys(*old(keys)), values: old(values)@ }).get(key),
{
    let ghost before = TableView { keys: index_set_keys(*keys), values: values@ };
    proof {
        before.lemma_inserted(key, value);
    }
    let placed = index_set_insert(keys, key);
    if placed.1 {
        values.push(value);
        None
    } else {
        proof {
            before.lemma_position(key, placed.0 as int);
        }
        values.push(value);
        let replaced = values.swap_remove(placed.0);
        assert(values@ =~= before.values.update(placed.0 as int, value));
        Some(replaced)
    }
}

/// Takes a key and its value out of the two halves of a table.
fn remove_entry<V>(keys: &mut IndexSet<usize>, values: &mut Vec<V>, key: usize) -> (removed: Option<V>)
    requires
        (TableView { keys: index_set_keys(*old(keys)), values: old(values)@ }).wf(),
    ensures
        (TableView { keys: index_set_keys(*final(keys)), values: final(values)@ }) == (TableView {
            keys: index_set_keys(*old(keys)),
            values: old(values)@,
        }).removed(key),
        (TableView { keys: index_set_keys(*final(keys)), values: final(values)@ }).wf(),
        removed == (TableView { keys: index_set_keys(*old(keys)), values: old(values)@ }).get(key),
{
    let ghost before = TableView { keys: index_set_keys(*keys), values: values@ };
    proof {
        before.lemma_removed(key);
    }
    match index_set_remove(keys, key) {
        Some(i) => {
            proof {
                before.lemma_position(key, i as int);
            }
            let removed = values.remove(i);
            Some(removed)
        },
        None => None,
    }
}

impl<V> IdTable<V> {
    /// Every key has one value and no key stands twice.
    #[verifier::type_invariant]
    pub open spec fn wf(&self) -> bool {
        self@.wf()
    }

    /// An empty table.
    pub fn new() -> (table: Self)
        ensures
            table@ == TableView::<V>::empty(),
    {
        IdTable { keys: index_set_new(), values: Vec::new() }
    }

    /// An empty table with room set aside for `capacity` entries.
    pub fn with_capacity(capacity: usize) -> (table: Self)
        ensures
            table@ == TableView::<V>::empty(),
    {
        IdTable { keys: index_set_with_capacity(capacity), values: Vec::with_capacity(capacity) }
    }

    /// The number of entries.
    pub fn len(&self) -> (len: usize)
        ensures
            self@.wf(),
            len == self@.len(),
            len == self@.values.len(),
    {
        proof {
            use_type_invariant(self);
        }
        self.values.len()
    }

    /// The position of `key`, if the table has it.
    pub fn index_of(&self, key: usize) -> (found: Option<usize>)
        ensures
            found.is_some() == self@.has(key),
            found matches Some(i) ==> i == self@.position(key) && i < self@.len(),
    {
        proof {
            use_type_invariant(self);
        }
        let found = index_set_position(&self.keys, key);
        proof {
            if let Some(i) = found {
                self@.lemma_position(key, i as int);
            }
        }
        found
    }

    /// The key at a position.
    pub fn key_at(&self, position: usize) -> (key: usize)
        requires
            position < self@.len(),
        ensures
            key == self@.keys[position as int],
    {
        match index_set_key_at(&self.keys, position) {
            Some(key) => key,
            None => 0,
        }
    }

    /// The value at a position.
    pub fn value_at(&self, position: usize) -> (value: &V)
        requires
            position < self@.len(),
        ensures
            *value == self@.values[position as int],
    {
        proof {
            use_type_invariant(self);
        }
        &self.values[position]
    }

    /// The value at a position, to be changed in place.
    pub fn value_at_mut(&mut self, position: usize) -> (value: &mut V)
        requires
            position < old(self)@.len(),
        ensures
            *value == old(self)@.values[position as int],
            final(self)@ == old(self)@.with_value_at(position as int, *final(value)),
    {
        proof {
            use_type_invariant(&*self);
        }
        &mut self.values[position]
    }

    /// The value under `key`, if the table has it.
    pub fn get(&self, key: usize) -> (value: Option<&V>)
        ensures
            match value {
                Some(v) => self@.get(key) == Some(*v),
                None => self@.get(key).is_none(),
            },
    {
        proof {
            use_type_invariant(self);
        }
        match self.index_of(key) {
            Some(i) => Some(&self.values[i]),
            None => None,
        }
    }

    /// Puts `value` under `key`. A key that the table already has keeps its
    /// position and the value that stood there comes back; a new key goes to
    /// the end.
    pub fn insert(&mut self, key: usize, value: V) -> (replaced: Option<V>)
        ensures
            final(self)@ == old(self)@.inserted(key, value),
            replaced == old(self)@.get(key),
    {
        let mut taken = IdTable::new();
        core::mem::swap(self, &mut taken);
        proof {
            use_type_invariant(&taken);
        }
        let IdTable { mut keys, mut values } = taken;
        let replaced = insert_entry(&mut keys, &mut values, key, value);
        *self = IdTable { keys, values };
        replaced
    }

    /// Takes the entry under `key` out, if there is one. The entries behind it
    /// move up by one position; their order stays.
    pub fn remove(&mut self, key: usize) -> (removed: Option<V>)
        ensures
            final(self)@ == old(self)@.removed(key),
            removed == old(self)@.get(key),
    {
        let mut taken = IdTable::new();
        core::mem::swap(self, &mut taken);
        proof {
            use_type_invariant(&taken);
        }
        let IdTable { mut keys, mut values } = taken;
        let removed = remove_entry(&mut keys, &mut values, key);
        *self = IdTable { keys, values };
        removed
    }
}

} // verus!

//! Insertion-ordered sets of identifier indices, kept by the `indexmap` crate.
//!
//! The set type is opaque to the verifier. What a set holds is named by
//! [`index_set_keys`], and each function below states what the corresponding
//! `IndexSet` method does to that sequence. These statements are taken from the
//! crate's documentation and are not proved here.

use indexmap::IndexSet;
use vstd::prelude::*;

verus! {

/// `indexmap::IndexSet`, taken as it is: nothing inside it is visible here.
#[verifier::external_type_specification]
#[verifier::external_body]
#[verifier::reject_recursive_types(T)]
#[verifier::reject_recursive_types(S)]
pub struct ExIndexSet<T, S>(IndexSet<T, S>);

/// The keys that an index set holds, in the order in which it walks them.
pub uninterp spec fn index_set_keys(set: IndexSet<usize>) -> Seq<usize>;

/// `IndexSet::new`: a set that holds nothing.
#[verifier::external_body]
pub(crate) fn index_set_new() -> (set: IndexSet<usize>)
    ensures
        index_set_keys(set) == Seq::<usize>::empty(),
{
    IndexSet::new()
}

/// `IndexSet::with_capacity`: a set that holds nothing, with room set aside
/// for `capacity` keys.
#[verifier::external_body]
pub(crate) fn index_set_with_capacity(capacity: usize) -> (set: IndexSet<usize>)
    ensures
        index_set_keys(set) == Seq::<usize>::empty(),
{
    IndexSet::with_capacity(capacity)
}

/// `IndexSet::len`: the number of keys held.
#[verifier::external_body]
pub(crate) fn index_set_len(set: &IndexSet<usize>) -> (len: usize)
    ensures
        len == index_set_keys(*set).len(),
{
    set.len()
}

/// `IndexSet::get_index_of`: a position at which the key stands, or `None`
/// where the set does not hold it.
#[verifier::external_body]
pub(crate) fn index_set_position(set: &IndexSet<usize>, key: usize) -> (position: Option<usize>)
    ensures
        match position {
            Some(i) => i < index_set_keys(*set).len() && index_set_keys(*set)[i as int] == key,
            None => !index_set_keys(*set).contains(key),
        },
{
    set.get_index_of(&key)
}

/// `IndexSet::get_index`: the key at a position, or `None` past the end.
#[verifier::external_body]
pub(crate) fn index_set_key_at(set: &IndexSet<usize>, position: usize) -> (key: Option<usize>)
    ensures
        key == if position < index_set_keys(*set).len() {
            Some(index_set_keys(*set)[position as int])
        } else {
            None
        },
{
    set.get_index(position).copied()
}

/// `IndexSet::insert_full`: a key that is already held stays where it is, and a
/// position of it comes back with `false`; a new key goes to the end, and
/// that position comes back with `true`.
#[verifier::external_body]
pub(crate) fn index_set_insert(set: &mut IndexSet<usize>, key: usize) -> (placed: (usize, bool))
    ensures
        index_set_keys(*old(set)).contains(key) ==> {
            &&& index_set_keys(*final(set)) == index_set_keys(*old(set))
            &&& !placed.1
            &&& placed.0 < index_set_keys(*old(set)).len()
            &&& index_set_keys(*old(set))[placed.0 as int] == key
        },
        !index_set_keys(*old(set)).contains(key) ==> {
            &&& index_set_keys(*final(set)) == index_set_keys(*old(set)).push(key)
            &&& placed.1
            &&& placed.0 == index_set_keys(*old(set)).len()
        },
{
    set.insert_full(key)
}

/// `IndexSet::shift_remove_full`: a key that is held leaves from the position
/// that comes back, and the keys behind it move up by one; a key that is not
/// held changes nothing and gives `None`.
#[verifier::external_body]
pub(crate) fn index_set_remove(set: &mut IndexSet<usize>, key: usize) -> (position: Option<usize>)
    ensures
        match position {
            Some(i) => {
                &&& i < index_set_keys(*old(set)).len()
                &&& index_set_keys(*old(set))[i as int] == key
                &&& index_set_keys(*final(set)) == index_set_keys(*old(set)).remove(i as int)
            },
            None => {
                &&& !index_set_keys(*old(set)).contains(key)
                &&& index_set_keys(*final(set)) == index_set_keys(*old(set))
            },
        },
{
    set.shift_remove_full(&key).map(|found| found.0)
}

/// What a label key stands for: `Ok` of an index, or `Err` of a name's
/// characters.
pub open spec fn label_key_view(key: Result<usize, String>) -> Result<usize, Seq<char>> {
    match key {
        Ok(index) => Ok(index),
        Err(name) => Err(name@),
    }
}

/// The keys that a set of label keys holds, in the order in which it walks
/// them.
pub uninterp spec fn label_set_keys(set: IndexSet<Result<usize, String>>) -> Seq<
    Result<usize, Seq<char>>,
>;

/// `IndexSet::new`: a set that holds nothing.
#[verifier::external_body]
pub(crate) fn label_set_new() -> (set: IndexSet<Result<usize, String>>)
    ensures
        label_set_keys(set).len() == 0,
{
    IndexSet::new()
}

/// `IndexSet::len`: the number of keys held.
#[verifier::external_body]
pub(crate) fn label_set_len(set: &IndexSet<Result<usize, String>>) -> (len: usize)
    ensures
        len == label_set_keys(*set).len(),
{
    set.len()
}

/// `IndexSet::get_index_of`: a position at which the key stands, or `None`
/// where the set does not hold it.
#[verifier::external_body]
pub(crate) fn label_set_position(
    set: &IndexSet<Result<usize, String>>,
    key: &Result<usize, String>,
) -> (position: Option<usize>)
    ensures
        match position {
            Some(i) => i < label_set_keys(*set).len() && label_set_keys(*set)[i as int]
                == label_key_view(*key),
            None => !label_set_keys(*set).contains(label_key_view(*key)),
        },
{
    set.get_index_of(key)
}

/// `IndexSet::get_index`: a copy of the key at a position, or `None` past the
/// end.
#[verifier::external_body]
pub(crate) fn label_set_key_at(
    set: &IndexSet<Result<usize, String>>,
    position: usize,
) -> (key: Option<Result<usize, String>>)
    ensures
        match key {
            Some(k) => position < label_set_keys(*set).len() && label_key_view(k)
                == label_set_keys(*set)[position as int],
            None => position >= label_set_keys(*set).len(),
        },
{
    set.get_index(position).cloned()
}

/// `IndexSet::insert`: a key that is already held changes nothing and gives
/// `false`; a new key goes to the end and gives `true`.
#[verifier::external_body]
pub(crate) fn label_set_insert(
    set: &mut IndexSet<Result<usize, String>>,
    key: Result<usize, String>,
) -> (added: bool)
    ensures
        added == !label_set_keys(*old(set)).contains(label_key_view(key)),
        label_set_keys(*final(set)) == if added {
            label_set_keys(*old(set)).push(label_key_view(key))
        } else {
            label_set_keys(*old(set))
        },
{
    set.insert(key)
}

/// `IndexSet::shift_remove_full`: a key that is held leaves from the position
/// that comes back, and the keys behind it move up by one; a key that is not
/// held changes nothing and gives `None`.
#[verifier::external_body]
pub(crate) fn label_set_remove(
    set: &mut IndexSet<Result<usize, String>>,
    key: &Result<usize, String>,
) -> (position: Option<usize>)
    ensures
        match position {
            Some(i) => {
                &&& i < label_set_keys(*old(set)).len()
                &&& label_set_keys(*old(set))[i as int] == label_key_view(*key)
                &&& label_set_keys(*final(set)) == label_set_keys(*old(set)).remove(i as int)
            },
            None => {
                &&& !label_set_keys(*old(set)).contains(label_key_view(*key))
                &&& label_set_keys(*final(set)) == label_set_keys(*old(set))
            },
        },
{
    set.shift_remove_full(key).map(|found| found.0)
}

} // verus!

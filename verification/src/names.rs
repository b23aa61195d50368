//! Two-way maps between names and identifier indices, kept by the `bimap`
//! crate.
//!
//! The map type is opaque to the verifier. What a map holds is named by
//! [`bimap_pairs`], and each private function below states what the
//! corresponding `BiHashMap` method does to those pairs. These statements are
//! taken from the crate's source and are not proved here.

use bimap::BiHashMap;
use vstd::prelude::*;

verus! {

/// `bimap::BiHashMap`, taken as it is: nothing inside it is visible here.
#[verifier::external_type_specification]
#[verifier::external_body]
#[verifier::reject_recursive_types(L)]
#[verifier::reject_recursive_types(R)]
#[verifier::reject_recursive_types(LS)]
#[verifier::reject_recursive_types(RS)]
pub struct ExBiHashMap<L, R, LS, RS>(BiHashMap<L, R, LS, RS>);

/// The pairs that a two-way map holds, as a map from left to right values.
pub uninterp spec fn bimap_pairs(map: BiHashMap<String, usize>) -> Map<Seq<char>, usize>;

/// The pairs of `pairs` whose right value is not `right`.
pub open spec fn without_right(pairs: Map<Seq<char>, usize>, right: usize) -> Map<
    Seq<char>,
    usize,
> {
    Map::new(|name: Seq<char>| pairs.dom().contains(name) && pairs[name] != right, |name: Seq<char>| pairs[name])
}

/// The pairs after `index` took the name `name`, or lost the name it had.
pub open spec fn renamed(pairs: Map<Seq<char>, usize>, index: usize, name: Option<Seq<char>>) -> Map<
    Seq<char>,
    usize,
> {
    match name {
        Some(name) => without_right(pairs.remove(name), index).insert(name, index),
        None => without_right(pairs, index),
    }
}

/// No two names stand for one index.
pub open spec fn one_to_one(pairs: Map<Seq<char>, usize>) -> bool {
    forall|a: Seq<char>, b: Seq<char>|
        pairs.dom().contains(a) && pairs.dom().contains(b) && #[trigger] pairs[a] == #[trigger] pairs[b]
            ==> a == b
}

/// `BiHashMap::new`: a map that holds no pair.
#[verifier::external_body]
fn bimap_new() -> (fresh: BiHashMap<String, usize>)
    ensures
        (bimap_pairs(fresh) == Map::<Seq<char>, usize>::empty()),
{
    BiHashMap::new()
}

/// `BiHashMap::with_capacity`: a map that holds no pair, with room set aside
/// for `capacity` pairs.
#[verifier::external_body]
fn bimap_with_capacity(capacity: usize) -> (fresh: BiHashMap<String, usize>)
    ensures
        (bimap_pairs(fresh) == Map::<Seq<char>, usize>::empty()),
{
    BiHashMap::with_capacity(capacity)
}

/// `BiHashMap::get_by_left`: the right value paired with `left`, if any.
#[verifier::external_body]
fn bimap_get_by_left(map: &BiHashMap<String, usize>, left: &String) -> (right: Option<usize>)
    ensures
        right == if bimap_pairs(*map).dom().contains(left@) {
            Some(bimap_pairs(*map)[left@])
        } else {
            None
        },
{
    map.get_by_left(left).copied()
}

/// `BiHashMap::insert`: the pair that held `left` and the pair that held
/// `right` leave, then the pair of `left` and `right` enters.
#[verifier::external_body]
fn bimap_insert(map: &mut BiHashMap<String, usize>, left: String, right: usize)
    ensures
        bimap_pairs(*final(map)) == without_right(bimap_pairs(*old(map)).remove(left@), right).insert(
            left@,
            right,
        ),
{
    map.insert(left, right);
}

/// `BiHashMap::remove_by_right`: the pair that held `right` leaves, if there
/// was one.
#[verifier::external_body]
fn bimap_remove_by_right(map: &mut BiHashMap<String, usize>, right: usize)
    ensures
        bimap_pairs(*final(map)) == without_right(bimap_pairs(*old(map)), right),
{
    map.remove_by_right(&right);
}

/// Names for identifier indices. One name stands for at most one index, and
/// one index has at most one name.
pub struct NameMap {
    pairs: BiHashMap<String, usize>,
}

impl View for NameMap {
    type V = Map<Seq<char>, usize>;

    closed spec fn view(&self) -> Map<Seq<char>, usize> {
        bimap_pairs(self.pairs)
    }
}

impl NameMap {
    /// No two names stand for one index.
    #[verifier::type_invariant]
    pub open spec fn wf(&self) -> bool {
        one_to_one(self@)
    }

    /// A map without names.
    pub fn new() -> (names: Self)
        ensures
            (names@ == Map::<Seq<char>, usize>::empty()),
    {
        NameMap { pairs: bimap_new() }
    }

    /// A map without names, with room set aside for `capacity` of them.
    pub fn with_capacity(capacity: usize) -> (names: Self)
        ensures
            (names@ == Map::<Seq<char>, usize>::empty()),
    {
        NameMap { pairs: bimap_with_capacity(capacity) }
    }

    /// The index that `name` stands for.
    pub fn get(&self, name: &String) -> (index: Option<usize>)
        ensures
            one_to_one(self@),
            index == if self@.dom().contains(name@) {
                Some(self@[name@])
            } else {
                None
            },
    {
        proof {
            use_type_invariant(self);
        }
        bimap_get_by_left(&self.pairs, name)
    }

    /// Makes `name` stand for `index`. The name is taken from the index it
    /// stood for before, and the index loses the name it had before.
    pub fn insert(&mut self, name: String, index: usize)
        ensures
            one_to_one(final(self)@),
            final(self)@ == without_right(old(self)@.remove(name@), index).insert(name@, index),
    {
        let mut taken = NameMap::new();
        core::mem::swap(self, &mut taken);
        proof {
            use_type_invariant(&taken);
        }
        let NameMap { mut pairs } = taken;
        bimap_insert(&mut pairs, name, index);
        *self = NameMap { pairs };
    }

    /// Forgets the name of `index`, if it has one.
    pub fn remove_index(&mut self, index: usize)
        ensures
            one_to_one(final(self)@),
            final(self)@ == without_right(old(self)@, index),
    {
        let mut taken = NameMap::new();
        core::mem::swap(self, &mut taken);
        proof {
            use_type_invariant(&taken);
        }
        let NameMap { mut pairs } = taken;
        bimap_remove_by_right(&mut pairs, index);
        *self = NameMap { pairs };
    }
}

} // verus!

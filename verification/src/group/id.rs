//! Group identifiers and the labels by which callers refer to groups.

use crate::error::{AudioError, AudioResult};
use crate::group::sealed::Sealed;
use crate::ident::IdAllocator;
use crate::names::NameMap;
use vstd::prelude::*;

verus! {

/// The index that a reference stands for under `names`, if any: an index
/// stands for itself, a name for the index that it is paired with.
pub open spec fn resolved_index(label: Result<usize, Seq<char>>, names: Map<Seq<char>, usize>) -> Option<usize> {
    match label {
        Ok(index) => Some(index),
        Err(name) => if names.dom().contains(name) {
            Some(names[name])
        } else {
            None
        },
    }
}

/// A reference to a group that can be resolved to an identifier.
pub trait GroupIdTrait: Sealed + Sized {
    /// What the reference holds: `Ok` of an index, or `Err` of a name's
    /// characters.
    spec fn label(self) -> Result<usize, Seq<char>>;

    /// Resolves the reference: an identifier stands for itself, a name for
    /// the identifier that `group_names` pairs it with. A name that is not
    /// paired comes back in `NoGroupWithName`.
    fn to_group_id(self, group_names: &NameMap) -> (resolved: AudioResult<GroupId>)
        ensures
            match resolved {
                Ok(id) => resolved_index(self.label(), group_names@) == Some(id@),
                Err(AudioError::NoGroupWithName(name)) => {
                    &&& self.label() == Err::<usize, Seq<char>>(name@)
                    &&& resolved_index(self.label(), group_names@).is_none()
                },
                Err(_) => false,
            },
    ;
}

/// A unique identifier for a group.
#[derive(Debug, Copy, Clone, Eq, PartialEq, Hash, Structural)]
pub struct GroupId {
    index: usize,
}

impl View for GroupId {
    type V = usize;

    closed spec fn view(&self) -> usize {
        self.index
    }
}

impl GroupId {
    /// A fresh identifier, or `None` once the allocator has none left.
    pub fn new(allocator: &mut IdAllocator) -> (id: Option<Self>)
        ensures
            match id {
                Some(id) => id@ == old(allocator).issued() && final(allocator).issued() == old(
                    allocator,
                ).issued() + 1,
                None => old(allocator).issued() == usize::MAX && final(allocator).issued() == old(
                    allocator,
                ).issued(),
            },
    {
        match allocator.next() {
            Some(index) => Some(GroupId { index }),
            None => None,
        }
    }

    /// The identifier that stands at `index` in the registry's tables.
    pub(crate) fn from_index(index: usize) -> (id: Self)
        ensures
            id@ == index,
    {
        GroupId { index }
    }

    /// The index by which the registry's tables know this group.
    pub fn index(&self) -> (index: usize)
        ensures
            index == self@,
    {
        self.index
    }

}

impl Sealed for GroupId {

}

impl GroupIdTrait for GroupId {
    open spec fn label(self) -> Result<usize, Seq<char>> {
        Ok(self@)
    }

    /// An identifier resolves to itself, whatever the names are.
    fn to_group_id(self, group_names: &NameMap) -> (resolved: AudioResult<GroupId>)
        ensures
            resolved matches Ok(id) && id == self,
    {
        Ok(self)
    }
}

/// A reference to a group, by identifier or by name.
#[derive(Debug, Clone, PartialEq, Eq, Hash)]
pub enum GroupLabel {
    /// The group with this identifier.
    Id(GroupId),
    /// The group that goes by this name.
    Name(String),
}

impl View for GroupLabel {
    type V = Result<usize, Seq<char>>;

    /// `Ok` of the index for an identifier, `Err` of the characters for a name.
    open spec fn view(&self) -> Result<usize, Seq<char>> {
        match self {
            GroupLabel::Id(id) => Ok(id@),
            GroupLabel::Name(name) => Err(name@),
        }
    }
}

impl From<GroupId> for GroupLabel {
    /// The label of an identifier.
    fn from(id: GroupId) -> (label: Self) {
        GroupLabel::Id(id)
    }
}

impl vstd::std_specs::convert::FromSpecImpl<GroupId> for GroupLabel {
    open spec fn obeys_from_spec() -> bool {
        true
    }

    open spec fn from_spec(id: GroupId) -> Self {
        GroupLabel::Id(id)
    }
}

impl From<String> for GroupLabel {
    /// The label of a name.
    fn from(name: String) -> (label: Self) {
        GroupLabel::Name(name)
    }
}

impl vstd::std_specs::convert::FromSpecImpl<String> for GroupLabel {
    open spec fn obeys_from_spec() -> bool {
        true
    }

    open spec fn from_spec(name: String) -> Self {
        GroupLabel::Name(name)
    }
}

impl Sealed for GroupLabel {

}

impl GroupIdTrait for GroupLabel {
    open spec fn label(self) -> Result<usize, Seq<char>> {
        self@
    }

    fn to_group_id(self, group_names: &NameMap) -> (resolved: AudioResult<GroupId>) {
        match self {
            GroupLabel::Id(id) => Ok(id),
            GroupLabel::Name(name) => match group_names.get(&name) {
                Some(index) => Ok(GroupId::from_index(index)),
                None => Err(AudioError::NoGroupWithName(name)),
            },
        }
    }
}

} // verus!

//! Groups: named or anonymous nodes by which instances and tracks are
//! controlled together. A group may itself belong to groups.

pub mod groups;
pub mod id;
mod sealed;
pub mod set;

use crate::group::set::InternalGroupSet;
use vstd::prelude::*;

verus! {

/// A node of the group hierarchy.
pub struct Group {
    name: Option<String>,
    groups: InternalGroupSet,
}

impl Group {
    /// The name of the group, as a sequence of characters.
    pub closed spec fn name_view(&self) -> Option<Seq<char>> {
        match self.name {
            Some(name) => Some(name@),
            None => None,
        }
    }

    /// The indices of the groups that this group belongs to.
    pub closed spec fn parents(&self) -> Seq<usize> {
        self.groups@
    }

    /// An anonymous group that belongs to `groups`.
    pub fn new(groups: InternalGroupSet) -> (group: Self)
        ensures
            group.parents() == groups@,
            group.name_view().is_none(),
    {
        Group { name: None, groups }
    }

    /// A group called `name` that belongs to `groups`.
    pub fn named(name: String, groups: InternalGroupSet) -> (group: Self)
        ensures
            group.parents() == groups@,
            group.name_view() == Some(name@),
    {
        Group { name: Some(name), groups }
    }

    /// The name of the group, if it has one.
    pub fn name(&self) -> (name: Option<&String>)
        ensures
            match name {
                Some(n) => self.name_view() == Some(n@),
                None => self.name_view().is_none(),
            },
    {
        self.name.as_ref()
    }

    /// The groups that this group belongs to.
    pub fn groups(&self) -> (groups: &InternalGroupSet)
        ensures
            groups@ == self.parents(),
    {
        &self.groups
    }
}

} // verus!

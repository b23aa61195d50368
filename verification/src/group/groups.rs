//! The registry of groups and the hierarchy that they form.

use crate::command::GroupCommand;
use crate::group::id::{resolved_index, GroupId, GroupLabel};
use crate::group::Group;
use crate::names::{one_to_one, renamed, without_right, NameMap};
use crate::table::{IdTable, TableView};
use vstd::prelude::*;

verus! {

/// Whether `chain` walks up the hierarchy: each group but the last is
/// registered and belongs to the group after it.
pub open spec fn is_chain(hierarchy: Map<usize, Seq<usize>>, chain: Seq<usize>) -> bool {
    &&& chain.len() > 0
    &&& forall|i: int|
        0 <= i < chain.len() - 1 ==> hierarchy.dom().contains(#[trigger] chain[i])
            && hierarchy[chain[i]].contains(chain[i + 1])
}

/// Whether a chain leads from one of `members` to `group`.
pub open spec fn leads_to(hierarchy: Map<usize, Seq<usize>>, members: Set<usize>, group: usize) -> bool {
    exists|chain: Seq<usize>|
        #[trigger] is_chain(hierarchy, chain) && members.contains(chain[0]) && chain.last() == group
}

/// Whether something that declares membership in `members` belongs to
/// `target`, directly or through the groups that its groups belong to. A
/// target that is not registered has no members.
pub open spec fn belongs(hierarchy: Map<usize, Seq<usize>>, members: Set<usize>, target: usize) -> bool {
    hierarchy.dom().contains(target) && leads_to(hierarchy, members, target)
}

/// A member leads to itself.
pub proof fn lemma_leads_to_member(hierarchy: Map<usize, Seq<usize>>, members: Set<usize>, group: usize)
    requires
        members.contains(group),
    ensures
        leads_to(hierarchy, members, group),
{
    let chain = seq![group];
    assert(is_chain(hierarchy, chain));
    assert(chain[0] == group && chain.last() == group);
}

/// What leads to a registered group leads to each group that it belongs to.
pub proof fn lemma_leads_to_parent(
    hierarchy: Map<usize, Seq<usize>>,
    members: Set<usize>,
    group: usize,
    parent: usize,
)
    requires
        leads_to(hierarchy, members, group),
        hierarchy.dom().contains(group),
        hierarchy[group].contains(parent),
    ensures
        leads_to(hierarchy, members, parent),
{
    let chain = choose|chain: Seq<usize>|
        #[trigger] is_chain(hierarchy, chain) && members.contains(chain[0]) && chain.last() == group;
    let longer = chain.push(parent);
    assert forall|i: int| 0 <= i < longer.len() - 1 implies hierarchy.dom().contains(
        #[trigger] longer[i],
    ) && hierarchy[longer[i]].contains(longer[i + 1]) by {
        if i < chain.len() - 1 {
            assert(longer[i] == chain[i]);
            assert(longer[i + 1] == chain[i + 1]);
        } else {
            assert(longer[i] == group);
            assert(longer[i + 1] == parent);
        }
    }
    assert(is_chain(hierarchy, longer));
    assert(longer[0] == chain[0]);
    assert(longer.last() == parent);
}

/// Membership carries over: what belongs to a group belongs to every group
/// that this group belongs to.
pub proof fn lemma_belongs_transitive(
    hierarchy: Map<usize, Seq<usize>>,
    members: Set<usize>,
    middle: usize,
    target: usize,
)
    requires
        belongs(hierarchy, members, middle),
        belongs(hierarchy, hierarchy[middle].to_set(), target),
    ensures
        belongs(hierarchy, members, target),
{
    let first = choose|chain: Seq<usize>|
        #[trigger] is_chain(hierarchy, chain) && members.contains(chain[0]) && chain.last() == middle;
    let second = choose|chain: Seq<usize>|
        #[trigger] is_chain(hierarchy, chain) && hierarchy[middle].to_set().contains(chain[0])
            && chain.last() == target;
    let joined = first + second;
    assert forall|i: int| 0 <= i < joined.len() - 1 implies hierarchy.dom().contains(
        #[trigger] joined[i],
    ) && hierarchy[joined[i]].contains(joined[i + 1]) by {
        if i < first.len() - 1 {
            assert(joined[i] == first[i]);
            assert(joined[i + 1] == first[i + 1]);
        } else if i == first.len() - 1 {
            assert(joined[i] == middle);
            assert(joined[i + 1] == second[0]);
        } else {
            assert(joined[i] == second[i - first.len()]);
            assert(joined[i + 1] == second[i - first.len() + 1]);
        }
    }
    assert(is_chain(hierarchy, joined));
    assert(joined[0] == first[0]);
    assert(joined.last() == second.last());
}

/// If group A belongs to group B and group B belongs to group C, then what
/// declares membership in A alone belongs to C.
pub proof fn lemma_group_transitivity(hierarchy: Map<usize, Seq<usize>>, a: usize, b: usize, c: usize)
    requires
        hierarchy.dom().contains(a),
        belongs(hierarchy, hierarchy[a].to_set(), b),
        belongs(hierarchy, hierarchy[b].to_set(), c),
    ensures
        belongs(hierarchy, set![a], c),
{
    lemma_leads_to_member(hierarchy, set![a], a);
    assert(belongs(hierarchy, set![a], a));
    lemma_belongs_transitive(hierarchy, set![a], a, b);
    lemma_belongs_transitive(hierarchy, set![a], b, c);
}

/// Along a chain that starts among `members`, every group is in `seen` or is
/// not registered, provided that `seen` covers the registered members and the
/// registered groups that its own groups belong to.
pub proof fn lemma_chain_stays_in(
    hierarchy: Map<usize, Seq<usize>>,
    members: Set<usize>,
    seen: Seq<usize>,
    chain: Seq<usize>,
    i: int,
)
    requires
        is_chain(hierarchy, chain),
        members.contains(chain[0]),
        0 <= i < chain.len(),
        forall|m: usize| members.contains(m) && hierarchy.dom().contains(m) ==> seen.contains(m),
        forall|s: usize, k: int|
            seen.contains(s) && hierarchy.dom().contains(s) && 0 <= k < hierarchy[s].len()
                && hierarchy.dom().contains(#[trigger] hierarchy[s][k]) ==> seen.contains(
                hierarchy[s][k],
            ),
    ensures
        hierarchy.dom().contains(chain[i]) ==> seen.contains(chain[i]),
    decreases i,
{
    if i > 0 {
        lemma_chain_stays_in(hierarchy, members, seen, chain, i - 1);
        let from = chain[i - 1];
        assert(hierarchy.dom().contains(from) && hierarchy[from].contains(chain[i - 1 + 1]));
        let k = hierarchy[from].index_of(chain[i]);
        assert(hierarchy[from][k] == chain[i]);
    }
}

/// A name and the identifier that it is paired with count alike: what
/// declares membership by the one belongs to the same groups as what declares
/// it by the other.
pub proof fn lemma_name_or_id(groups: GroupsView, name: Seq<char>, target: usize)
    requires
        groups.names.dom().contains(name),
    ensures
        belongs(groups.hierarchy(), groups.resolved(seq![Err::<usize, Seq<char>>(name)]), target) == belongs(
            groups.hierarchy(),
            groups.resolved(seq![Ok::<usize, Seq<char>>(groups.names[name])]),
            target,
        ),
{
    let by_name = seq![Err::<usize, Seq<char>>(name)];
    let by_id = seq![Ok::<usize, Seq<char>>(groups.names[name])];
    assert forall|g: usize| groups.resolved(by_name).contains(g) == groups.resolved(by_id).contains(g) by {
        if groups.resolved(by_name).contains(g) {
            let i = choose|i: int| 0 <= i < by_name.len() && groups.resolve(#[trigger] by_name[i]) == Some(g);
            assert(groups.resolve(by_id[0]) == Some(g));
        }
        if groups.resolved(by_id).contains(g) {
            let i = choose|i: int| 0 <= i < by_id.len() && groups.resolve(#[trigger] by_id[i]) == Some(g);
            assert(groups.resolve(by_name[0]) == Some(g));
        }
    }
    assert(groups.resolved(by_name) =~= groups.resolved(by_id));
}

/// What the registry holds: the groups under their indices, and the names of
/// those that have one.
pub struct GroupsView {
    /// The groups under their indices, in the order in which they came.
    pub groups: TableView<Group>,
    /// The index that each name stands for.
    pub names: Map<Seq<char>, usize>,
}

impl GroupsView {
    /// The table is in order, no two names stand for one group, and every
    /// name stands for a registered group.
    pub open spec fn wf(self) -> bool {
        &&& self.groups.wf()
        &&& one_to_one(self.names)
        &&& forall|name: Seq<char>|
            self.names.dom().contains(name) ==> self.groups.has(#[trigger] self.names[name])
    }

    /// The groups that each registered group belongs to.
    pub open spec fn hierarchy(self) -> Map<usize, Seq<usize>> {
        Map::new(
            |index: usize| self.groups.has(index),
            |index: usize| self.groups.values[self.groups.position(index)].parents(),
        )
    }

    /// The registered group that a label stands for, if any.
    pub open spec fn resolve(self, label: Result<usize, Seq<char>>) -> Option<usize> {
        match resolved_index(label, self.names) {
            Some(index) => if self.groups.has(index) {
                Some(index)
            } else {
                None
            },
            None => None,
        }
    }

    /// The registered groups that the labels stand for.
    pub open spec fn resolved(self, labels: Seq<Result<usize, Seq<char>>>) -> Set<usize> {
        Set::new(
            |index: usize|
                exists|i: int| 0 <= i < labels.len() && self.resolve(#[trigger] labels[i]) == Some(index),
        )
    }

    /// The registry after a command.
    pub open spec fn after(self, command: GroupCommand) -> GroupsView {
        match command {
            GroupCommand::AddGroup(id, group) => GroupsView {
                groups: self.groups.inserted(id@, group),
                names: renamed(self.names, id@, group.name_view()),
            },
            GroupCommand::RemoveGroup(id) => GroupsView {
                groups: self.groups.removed(id@),
                names: without_right(self.names, id@),
            },
        }
    }

    /// A command leaves the registry in order.
    pub proof fn lemma_after(self, command: GroupCommand)
        requires
            self.wf(),
        ensures
            self.after(command).wf(),
    {
        let next = self.after(command);
        match command {
            GroupCommand::AddGroup(id, group) => {
                self.groups.lemma_inserted(id@, group);
                assert forall|name: Seq<char>| next.names.dom().contains(name) implies next.groups.has(
                    #[trigger] next.names[name],
                ) by {
                    if next.names[name] != id@ {
                        assert(self.names.dom().contains(name));
                        assert(self.groups.has(self.names[name]));
                    }
                }
            },
            GroupCommand::RemoveGroup(id) => {
                self.groups.lemma_removed(id@);
                assert forall|name: Seq<char>| next.names.dom().contains(name) implies next.groups.has(
                    #[trigger] next.names[name],
                ) by {
                    assert(self.names.dom().contains(name));
                    assert(self.groups.has(self.names[name]));
                }
            },
        }
    }
}

/// The registry of groups.
pub struct Groups {
    groups: IdTable<Group>,
    group_names: NameMap,
}

impl View for Groups {
    type V = GroupsView;

    closed spec fn view(&self) -> GroupsView {
        GroupsView { groups: self.groups@, names: self.group_names@ }
    }
}

impl Groups {
    /// An empty registry with room set aside for `capacity` groups.
    pub fn new(capacity: usize) -> (groups: Self)
        ensures
            groups@.wf(),
            groups@.groups == TableView::<Group>::empty(),
            (groups@.names == Map::<Seq<char>, usize>::empty()),
    {
        Groups { groups: IdTable::with_capacity(capacity), group_names: NameMap::with_capacity(capacity) }
    }

    /// The number of registered groups.
    pub fn len(&self) -> (len: usize)
        ensures
            self@.groups.wf(),
            len == self@.groups.len(),
    {
        self.groups.len()
    }

    /// The registered group with a given index.
    pub fn group_at(&self, index: usize) -> (group: Option<&Group>)
        ensures
            match group {
                Some(g) => {
                    &&& self@.hierarchy().dom().contains(index)
                    &&& self@.hierarchy()[index] == g.parents()
                    &&& self@.groups.get(index) == Some(*g)
                },
                None => !self@.hierarchy().dom().contains(index),
            },
    {
        let group = self.groups.get(index);
        proof {
            if self@.groups.has(index) {
                self@.groups.lemma_has(index);
            }
        }
        group
    }

    /// The registered group that a label stands for, with its identifier.
    /// A name stands for the group that it is paired with; a label that
    /// stands for no registered group gives `None`.
    pub fn get(&self, index: &GroupLabel) -> (found: Option<(GroupId, &Group)>)
        ensures
            match found {
                Some((id, group)) => {
                    &&& self@.resolve(index@) == Some(id@)
                    &&& self@.groups.get(id@) == Some(*group)
                },
                None => self@.resolve(index@).is_none(),
            },
    {
        match index {
            GroupLabel::Id(id) => match self.group_at(id.index()) {
                Some(group) => Some((*id, group)),
                None => None,
            },
            GroupLabel::Name(name) => match self.group_names.get(name) {
                Some(i) => match self.group_at(i) {
                    Some(group) => Some((GroupId::from_index(i), group)),
                    None => None,
                },
                None => None,
            },
        }
    }

    /// Applies a command. A group that left the registry, by removal or
    /// because another took its place, comes back so that it can be
    /// reclaimed. A registry in which every name stands for a registered
    /// group stays so.
    pub fn run_command(&mut self, command: GroupCommand) -> (displaced: Option<Group>)
        ensures
            final(self)@ == old(self)@.after(command),
            displaced == old(self)@.groups.get(command.target()@),
            old(self)@.wf() ==> final(self)@.wf(),
    {
        proof {
            if old(self)@.wf() {
                old(self)@.lemma_after(command);
            }
        }
        match command {
            GroupCommand::AddGroup(id, group) => {
                match group.name() {
                    Some(name) => {
                        let name = name.clone();
                        self.group_names.insert(name, id.index());
                    },
                    None => {
                        self.group_names.remove_index(id.index());
                    },
                }
                self.groups.insert(id.index(), group)
            },
            GroupCommand::RemoveGroup(id) => {
                self.group_names.remove_index(id.index());
                self.groups.remove(id.index())
            },
        }
    }
}

} // verus!

//! Sets of group references, and the question whether what holds such a set
//! belongs to a given group.

use crate::error::{AudioError, AudioResult};
use crate::group::groups::{
    belongs, is_chain, leads_to, lemma_chain_stays_in, lemma_leads_to_member, lemma_leads_to_parent,
    Groups,
};
use crate::group::id::{resolved_index, GroupId, GroupIdTrait, GroupLabel};
use crate::names::NameMap;
use crate::ordered::{
    index_set_insert, index_set_key_at, index_set_keys, index_set_len, index_set_new,
    index_set_position, index_set_remove, label_key_view, label_set_insert, label_set_key_at,
    label_set_keys, label_set_len, label_set_new, label_set_position, label_set_remove,
};
use indexmap::IndexSet;
use vstd::prelude::*;
use vstd::set_lib::lemma_len_subset;

verus! {

/// `items` without `item`: the items behind it move up, their order stays.
pub open spec fn without<A>(items: Seq<A>, item: A) -> Seq<A> {
    if items.contains(item) {
        items.remove(items.index_of(item))
    } else {
        items
    }
}

/// `items` with `item` at the end, unless it is among them already.
pub open spec fn with<A>(items: Seq<A>, item: A) -> Seq<A> {
    if items.contains(item) {
        items
    } else {
        items.push(item)
    }
}

/// Adding an item to items that are all different leaves them all different.
pub proof fn lemma_with<A>(items: Seq<A>, item: A)
    requires
        items.no_duplicates(),
    ensures
        with(items, item).no_duplicates(),
        with(items, item).to_set() == items.to_set().insert(item),
{
    let after = with(items, item);
    if !items.contains(item) {
        assert forall|i: int, j: int| 0 <= i < after.len() && 0 <= j < after.len() && i != j implies after[i]
            != after[j] by {
            if i < items.len() && j < items.len() {
            } else if i < items.len() {
                assert(items.contains(items[i]));
            } else {
                assert(items.contains(items[j]));
            }
        }
    }
    assert forall|a: A| after.to_set().contains(a) == items.to_set().insert(item).contains(a) by {
        if after.contains(a) {
            let i = after.index_of(a);
            if i < items.len() {
                assert(items[i] == a);
            }
        }
        if items.contains(a) {
            let i = items.index_of(a);
            assert(after[i] == a);
        }
        if a == item && !items.contains(item) {
            assert(after[items.len() as int] == item);
        }
    }
    assert(after.to_set() =~= items.to_set().insert(item));
}

/// Taking an item out of items that are all different leaves them all
/// different, and the item is gone.
pub proof fn lemma_without<A>(items: Seq<A>, item: A)
    requires
        items.no_duplicates(),
    ensures
        without(items, item).no_duplicates(),
        !without(items, item).contains(item),
        forall|other: A| other != item ==> without(items, item).contains(other) == items.contains(other),
{
    let after = without(items, item);
    if items.contains(item) {
        let p = items.index_of(item);
        assert forall|a: int| 0 <= a < after.len() implies #[trigger] after[a] == items[if a < p {
            a
        } else {
            a + 1
        }] by {}
        assert forall|other: A| other != item implies after.contains(other) == items.contains(other) by {
            if items.contains(other) {
                let i = items.index_of(other);
                let a = if i < p { i } else { i - 1 };
                assert(after[a] == other);
            }
            if after.contains(other) {
                let a = after.index_of(other);
                assert(items[if a < p { a } else { a + 1 }] == other);
            }
        }
        if after.contains(item) {
            let a = after.index_of(item);
            assert(items[if a < p { a } else { a + 1 }] == item);
        }
    }
}

/// Items that are all different and all among `others` are no more than
/// `others`.
pub proof fn lemma_no_more_than<A>(items: Seq<A>, others: Seq<A>)
    requires
        items.no_duplicates(),
        forall|a: A| items.contains(a) ==> others.contains(a),
    ensures
        items.len() <= others.len(),
{
    items.unique_seq_to_set();
    others.lemma_cardinality_of_set();
    vstd::seq_lib::seq_to_set_is_finite(others);
    lemma_len_subset(items.to_set(), others.to_set());
}

/// An ordered set of groups, each known by its identifier.
pub struct InternalGroupSet {
    ids: IndexSet<usize>,
}

impl View for InternalGroupSet {
    type V = Seq<usize>;

    /// The indices of the groups, in the order in which they came.
    closed spec fn view(&self) -> Seq<usize> {
        index_set_keys(self.ids)
    }
}

/// The identifiers that the first `count` labels stand for under `names`, in
/// order and each once; or the first of those labels that is a name without a
/// group.
pub open spec fn resolved_labels(
    labels: Seq<Result<usize, Seq<char>>>,
    names: Map<Seq<char>, usize>,
    count: nat,
) -> Result<Seq<usize>, Seq<char>>
    decreases count,
{
    if count == 0 {
        Ok(Seq::empty())
    } else {
        match resolved_labels(labels, names, (count - 1) as nat) {
            Err(name) => Err(name),
            Ok(ids) => match resolved_index(labels[count - 1], names) {
                Some(index) => Ok(with(ids, index)),
                None => Err(labels[count - 1]->Err_0),
            },
        }
    }
}

impl InternalGroupSet {
    /// No group stands twice.
    #[verifier::type_invariant]
    pub open spec fn wf(&self) -> bool {
        self@.no_duplicates()
    }

    /// The empty set.
    pub fn new() -> (set: Self)
        ensures
            set@ == Seq::<usize>::empty(),
    {
        InternalGroupSet { ids: index_set_new() }
    }

    /// The set with `id` added at the end, unless it was there.
    pub fn add(self, id: GroupId) -> (set: Self)
        ensures
            set@ == with(self@, id@),
            set@.no_duplicates(),
    {
        proof {
            use_type_invariant(&self);
            lemma_with(self@, id@);
        }
        let InternalGroupSet { mut ids } = self;
        let _ = index_set_insert(&mut ids, id.index());
        InternalGroupSet { ids }
    }

    /// The set without `id`.
    pub fn remove(self, id: GroupId) -> (set: Self)
        ensures
            set@ == without(self@, id@),
            set@.no_duplicates(),
    {
        proof {
            use_type_invariant(&self);
            lemma_without(self@, id@);
        }
        let InternalGroupSet { mut ids } = self;
        let position = index_set_remove(&mut ids, id.index());
        proof {
            if let Some(i) = position {
                assert(self@.index_of(id@) == i);
            }
        }
        InternalGroupSet { ids }
    }

    /// Whether `id` is in the set.
    pub fn contains(&self, id: GroupId) -> (held: bool)
        ensures
            held == self@.contains(id@),
    {
        index_set_position(&self.ids, id.index()).is_some()
    }

    /// The number of groups in the set.
    pub fn len(&self) -> (len: usize)
        ensures
            len == self@.len(),
    {
        index_set_len(&self.ids)
    }

    /// The set of identifiers that a set of labels stands for. A name stands
    /// for the identifier that `group_names` pairs it with; the first name
    /// without one comes back in `NoGroupWithName`.
    pub fn from_public_group_set(group_set: GroupSet, group_names: &NameMap) -> (resolved: AudioResult<
        Self,
    >)
        ensures
            match resolved {
                Ok(set) => resolved_labels(group_set@, group_names@, group_set@.len())
                    == Ok::<Seq<usize>, Seq<char>>(set@),
                Err(AudioError::NoGroupWithName(name)) => resolved_labels(
                    group_set@,
                    group_names@,
                    group_set@.len(),
                ) == Err::<Seq<usize>, Seq<char>>(name@),
                Err(_) => false,
            },
    {
        let mut set = InternalGroupSet::new();
        let count = group_set.len();
        let mut i: usize = 0;
        while i < count
            invariant
                i <= count,
                count == group_set@.len(),
                resolved_labels(group_set@, group_names@, i as nat) == Ok::<Seq<usize>, Seq<char>>(set@),
            decreases count - i,
        {
            let label = group_set.label_at(i);
            match label.to_group_id(group_names) {
                Ok(id) => {
                    set = set.add(id);
                },
                Err(error) => {
                    proof {
                        let rest = (count - (i + 1)) as nat;
                        lemma_resolution_fails(group_set@, group_names@, (i + 1) as nat, rest);
                    }
                    return Err(error);
                },
            }
            i += 1;
        }
        Ok(set)
    }

    /// Whether one of the groups in the set is `ancestor` or belongs to it,
    /// directly or through the groups that it belongs to. Each group is
    /// looked at once, so a hierarchy that runs in a circle is walked to its
    /// end like any other.
    pub fn has_ancestor(&self, ancestor: GroupId, all_groups: &Groups) -> (found: bool)
        ensures
            found == belongs(all_groups@.hierarchy(), self@.to_set(), ancestor@),
    {
        let target = ancestor.index();
        if all_groups.group_at(target).is_none() {
            return false;
        }
        let ghost hierarchy = all_groups@.hierarchy();
        let ghost members = self@.to_set();
        let mut pending: Vec<usize> = Vec::new();
        let count = index_set_len(&self.ids);
        let mut i: usize = 0;
        while i < count
            invariant
                i <= count,
                count == self@.len(),
                pending@ == self@.subrange(0, i as int),
            decreases count - i,
        {
            match index_set_key_at(&self.ids, i) {
                Some(id) => {
                    pending.push(id);
                },
                None => {},
            }
            i += 1;
        }
        proof {
            assert(pending@ =~= self@);
            assert forall|x: usize| pending@.contains(x) implies leads_to(hierarchy, members, x) by {
                lemma_leads_to_member(hierarchy, members, x);
            }
        }
        let registered = all_groups.len();
        let mut seen = index_set_new();
        while pending.len() > 0
            invariant
                all_groups@.groups.wf(),
                hierarchy == all_groups@.hierarchy(),
                members == self@.to_set(),
                target == ancestor@,
                hierarchy.dom().contains(target),
                registered == all_groups@.groups.len(),
                index_set_keys(seen).no_duplicates(),
                index_set_keys(seen).len() <= registered,
                forall|s: usize|
                    index_set_keys(seen).contains(s) ==> hierarchy.dom().contains(s) && s != target,
                forall|m: usize|
                    members.contains(m) && hierarchy.dom().contains(m) ==> index_set_keys(seen).contains(m)
                        || pending@.contains(m),
                forall|s: usize, k: int|
                    index_set_keys(seen).contains(s) && hierarchy.dom().contains(s) && 0 <= k
                        < hierarchy[s].len() && hierarchy.dom().contains(#[trigger] hierarchy[s][k])
                        ==> index_set_keys(seen).contains(hierarchy[s][k]) || pending@.contains(
                        hierarchy[s][k],
                    ),
                forall|x: usize| pending@.contains(x) ==> leads_to(hierarchy, members, x),
            decreases registered - index_set_keys(seen).len(), pending.len(),
        {
            let ghost before = pending@;
            let ghost seen_before = index_set_keys(seen);
            let id = pending.pop().unwrap();
            proof {
                assert(before.contains(id)) by {
                    assert(before[before.len() - 1] == id);
                }
                assert forall|x: usize| before.contains(x) implies pending@.contains(x) || x == id by {
                    let j = before.index_of(x);
                    if j < before.len() - 1 {
                        assert(pending@[j] == x);
                    }
                }
                assert forall|x: usize| pending@.contains(x) implies before.contains(x) by {
                    let j = pending@.index_of(x);
                    assert(before[j] == x);
                }
            }
            if id == target {
                return true;
            }
            match all_groups.group_at(id) {
                None => {},
                Some(group) => {
                    let placed = index_set_insert(&mut seen, id);
                    if placed.1 {
                        proof {
                            lemma_with(seen_before, id);
                            assert forall|a: usize| index_set_keys(seen).contains(a) implies all_groups@.groups.keys.contains(
                                a,
                            ) by {
                                assert(with(seen_before, id).to_set().contains(a));
                                if a != id {
                                    assert(seen_before.contains(a));
                                    assert(hierarchy.dom().contains(a));
                                }
                            }
                            lemma_no_more_than(index_set_keys(seen), all_groups@.groups.keys);
                        }
                        let parents = group.groups();
                        let parent_count = index_set_len(&parents.ids);
                        let ghost base = pending@;
                        let mut j: usize = 0;
                        while j < parent_count
                            invariant
                                j <= parent_count,
                                parent_count == parents@.len(),
                                pending@ == base + parents@.subrange(0, j as int),
                            decreases parent_count - j,
                        {
                            match index_set_key_at(&parents.ids, j) {
                                Some(parent) => {
                                    pending.push(parent);
                                },
                                None => {},
                            }
                            proof {
                                assert(parents@.subrange(0, j + 1) =~= parents@.subrange(0, j as int).push(
                                    parents@[j as int],
                                ));
                            }
                            j += 1;
                        }
                        proof {
                            assert(parents@.subrange(0, parent_count as int) =~= parents@);
                            assert(hierarchy[id] == parents@);
                            let now = index_set_keys(seen);
                            assert(now == seen_before.push(id));
                            assert forall|x: usize| base.contains(x) implies pending@.contains(x) by {
                                let q = base.index_of(x);
                                assert(pending@[q] == x);
                            }
                            assert forall|k: int| 0 <= k < parents@.len() implies pending@.contains(
                                #[trigger] parents@[k],
                            ) by {
                                assert(pending@[base.len() + k] == parents@[k]);
                            }
                            assert forall|x: usize| seen_before.contains(x) implies now.contains(x) by {
                                let q = seen_before.index_of(x);
                                assert(now[q] == x);
                            }
                            assert(now.contains(id)) by {
                                assert(now[seen_before.len() as int] == id);
                            }
                            assert forall|x: usize| now.contains(x) implies seen_before.contains(x) || x
                                == id by {
                                let q = now.index_of(x);
                                if q < seen_before.len() {
                                    assert(seen_before[q] == x);
                                }
                            }
                            assert forall|x: usize| pending@.contains(x) implies leads_to(
                                hierarchy,
                                members,
                                x,
                            ) by {
                                let q = pending@.index_of(x);
                                if q < base.len() {
                                    assert(base[q] == x);
                                } else {
                                    assert(parents@[q - base.len()] == x);
                                    assert(hierarchy[id].contains(x));
                                    lemma_leads_to_parent(hierarchy, members, id, x);
                                }
                            }
                        }
                    }
                },
            }
        }
        proof {
            let seen_keys = index_set_keys(seen);
            if leads_to(hierarchy, members, target) {
                let chain = choose|chain: Seq<usize>|
                    #[trigger] is_chain(hierarchy, chain) && members.contains(chain[0]) && chain.last()
                        == target;
                assert forall|m: usize|
                    members.contains(m) && hierarchy.dom().contains(m) implies seen_keys.contains(m) by {
                    assert(!pending@.contains(m));
                }
                assert forall|s: usize, k: int|
                    seen_keys.contains(s) && hierarchy.dom().contains(s) && 0 <= k < hierarchy[s].len()
                        && hierarchy.dom().contains(#[trigger] hierarchy[s][k]) implies seen_keys.contains(
                    hierarchy[s][k],
                ) by {
                    assert(!pending@.contains(hierarchy[s][k]));
                }
                lemma_chain_stays_in(hierarchy, members, seen_keys, chain, chain.len() - 1);
                assert(false);
            }
        }
        false
    }
}

/// Once a label fails to resolve, the labels behind it change nothing.
pub proof fn lemma_resolution_fails(
    labels: Seq<Result<usize, Seq<char>>>,
    names: Map<Seq<char>, usize>,
    count: nat,
    more: nat,
)
    requires
        resolved_labels(labels, names, count) is Err,
    ensures
        resolved_labels(labels, names, count + more) == resolved_labels(labels, names, count),
    decreases more,
{
    if more > 0 {
        lemma_resolution_fails(labels, names, count, (more - 1) as nat);
    }
}

/// An ordered set of group references, each an identifier or a name.
pub struct GroupSet {
    labels: IndexSet<Result<usize, String>>,
}

impl View for GroupSet {
    type V = Seq<Result<usize, Seq<char>>>;

    /// The labels in the order in which they came: `Ok` of the index for an
    /// identifier, `Err` of the characters for a name.
    closed spec fn view(&self) -> Seq<Result<usize, Seq<char>>> {
        label_set_keys(self.labels)
    }
}

/// The key under which a label is kept.
fn key_of(label: &GroupLabel) -> (key: Result<usize, String>)
    ensures
        label_key_view(key) == label@,
{
    match label {
        GroupLabel::Id(id) => Ok(id.index()),
        GroupLabel::Name(name) => Err(name.clone()),
    }
}

impl GroupSet {
    /// No label stands twice.
    #[verifier::type_invariant]
    pub open spec fn wf(&self) -> bool {
        self@.no_duplicates()
    }

    /// The empty set.
    pub fn new() -> (set: Self)
        ensures
            set@.len() == 0,
    {
        GroupSet { labels: label_set_new() }
    }

    /// The set with `label` added at the end, unless it was there.
    pub fn add(self, label: GroupLabel) -> (set: Self)
        ensures
            set@ == with(self@, label@),
            set@.no_duplicates(),
    {
        proof {
            use_type_invariant(&self);
            lemma_with(self@, label@);
        }
        let GroupSet { mut labels } = self;
        let key = key_of(&label);
        let _ = label_set_insert(&mut labels, key);
        GroupSet { labels }
    }

    /// The set without `label`.
    pub fn remove(self, label: GroupLabel) -> (set: Self)
        ensures
            set@ == without(self@, label@),
            set@.no_duplicates(),
    {
        proof {
            use_type_invariant(&self);
            lemma_without(self@, label@);
        }
        let GroupSet { mut labels } = self;
        let key = key_of(&label);
        let position = label_set_remove(&mut labels, &key);
        proof {
            if let Some(i) = position {
                assert(self@.index_of(label@) == i);
            }
        }
        GroupSet { labels }
    }

    /// Whether `label` is in the set.
    pub fn contains(&self, label: GroupLabel) -> (held: bool)
        ensures
            held == self@.contains(label@),
    {
        let key = key_of(&label);
        label_set_position(&self.labels, &key).is_some()
    }

    /// The number of labels in the set.
    pub fn len(&self) -> (len: usize)
        ensures
            len == self@.len(),
    {
        label_set_len(&self.labels)
    }

    /// A copy of the label at a position.
    pub fn label_at(&self, position: usize) -> (label: GroupLabel)
        requires
            position < self@.len(),
        ensures
            label@ == self@[position as int],
    {
        match label_set_key_at(&self.labels, position) {
            Some(Ok(index)) => GroupLabel::Id(GroupId::from_index(index)),
            Some(Err(name)) => GroupLabel::Name(name),
            None => GroupLabel::Id(GroupId::from_index(0)),
        }
    }

    /// Whether what holds this set belongs to the group `target_id`: one of
    /// the labels stands for that group, or for a registered group that
    /// belongs to it directly or through the groups that it belongs to.
    /// Labels that stand for no registered group count for nothing.
    pub fn is_in_group(&self, target_id: GroupId, groups: &Groups) -> (member: bool)
        ensures
            member == belongs(groups@.hierarchy(), groups@.resolved(self@), target_id@),
    {
        let mut ids = InternalGroupSet::new();
        let count = self.len();
        let mut i: usize = 0;
        while i < count
            invariant
                i <= count,
                count == self@.len(),
                ids@.no_duplicates(),
                ids@.to_set() == groups@.resolved(self@.subrange(0, i as int)),
            decreases count - i,
        {
            let label = self.label_at(i);
            let ghost before = ids@;
            let ghost shorter = self@.subrange(0, i as int);
            let ghost longer = self@.subrange(0, i + 1);
            match groups.get(&label) {
                Some((id, _)) => {
                    ids = ids.add(id);
                    proof {
                        lemma_with(before, id@);
                        assert forall|g: usize| groups@.resolved(longer).contains(g)
                            == before.to_set().insert(id@).contains(g) by {
                            if groups@.resolved(longer).contains(g) {
                                let k = choose|k: int|
                                    0 <= k < longer.len() && groups@.resolve(#[trigger] longer[k]) == Some(
                                        g,
                                    );
                                if k < i {
                                    assert(shorter[k] == longer[k]);
                                }
                            }
                            if before.to_set().contains(g) {
                                let k = choose|k: int|
                                    0 <= k < shorter.len() && groups@.resolve(#[trigger] shorter[k]) == Some(
                                        g,
                                    );
                                assert(longer[k] == shorter[k]);
                            }
                            if g == id@ {
                                assert(groups@.resolve(longer[i as int]) == Some(g));
                            }
                        }
                        assert(groups@.resolved(longer) =~= before.to_set().insert(id@));
                    }
                },
                None => {
                    proof {
                        assert forall|g: usize| groups@.resolved(longer).contains(g)
                            == before.to_set().contains(g) by {
                            if groups@.resolved(longer).contains(g) {
                                let k = choose|k: int|
                                    0 <= k < longer.len() && groups@.resolve(#[trigger] longer[k]) == Some(
                                        g,
                                    );
                                if k < i {
                                    assert(shorter[k] == longer[k]);
                                }
                            }
                            if before.to_set().contains(g) {
                                let k = choose|k: int|
                                    0 <= k < shorter.len() && groups@.resolve(#[trigger] shorter[k]) == Some(
                                        g,
                                    );
                                assert(longer[k] == shorter[k]);
                            }
                        }
                        assert(groups@.resolved(longer) =~= before.to_set());
                    }
                },
            }
            i += 1;
        }
        proof {
            assert(self@.subrange(0, count as int) =~= self@);
        }
        ids.has_ancestor(target_id, groups)
    }
}

} // verus!

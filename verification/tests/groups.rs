use kira::command::GroupCommand;
use kira::error::AudioError;
use kira::group::groups::Groups;
use kira::group::id::{GroupId, GroupIdTrait, GroupLabel};
use kira::group::set::{GroupSet, InternalGroupSet};
use kira::group::Group;
use kira::ident::IdAllocator;
use kira::names::NameMap;

fn ids(count: usize) -> Vec<GroupId> {
    let mut allocator = IdAllocator::new();
    (0..count).map(|_| GroupId::new(&mut allocator).unwrap()).collect()
}

fn member_of(parents: &[GroupId]) -> InternalGroupSet {
    let mut set = InternalGroupSet::new();
    for id in parents {
        set = set.add(*id);
    }
    set
}

#[test]
fn group_ids_count_up() {
    let id = ids(3);
    assert_eq!(id[0].index(), 0);
    assert_eq!(id[2].index(), 2);
    assert_ne!(id[0], id[1]);
}

#[test]
fn group_id_resolves_to_itself() {
    let id = ids(2);
    let names = NameMap::new();
    assert_eq!(id[1].to_group_id(&names), Ok(id[1]));
}

#[test]
fn group_label_resolves_through_the_names() {
    let id = ids(2);
    let mut names = NameMap::new();
    names.insert("music".to_string(), id[1].index());
    assert_eq!(GroupLabel::from(id[0]).to_group_id(&names), Ok(id[0]));
    assert_eq!(GroupLabel::from("music".to_string()).to_group_id(&names), Ok(id[1]));
    assert_eq!(
        GroupLabel::from("speech".to_string()).to_group_id(&names),
        Err(AudioError::NoGroupWithName("speech".to_string()))
    );
}

#[test]
fn group_set_holds_each_label_once_in_order() {
    let id = ids(2);
    let set = GroupSet::new()
        .add(GroupLabel::Name("b".to_string()))
        .add(GroupLabel::Id(id[1]))
        .add(GroupLabel::Name("a".to_string()))
        .add(GroupLabel::Id(id[1]))
        .add(GroupLabel::Name("b".to_string()));
    assert_eq!(set.len(), 3);
    assert_eq!(set.label_at(0), GroupLabel::Name("b".to_string()));
    assert_eq!(set.label_at(1), GroupLabel::Id(id[1]));
    assert_eq!(set.label_at(2), GroupLabel::Name("a".to_string()));
    assert!(set.contains(GroupLabel::Id(id[1])));
    assert!(set.contains(GroupLabel::Name("a".to_string())));
    assert!(!set.contains(GroupLabel::Id(id[0])));
    assert!(!set.contains(GroupLabel::Name("c".to_string())));
}

#[test]
fn group_set_remove_keeps_the_order_of_the_rest() {
    let id = ids(3);
    let set = GroupSet::new()
        .add(GroupLabel::Id(id[0]))
        .add(GroupLabel::Name("x".to_string()))
        .add(GroupLabel::Id(id[1]))
        .add(GroupLabel::Id(id[2]))
        .remove(GroupLabel::Name("x".to_string()))
        .remove(GroupLabel::Name("missing".to_string()));
    assert_eq!(set.len(), 3);
    assert_eq!(set.label_at(0), GroupLabel::Id(id[0]));
    assert_eq!(set.label_at(1), GroupLabel::Id(id[1]));
    assert_eq!(set.label_at(2), GroupLabel::Id(id[2]));
    assert!(!set.contains(GroupLabel::Name("x".to_string())));
}

#[test]
fn a_name_and_an_index_are_different_labels() {
    let id = ids(1);
    let set = GroupSet::new().add(GroupLabel::Name("0".to_string()));
    assert!(!set.contains(GroupLabel::Id(id[0])));
    assert_eq!(GroupSet::new().len(), 0);
}

#[test]
fn internal_set_holds_each_id_once() {
    let id = ids(3);
    let set = member_of(&[id[2], id[0], id[2]]);
    assert_eq!(set.len(), 2);
    assert!(set.contains(id[0]));
    assert!(set.contains(id[2]));
    assert!(!set.contains(id[1]));
    let set = set.remove(id[2]).remove(id[1]);
    assert_eq!(set.len(), 1);
    assert!(!set.contains(id[2]));
}

#[test]
fn public_set_resolves_to_ids() {
    let id = ids(3);
    let mut names = NameMap::new();
    names.insert("one".to_string(), id[1].index());
    names.insert("two".to_string(), id[2].index());
    let public = GroupSet::new()
        .add(GroupLabel::Name("two".to_string()))
        .add(GroupLabel::Id(id[0]))
        .add(GroupLabel::Id(id[2]))
        .add(GroupLabel::Name("one".to_string()));
    let internal = InternalGroupSet::from_public_group_set(public, &names).ok().unwrap();
    assert_eq!(internal.len(), 3);
    assert!(internal.contains(id[0]));
    assert!(internal.contains(id[1]));
    assert!(internal.contains(id[2]));
}

#[test]
fn public_set_with_an_unknown_name_fails_with_the_first_one() {
    let id = ids(1);
    let mut names = NameMap::new();
    names.insert("known".to_string(), id[0].index());
    let public = GroupSet::new()
        .add(GroupLabel::Name("known".to_string()))
        .add(GroupLabel::Name("first".to_string()))
        .add(GroupLabel::Name("second".to_string()));
    match InternalGroupSet::from_public_group_set(public, &names) {
        Err(error) => assert_eq!(error, AudioError::NoGroupWithName("first".to_string())),
        Ok(_) => panic!("an unknown name resolved"),
    }
}

#[test]
fn registry_finds_groups_by_id_and_by_name() {
    let id = ids(3);
    let mut groups = Groups::new(4);
    assert!(groups.run_command(GroupCommand::AddGroup(id[0], Group::new(InternalGroupSet::new()))).is_none());
    assert!(groups
        .run_command(GroupCommand::AddGroup(id[1], Group::named("music".to_string(), member_of(&[id[0]]))))
        .is_none());
    assert_eq!(groups.len(), 2);
    assert_eq!(groups.get(&GroupLabel::Id(id[0])).map(|found| found.0), Some(id[0]));
    assert_eq!(groups.get(&GroupLabel::Name("music".to_string())).map(|found| found.0), Some(id[1]));
    assert!(groups.get(&GroupLabel::Id(id[2])).is_none());
    assert!(groups.get(&GroupLabel::Name("speech".to_string())).is_none());
    let found = groups.get(&GroupLabel::Name("music".to_string())).unwrap().1;
    assert_eq!(found.name(), Some(&"music".to_string()));
    assert!(found.groups().contains(id[0]));
    assert!(groups.group_at(id[0].index()).unwrap().name().is_none());
}

#[test]
fn removing_a_group_returns_it_and_frees_its_name() {
    let id = ids(2);
    let mut groups = Groups::new(4);
    groups.run_command(GroupCommand::AddGroup(id[0], Group::named("a".to_string(), InternalGroupSet::new())));
    let removed = groups.run_command(GroupCommand::RemoveGroup(id[0]));
    assert_eq!(removed.unwrap().name(), Some(&"a".to_string()));
    assert!(groups.get(&GroupLabel::Name("a".to_string())).is_none());
    assert!(groups.get(&GroupLabel::Id(id[0])).is_none());
    assert!(groups.run_command(GroupCommand::RemoveGroup(id[0])).is_none());
    assert_eq!(groups.len(), 0);
}

#[test]
fn adding_under_a_known_id_returns_the_group_that_was_there() {
    let id = ids(1);
    let mut groups = Groups::new(4);
    groups.run_command(GroupCommand::AddGroup(id[0], Group::named("old".to_string(), InternalGroupSet::new())));
    let displaced =
        groups.run_command(GroupCommand::AddGroup(id[0], Group::named("new".to_string(), InternalGroupSet::new())));
    assert_eq!(displaced.unwrap().name(), Some(&"old".to_string()));
    assert!(groups.get(&GroupLabel::Name("old".to_string())).is_none());
    assert_eq!(groups.get(&GroupLabel::Name("new".to_string())).map(|found| found.0), Some(id[0]));
    assert_eq!(groups.len(), 1);
}

#[test]
fn a_group_name_stands_for_the_group_that_took_it_last() {
    let id = ids(2);
    let mut groups = Groups::new(4);
    groups.run_command(GroupCommand::AddGroup(id[0], Group::named("n".to_string(), InternalGroupSet::new())));
    groups.run_command(GroupCommand::AddGroup(id[1], Group::named("n".to_string(), InternalGroupSet::new())));
    assert_eq!(groups.get(&GroupLabel::Name("n".to_string())).map(|found| found.0), Some(id[1]));
    assert!(groups.get(&GroupLabel::Id(id[0])).is_some());
}

fn chain(id: &[GroupId]) -> Groups {
    // a belongs to b, b belongs to c, c and d belong to nothing
    let mut groups = Groups::new(8);
    groups.run_command(GroupCommand::AddGroup(id[0], Group::named("a".to_string(), member_of(&[id[1]]))));
    groups.run_command(GroupCommand::AddGroup(id[1], Group::new(member_of(&[id[2]]))));
    groups.run_command(GroupCommand::AddGroup(id[2], Group::new(InternalGroupSet::new())));
    groups.run_command(GroupCommand::AddGroup(id[3], Group::new(InternalGroupSet::new())));
    groups
}

#[test]
fn membership_is_transitive() {
    let id = ids(4);
    let groups = chain(&id);
    let only_a = member_of(&[id[0]]);
    assert!(only_a.has_ancestor(id[0], &groups));
    assert!(only_a.has_ancestor(id[1], &groups));
    assert!(only_a.has_ancestor(id[2], &groups));
    assert!(!only_a.has_ancestor(id[3], &groups));
    assert!(!member_of(&[id[2]]).has_ancestor(id[0], &groups));
    assert!(!member_of(&[]).has_ancestor(id[0], &groups));
}

#[test]
fn membership_by_name_and_by_id_agree() {
    let id = ids(4);
    let groups = chain(&id);
    let by_name = GroupSet::new().add(GroupLabel::Name("a".to_string()));
    let by_id = GroupSet::new().add(GroupLabel::Id(id[0]));
    for target in &id {
        assert_eq!(by_name.is_in_group(*target, &groups), by_id.is_in_group(*target, &groups));
    }
    assert!(by_name.is_in_group(id[2], &groups));
    assert!(!by_name.is_in_group(id[3], &groups));
    let unknown = GroupSet::new().add(GroupLabel::Name("nobody".to_string()));
    assert!(!unknown.is_in_group(id[2], &groups));
}

#[test]
fn a_group_that_is_not_registered_has_no_members() {
    let id = ids(6);
    let groups = chain(&id);
    assert!(!member_of(&[id[5]]).has_ancestor(id[5], &groups));
    assert!(!GroupSet::new().add(GroupLabel::Id(id[5])).is_in_group(id[5], &groups));
    // an entry that is not registered does not lead anywhere
    assert!(!member_of(&[id[4]]).has_ancestor(id[2], &groups));
}

#[test]
fn a_circle_of_groups_is_walked_to_its_end() {
    let id = ids(4);
    let mut groups = Groups::new(8);
    groups.run_command(GroupCommand::AddGroup(id[0], Group::new(member_of(&[id[1]]))));
    groups.run_command(GroupCommand::AddGroup(id[1], Group::new(member_of(&[id[0], id[1]]))));
    groups.run_command(GroupCommand::AddGroup(id[2], Group::new(member_of(&[id[0]]))));
    groups.run_command(GroupCommand::AddGroup(id[3], Group::new(InternalGroupSet::new())));
    let set = member_of(&[id[2]]);
    assert!(set.has_ancestor(id[0], &groups));
    assert!(set.has_ancestor(id[1], &groups));
    assert!(set.has_ancestor(id[2], &groups));
    assert!(!set.has_ancestor(id[3], &groups));
    assert!(!GroupSet::new().add(GroupLabel::Id(id[0])).is_in_group(id[3], &groups));
}

#[test]
fn membership_through_a_diamond() {
    let id = ids(5);
    let mut groups = Groups::new(8);
    groups.run_command(GroupCommand::AddGroup(id[0], Group::new(member_of(&[id[1], id[2]]))));
    groups.run_command(GroupCommand::AddGroup(id[1], Group::new(member_of(&[id[3]]))));
    groups.run_command(GroupCommand::AddGroup(id[2], Group::new(member_of(&[id[3]]))));
    groups.run_command(GroupCommand::AddGroup(id[3], Group::new(member_of(&[id[4]]))));
    groups.run_command(GroupCommand::AddGroup(id[4], Group::new(InternalGroupSet::new())));
    assert!(member_of(&[id[0]]).has_ancestor(id[4], &groups));
    assert!(member_of(&[id[2]]).has_ancestor(id[3], &groups));
    assert!(!member_of(&[id[1]]).has_ancestor(id[2], &groups));
}

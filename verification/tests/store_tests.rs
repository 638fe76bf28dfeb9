use kronos::roles::RoleInfo;
use kronos::store::{GuildStore, StoreError};

fn role(id: u64, name: &str) -> RoleInfo {
    RoleInfo { id, name: name.to_string() }
}

#[test]
fn create_if_absent_twice_leaves_one_default_record() {
    let mut store = GuildStore::new();
    store.create_guild(7);
    {
        let g = store.get_guild(7).expect("record must exist after create");
        assert_eq!(g.id, 7);
        assert_eq!(g.member_count, 0);
        assert!(g.updated_messages_channel.is_none());
        assert!(g.deleted_messages_channel.is_none());
        assert!(g.rules_channel.is_none());
        assert!(g.roles.is_none());
    }
    store.create_guild(7);
    let g = store.get_guild(7).expect("record must still exist");
    assert_eq!(g.id, 7);
    assert_eq!(g.member_count, 0);
    assert!(g.roles.is_none());
}

#[test]
fn create_does_not_clobber_existing_record() {
    let mut store = GuildStore::new();
    store.create_guild(7);
    store.enable_role_for_roles_command(7, 42).unwrap();
    store.create_guild(7);
    assert_eq!(store.get_enabled_roles_ids(7), vec![42]);
}

#[test]
fn get_guild_absent_is_none_not_error() {
    let store = GuildStore::new();
    assert!(store.get_guild(7).is_none());
}

#[test]
fn enabled_ids_of_missing_guild_is_empty() {
    let store = GuildStore::new();
    assert!(store.get_enabled_roles_ids(7).is_empty());
}

#[test]
fn enabled_ids_of_guild_without_list_is_empty() {
    let mut store = GuildStore::new();
    store.create_guild(7);
    assert!(store.get_enabled_roles_ids(7).is_empty());
}

#[test]
fn enable_appends_in_order() {
    let mut store = GuildStore::new();
    store.create_guild(7);
    store.enable_role_for_roles_command(7, 2).unwrap();
    store.enable_role_for_roles_command(7, 1).unwrap();
    assert_eq!(store.get_enabled_roles_ids(7), vec![2, 1]);
}

#[test]
fn enable_on_missing_guild_fails_not_found() {
    let mut store = GuildStore::new();
    assert_eq!(store.enable_role_for_roles_command(7, 2), Err(StoreError::NotFound));
}

#[test]
fn disable_on_missing_guild_fails_not_found() {
    let mut store = GuildStore::new();
    assert_eq!(store.disable_role_for_roles_command(7, 2), Err(StoreError::NotFound));
}

#[test]
fn disable_of_absent_role_is_a_noop() {
    let mut store = GuildStore::new();
    store.create_guild(7);
    store.enable_role_for_roles_command(7, 2).unwrap();
    store.disable_role_for_roles_command(7, 9).unwrap();
    assert_eq!(store.get_enabled_roles_ids(7), vec![2]);
}

#[test]
fn disable_removes_every_occurrence() {
    let mut store = GuildStore::new();
    store.create_guild(7);
    store.enable_role_for_roles_command(7, 2).unwrap();
    store.enable_role_for_roles_command(7, 3).unwrap();
    store.enable_role_for_roles_command(7, 2).unwrap();
    store.disable_role_for_roles_command(7, 2).unwrap();
    assert_eq!(store.get_enabled_roles_ids(7), vec![3]);
}

#[test]
fn disable_then_enable_restores_role_at_the_end() {
    let mut store = GuildStore::new();
    store.create_guild(7);
    store.enable_role_for_roles_command(7, 10).unwrap();
    store.enable_role_for_roles_command(7, 20).unwrap();
    store.disable_role_for_roles_command(7, 10).unwrap();
    assert_eq!(store.get_enabled_roles_ids(7), vec![20]);
    store.enable_role_for_roles_command(7, 10).unwrap();
    assert_eq!(store.get_enabled_roles_ids(7), vec![20, 10]);
}

#[test]
fn update_guild_replaces_the_whole_record() {
    let mut store = GuildStore::new();
    store.create_guild(7);
    let mut g = kronos::guild::Guild::new(7, 55);
    g.rules_channel = Some(900);
    g.roles = Some(vec![1, 2]);
    store.update_guild(g);
    let got = store.get_guild(7).unwrap();
    assert_eq!(got.member_count, 55);
    assert_eq!(got.rules_channel, Some(900));
    assert_eq!(store.get_enabled_roles_ids(7), vec![1, 2]);
}

#[test]
fn update_guild_of_absent_id_changes_nothing() {
    let mut store = GuildStore::new();
    let g = kronos::guild::Guild::new(7, 55);
    store.update_guild(g);
    assert!(store.get_guild(7).is_none());
}

#[test]
fn enabled_roles_follow_stored_order_not_live_order() {
    let mut store = GuildStore::new();
    store.create_guild(7);
    store.enable_role_for_roles_command(7, 2).unwrap();
    store.enable_role_for_roles_command(7, 1).unwrap();
    let live = vec![role(1, "one"), role(2, "two"), role(3, "three")];
    let filtered = store.get_enabled_roles(7, live).unwrap();
    let ids: Vec<u64> = filtered.iter().map(|r| r.id).collect();
    assert_eq!(ids, vec![2, 1]);
    assert_eq!(filtered[0].name, "two");
    assert_eq!(filtered[1].name, "one");
}

#[test]
fn enabled_roles_never_returns_an_id_outside_the_stored_list() {
    let mut store = GuildStore::new();
    store.create_guild(7);
    store.enable_role_for_roles_command(7, 5).unwrap();
    let live = vec![role(4, "four"), role(5, "five"), role(6, "six")];
    let filtered = store.get_enabled_roles(7, live).unwrap();
    assert_eq!(filtered.len(), 1);
    assert_eq!(filtered[0].id, 5);
}

#[test]
fn enabled_roles_of_missing_guild_is_not_found() {
    let store = GuildStore::new();
    let live = vec![role(4, "four")];
    assert!(matches!(store.get_enabled_roles(7, live), Err(StoreError::NotFound)));
}

#[test]
fn enabled_roles_of_guild_without_list_is_empty_ok() {
    let mut store = GuildStore::new();
    store.create_guild(7);
    let live = vec![role(4, "four")];
    let filtered = store.get_enabled_roles(7, live).unwrap();
    assert!(filtered.is_empty());
}

#[test]
fn a_duplicated_stored_id_yields_its_role_only_once() {
    let mut store = GuildStore::new();
    store.create_guild(7);
    store.enable_role_for_roles_command(7, 2).unwrap();
    store.enable_role_for_roles_command(7, 2).unwrap();
    let live = vec![role(2, "two"), role(3, "three")];
    let filtered = store.get_enabled_roles(7, live).unwrap();
    assert_eq!(filtered.len(), 1);
    assert_eq!(filtered[0].id, 2);
}

#[test]
fn equal_live_ids_keep_live_order_within_one_stored_id() {
    let mut store = GuildStore::new();
    store.create_guild(7);
    store.enable_role_for_roles_command(7, 2).unwrap();
    let live = vec![role(2, "first"), role(2, "second")];
    let filtered = store.get_enabled_roles(7, live).unwrap();
    let names: Vec<&str> = filtered.iter().map(|r| r.name.as_str()).collect();
    assert_eq!(names, vec!["first", "second"]);
}

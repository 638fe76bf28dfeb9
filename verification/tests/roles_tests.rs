use kronos::roles::{
    apply_toggle, button_component, construct_components, contains_id, get_index, plan_toggle,
    toggle_direction, ButtonStyleKind, RoleInfo, ToggleAction,
};

fn make_role(id: u64, name: &str) -> RoleInfo {
    RoleInfo { id, name: name.to_string() }
}

#[test]
fn toggle_of_held_role_plans_a_remove() {
    let member = vec![1, 3];
    let enabled = vec![1, 2, 3];
    let plan = plan_toggle(&enabled, &member, 1).expect("enabled role must be planned");
    assert_eq!(plan.action, ToggleAction::RemoveRole);
    assert_eq!(plan.updated_roles, vec![3]);
}

#[test]
fn toggle_of_lacked_role_plans_an_add_and_prepends() {
    let member = vec![1, 3];
    let enabled = vec![1, 2, 3];
    let plan = plan_toggle(&enabled, &member, 2).expect("enabled role must be planned");
    assert_eq!(plan.action, ToggleAction::AddRole);
    assert_eq!(plan.updated_roles, vec![2, 1, 3]);
}

#[test]
fn toggle_of_role_outside_allow_list_plans_nothing() {
    let member = vec![1, 3];
    let enabled = vec![1, 2, 3];
    assert!(plan_toggle(&enabled, &member, 9).is_none());
}

#[test]
fn toggle_direction_follows_membership() {
    let member = vec![5, 6];
    assert_eq!(toggle_direction(&member, 5), ToggleAction::RemoveRole);
    assert_eq!(toggle_direction(&member, 7), ToggleAction::AddRole);
}

#[test]
fn apply_toggle_removes_only_the_first_occurrence() {
    let member = vec![5, 6, 5];
    assert_eq!(apply_toggle(&member, 5), vec![6, 5]);
}

#[test]
fn apply_toggle_prepends_a_new_role() {
    let member = vec![5, 6];
    assert_eq!(apply_toggle(&member, 7), vec![7, 5, 6]);
}

#[test]
fn get_index_finds_the_first_occurrence() {
    let member = vec![5, 6, 5];
    assert_eq!(get_index(5, &member), Some(0));
    assert_eq!(get_index(6, &member), Some(1));
    assert_eq!(get_index(9, &member), None);
}

#[test]
fn contains_id_reports_membership() {
    let v = vec![4, 5];
    assert!(contains_id(&v, 4));
    assert!(!contains_id(&v, 6));
}

#[test]
fn button_shows_membership_and_carries_the_role() {
    let member = vec![10];
    let b = button_component(&make_role(10, "gamer"), &member);
    assert_eq!(b.custom_id, "10");
    assert_eq!(b.label, "gamer");
    assert_eq!(b.style, ButtonStyleKind::Success);
    let b2 = button_component(&make_role(11, "afk"), &member);
    assert_eq!(b2.custom_id, "11");
    assert_eq!(b2.style, ButtonStyleKind::Secondary);
}

#[test]
fn buttons_are_laid_out_in_rows_of_five() {
    let roles: Vec<RoleInfo> = (1..=7).map(|i| make_role(i, &format!("r{}", i))).collect();
    let member = vec![2, 7];
    let rows = construct_components(&roles, &member);
    assert_eq!(rows.len(), 2);
    assert_eq!(rows[0].buttons.len(), 5);
    assert_eq!(rows[1].buttons.len(), 2);
    assert_eq!(rows[0].buttons[0].custom_id, "1");
    assert_eq!(rows[0].buttons[4].custom_id, "5");
    assert_eq!(rows[1].buttons[1].custom_id, "7");
    assert_eq!(rows[0].buttons[1].style, ButtonStyleKind::Success);
    assert_eq!(rows[0].buttons[0].style, ButtonStyleKind::Secondary);
    assert_eq!(rows[1].buttons[1].style, ButtonStyleKind::Success);
}

#[test]
fn no_roles_lay_out_as_no_rows() {
    let roles: Vec<RoleInfo> = Vec::new();
    let member = vec![1];
    assert!(construct_components(&roles, &member).is_empty());
}

#[test]
fn exactly_five_roles_fill_one_row() {
    let roles: Vec<RoleInfo> = (1..=5).map(|i| make_role(i, "x")).collect();
    let member = Vec::new();
    let rows = construct_components(&roles, &member);
    assert_eq!(rows.len(), 1);
    assert_eq!(rows[0].buttons.len(), 5);
}

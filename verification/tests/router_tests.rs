use kronos::commands::Commands;
use kronos::component::{handle_component, ComponentDecision};
use kronos::interaction::{
    handle_interaction, InteractionContext, InteractionPayload, RoutedAction,
};
use kronos::roles::ToggleAction;
use kronos::store::GuildStore;

fn command_ctx(name: &str) -> InteractionContext {
    InteractionContext {
        interaction_id: 1,
        interaction_token: "token".to_string(),
        guild_id: Some(7),
        member_roles: Some(vec![1, 3]),
        payload: Some(InteractionPayload::ApplicationCommand {
            name: name.to_string(),
            options: Vec::new(),
        }),
    }
}

fn component_ctx(custom_id: &str, guild_id: Option<u64>) -> InteractionContext {
    InteractionContext {
        interaction_id: 2,
        interaction_token: "token".to_string(),
        guild_id,
        member_roles: Some(vec![1, 3]),
        payload: Some(InteractionPayload::MessageComponent {
            custom_id: custom_id.to_string(),
        }),
    }
}

fn store_with_enabled(guild: u64, roles: &[u64]) -> GuildStore {
    let mut store = GuildStore::new();
    store.create_guild(guild);
    for r in roles {
        store.enable_role_for_roles_command(guild, *r).unwrap();
    }
    store
}

#[test]
fn about_routes_to_the_about_handler() {
    let store = GuildStore::new();
    let r = handle_interaction(&command_ctx("about"), &store);
    assert!(matches!(r, RoutedAction::RunCommand(Commands::About)));
}

#[test]
fn every_registered_name_routes_to_its_handler() {
    let store = GuildStore::new();
    let cases = [
        ("about", Commands::About),
        ("changelog", Commands::Changelog),
        ("latency", Commands::Latency),
        ("roles", Commands::Roles),
        ("server", Commands::Server),
        ("setup", Commands::Setup),
        ("verify", Commands::Verify),
    ];
    for (name, expected) in cases {
        match handle_interaction(&command_ctx(name), &store) {
            RoutedAction::RunCommand(c) => assert_eq!(c, expected),
            _ => panic!("{} must route to a handler", name),
        }
    }
}

#[test]
fn unknown_command_routes_to_no_handler() {
    let store = GuildStore::new();
    let r = handle_interaction(&command_ctx("nonexistent"), &store);
    assert!(matches!(r, RoutedAction::UnknownCommand));
}

#[test]
fn parse_accepts_exactly_the_seven_names() {
    assert_eq!(Commands::parse("roles"), Some(Commands::Roles));
    assert_eq!(Commands::parse("Roles"), None);
    assert_eq!(Commands::parse(""), None);
    assert_eq!(Commands::parse("rolesx"), None);
}

#[test]
fn component_toggle_of_enabled_role_is_planned() {
    let store = store_with_enabled(7, &[1, 2]);
    match handle_interaction(&component_ctx("1", Some(7)), &store) {
        RoutedAction::ComponentToggle { role_id, plan } => {
            assert_eq!(role_id, 1);
            assert_eq!(plan.action, ToggleAction::RemoveRole);
            assert_eq!(plan.updated_roles, vec![3]);
        },
        _ => panic!("enabled role must plan a toggle"),
    }
}

#[test]
fn component_toggle_of_lacked_enabled_role_plans_an_add() {
    let store = store_with_enabled(7, &[1, 2]);
    match handle_interaction(&component_ctx("2", Some(7)), &store) {
        RoutedAction::ComponentToggle { role_id, plan } => {
            assert_eq!(role_id, 2);
            assert_eq!(plan.action, ToggleAction::AddRole);
            assert_eq!(plan.updated_roles, vec![2, 1, 3]);
        },
        _ => panic!("enabled role must plan a toggle"),
    }
}

#[test]
fn component_outside_a_guild_is_a_silent_noop() {
    let store = store_with_enabled(7, &[1]);
    let mut ctx = component_ctx("1", None);
    ctx.member_roles = None;
    let r = handle_interaction(&ctx, &store);
    assert!(matches!(r, RoutedAction::ComponentNoGuild));
}

#[test]
fn malformed_component_identifier_is_a_logged_noop() {
    let store = store_with_enabled(7, &[1]);
    for bad in ["abc", "", "+", "-3", "1x", "0", "18446744073709551616"] {
        let r = handle_interaction(&component_ctx(bad, Some(7)), &store);
        assert!(
            matches!(r, RoutedAction::ComponentParseAnomaly),
            "{:?} must be a parse anomaly",
            bad
        );
    }
}

#[test]
fn stale_component_identifier_fails_closed() {
    let store = store_with_enabled(7, &[1]);
    let r = handle_interaction(&component_ctx("99", Some(7)), &store);
    assert!(matches!(r, RoutedAction::ComponentNotEnabled));
}

#[test]
fn component_for_guild_without_record_fails_closed() {
    let store = GuildStore::new();
    let r = handle_interaction(&component_ctx("1", Some(7)), &store);
    assert!(matches!(r, RoutedAction::ComponentNotEnabled));
}

#[test]
fn modal_and_missing_payloads_are_ignored() {
    let store = GuildStore::new();
    let mut ctx = command_ctx("about");
    ctx.payload = Some(InteractionPayload::ModalSubmit);
    assert!(matches!(handle_interaction(&ctx, &store), RoutedAction::Ignore));
    ctx.payload = Some(InteractionPayload::OtherInteraction);
    assert!(matches!(handle_interaction(&ctx, &store), RoutedAction::Ignore));
    ctx.payload = None;
    assert!(matches!(handle_interaction(&ctx, &store), RoutedAction::Ignore));
}

#[test]
fn handle_component_decides_the_same_as_the_router() {
    let store = store_with_enabled(7, &[4]);
    let member = vec![4];
    match handle_component("4", Some(7), &member, &store) {
        ComponentDecision::Toggle { role_id, plan } => {
            assert_eq!(role_id, 4);
            assert_eq!(plan.action, ToggleAction::RemoveRole);
            assert_eq!(plan.updated_roles, Vec::<u64>::new());
        },
        _ => panic!("enabled role must toggle"),
    }
    assert!(matches!(
        handle_component("4", None, &member, &store),
        ComponentDecision::NoGuild
    ));
}

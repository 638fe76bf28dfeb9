use kronos::changelog::{builtin_changelog, select_version, Changelog, ChangelogEntry};
use kronos::interaction::{CommandError, CommandOption, OptionValue};

fn version_option(value: OptionValue) -> Vec<CommandOption> {
    vec![CommandOption { name: "version".to_string(), value }]
}

#[test]
fn no_option_defaults_to_the_build_version() {
    let changelog = builtin_changelog();
    let options: Vec<CommandOption> = Vec::new();
    let v = select_version(&options, &changelog, "0.2.0").unwrap();
    assert_eq!(v, "0.2.0");
}

#[test]
fn list_is_accepted_and_lists_all_known_versions() {
    let changelog = builtin_changelog();
    let options = version_option(OptionValue::StrVal("list".to_string()));
    let v = select_version(&options, &changelog, "0.2.0").unwrap();
    assert_eq!(v, "list");
    assert_eq!(changelog.version_list_text(), "Available versions:\n0.1.0\n0.2.0");
}

#[test]
fn known_version_is_accepted() {
    let changelog = builtin_changelog();
    let options = version_option(OptionValue::StrVal("0.1.0".to_string()));
    let v = select_version(&options, &changelog, "0.2.0").unwrap();
    assert_eq!(v, "0.1.0");
}

#[test]
fn unknown_version_falls_back_to_the_build_version() {
    let changelog = builtin_changelog();
    let options = version_option(OptionValue::StrVal("9.9.9".to_string()));
    let v = select_version(&options, &changelog, "0.2.0").unwrap();
    assert_eq!(v, "0.2.0");
}

#[test]
fn wrongly_named_option_falls_back_to_the_build_version() {
    let changelog = builtin_changelog();
    let options = vec![CommandOption {
        name: "verson".to_string(),
        value: OptionValue::StrVal("0.1.0".to_string()),
    }];
    let v = select_version(&options, &changelog, "0.2.0").unwrap();
    assert_eq!(v, "0.2.0");
}

#[test]
fn wrong_option_value_type_is_a_command_failure() {
    let changelog = builtin_changelog();
    let options = version_option(OptionValue::RoleVal(5));
    assert_eq!(
        select_version(&options, &changelog, "0.2.0"),
        Err(CommandError::WrongOptionType)
    );
}

#[test]
fn find_version_returns_the_first_match() {
    let changelog = builtin_changelog();
    assert_eq!(changelog.find_version("0.1.0"), Some(0));
    assert_eq!(changelog.find_version("0.2.0"), Some(1));
    assert_eq!(changelog.find_version("0.3.0"), None);
    assert!(changelog.known_version("0.2.0"));
    assert!(!changelog.known_version("list"));
}

#[test]
fn version_keys_keep_display_order() {
    let changelog = Changelog {
        entries: vec![
            ChangelogEntry {
                version: "2.0.0".to_string(),
                new_entries: Some(vec!["a feature".to_string()]),
                updated_entries: None,
                removed_entries: None,
            },
            ChangelogEntry {
                version: "1.0.0".to_string(),
                new_entries: None,
                updated_entries: None,
                removed_entries: None,
            },
        ],
    };
    let keys = changelog.version_keys();
    assert_eq!(keys, vec!["2.0.0".to_string(), "1.0.0".to_string()]);
    assert_eq!(changelog.version_list_text(), "Available versions:\n2.0.0\n1.0.0");
}

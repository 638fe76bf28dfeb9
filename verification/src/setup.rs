//! The setup command: administration of the guild's enabled-roles
//! allow-list through a nested `roles enable|disable|list` option tree.

use vstd::prelude::*;
use crate::guild::{disable_step, enable_step};
use crate::interaction::{CommandOption, OptionValue};
use crate::store::{GuildStore, StoreError};
use crate::text::str_eq;

verus! {

/// What a setup invocation's option tree asks for.
#[derive(Clone, Copy, Debug, PartialEq, Eq, Structural)]
pub enum SetupAction {
    /// Add this role to the allow-list.
    EnableRole(u64),
    /// Remove this role from the allow-list.
    DisableRole(u64),
    /// List the enabled roles.
    ListRoles,
    /// Any other shape of the option tree: a protocol anomaly, logged and
    /// dropped without an action.
    SetupAnomaly,
}

/// The action a setup option tree denotes: the first option must be the
/// `roles` sub-command group, whose first entry selects `enable`,
/// `disable` (each with a role as the first option of a sub-command) or
/// `list`. Every malformed shape denotes the anomaly case.
pub open spec fn spec_setup_action(options: Seq<CommandOption>) -> SetupAction {
    if options.len() == 0 {
        SetupAction::SetupAnomaly
    } else if options[0].name@ != "roles"@ {
        SetupAction::SetupAnomaly
    } else {
        match options[0].value {
            OptionValue::SubCommandGroup(group) => {
                if group@.len() == 0 {
                    SetupAction::SetupAnomaly
                } else {
                    let o = group@[0];
                    if o.name@ == "enable"@ {
                        spec_roles_update_action(o.value, true)
                    } else if o.name@ == "disable"@ {
                        spec_roles_update_action(o.value, false)
                    } else if o.name@ == "list"@ {
                        SetupAction::ListRoles
                    } else {
                        SetupAction::SetupAnomaly
                    }
                }
            },
            _ => SetupAction::SetupAnomaly,
        }
    }
}

/// The action an `enable` or `disable` entry denotes: a sub-command whose
/// first option carries a role.
pub open spec fn spec_roles_update_action(value: OptionValue, activate: bool) -> SetupAction {
    match value {
        OptionValue::SubCommand(command) => {
            if command@.len() == 0 {
                SetupAction::SetupAnomaly
            } else {
                match command@[0].value {
                    OptionValue::RoleVal(role) => if activate {
                        SetupAction::EnableRole(role)
                    } else {
                        SetupAction::DisableRole(role)
                    },
                    _ => SetupAction::SetupAnomaly,
                }
            }
        },
        _ => SetupAction::SetupAnomaly,
    }
}

fn roles_update_action(o: &CommandOption, activate: bool) -> (a: SetupAction)
    ensures
        a == spec_roles_update_action(o.value, activate),
{
    match &o.value {
        OptionValue::SubCommand(command) => {
            if command.len() == 0 {
                return SetupAction::SetupAnomaly;
            }
            match &command[0].value {
                OptionValue::RoleVal(role) => {
                    if activate {
                        SetupAction::EnableRole(*role)
                    } else {
                        SetupAction::DisableRole(*role)
                    }
                },
                _ => SetupAction::SetupAnomaly,
            }
        },
        _ => SetupAction::SetupAnomaly,
    }
}

/// Reads the action out of a setup invocation's option tree.
pub fn setup_action(options: &Vec<CommandOption>) -> (a: SetupAction)
    ensures
        a == spec_setup_action(options@),
{
    if options.len() == 0 {
        return SetupAction::SetupAnomaly;
    }
    let first = &options[0];
    if !str_eq(first.name.as_str(), "roles") {
        return SetupAction::SetupAnomaly;
    }
    match &first.value {
        OptionValue::SubCommandGroup(group) => {
            if group.len() == 0 {
                return SetupAction::SetupAnomaly;
            }
            let o = &group[0];
            if str_eq(o.name.as_str(), "enable") {
                roles_update_action(o, true)
            } else if str_eq(o.name.as_str(), "disable") {
                roles_update_action(o, false)
            } else if str_eq(o.name.as_str(), "list") {
                SetupAction::ListRoles
            } else {
                SetupAction::SetupAnomaly
            }
        },
        _ => SetupAction::SetupAnomaly,
    }
}

/// The text of a `roles list` response: one role mention per line, in the
/// allow-list's order.
pub fn roles_list_text(roles: &Vec<crate::roles::RoleInfo>) -> (s: String)
    ensures
        s@ == crate::text::spec_join(
            roles@.map_values(
                |r: crate::roles::RoleInfo| "<@&"@ + crate::text::spec_dec(r.id as nat) + ">"@,
            ),
            "\n"@,
        ),
{
    let ghost views: Seq<Seq<char>> = roles@.map_values(
        |r: crate::roles::RoleInfo| "<@&"@ + crate::text::spec_dec(r.id as nat) + ">"@,
    );
    let mut s = String::new();
    let mut i: usize = 0;
    while i < roles.len()
        invariant
            i <= roles@.len(),
            views == roles@.map_values(
                |r: crate::roles::RoleInfo| "<@&"@ + crate::text::spec_dec(r.id as nat) + ">"@,
            ),
            views.len() == roles@.len(),
            s@ == crate::text::spec_join(views.take(i as int), "\n"@),
        decreases roles@.len() - i,
    {
        if i > 0 {
            s.append("\n");
        }
        let mention = crate::text::role_mention(roles[i].id);
        s.append(mention.as_str());
        proof {
            assert(views.take(i + 1).drop_last() =~= views.take(i as int));
            assert(views.take(i + 1).last() == views[i as int]);
            if i == 0 {
                assert(s@ =~= crate::text::spec_join(views.take(i + 1), "\n"@));
            }
        }
        i += 1;
    }
    proof {
        assert(views.take(roles@.len() as int) =~= views);
    }
    s
}

/// A failure of the allow-list update path.
#[derive(Clone, Copy, Debug, PartialEq, Eq, Structural)]
pub enum SetupError {
    /// The command arrived without a guild id although it is guild-only.
    MissingGuildId,
    /// The guild has no config record yet.
    Store(StoreError),
}

/// Applies a `roles enable` or `roles disable` to the guild's allow-list:
/// a read-modify-write of the full record through the store. Returns
/// whether the role was enabled, so the response can say which it was.
pub fn exec_roles_update(
    activate: bool,
    role: u64,
    guild_id: Option<u64>,
    store: &mut GuildStore,
) -> (r: Result<bool, SetupError>)
    requires
        old(store).wf(),
    ensures
        final(store).wf(),
        match r {
            Ok(enabled) => {
                &&& enabled == activate
                &&& guild_id matches Some(g)
                &&& old(store)@.dom().contains(g)
                &&& final(store)@ == old(store)@.insert(
                    g,
                    if activate {
                        enable_step(old(store)@[g], role)
                    } else {
                        disable_step(old(store)@[g], role)
                    },
                )
            },
            Err(SetupError::MissingGuildId) => guild_id is None && final(store)@ == old(store)@,
            Err(SetupError::Store(e)) => {
                &&& e == StoreError::NotFound
                &&& guild_id matches Some(g)
                &&& !old(store)@.dom().contains(g)
                &&& final(store)@ == old(store)@
            },
        },
{
    let g = match guild_id {
        None => {
            return Err(SetupError::MissingGuildId);
        },
        Some(g) => g,
    };
    let result = if activate {
        store.enable_role_for_roles_command(g, role)
    } else {
        store.disable_role_for_roles_command(g, role)
    };
    match result {
        Ok(_) => Ok(activate),
        Err(e) => Err(SetupError::Store(e)),
    }
}

} // verus!

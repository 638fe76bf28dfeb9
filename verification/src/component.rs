//! The component-activation path of the router: parse the opaque component
//! identifier as a role id, validate it against the guild's allow-list,
//! and plan the toggle. Everything that can go wrong fails closed.

use vstd::prelude::*;
use crate::roles::{plan_toggle, toggle_result, ToggleAction, TogglePlan};
use crate::store::{enabled_ids_of, GuildStore};
use crate::text::{is_u64_numeral, numeral_value, parse_u64};

verus! {

/// What the component path decided for one activation.
pub enum ComponentDecision {
    /// The activation arrived outside a guild: a silent no-op, the
    /// self-role feature is guild-only.
    NoGuild,
    /// The component identifier does not parse as a role id: a stale or
    /// tampered UI element, logged and dropped.
    ParseAnomaly,
    /// The role id parses but is not in the guild's allow-list: a stale
    /// button, silently dropped.
    NotEnabled,
    /// A valid, enabled role id: issue the planned mutation and redraw.
    Toggle { role_id: u64, plan: TogglePlan },
}

/// Decides one component activation. A toggle is planned exactly when the
/// activation is in a guild, the identifier is a positive 64-bit decimal
/// numeral, and the denoted role is in the guild's stored allow-list.
pub fn handle_component(
    custom_id: &str,
    guild_id: Option<u64>,
    member_roles: &Vec<u64>,
    store: &GuildStore,
) -> (d: ComponentDecision)
    requires
        store.wf(),
    ensures
        match d {
            ComponentDecision::NoGuild => guild_id is None,
            ComponentDecision::ParseAnomaly => guild_id is Some && (!is_u64_numeral(custom_id@)
                || numeral_value(custom_id@) == 0),
            ComponentDecision::NotEnabled => {
                &&& guild_id matches Some(g)
                &&& is_u64_numeral(custom_id@)
                &&& numeral_value(custom_id@) != 0
                &&& !enabled_ids_of(store@, g).contains(numeral_value(custom_id@) as u64)
            },
            ComponentDecision::Toggle { role_id, plan } => {
                &&& guild_id matches Some(g)
                &&& is_u64_numeral(custom_id@)
                &&& role_id as int == numeral_value(custom_id@)
                &&& role_id != 0
                &&& enabled_ids_of(store@, g).contains(role_id)
                &&& (plan.action == ToggleAction::RemoveRole) == member_roles@.contains(role_id)
                &&& plan.updated_roles@ == toggle_result(member_roles@, role_id)
            },
        },
{
    let g = match guild_id {
        None => {
            return ComponentDecision::NoGuild;
        },
        Some(g) => g,
    };
    let role_id = match parse_u64(custom_id) {
        None => {
            return ComponentDecision::ParseAnomaly;
        },
        Some(v) => v,
    };
    if role_id == 0 {
        return ComponentDecision::ParseAnomaly;
    }
    let enabled = store.get_enabled_roles_ids(g);
    match plan_toggle(&enabled, member_roles, role_id) {
        None => ComponentDecision::NotEnabled,
        Some(plan) => ComponentDecision::Toggle { role_id, plan },
    }
}

} // verus!

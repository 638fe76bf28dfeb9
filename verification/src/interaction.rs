//! The interaction model and the router that classifies an inbound
//! interaction and forwards it to the command registry or to the
//! role-toggle reconciler.

use vstd::prelude::*;
use crate::commands::{spec_parse, Commands};
use crate::component::{handle_component, ComponentDecision};
use crate::store::GuildStore;

verus! {

/// Colors used with embeds.
pub struct Colors;

impl Colors {
    pub const RED: u32 = 0xc90202;

    pub const YELLOW: u32 = 0xf5cc00;

    pub const GREEN: u32 = 0x308001;
}

/// A command handler's failure on a malformed payload.
#[derive(Clone, Copy, Debug, PartialEq, Eq, Structural)]
pub enum CommandError {
    /// An option carried a value of the wrong type: a protocol anomaly,
    /// logged at the dispatch boundary.
    WrongOptionType,
}

/// One typed option of a command invocation, as the logic reads it.
pub struct CommandOption {
    pub name: String,
    pub value: OptionValue,
}

/// The value of a command option.
pub enum OptionValue {
    /// A string argument.
    StrVal(String),
    /// A role argument, carried as the role id.
    RoleVal(u64),
    /// A sub-command with its own options.
    SubCommand(Vec<CommandOption>),
    /// A group of sub-commands.
    SubCommandGroup(Vec<CommandOption>),
    /// Any option kind the logic has no use for.
    OtherVal,
}

/// The payload of one inbound interaction.
pub enum InteractionPayload {
    /// A named command invocation with typed option values.
    ApplicationCommand { name: String, options: Vec<CommandOption> },
    /// A UI-component activation carrying an opaque component identifier.
    MessageComponent { custom_id: String },
    /// A modal submission; accepted and intentionally ignored.
    ModalSubmit,
    /// Any other payload kind; accepted and intentionally ignored.
    OtherInteraction,
}

/// One inbound interaction: correlation handles for the single response it
/// is owed, its guild context, the invoking member's role snapshot at
/// interaction time, and the payload.
pub struct InteractionContext {
    pub interaction_id: u64,
    pub interaction_token: String,
    pub guild_id: Option<u64>,
    pub member_roles: Option<Vec<u64>>,
    pub payload: Option<InteractionPayload>,
}

impl InteractionContext {
    /// In a guild context the platform always delivers the invoking
    /// member's snapshot along with the interaction.
    pub open spec fn wf(&self) -> bool {
        self.guild_id is Some ==> self.member_roles is Some
    }
}

/// What the router decided for one interaction.
pub enum RoutedAction {
    /// A command payload whose name is registered: run this handler.
    RunCommand(Commands),
    /// A command payload with an unregistered name: a protocol anomaly,
    /// logged and dropped without a handler and without a remote call.
    UnknownCommand,
    /// A component activation that toggles an enabled role: issue the
    /// planned remote mutation and redraw the buttons from the updated
    /// snapshot.
    ComponentToggle { role_id: u64, plan: crate::roles::TogglePlan },
    /// A component activation outside a guild: a silent no-op.
    ComponentNoGuild,
    /// A component identifier that does not parse as a role id: a logged
    /// no-op.
    ComponentParseAnomaly,
    /// A parsed role id outside the guild's allow-list: fail closed, a
    /// silent no-op.
    ComponentNotEnabled,
    /// No payload, a modal submission, or another payload kind: ignored.
    Ignore,
}

/// Classifies one interaction and runs it through the command registry's
/// lookup or the component path's allow-list check and toggle planning.
/// No remote call is planned except for an enabled role toggle.
pub fn handle_interaction(ctx: &InteractionContext, store: &GuildStore) -> (r: RoutedAction)
    requires
        store.wf(),
        ctx.wf(),
    ensures
        match r {
            RoutedAction::RunCommand(c) => ctx.payload matches Some(
                InteractionPayload::ApplicationCommand { name, .. },
            ) && spec_parse(name@) == Some(c),
            RoutedAction::UnknownCommand => ctx.payload matches Some(
                InteractionPayload::ApplicationCommand { name, .. },
            ) && spec_parse(name@) is None,
            RoutedAction::ComponentToggle { role_id, plan } => {
                &&& ctx.payload matches Some(InteractionPayload::MessageComponent { custom_id })
                &&& ctx.guild_id matches Some(g)
                &&& ctx.member_roles matches Some(member)
                &&& crate::text::is_u64_numeral(custom_id@)
                &&& role_id as int == crate::text::numeral_value(custom_id@)
                &&& role_id != 0
                &&& crate::store::enabled_ids_of(store@, g).contains(role_id)
                &&& (plan.action == crate::roles::ToggleAction::RemoveRole) == member@.contains(
                    role_id,
                )
                &&& plan.updated_roles@ == crate::roles::toggle_result(member@, role_id)
            },
            RoutedAction::ComponentNoGuild => ctx.payload matches Some(
                InteractionPayload::MessageComponent { .. },
            ) && ctx.guild_id is None,
            RoutedAction::ComponentParseAnomaly => {
                &&& ctx.payload matches Some(InteractionPayload::MessageComponent { custom_id })
                &&& ctx.guild_id is Some
                &&& (!crate::text::is_u64_numeral(custom_id@) || crate::text::numeral_value(
                    custom_id@,
                ) == 0)
            },
            RoutedAction::ComponentNotEnabled => {
                &&& ctx.payload matches Some(InteractionPayload::MessageComponent { custom_id })
                &&& ctx.guild_id matches Some(g)
                &&& crate::text::is_u64_numeral(custom_id@)
                &&& crate::text::numeral_value(custom_id@) != 0
                &&& !crate::store::enabled_ids_of(store@, g).contains(
                    crate::text::numeral_value(custom_id@) as u64,
                )
            },
            RoutedAction::Ignore => match ctx.payload {
                None => true,
                Some(InteractionPayload::ModalSubmit) => true,
                Some(InteractionPayload::OtherInteraction) => true,
                _ => false,
            },
        },
{
    match &ctx.payload {
        None => RoutedAction::Ignore,
        Some(InteractionPayload::ApplicationCommand { name, .. }) => {
            match Commands::parse(name.as_str()) {
                Some(c) => RoutedAction::RunCommand(c),
                None => RoutedAction::UnknownCommand,
            }
        },
        Some(InteractionPayload::MessageComponent { custom_id }) => {
            let member_roles: &Vec<u64> = match &ctx.member_roles {
                Some(m) => m,
                None => {
                    return RoutedAction::ComponentNoGuild;
                },
            };
            match handle_component(custom_id.as_str(), ctx.guild_id, member_roles, store) {
                ComponentDecision::NoGuild => RoutedAction::ComponentNoGuild,
                ComponentDecision::ParseAnomaly => RoutedAction::ComponentParseAnomaly,
                ComponentDecision::NotEnabled => RoutedAction::ComponentNotEnabled,
                ComponentDecision::Toggle { role_id, plan } => RoutedAction::ComponentToggle {
                    role_id,
                    plan,
                },
            }
        },
        Some(InteractionPayload::ModalSubmit) => RoutedAction::Ignore,
        Some(InteractionPayload::OtherInteraction) => RoutedAction::Ignore,
    }
}

} // verus!

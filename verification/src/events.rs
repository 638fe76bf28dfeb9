//! The event dispatcher: classifies each decoded event from the transport
//! and decides what unit of work it spawns. Consumption order is the
//! dispatcher's only ordering guarantee: the i-th decision belongs to the
//! i-th event; the spawned work completes in no particular order.

use vstd::prelude::*;
use crate::interaction::InteractionContext;

verus! {

/// One decoded event from the transport, as the dispatcher reads it.
pub enum GatewayEvent {
    /// A user interaction arrived: route it.
    InteractionCreate(InteractionContext),
    /// A guild came into view: its config record may not exist yet.
    GuildCreate(u64),
    /// A transport shard disconnected, with an optional reason.
    ShardDisconnected { shard_id: u64, reason: Option<String> },
    /// Any of the many event kinds the agent has no business logic for.
    OtherEvent,
}

/// The dispatcher's decision for one event.
pub enum EventAction {
    /// Spawn an independent unit of work that routes this interaction,
    /// without blocking consumption of the next event.
    SpawnInteraction(InteractionContext),
    /// Fire-and-forget an idempotent create of this guild's config record.
    CreateGuildRecord(u64),
    /// Log the disconnect, as a warning when a reason came along and as an
    /// error when none did.
    LogDisconnect { shard_id: u64, with_reason: bool },
    /// Nothing to do.
    Ignore,
}

/// The action each event kind maps to.
pub open spec fn spec_event_action(e: GatewayEvent) -> EventAction {
    match e {
        GatewayEvent::InteractionCreate(ctx) => EventAction::SpawnInteraction(ctx),
        GatewayEvent::GuildCreate(g) => EventAction::CreateGuildRecord(g),
        GatewayEvent::ShardDisconnected { shard_id, reason } => EventAction::LogDisconnect {
            shard_id,
            with_reason: reason is Some,
        },
        GatewayEvent::OtherEvent => EventAction::Ignore,
    }
}

/// Decides what one event spawns.
pub fn handle_event(event: GatewayEvent) -> (a: EventAction)
    ensures
        a == spec_event_action(event),
{
    match event {
        GatewayEvent::InteractionCreate(ctx) => EventAction::SpawnInteraction(ctx),
        GatewayEvent::GuildCreate(g) => EventAction::CreateGuildRecord(g),
        GatewayEvent::ShardDisconnected { shard_id, reason } => EventAction::LogDisconnect {
            shard_id,
            with_reason: reason.is_some(),
        },
        GatewayEvent::OtherEvent => EventAction::Ignore,
    }
}

/// Consumes a finite run of events in arrival order: the i-th decision is
/// the decision for the i-th event, whether or not earlier spawned work
/// has completed.
pub fn dispatch_events(events: Vec<GatewayEvent>) -> (actions: Vec<EventAction>)
    ensures
        actions@.len() == events@.len(),
        forall|i: int|
            0 <= i < events@.len() ==> actions@[i] == spec_event_action(events@[i]),
{
    let ghost orig: Seq<GatewayEvent> = events@;
    let mut events = events;
    let mut actions: Vec<EventAction> = Vec::new();
    while events.len() > 0
        invariant
            actions@.len() + events@.len() == orig.len(),
            events@ =~= orig.skip(actions@.len() as int),
            forall|i: int|
                0 <= i < actions@.len() ==> actions@[i] == spec_event_action(orig[i]),
        decreases events@.len(),
    {
        let e = events.remove(0);
        proof {
            assert(e == orig[actions@.len() as int]);
        }
        let a = handle_event(e);
        actions.push(a);
        proof {
            assert(events@ =~= orig.skip(actions@.len() as int));
        }
    }
    actions
}

} // verus!

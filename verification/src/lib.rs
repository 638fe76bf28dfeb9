//! Interaction routing and role-toggle synchronization core for a chat
//! automation agent.
//!
//! The library models the agent's state and decisions: a per-guild
//! configuration store with an enabled-roles allow-list, a role-toggle
//! reconciler, a command registry, an interaction router, and an event
//! dispatcher. The surrounding process (event transport, outbound requests,
//! durable storage) lives outside the library and exchanges plain values
//! with it.

pub mod changelog;
pub mod commands;
pub mod component;
pub mod events;
pub mod guild;
pub mod interaction;
pub mod roles;
pub mod server;
pub mod setup;
pub mod store;
pub mod text;
pub mod verify;

use vstd::prelude::*;

verus! {

/// Process-wide configuration, loaded once at startup and passed by
/// reference into the components that need it.
#[allow(non_snake_case)]
pub struct Config {
    pub VERSION: String,
    pub AUTHOR_ID: u64,
    pub REPO: String,
    pub BOT_TOKEN: String,
    pub MONGO_USER: String,
    pub MONGO_PASSWORD: String,
    pub MONGO_CLUSTER: String,
    pub DATABASE_NAME: String,
}

} // verus!

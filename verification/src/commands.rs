//! The command registry: the closed set of supported commands and the
//! total parse from a wire name into it, with an explicit unrecognized
//! case handled once at the routing boundary.

use vstd::prelude::*;
use crate::text::str_eq;

verus! {

/// The commands the agent registers and serves.
#[derive(Clone, Copy, Debug, PartialEq, Eq, Structural)]
pub enum Commands {
    About,
    Changelog,
    Latency,
    Roles,
    Server,
    Setup,
    Verify,
}

/// The command a wire name denotes; an unregistered name denotes none.
pub open spec fn spec_parse(name: Seq<char>) -> Option<Commands> {
    if name == "about"@ {
        Some(Commands::About)
    } else if name == "changelog"@ {
        Some(Commands::Changelog)
    } else if name == "latency"@ {
        Some(Commands::Latency)
    } else if name == "roles"@ {
        Some(Commands::Roles)
    } else if name == "server"@ {
        Some(Commands::Server)
    } else if name == "setup"@ {
        Some(Commands::Setup)
    } else if name == "verify"@ {
        Some(Commands::Verify)
    } else {
        None
    }
}

impl Commands {
    /// Looks a wire name up in the registry. An unknown name is a protocol
    /// anomaly that the routing boundary logs and drops.
    pub fn parse(name: &str) -> (r: Option<Commands>)
        ensures
            r == spec_parse(name@),
    {
        if str_eq(name, "about") {
            Some(Commands::About)
        } else if str_eq(name, "changelog") {
            Some(Commands::Changelog)
        } else if str_eq(name, "latency") {
            Some(Commands::Latency)
        } else if str_eq(name, "roles") {
            Some(Commands::Roles)
        } else if str_eq(name, "server") {
            Some(Commands::Server)
        } else if str_eq(name, "setup") {
            Some(Commands::Setup)
        } else if str_eq(name, "verify") {
            Some(Commands::Verify)
        } else {
            None
        }
    }
}

} // verus!

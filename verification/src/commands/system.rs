//! `system`: the commands on all that is kept, under one name.

use vstd::prelude::*;

use crate::commands::events::EventsArgs;
use crate::commands::info::InfoArgs;
use crate::commands::system_prune::SystemPruneArgs;
use crate::commands::Command;

verus! {

/// Arguments of `system`.
pub struct SystemArgs {
    pub command: SystemCommand,
}

/// What stands behind `system`.
pub enum SystemCommand {
    /// Remove all unused data.
    Prune(SystemPruneArgs),
    /// Show system information.
    Info(InfoArgs),
    /// Stream events.
    Events(EventsArgs),
}

/// The command that is meant.
pub open spec fn meant(c: SystemCommand) -> Command {
    match c {
        SystemCommand::Prune(a) => Command::SystemPrune(a),
        SystemCommand::Info(a) => Command::Info(a),
        SystemCommand::Events(a) => Command::Events(a),
    }
}

/// The command that `system` stands for.
pub fn execute(args: SystemArgs) -> (r: Command)
    ensures
        r == meant(args.command),
{
    match args.command {
        SystemCommand::Prune(a) => Command::SystemPrune(a),
        SystemCommand::Info(a) => Command::Info(a),
        SystemCommand::Events(a) => Command::Events(a),
    }
}

} // verus!

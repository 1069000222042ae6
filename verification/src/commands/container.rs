//! `container`: the commands on boxes under one name.

use vstd::prelude::*;

use crate::commands::attach::AttachArgs;
use crate::commands::container_update::ContainerUpdateArgs;
use crate::commands::create::CreateArgs;
use crate::commands::diff::DiffArgs;
use crate::commands::exec::ExecArgs;
use crate::commands::export::ExportArgs;
use crate::commands::inspect::InspectArgs;
use crate::commands::kill::KillArgs;
use crate::commands::logs::LogsArgs;
use crate::commands::pause::PauseArgs;
use crate::commands::port::PortArgs;
use crate::commands::rename::RenameArgs;
use crate::commands::restart::RestartArgs;
use crate::commands::rm::RmArgs;
use crate::commands::start::StartArgs;
use crate::commands::stats::StatsArgs;
use crate::commands::stop::StopArgs;
use crate::commands::Command;

verus! {

/// Arguments of `container`.
pub struct ContainerArgs {
    pub command: ContainerCommand,
}

/// What stands behind `container`.
pub enum ContainerCommand {
    /// Create a new box without starting it.
    Create(CreateArgs),
    /// Start stopped or created boxes.
    Start(StartArgs),
    /// Gracefully stop running boxes.
    Stop(StopArgs),
    /// Restart boxes.
    Restart(RestartArgs),
    /// Remove boxes.
    Rm(RmArgs),
    /// Send a signal to running boxes.
    Kill(KillArgs),
    /// Pause running boxes.
    Pause(PauseArgs),
    /// Display detailed box information.
    Inspect(InspectArgs),
    /// View box logs.
    Logs(LogsArgs),
    /// Execute a command in a running box.
    Exec(ExecArgs),
    /// Display resource usage statistics.
    Stats(StatsArgs),
    /// Attach to a running box's console output.
    Attach(AttachArgs),
    /// Rename a box.
    Rename(RenameArgs),
    /// List port mappings for a box.
    Port(PortArgs),
    /// Export a box's file system to an archive.
    Export(ExportArgs),
    /// Show file system changes in a box.
    Diff(DiffArgs),
    /// Update resource limits of a box.
    Update(ContainerUpdateArgs),
}

/// The command that is meant.
pub open spec fn meant(c: ContainerCommand) -> Command {
    match c {
        ContainerCommand::Create(a) => Command::Create(a),
        ContainerCommand::Start(a) => Command::Start(a),
        ContainerCommand::Stop(a) => Command::Stop(a),
        ContainerCommand::Restart(a) => Command::Restart(a),
        ContainerCommand::Rm(a) => Command::Rm(a),
        ContainerCommand::Kill(a) => Command::Kill(a),
        ContainerCommand::Pause(a) => Command::Pause(a),
        ContainerCommand::Inspect(a) => Command::Inspect(a),
        ContainerCommand::Logs(a) => Command::Logs(a),
        ContainerCommand::Exec(a) => Command::Exec(a),
        ContainerCommand::Stats(a) => Command::Stats(a),
        ContainerCommand::Attach(a) => Command::Attach(a),
        ContainerCommand::Rename(a) => Command::Rename(a),
        ContainerCommand::Port(a) => Command::Port(a),
        ContainerCommand::Export(a) => Command::Export(a),
        ContainerCommand::Diff(a) => Command::Diff(a),
        ContainerCommand::Update(a) => Command::ContainerUpdate(a),
    }
}

/// The command that `container` stands for.
pub fn execute(args: ContainerArgs) -> (r: Command)
    ensures
        r == meant(args.command),
{
    match args.command {
        ContainerCommand::Create(a) => Command::Create(a),
        ContainerCommand::Start(a) => Command::Start(a),
        ContainerCommand::Stop(a) => Command::Stop(a),
        ContainerCommand::Restart(a) => Command::Restart(a),
        ContainerCommand::Rm(a) => Command::Rm(a),
        ContainerCommand::Kill(a) => Command::Kill(a),
        ContainerCommand::Pause(a) => Command::Pause(a),
        ContainerCommand::Inspect(a) => Command::Inspect(a),
        ContainerCommand::Logs(a) => Command::Logs(a),
        ContainerCommand::Exec(a) => Command::Exec(a),
        ContainerCommand::Stats(a) => Command::Stats(a),
        ContainerCommand::Attach(a) => Command::Attach(a),
        ContainerCommand::Rename(a) => Command::Rename(a),
        ContainerCommand::Port(a) => Command::Port(a),
        ContainerCommand::Export(a) => Command::Export(a),
        ContainerCommand::Diff(a) => Command::Diff(a),
        ContainerCommand::Update(a) => Command::ContainerUpdate(a),
    }
}

} // verus!

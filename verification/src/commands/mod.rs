//! The commands, one module each.

use vstd::prelude::*;

use crate::commands::exec::ExecArgs;

pub mod attach;
pub mod batch;
pub mod commit;
pub mod common;
pub mod compose;
pub mod compose_service;
pub mod compose_show;
pub mod compose_up;
pub mod container;
pub mod container_update;
pub mod cp;
pub mod create;
pub mod diff;
pub mod events;
pub mod exec;
pub mod export;
pub mod history;
pub mod image;
pub mod image_build;
pub mod image_inspect;
pub mod image_prune;
pub mod image_tag;
pub mod images;
pub mod import;
pub mod info;
pub mod inject_secret;
pub mod inspect;
pub mod kill;
pub mod load;
pub mod login;
pub mod logout;
pub mod logs;
pub mod monitor;
pub mod network;
pub mod pause;
pub mod port;
pub mod push;
pub mod rename;
pub mod restart;
pub mod rm;
pub mod rmi;
pub mod run;
pub mod save;
pub mod seal;
pub mod shell;
pub mod snapshot;
pub mod start;
pub mod stats;
pub mod stop;
pub mod store;
pub mod system;
pub mod system_prune;

verus! {

/// The command line.
pub struct Cli {
    pub command: Command,
}

/// A command.
pub enum Command {
    /// Create and start a new box from an image.
    Run(run::RunArgs),
    /// Create a new box without starting it.
    Create(create::CreateArgs),
    /// Start stopped or created boxes.
    Start(start::StartArgs),
    /// Gracefully stop running boxes.
    Stop(stop::StopArgs),
    /// Restart boxes.
    Restart(restart::RestartArgs),
    /// Remove boxes.
    Rm(rm::RmArgs),
    /// Commands on boxes, under one name.
    Container(container::ContainerArgs),
    /// Send a signal to running boxes.
    Kill(kill::KillArgs),
    /// Pause running boxes.
    Pause(pause::PauseArgs),
    /// Display resource usage statistics.
    Stats(stats::StatsArgs),
    /// View box logs.
    Logs(logs::LogsArgs),
    /// Execute a command in a running box.
    Exec(ExecArgs),
    /// Display detailed box information.
    Inspect(inspect::InspectArgs),
    /// Attach to a running box's console output.
    Attach(attach::AttachArgs),
    /// Seal data bound to a TEE's identity.
    Seal(seal::SealArgs),
    /// Inject secrets into a running TEE box.
    InjectSecret(inject_secret::InjectSecretArgs),
    /// Rename a box.
    Rename(rename::RenameArgs),
    /// List port mappings for a box.
    Port(port::PortArgs),
    /// Export a box's file system to an archive.
    Export(export::ExportArgs),
    /// Create an image from a box's changes.
    Commit(commit::CommitArgs),
    /// Show file system changes in a box.
    Diff(diff::DiffArgs),
    /// Stream events.
    Events(events::EventsArgs),
    /// Update resource limits of a box.
    ContainerUpdate(container_update::ContainerUpdateArgs),
    /// Manage workloads of several boxes with a compose file.
    Compose(compose::ComposeArgs),
    /// Manage snapshots.
    Snapshot(snapshot::SnapshotArgs),
    /// Build an image.
    Build(image_build::BuildArgs),
    /// List cached images.
    Images(images::ImagesArgs),
    /// Commands on images, under one name.
    Image(image::ImageArgs),
    /// Push an image to a registry.
    Push(push::PushArgs),
    /// Log in to a registry.
    Login(login::LoginArgs),
    /// Log out from a registry.
    Logout(logout::LogoutArgs),
    /// Remove cached images.
    Rmi(rmi::RmiArgs),
    /// Display detailed image information.
    ImageInspect(image_inspect::ImageInspectArgs),
    /// Show image layer history.
    History(history::HistoryArgs),
    /// Remove unused images.
    ImagePrune(image_prune::ImagePruneArgs),
    /// Create a tag that refers to an existing image.
    Tag(image_tag::ImageTagArgs),
    /// Save an image to an archive.
    Save(save::SaveArgs),
    /// Load an image from an archive.
    Load(load::LoadArgs),
    /// Create an image from an archive of a file system.
    Import(import::ImportArgs),
    /// Copy files between host and a running box.
    Cp(cp::CpArgs),
    /// Manage networks.
    Network(network::NetworkArgs),
    /// Commands on all that is kept, under one name.
    System(system::SystemArgs),
    /// Remove all unused data.
    SystemPrune(system_prune::SystemPruneArgs),
    /// Show system information.
    Info(info::InfoArgs),
    /// Watch boxes and restart dead ones.
    Monitor(monitor::MonitorArgs),
    /// Open a shell in a running box.
    Shell(shell::ShellArgs),
}

/// Whether a command names another one.
pub open spec fn is_namespace(c: Command) -> bool {
    c is Container || c is Image || c is System
}

/// The command that is meant: the one that a command names, or the command
/// itself.
pub open spec fn meant(c: Command) -> Command {
    match c {
        Command::Container(a) => container::meant(a.command),
        Command::Image(a) => image::meant(a.command),
        Command::System(a) => system::meant(a.command),
        _ => c,
    }
}

/// The command that a command line asks for.
pub fn dispatch(cli: Cli) -> (r: Command)
    ensures
        r == meant(cli.command),
        !is_namespace(r),
{
    match cli.command {
        Command::Container(a) => container::execute(a),
        Command::Image(a) => image::execute(a),
        Command::System(a) => system::execute(a),
        other => other,
    }
}

/// A command of a group is the command of the same name, with the same arguments; any
/// other is itself.
pub proof fn lemma_groups_mean_commands(
    start: start::StartArgs,
    stop: stop::StopArgs,
    rm: rm::RmArgs,
    kill: kill::KillArgs,
    rmi: rmi::RmiArgs,
    save: save::SaveArgs,
    load: load::LoadArgs,
    prune: system_prune::SystemPruneArgs,
    images: image_prune::ImagePruneArgs,
)
    ensures
        meant(Command::Container(container::ContainerArgs { command: container::ContainerCommand::Start(start) }))
            == Command::Start(start),
        meant(Command::Container(container::ContainerArgs { command: container::ContainerCommand::Stop(stop) }))
            == Command::Stop(stop),
        meant(Command::Container(container::ContainerArgs { command: container::ContainerCommand::Rm(rm) }))
            == Command::Rm(rm),
        meant(Command::Container(container::ContainerArgs { command: container::ContainerCommand::Kill(kill) }))
            == Command::Kill(kill),
        meant(Command::Image(image::ImageArgs { command: image::ImageCommand::Rm(rmi) })) == Command::Rmi(rmi),
        meant(Command::Image(image::ImageArgs { command: image::ImageCommand::Save(save) })) == Command::Save(
            save,
        ),
        meant(Command::Image(image::ImageArgs { command: image::ImageCommand::Load(load) })) == Command::Load(
            load,
        ),
        meant(Command::Image(image::ImageArgs { command: image::ImageCommand::Prune(images) }))
            == Command::ImagePrune(images),
        meant(Command::System(system::SystemArgs { command: system::SystemCommand::Prune(prune) }))
            == Command::SystemPrune(prune),
        meant(Command::Start(start)) == Command::Start(start),
        meant(Command::Rmi(rmi)) == Command::Rmi(rmi),
{
}

/// What is dispatched is a command that does something itself: one of a group becomes
/// the command it means, and any other stays as it is.
pub proof fn lemma_dispatched(cli: Cli, r: Command)
    requires
        call_ensures(dispatch, (cli,), r),
    ensures
        !(r is Container) && !(r is Image) && !(r is System),
        !(cli.command is Container) && !(cli.command is Image) && !(cli.command is System) ==> r
            == cli.command,
        cli.command matches Command::Container(a) ==> forall|c: Command| #[trigger]
            call_ensures(container::execute, (a,), c) ==> r == c,
        cli.command matches Command::Image(a) ==> forall|c: Command| #[trigger]
            call_ensures(image::execute, (a,), c) ==> r == c,
        cli.command matches Command::System(a) ==> forall|c: Command| #[trigger]
            call_ensures(system::execute, (a,), c) ==> r == c,
{
}

} // verus!

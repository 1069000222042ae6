//! Which command a command line asks for.

use a3s_box::commands::container::{ContainerArgs, ContainerCommand};
use a3s_box::commands::image::{ImageArgs, ImageCommand};
use a3s_box::commands::image_prune::ImagePruneArgs;
use a3s_box::commands::info::InfoArgs;
use a3s_box::commands::rm::RmArgs;
use a3s_box::commands::rmi::RmiArgs;
use a3s_box::commands::system::{SystemArgs, SystemCommand};
use a3s_box::commands::{dispatch, Cli, Command};

fn asked(command: Command) -> Command {
    dispatch(Cli { command })
}

#[test]
fn names_of_other_commands_lead_to_them() {
    let rm = ContainerCommand::Rm(RmArgs { boxes: vec!["web".to_string()], force: true });
    assert!(matches!(
        asked(Command::Container(ContainerArgs { command: rm })),
        Command::Rm(a) if a.force && a.boxes == vec!["web".to_string()]
    ));
    let rmi = ImageCommand::Rm(RmiArgs { images: vec!["nginx".to_string()], force: false });
    assert!(matches!(
        asked(Command::Image(ImageArgs { command: rmi })),
        Command::Rmi(a) if a.images == vec!["nginx".to_string()]
    ));
    let prune = ImageCommand::Prune(ImagePruneArgs { all: true, force: false });
    assert!(matches!(asked(Command::Image(ImageArgs { command: prune })), Command::ImagePrune(a) if a.all));
    let info = SystemCommand::Info(InfoArgs);
    assert!(matches!(asked(Command::System(SystemArgs { command: info })), Command::Info(_)));
}

#[test]
fn other_commands_are_meant_themselves() {
    let rm = Command::Rm(RmArgs { boxes: vec![], force: false });
    assert!(matches!(asked(rm), Command::Rm(a) if !a.force));
}

//! `image`: the commands on images under one name.

use vstd::prelude::*;

use crate::commands::history::HistoryArgs;
use crate::commands::image_inspect::ImageInspectArgs;
use crate::commands::image_prune::ImagePruneArgs;
use crate::commands::image_tag::ImageTagArgs;
use crate::commands::images::ImagesArgs;
use crate::commands::load::LoadArgs;
use crate::commands::push::PushArgs;
use crate::commands::rmi::RmiArgs;
use crate::commands::save::SaveArgs;
use crate::commands::Command;

verus! {

/// Arguments of `image`.
pub struct ImageArgs {
    pub command: ImageCommand,
}

/// What stands behind `image`.
pub enum ImageCommand {
    /// List cached images.
    Ls(ImagesArgs),
    /// Push an image to a registry.
    Push(PushArgs),
    /// Remove cached images.
    Rm(RmiArgs),
    /// Display detailed image information.
    Inspect(ImageInspectArgs),
    /// Show image layer history.
    History(HistoryArgs),
    /// Remove unused images.
    Prune(ImagePruneArgs),
    /// Create a tag that refers to an existing image.
    Tag(ImageTagArgs),
    /// Save an image to an archive.
    Save(SaveArgs),
    /// Load an image from an archive.
    Load(LoadArgs),
}

/// The command that is meant.
pub open spec fn meant(c: ImageCommand) -> Command {
    match c {
        ImageCommand::Ls(a) => Command::Images(a),
        ImageCommand::Push(a) => Command::Push(a),
        ImageCommand::Rm(a) => Command::Rmi(a),
        ImageCommand::Inspect(a) => Command::ImageInspect(a),
        ImageCommand::History(a) => Command::History(a),
        ImageCommand::Prune(a) => Command::ImagePrune(a),
        ImageCommand::Tag(a) => Command::Tag(a),
        ImageCommand::Save(a) => Command::Save(a),
        ImageCommand::Load(a) => Command::Load(a),
    }
}

/// The command that `image` stands for.
pub fn execute(args: ImageArgs) -> (r: Command)
    ensures
        r == meant(args.command),
{
    match args.command {
        ImageCommand::Ls(a) => Command::Images(a),
        ImageCommand::Push(a) => Command::Push(a),
        ImageCommand::Rm(a) => Command::Rmi(a),
        ImageCommand::Inspect(a) => Command::ImageInspect(a),
        ImageCommand::History(a) => Command::History(a),
        ImageCommand::Prune(a) => Command::ImagePrune(a),
        ImageCommand::Tag(a) => Command::Tag(a),
        ImageCommand::Save(a) => Command::Save(a),
        ImageCommand::Load(a) => Command::Load(a),
    }
}

} // verus!

//! The launch description of Forge-like loaders.
use vstd::prelude::*;

use crate::mojang::game_arg_obj::ArtifactObj;

verus! {


/// Download entries of a Forge library.
#[derive(Debug)]
pub struct ForgeDownloadsObj {
    pub artifact: ArtifactObj,
}

impl Default for ForgeDownloadsObj {
    fn default() -> (r: Self) {
        Self {
            artifact: ArtifactObj::default(),
        }
    }
}

/// A library of a Forge launch description.
#[derive(Debug)]
pub struct ForgeLibrariesObj {
    pub name: String,
    pub downloads: ForgeDownloadsObj,
}

impl Default for ForgeLibrariesObj {
    fn default() -> (r: Self)
        ensures
            r.name@ == Seq::<char>::empty(),
    {
        Self {
            name: String::new(),
            downloads: ForgeDownloadsObj::default(),
        }
    }
}

/// Game and JVM arguments of a Forge launch description.
#[derive(Debug)]
pub struct ForgeArgumentsObj {
    pub game: Vec<String>,
    pub jvm: Vec<String>,
}

impl Default for ForgeArgumentsObj {
    fn default() -> (r: Self)
        ensures
            r.game@.len() == 0,
            r.jvm@.len() == 0,
    {
        Self {
            game: Vec::new(),
            jvm: Vec::new(),
        }
    }
}

/// The launch description of a Forge or NeoForge version.
#[derive(Debug)]
pub struct ForgeLaunchObj {
    pub main_class: String,
    /// The game arguments of the first format, separated by spaces.
    pub minecraft_arguments: Option<String>,
    /// The arguments of the second format.
    pub arguments: Option<ForgeArgumentsObj>,
    pub libraries: Vec<ForgeLibrariesObj>,
}

impl Default for ForgeLaunchObj {
    fn default() -> (r: Self)
        ensures
            r.main_class@ == Seq::<char>::empty(),
            r.minecraft_arguments is None,
            r.arguments is None,
            r.libraries@.len() == 0,
    {
        Self {
            main_class: String::new(),
            minecraft_arguments: None,
            arguments: None,
            libraries: Vec::new(),
        }
    }
}

} // verus!

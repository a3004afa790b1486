//! The libraries folder as the earlier launcher API names it: the same paths, read
//! from owned strings.
use vstd::prelude::*;

use crate::file_item::PathObj;
use crate::launcher_path::libraries_path::{
    get_game_file as game_file, get_game_file_with_custom as game_file_with_custom,
    get_optifine_file as optifine_file, spec_game_file, spec_game_file_with_custom,
    spec_optifine_file, LibrariesPath,
};

pub use crate::launcher_path::libraries_path::LibVersionObj;

verus! {

/// The libraries folder.
pub fn get_base_dir(paths: &LibrariesPath) -> (r: PathObj)
    ensures
        r@ == paths.lib_dir@,
{
    paths.lib_dir.copy()
}

/// The game core of a version.
pub fn get_game_file(paths: &LibrariesPath, version: &String) -> (r: PathObj)
    ensures
        r@ == spec_game_file(paths.lib_dir@, version@),
{
    game_file(paths, version.as_str())
}

/// The game core of a custom version.
pub fn get_game_file_with_custom(paths: &LibrariesPath, custom: &String) -> (r: PathObj)
    ensures
        r@ == spec_game_file_with_custom(paths.lib_dir@, custom@),
{
    game_file_with_custom(paths, custom.as_str())
}

/// The OptiFine installer of a game version and OptiFine version.
pub fn get_optifine_file(paths: &LibrariesPath, mc: &String, version: &String) -> (r: PathObj)
    ensures
        r@ == spec_optifine_file(paths.lib_dir@, mc@, version@),
{
    optifine_file(paths, mc.as_str(), version.as_str())
}

} // verus!

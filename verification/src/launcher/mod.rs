//! Instance settings and the records the launcher keeps about instances.
use vstd::prelude::*;

pub mod config_obj;
pub mod custom_game_arg_obj;
pub mod custom_loader_obj;
pub mod game_setting_obj;
pub mod game_time_obj;
pub mod mod_info_obj;

verus! {

/// Where a modpack or resource comes from.
#[derive(Debug, Clone, Copy, PartialEq, Eq, Structural)]
pub enum SourceType {
    CurseForge,
    Modrinth,
    McMod,
    ServerPack,
    /// No known source.
    NoSource,
}

impl Default for SourceType {
    fn default() -> (r: Self)
        ensures
            r == SourceType::NoSource,
    {
        SourceType::NoSource
    }
}

/// The text encoding of a game's log output.
#[derive(Debug, Clone, Copy, PartialEq, Eq, Structural)]
pub enum LogEncoding {
    UTF8,
    GBK,
}

impl Default for LogEncoding {
    fn default() -> (r: Self)
        ensures
            r == LogEncoding::UTF8,
    {
        LogEncoding::UTF8
    }
}

} // verus!

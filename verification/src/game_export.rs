//! What an export of an instance is made of.
use vstd::prelude::*;

use crate::file_item::{FileHash, PathObj};
use crate::launcher::mod_info_obj::FileOnlineInfoObj;

verus! {

/// The kind of modpack an instance is exported as.
#[derive(Debug, Clone, Copy, PartialEq, Eq, Structural)]
pub enum ExportPackType {
    ColorMC,
    CurseForge,
    Modrinth,
    Zip,
}

/// A mod to export: its file and size, the kind of pack, where it can be downloaded, its
/// checksum and what is known of it online.
#[derive(Debug)]
pub struct ModExport {
    pub file: PathObj,
    pub size: usize,
    pub pack: ExportPackType,
    pub url: Option<String>,
    pub hash: FileHash,
    pub online: Option<FileOnlineInfoObj>,
}

/// What an export needs: the file to write, the kind of pack and the mods.
#[derive(Debug)]
pub struct ExportArg {
    pub file: PathObj,
    pub pack: ExportPackType,
    pub mods: Vec<ModExport>,
}

} // verus!

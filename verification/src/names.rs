//! Fixed names of files, folders and keys.
use vstd::prelude::*;

verus! {

/// The Forge key, used in file names.
pub const FORGE_KEY: &'static str = "forge";

/// The NeoForge key, used in file names.
pub const NEOFORGE_KEY: &'static str = "neoforge";

/// The folder of NeoForge descriptions.
pub const NEOFORGED_KEY: &'static str = "neoforged";

/// The folder of Fabric descriptions.
pub const FABRIC_KEY: &'static str = "fabric";

/// The folder of Quilt descriptions.
pub const QUILT_KEY: &'static str = "quilt";

/// The Fabric loader key, used in file names.
pub const FABRIC_LOADER_KEY: &'static str = "fabric-loader";

/// The Quilt loader key, used in file names.
pub const QUILT_LOADER_KEY: &'static str = "quilt-loader";

/// The marker of installer descriptions in file names.
pub const FILE_INSTALL: &'static str = "install";

/// The extension of JSON files, with its dot.
pub const JSON_EXT: &'static str = ".json";

/// The suffix of a Forge installer library.
pub const FILE_INSTALLER: &'static str = "installer";

/// The suffix of a Forge universal library.
pub const FILE_UNIVERSAL: &'static str = "universal";

/// The suffix of a Forge launcher library.
pub const FILE_LAUNCHER: &'static str = "launcher";

/// The suffix of a Forge client library.
pub const FILE_CLIENT: &'static str = "client";

/// The LittleSkin server.
pub const LITTLE_SKIN_URL: &'static str = "https://littleskin.cn/";

/// The place of the instance's name in a user argument.
pub const ARG_GAME_NAME: &'static str = "%GAME_NAME%";

/// The place of the instance's id in a user argument.
pub const ARG_GAME_UUID: &'static str = "%GAME_UUID%";

/// The place of the instance's game folder in a user argument.
pub const ARG_GAME_DIR: &'static str = "%GAME_DIR%";

/// The place of the instance's base folder in a user argument.
pub const ARG_GAME_BASE_DIR: &'static str = "%GAME_BASE_DIR%";

/// The place of the launcher's folder in a user argument.
pub const ARG_LAUNCHER_DIR: &'static str = "%LAUNCHER_DIR%";

/// The place of the Java executable in a user argument.
pub const ARG_JAVA_LOCAL: &'static str = "%JAVA_LOCAL%";

/// The place of the launch arguments in a user argument.
pub const ARG_JAVA_ARG: &'static str = "%JAVA_ARG%";

/// The extension of a Java archive.
pub const JAR_EXT: &'static str = "jar";

/// An extension that marks a mod as switched off.
pub const DISABLE_EXT: &'static str = "disable";

/// The other extension that marks a mod as switched off.
pub const DISABLED_EXT: &'static str = "disabled";

/// The extension of a Litematica structure.
pub const LITEMATIC_EXT: &'static str = "litematic";

/// The extension of the game's own structure files.
pub const SCHEMATIC_EXT: &'static str = "schematic";

/// The extension of a WorldEdit structure.
pub const SCHEM_EXT: &'static str = "schem";

/// The extension of a Create blueprint.
pub const NBT_EXT: &'static str = "nbt";

/// The extension of a screenshot.
pub const PNG_EXT: &'static str = "png";

/// The extension of a zip archive.
pub const ZIP_EXT: &'static str = "zip";

/// The folder of mods under a game directory.
pub const GAME_MODS_DIR: &'static str = "mods";

/// The group that holds instances without one.
pub const DEFAULT_GROUP: &'static str = "";


/// The level data file of a world.
pub const LEVEL_FILE: &'static str = "level.dat";

/// The data pack folder of a world.
pub const GAME_DATAPACK_DIR: &'static str = "datapacks";

/// The icon file of a world.
pub const ICON_FILE: &'static str = "icon.png";

} // verus!

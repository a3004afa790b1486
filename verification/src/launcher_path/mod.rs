//! The launcher's folders: assets, libraries and versions.
pub mod assets_path;
pub mod keyed_cache;
pub mod libraies_path;
pub mod libraries_path;
pub mod version_path;

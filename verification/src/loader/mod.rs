//! Mod loaders: their kinds, keys and launch descriptions.
use vstd::prelude::*;

use crate::launcher_path::keyed_cache::CacheKey;
use crate::text::{copy_str, str_eq};

pub mod fabric_loader_obj;
pub mod fabric_meta_obj;
pub mod custom;
pub mod fabric;
pub mod forge;
pub mod forge_launch_obj;
pub mod optifine;
pub mod optifine_obj;
pub mod quilt_loader_obj;

verus! {

/// The mod loader of an instance.
#[derive(Debug, Clone, Copy, PartialEq, Eq, Structural)]
pub enum LoaderType {
    Normal,
    Forge,
    NeoForge,
    Fabric,
    Quilt,
    OptiFine,
    Custom,
    LiteLoader,
}

impl Default for LoaderType {
    fn default() -> (r: Self)
        ensures
            r == LoaderType::Normal,
    {
        LoaderType::Normal
    }
}

/// The name a loader gives the versions it launches.
pub open spec fn spec_loader_prefix(t: LoaderType) -> Seq<char> {
    match t {
        LoaderType::Normal => "normal"@,
        LoaderType::Forge => "forge"@,
        LoaderType::NeoForge => "neoforge"@,
        LoaderType::Fabric => "fabric"@,
        LoaderType::Quilt => "quilt"@,
        LoaderType::OptiFine => "optifine"@,
        LoaderType::Custom => "custom"@,
        LoaderType::LiteLoader => "liteloader"@,
    }
}

impl LoaderType {
    /// The name the loader gives the versions it launches.
    pub fn prefix(&self) -> (r: &'static str)
        ensures
            r@ == spec_loader_prefix(*self),
    {
        proof {
            reveal_strlit("normal");
            reveal_strlit("forge");
            reveal_strlit("neoforge");
            reveal_strlit("fabric");
            reveal_strlit("quilt");
            reveal_strlit("optifine");
            reveal_strlit("custom");
            reveal_strlit("liteloader");
        }
        match self {
            LoaderType::Normal => "normal",
            LoaderType::Forge => "forge",
            LoaderType::NeoForge => "neoforge",
            LoaderType::Fabric => "fabric",
            LoaderType::Quilt => "quilt",
            LoaderType::OptiFine => "optifine",
            LoaderType::Custom => "custom",
            LoaderType::LiteLoader => "liteloader",
        }
    }
}

/// A game version together with a loader version.
#[derive(Debug, Clone)]
pub struct LoaderKey {
    pub mc: String,
    pub version: String,
}

impl View for LoaderKey {
    type V = (Seq<char>, Seq<char>);

    open spec fn view(&self) -> (Seq<char>, Seq<char>) {
        (self.mc@, self.version@)
    }
}

impl CacheKey for LoaderKey {
    fn same_key(&self, other: &Self) -> (r: bool) {
        str_eq(self.mc.as_str(), other.mc.as_str()) && str_eq(
            self.version.as_str(),
            other.version.as_str(),
        )
    }
}

impl LoaderKey {
    /// The key of a game version and a loader version.
    pub fn new(mc: String, version: String) -> (r: Self)
        ensures
            r.mc == mc,
            r.version == version,
    {
        LoaderKey { mc, version }
    }

    /// The key of a game version and a loader version, copied from slices.
    pub fn from_strs(mc: &str, version: &str) -> (r: Self)
        ensures
            r.mc@ == mc@,
            r.version@ == version@,
    {
        LoaderKey { mc: copy_str(mc), version: copy_str(version) }
    }
}

/// A library of a loader: its maven name and repository address.
#[derive(Debug)]
pub struct LibrariesObj {
    pub name: String,
    pub url: String,
}

impl Default for LibrariesObj {
    fn default() -> (r: Self)
        ensures
            r.name@ == Seq::<char>::empty(),
            r.url@ == Seq::<char>::empty(),
    {
        Self { name: String::new(), url: String::new() }
    }
}

} // verus!

//! The launch description of the Fabric loader.
use vstd::prelude::*;

use crate::loader::LibrariesObj;

verus! {


/// Game and JVM arguments of a Fabric loader.
#[derive(Debug)]
pub struct FabricArgumentsObj {
    pub game: Vec<String>,
    pub jvm: Vec<String>,
}

impl Default for FabricArgumentsObj {
    fn default() -> (r: Self)
        ensures
            r.game@.len() == 0,
            r.jvm@.len() == 0,
    {
        Self {
            game: Vec::new(),
            jvm: Vec::new(),
        }
    }
}

/// The launch description of a Fabric loader version.
#[derive(Debug)]
pub struct FabricLoaderObj {
    pub id: String,
    pub main_class: String,
    pub arguments: FabricArgumentsObj,
    pub libraries: Vec<LibrariesObj>,
}

impl Default for FabricLoaderObj {
    fn default() -> (r: Self)
        ensures
            r.id@ == Seq::<char>::empty(),
            r.main_class@ == Seq::<char>::empty(),
            r.libraries@.len() == 0,
    {
        Self {
            id: String::new(),
            main_class: String::new(),
            arguments: FabricArgumentsObj::default(),
            libraries: Vec::new(),
        }
    }
}

/// A Fabric loader version.
#[derive(Debug)]
pub struct FabricLoaderVersionItemObj {
    pub version: String,
}

impl Default for FabricLoaderVersionItemObj {
    fn default() -> (r: Self)
        ensures
            r.version@ == Seq::<char>::empty(),
    {
        Self {
            version: String::new(),
        }
    }
}

/// A Fabric loader version entry.
#[derive(Debug)]
pub struct FabricLoaderVersionObj {
    pub loader: FabricLoaderVersionItemObj,
}

impl Default for FabricLoaderVersionObj {
    fn default() -> (r: Self) {
        Self {
            loader: FabricLoaderVersionItemObj::default(),
        }
    }
}

} // verus!

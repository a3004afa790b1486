//! Fabric metadata.
use vstd::prelude::*;


verus! {


/// A Fabric loader release.
#[derive(Debug)]
pub struct FabricMetaLoaderObj {
    pub version: String,
    pub stable: bool,
}

impl Default for FabricMetaLoaderObj {
    fn default() -> (r: Self)
        ensures
            r.version@ == Seq::<char>::empty(),
            !r.stable,
    {
        Self {
            version: String::new(),
            stable: false,
        }
    }
}

/// The list of Fabric loader releases.
#[derive(Debug)]
pub struct FabricMetaObj {
    pub loader: Vec<FabricMetaLoaderObj>,
}

impl Default for FabricMetaObj {
    fn default() -> (r: Self)
        ensures
            r.loader@.len() == 0,
    {
        Self {
            loader: Vec::new(),
        }
    }
}

} // verus!

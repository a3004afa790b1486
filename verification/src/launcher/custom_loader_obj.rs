//! Loader descriptions that an instance brings itself.
use vstd::prelude::*;

use crate::loader::forge_launch_obj::ForgeLaunchObj;

verus! {

/// The kind of a custom loader.
#[derive(Debug)]
pub enum CustomLoaderType {
    /// A Forge-like loader.
    ForgeLaunch(ForgeLaunchObj),
}

} // verus!

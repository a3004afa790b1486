//! The launch description of the Quilt loader.
use vstd::prelude::*;

use crate::loader::LibrariesObj;

verus! {


/// Game arguments of a Quilt loader.
#[derive(Debug)]
pub struct QuiltArgumentsObj {
    pub game: Vec<String>,
}

impl Default for QuiltArgumentsObj {
    fn default() -> (r: Self)
        ensures
            r.game@.len() == 0,
    {
        Self {
            game: Vec::new(),
        }
    }
}

/// The launch description of a Quilt loader version.
#[derive(Debug)]
pub struct QuiltLoaderObj {
    pub id: String,
    pub main_class: String,
    pub arguments: QuiltArgumentsObj,
    pub libraries: Vec<LibrariesObj>,
}

impl Default for QuiltLoaderObj {
    fn default() -> (r: Self)
        ensures
            r.id@ == Seq::<char>::empty(),
            r.main_class@ == Seq::<char>::empty(),
            r.libraries@.len() == 0,
    {
        Self {
            id: String::new(),
            main_class: String::new(),
            arguments: QuiltArgumentsObj::default(),
            libraries: Vec::new(),
        }
    }
}

} // verus!

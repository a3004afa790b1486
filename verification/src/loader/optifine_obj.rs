//! What the launcher knows of an OptiFine release.
use vstd::prelude::*;

verus! {

/// An OptiFine release: its version, the game version it is for, the Forge version it
/// works with, its installer's file name, its date and its download addresses.
#[derive(Debug)]
pub struct OptifineObj {
    pub version: String,
    pub mcversion: String,
    pub forge: String,
    pub file_name: String,
    pub date: String,
    pub url1: Option<String>,
    pub url2: Option<String>,
}

impl Default for OptifineObj {
    fn default() -> (r: Self)
        ensures
            r.version@.len() == 0,
            r.mcversion@.len() == 0,
            r.forge@.len() == 0,
            r.file_name@.len() == 0,
            r.date@.len() == 0,
            r.url1 is None,
            r.url2 is None,
    {
        OptifineObj {
            version: String::new(),
            mcversion: String::new(),
            forge: String::new(),
            file_name: String::new(),
            date: String::new(),
            url1: None,
            url2: None,
        }
    }
}

} // verus!

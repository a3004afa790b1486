//! The list of game versions that Mojang publishes.
use vstd::prelude::*;

verus! {

/// The latest release.
#[derive(Debug)]
pub struct LastestObj {
    pub release: String,
}

impl Default for LastestObj {
    fn default() -> (r: Self)
        ensures
            r.release@ == Seq::<char>::empty(),
    {
        LastestObj { release: String::new() }
    }
}

/// One published version.
#[derive(Debug)]
pub struct VersionsObj {
    pub id: String,
    /// `release`, `snapshot`, `old_beta`, `old_alpha`.
    pub version_type: String,
    pub url: String,
    pub sha1: String,
}

impl Default for VersionsObj {
    fn default() -> (r: Self)
        ensures
            r.id@ == Seq::<char>::empty(),
            r.version_type@ == Seq::<char>::empty(),
            r.url@ == Seq::<char>::empty(),
            r.sha1@ == Seq::<char>::empty(),
    {
        VersionsObj { id: String::new(), version_type: String::new(), url: String::new(), sha1: String::new() }
    }
}

/// The list of published versions.
#[derive(Debug)]
pub struct VersionObj {
    pub latest: LastestObj,
    pub versions: Vec<VersionsObj>,
}

impl Default for VersionObj {
    fn default() -> (r: Self)
        ensures
            r.latest.release@ == Seq::<char>::empty(),
            r.versions@.len() == 0,
    {
        VersionObj { latest: LastestObj::default(), versions: Vec::new() }
    }
}

} // verus!

//! What the launcher knows of a file it downloaded from an online source.
use vstd::prelude::*;

verus! {

/// Online information of a downloaded file.
#[derive(Debug)]
pub struct FileOnlineInfoObj {
    /// Folder under the game directory.
    pub path: String,
    pub name: String,
    /// File name.
    pub file: String,
    pub sha1: String,
    pub url: String,
    pub modid: String,
    pub fileid: String,
}

impl Default for FileOnlineInfoObj {
    fn default() -> (r: Self)
        ensures
            r.path@ == Seq::<char>::empty(),
            r.name@ == Seq::<char>::empty(),
            r.file@ == Seq::<char>::empty(),
            r.sha1@ == Seq::<char>::empty(),
            r.url@ == Seq::<char>::empty(),
            r.modid@ == Seq::<char>::empty(),
            r.fileid@ == Seq::<char>::empty(),
    {
        FileOnlineInfoObj {
            path: String::new(),
            name: String::new(),
            file: String::new(),
            sha1: String::new(),
            url: String::new(),
            modid: String::new(),
            fileid: String::new(),
        }
    }
}

} // verus!

//! The download of an OptiFine installer.
use vstd::prelude::*;

use crate::file_item::{FileHash, FileItemObj, LaterRun};
use crate::launcher_path::libraries_path::{get_optifine_file, spec_optifine_file, LibrariesPath};
use crate::text::copy_str;

verus! {

/// The download item of the OptiFine installer for game version `mc` and OptiFine
/// version `version`: named by the release's file name, kept as the libraries folder's
/// installer of that pair, fetched from `url`, with no checksum.
pub fn optifine_lib_item(paths: &LibrariesPath, mc: &str, version: &str, file_name: &str, url: &str) -> (r: FileItemObj)
    ensures
        r.name@ == file_name@,
        r.file@ == spec_optifine_file(paths.lib_dir@, mc@, version@),
        r.url@ == url@,
        r.hash is NoHash,
        r.later is Nothing,
{
    FileItemObj {
        name: copy_str(file_name),
        file: get_optifine_file(paths, mc, version),
        url: copy_str(url),
        hash: FileHash::NoHash,
        later: LaterRun::Nothing,
    }
}

} // verus!

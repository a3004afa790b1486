//! Screenshots of an instance.
use vstd::prelude::*;

use crate::file_item::PathObj;
use crate::names::PNG_EXT;
use crate::text::{copy_str, eq_ignore_ascii_case, spec_eq_ignore_ascii_case};

verus! {

/// A screenshot: its file name and its file.
#[derive(Debug)]
pub struct ScreenshotObj {
    pub name: String,
    pub file: PathObj,
}

/// The screenshot a file of the screenshots folder is: one with a file name and the
/// `png` extension (ignoring ASCII case); any other file is none.
pub fn screenshot_of(ext: Option<&str>, name: Option<&str>, file: &PathObj) -> (r: Option<ScreenshotObj>)
    ensures
        match (ext, name) {
            (Some(e), Some(n)) => if spec_eq_ignore_ascii_case(e@, PNG_EXT@) {
                r matches Some(s) && s.name@ == n@ && s.file@ == file@
            } else {
                r is None
            },
            _ => r is None,
        },
{
    match (ext, name) {
        (Some(e), Some(n)) => {
            if eq_ignore_ascii_case(e, PNG_EXT) {
                Some(ScreenshotObj { name: copy_str(n), file: file.copy() })
            } else {
                None
            }
        },
        _ => None,
    }
}

} // verus!

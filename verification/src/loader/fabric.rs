//! Choosing the Fabric loader release a launch uses.
use vstd::prelude::*;

use crate::loader::fabric_meta_obj::{FabricMetaLoaderObj, FabricMetaObj};
use crate::text::{eq_ignore_ascii_case, spec_eq_ignore_ascii_case};

verus! {

/// Release `i` is the one a launch uses: with a version asked for, the first release of
/// that version (ASCII case aside); without one, the first stable release.
pub open spec fn is_picked(list: Seq<FabricMetaLoaderObj>, version: Option<Seq<char>>, i: int) -> bool {
    &&& 0 <= i < list.len()
    &&& fits(list[i], version)
    &&& forall|j: int| 0 <= j < i ==> !fits(#[trigger] list[j], version)
}

/// A release fits what was asked for.
pub open spec fn fits(item: FabricMetaLoaderObj, version: Option<Seq<char>>) -> bool {
    match version {
        Some(v) => spec_eq_ignore_ascii_case(item.version@, v),
        None => item.stable,
    }
}

/// The text of an optional version.
pub open spec fn opt_view(version: Option<&str>) -> Option<Seq<char>> {
    match version {
        Some(v) => Some(v@),
        None => None,
    }
}

/// Where the release a launch uses stands in the metadata's list (see `is_picked`);
/// `None` where no release fits.
pub fn pick_fabric_loader(meta: &FabricMetaObj, version: Option<&str>) -> (r: Option<usize>)
    ensures
        match r {
            Some(i) => is_picked(meta.loader@, opt_view(version), i as int),
            None => forall|j: int| 0 <= j < meta.loader@.len() ==> !fits(#[trigger] meta.loader@[j], opt_view(version)),
        },
{
    let mut i: usize = 0;
    while i < meta.loader.len()
        invariant
            i <= meta.loader@.len(),
            forall|j: int| 0 <= j < i ==> !fits(#[trigger] meta.loader@[j], opt_view(version)),
        decreases meta.loader@.len() - i,
    {
        let item = &meta.loader[i];
        let ok = match version {
            Some(v) => eq_ignore_ascii_case(item.version.as_str(), v),
            None => item.stable,
        };
        if ok {
            return Some(i);
        }
        i = i + 1;
    }
    None
}

} // verus!

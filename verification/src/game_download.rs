//! Which site a download comes from.
use vstd::prelude::*;

use crate::launcher::SourceType;

verus! {

/// The site of a file given by a project id and a file id, from whether each id fails
/// the launcher's number check: Modrinth where either is not a number (its ids are
/// text), CurseForge where both are (its ids are numbers).
pub fn source_type_of(pid_not_number: bool, fid_not_number: bool) -> (r: SourceType)
    ensures
        r == (if pid_not_number || fid_not_number {
            SourceType::Modrinth
        } else {
            SourceType::CurseForge
        }),
{
    if pid_not_number || fid_not_number {
        SourceType::Modrinth
    } else {
        SourceType::CurseForge
    }
}

} // verus!

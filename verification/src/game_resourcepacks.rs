//! Resource packs: what their `pack.mcmeta` says and the entries of the pack list.
use vstd::prelude::*;

use crate::file_item::{FileHash, PathObj};
use crate::names::ZIP_EXT;
use crate::text::{copy_str, eq_ignore_ascii_case, spec_eq_ignore_ascii_case};

verus! {

/// A format field of `pack.mcmeta`, as read: a signed number, an unsigned one, or a
/// list whose numbers are given where they fit in an `i64`.
#[derive(Debug)]
pub enum PackNumber {
    Signed(i64),
    Unsigned(u64),
    List(Vec<Option<i64>>),
}

/// The least (`least` set) or the greatest of the numbers of a list that fit in an
/// `i64`, among its first `n` entries; `None` where there is none.
pub open spec fn extreme_upto(list: Seq<Option<i64>>, least: bool, n: int) -> Option<i64>
    decreases n,
{
    if n <= 0 {
        None
    } else {
        let before = extreme_upto(list, least, n - 1);
        match list[n - 1] {
            None => before,
            Some(x) => match before {
                None => Some(x),
                Some(p) => if (least && x < p) || (!least && x > p) {
                    Some(x)
                } else {
                    Some(p)
                },
            },
        }
    }
}

/// A format field as one number: the number itself (an unsigned one taken modulo
/// 2^64 as signed), or for a list the least (`least` set) or greatest of its numbers,
/// 0 where it has none.
pub open spec fn spec_pack_number(v: PackNumber, least: bool) -> i64 {
    match v {
        PackNumber::Signed(x) => x,
        PackNumber::Unsigned(x) => x as i64,
        PackNumber::List(list) => match extreme_upto(list@, least, list@.len() as int) {
            Some(m) => m,
            None => 0,
        },
    }
}

/// A format field as one number (see `spec_pack_number`).
pub fn pack_number(v: &PackNumber, least: bool) -> (r: i64)
    ensures
        r == spec_pack_number(*v, least),
{
    match v {
        PackNumber::Signed(x) => *x,
        PackNumber::Unsigned(x) => {
            #[verifier::truncate]
            let r = *x as i64;
            r
        },
        PackNumber::List(list) => {
            let mut found: Option<i64> = None;
            let mut i: usize = 0;
            while i < list.len()
                invariant
                    i <= list@.len(),
                    found == extreme_upto(list@, least, i as int),
                decreases list@.len() - i,
            {
                if let Some(x) = list[i] {
                    found = match found {
                        None => Some(x),
                        Some(p) => if (least && x < p) || (!least && x > p) {
                            Some(x)
                        } else {
                            Some(p)
                        },
                    };
                }
                i = i + 1;
            }
            match found {
                Some(m) => m,
                None => 0,
            }
        },
    }
}

/// The `pack` object of a `pack.mcmeta` file, as read: each field where it is present.
#[derive(Debug)]
pub struct PackInfo {
    pub pack_format: Option<PackNumber>,
    pub min_format: Option<PackNumber>,
    pub max_format: Option<PackNumber>,
    pub description: Option<String>,
}

/// A resource pack of an instance.
#[derive(Debug)]
pub struct ResourcepackObj {
    pub description: String,
    pub pack_format: i64,
    pub min_format: i64,
    pub max_format: i64,
    pub hash: FileHash,
    pub path: PathObj,
    pub icon: Option<Vec<u8>>,
    /// Reading it failed.
    pub fail: bool,
}

impl Default for ResourcepackObj {
    fn default() -> (r: Self)
        ensures
            r.description@.len() == 0,
            r.pack_format == 0,
            r.min_format == 0,
            r.max_format == 0,
            r.hash is NoHash,
            r.path@.len() == 0,
            r.icon is None,
            !r.fail,
    {
        ResourcepackObj {
            description: String::new(),
            pack_format: 0,
            min_format: 0,
            max_format: 0,
            hash: FileHash::NoHash,
            path: PathObj::empty(),
            icon: None,
            fail: false,
        }
    }
}

/// A format field of `pack.mcmeta` as one number; 0 where it is absent.
pub open spec fn field_number(v: Option<PackNumber>, least: bool) -> i64 {
    match v {
        Some(x) => spec_pack_number(x, least),
        None => 0,
    }
}

/// A format field as one number (see `field_number`).
fn field_of(v: &Option<PackNumber>, least: bool) -> (r: i64)
    ensures
        r == field_number(*v, least),
{
    match v {
        Some(x) => pack_number(x, least),
        None => 0,
    }
}

/// A resource pack from its `pack.mcmeta`: its description, its format and the least
/// of its minimum formats (each the least of a list), and the greatest of its maximum
/// formats; where the file could not be read (`None`), a pack marked failed.
pub fn pack_from_meta(meta: &Option<PackInfo>) -> (r: ResourcepackObj)
    ensures
        match meta {
            Some(m) => !r.fail && r.description@ == (match m.description {
                Some(d) => d@,
                None => Seq::<char>::empty(),
            }) && r.pack_format == field_number(m.pack_format, true) && r.min_format
                == field_number(m.min_format, true) && r.max_format == field_number(
                m.max_format,
                false,
            ),
            None => r.fail && r.description@.len() == 0 && r.pack_format == 0 && r.min_format
                == 0 && r.max_format == 0,
        },
        r.hash is NoHash,
        r.path@.len() == 0,
        r.icon is None,
{
    let mut r = ResourcepackObj::default();
    match meta {
        Some(m) => {
            r.description = match &m.description {
                Some(d) => copy_str(d.as_str()),
                None => String::new(),
            };
            r.pack_format = field_of(&m.pack_format, true);
            r.min_format = field_of(&m.min_format, true);
            r.max_format = field_of(&m.max_format, false);
        },
        None => {
            r.fail = true;
        },
    }
    r
}

/// Whether a file is read as a pack archive: its extension is `zip`, ignoring ASCII
/// case.
pub fn is_zip_ext(ext: Option<&str>) -> (r: bool)
    ensures
        r == match ext {
            Some(e) => spec_eq_ignore_ascii_case(e@, ZIP_EXT@),
            None => false,
        },
{
    match ext {
        Some(e) => eq_ignore_ascii_case(e, ZIP_EXT),
        None => false,
    }
}

/// The entry of the pack list for a file with these checksums: the pack read from it,
/// with its checksums and path; where it was not read as a pack (`None`), an entry
/// marked failed with only its checksums and path.
pub fn pack_entry(read: Option<ResourcepackObj>, hash: FileHash, path: &PathObj) -> (r:
    ResourcepackObj)
    ensures
        r.hash == hash,
        r.path@ == path@,
        match read {
            Some(p) => r.description == p.description && r.pack_format == p.pack_format
                && r.min_format == p.min_format && r.max_format == p.max_format && r.icon
                == p.icon && r.fail == p.fail,
            None => r.fail && r.description@.len() == 0 && r.pack_format == 0 && r.min_format
                == 0 && r.max_format == 0 && r.icon is None,
        },
{
    match read {
        Some(mut p) => {
            p.hash = hash;
            p.path = path.copy();
            p
        },
        None => {
            let mut p = ResourcepackObj::default();
            p.hash = hash;
            p.path = path.copy();
            p.fail = true;
            p
        },
    }
}

/// The range a list of formats gives is never inverted: its least number is at most its
/// greatest.
pub proof fn law_pack_range_ordered(list: Seq<Option<i64>>, n: int)
    ensures
        match (extreme_upto(list, true, n), extreme_upto(list, false, n)) {
            (Some(lo), Some(hi)) => lo <= hi,
            (None, None) => true,
            _ => false,
        },
    decreases n,
{
    if n > 0 {
        law_pack_range_ordered(list, n - 1);
    }
}

} // verus!

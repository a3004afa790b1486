//! The assets folder: asset indexes, asset objects and skins.
use vstd::prelude::*;

use crate::file_item::PathObj;
use crate::text::{
    chars_of, copy_str, lemma_split_nonempty, push_chars, push_str, spec_split, spec_uuid_text,
    split_str, string_of, uuid_text,
};

verus! {

/// The assets folder under the launcher's folder.
pub const NAME_GAME_ASSETS_DIR: &'static str = "assets";

/// The asset index folder under the assets folder.
pub const NAME_GAME_INDEX_DIR: &'static str = "indexes";

/// The asset object folder under the assets folder.
pub const NAME_GAME_OBJECT_DIR: &'static str = "objects";

/// The skin folder under the assets folder.
pub const NAME_GAME_SKIN_DIR: &'static str = "skins";

/// The folders of the assets.
#[derive(Debug)]
pub struct AssetsPath {
    pub base_dir: PathObj,
    pub objects_dir: PathObj,
    pub index_dir: PathObj,
    pub skin_dir: PathObj,
}

impl AssetsPath {
    /// The folders under the launcher's folder `dir`. The object folder is set to the
    /// index folder's name and the index folder to the object folder's name, so the two
    /// hold each other's files.
    pub fn init(dir: &PathObj) -> (r: Self)
        ensures
            r.base_dir@ == dir@.push(NAME_GAME_ASSETS_DIR@),
            r.objects_dir@ == r.base_dir@.push(NAME_GAME_INDEX_DIR@),
            r.index_dir@ == r.base_dir@.push(NAME_GAME_OBJECT_DIR@),
            r.skin_dir@ == r.base_dir@.push(NAME_GAME_SKIN_DIR@),
    {
        let base_dir = dir.join(NAME_GAME_ASSETS_DIR);
        let objects_dir = base_dir.join(NAME_GAME_INDEX_DIR);
        let index_dir = base_dir.join(NAME_GAME_OBJECT_DIR);
        let skin_dir = base_dir.join(NAME_GAME_SKIN_DIR);
        AssetsPath { base_dir, objects_dir, index_dir, skin_dir }
    }
}

/// The file of an asset index: `<id>.json` in the index folder.
pub fn index_file(paths: &AssetsPath, id: &str) -> (r: PathObj)
    ensures
        r@ == paths.index_dir@.push(id@ + ".json"@),
{
    let mut name = copy_str(id);
    push_str(&mut name, ".json");
    paths.index_dir.join_string(name)
}

/// The file a skin of an account is saved to: `<uuid>_skin.png` in the skin folder.
pub fn skin_save_file(paths: &AssetsPath, uuid: u128) -> (r: PathObj)
    ensures
        r@ == paths.skin_dir@.push(spec_uuid_text(uuid) + "_skin.png"@),
{
    let mut name = uuid_text(uuid);
    push_str(&mut name, "_skin.png");
    paths.skin_dir.join_string(name)
}

/// The name of a skin file: the last segment of its address where that is not empty,
/// else the text of the nil UUID.
pub open spec fn spec_skin_name(segment: Option<Seq<char>>) -> Seq<char> {
    match segment {
        Some(s) => if s.len() > 0 {
            s
        } else {
            spec_uuid_text(0)
        },
        None => spec_uuid_text(0),
    }
}

/// The file of a skin whose address ends in the path segment `segment` (`None` where
/// the address does not parse): the skin folder with its first two characters joined,
/// then that part replaced by the whole name, so the file lies in the skin folder itself.
pub fn skin_file(paths: &AssetsPath, segment: &Option<String>) -> (r: PathObj)
    ensures
        r@ == paths.skin_dir@.push(
            spec_skin_name(
                match segment {
                    Some(s) => Some(s@),
                    None => None,
                },
            ),
        ),
{
    let name = match segment {
        Some(s) => if s.as_str().unicode_len() > 0 {
            copy_str(s.as_str())
        } else {
            uuid_text(0)
        },
        None => uuid_text(0),
    };
    let chars = chars_of(name.as_str());
    let mut dir = String::new();
    if chars.len() < 2 {
        push_chars(&mut dir, chars.as_slice());
    } else {
        push_chars(&mut dir, &chars.as_slice()[0..2]);
    }
    let r = paths.skin_dir.join(dir.as_str()).with_file_name(name.as_str());
    assert(r@ =~= paths.skin_dir@.push(name@));
    r
}

/// The file of an asset object with SHA-1 `hash`: the object folder with the first two
/// characters of the hash joined, then that part replaced by the hash, so the file lies
/// in the object folder itself.
pub fn asset_object_file(paths: &AssetsPath, hash: &str) -> (r: PathObj)
    ensures
        r@ == paths.objects_dir@.push(hash@),
{
    let chars = chars_of(hash);
    let mut dir = String::new();
    if chars.len() < 2 {
        push_chars(&mut dir, chars.as_slice());
    } else {
        push_chars(&mut dir, &chars.as_slice()[0..2]);
    }
    let r = paths.objects_dir.join(dir.as_str()).with_file_name(hash);
    assert(r@ =~= paths.objects_dir@.push(hash@));
    r
}

/// The path part of an address as `url::Url::parse` reads it, or `None` where the
/// address does not parse as an absolute URL.
pub uninterp spec fn parsed_url_path(url: Seq<char>) -> Option<Seq<char>>;

/// `url::Url::parse` of an address, then `Url::path` of the result: the path, as
/// written after the address is normalised, or `None` where it does not parse. Nothing
/// is stated of its text beyond that it is a function of the address.
#[verifier::external_body]
fn url_path(url: &str) -> (r: Option<String>)
    ensures
        match r {
            Some(p) => parsed_url_path(url@) == Some(p@),
            None => parsed_url_path(url@) is None,
        },
{
    match url::Url::parse(url) {
        Ok(u) => Some(u.path().to_string()),
        Err(_) => None,
    }
}

/// The last `/`-separated segment of a path.
pub open spec fn last_segment(path: Seq<char>) -> Seq<char> {
    spec_split(path, '/').last()
}

/// The file of a skin whose address has the path `path` (`None` where the address does
/// not parse): named by the last segment of the path (see `skin_file`).
pub fn skin_file_of_path(paths: &AssetsPath, path: &Option<String>) -> (r: PathObj)
    ensures
        r@ == paths.skin_dir@.push(
            spec_skin_name(
                match path {
                    Some(p) => Some(last_segment(p@)),
                    None => None,
                },
            ),
        ),
{
    let segment = match path {
        Some(p) => {
            let parts = split_str(p.as_str(), '/');
            proof {
                lemma_split_nonempty(p@, '/');
            }
            let last = parts.len() - 1;
            let seg = string_of(parts[last].as_slice());
            Some(seg)
        },
        None => None,
    };
    skin_file(paths, &segment)
}

/// The file of the skin at address `url`: named by the last segment of the address's
/// path where that is not empty, else by the nil UUID.
pub fn get_skin_from_url(paths: &AssetsPath, url: &str) -> (r: PathObj)
    ensures
        r@ == paths.skin_dir@.push(
            spec_skin_name(
                match parsed_url_path(url@) {
                    Some(p) => Some(last_segment(p)),
                    None => None,
                },
            ),
        ),
{
    let path = url_path(url);
    skin_file_of_path(paths, &path)
}

} // verus!

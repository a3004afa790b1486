//! Which files a launch lacks: the game core, its assets and libraries, and the mods
//! that a modpack lists.
use vstd::prelude::*;

use crate::file_item::{
    items_view, FileHash, FileItemObj, HashView, ItemView, LaterRun, LaterView, PathObj,
};
use crate::game_arg::GameLaunchObj;
use crate::launcher::game_setting_obj::InstanceSettingObj;
use crate::launcher::mod_info_obj::FileOnlineInfoObj;
use crate::mojang::hash_prefix;
use crate::names::GAME_MODS_DIR;
use crate::text::{
    chars_of, copy_str, eq_ignore_ascii_case, lowercase, push_chars, push_str,
    spec_eq_ignore_ascii_case, spec_rfind_char, str_eq, to_lower,
};
use crate::mojang::version_parse::sub_chars;

verus! {

/// A file of the mods folder: its file stem in lower case, where it has one, and its
/// SHA-1, where it could be read.
#[derive(Debug)]
pub struct ModFileObj {
    pub stem: Option<String>,
    pub sha1: Option<String>,
}

/// What is known of a mod file.
pub struct ModView {
    pub stem: Option<Seq<char>>,
    pub sha1: Option<Seq<char>>,
}

/// The text of an optional string.
pub open spec fn opt_view(s: Option<String>) -> Option<Seq<char>> {
    match s {
        Some(x) => Some(x@),
        None => None,
    }
}

/// What is known of each mod file.
pub open spec fn mod_views(v: Seq<ModFileObj>) -> Seq<ModView> {
    v.map_values(|f: ModFileObj| ModView { stem: opt_view(f.stem), sha1: opt_view(f.sha1) })
}

/// Whether a mod file answers an online entry with this stem and SHA-1: its stem is the
/// entry's and, where checksums are checked, so is its SHA-1: exactly, where the file
/// was read for an earlier entry, and ignoring ASCII case, where it is read now.
pub open spec fn answers(
    f: ModView,
    stem: Seq<char>,
    sha1: Seq<char>,
    check_sha1: bool,
    read_before: bool,
) -> bool {
    &&& f.stem == Some(stem)
    &&& check_sha1 ==> if read_before {
        f.sha1 == Some(sha1)
    } else {
        f.sha1 matches Some(h) && spec_eq_ignore_ascii_case(h, sha1)
    }
}

/// The first place, from `i` on, of a file of the pool that answers the entry; `read`
/// holds the files whose checksum was read for earlier entries.
pub open spec fn answer_from(
    files: Seq<ModView>,
    pool: Seq<int>,
    read: Set<int>,
    stem: Seq<char>,
    sha1: Seq<char>,
    check_sha1: bool,
    i: int,
) -> Option<int>
    decreases pool.len() - i,
{
    if i < 0 || i >= pool.len() {
        None
    } else if answers(files[pool[i]], stem, sha1, check_sha1, read.contains(pool[i])) {
        Some(i)
    } else {
        answer_from(files, pool, read, stem, sha1, check_sha1, i + 1)
    }
}

/// A place that `answer_from` gives lies in the pool, at or after where it started.
pub proof fn lemma_answer_from_in(
    files: Seq<ModView>,
    pool: Seq<int>,
    read: Set<int>,
    stem: Seq<char>,
    sha1: Seq<char>,
    check_sha1: bool,
    i: int,
)
    ensures
        answer_from(files, pool, read, stem, sha1, check_sha1, i) matches Some(k) ==> i <= k
            < pool.len(),
    decreases pool.len() - i,
{
    if 0 <= i < pool.len() {
        lemma_answer_from_in(files, pool, read, stem, sha1, check_sha1, i + 1);
    }
}

/// The files whose checksum has been read once the first `n` files of the pool were
/// looked at for an entry with this stem.
pub open spec fn read_upto(
    files: Seq<ModView>,
    pool: Seq<int>,
    read: Set<int>,
    stem: Seq<char>,
    check_sha1: bool,
    n: int,
) -> Set<int>
    decreases n,
{
    if n <= 0 {
        read
    } else {
        let before = read_upto(files, pool, read, stem, check_sha1, n - 1);
        let x = pool[n - 1];
        if check_sha1 && files[x].stem == Some(stem) && files[x].sha1 is Some {
            before.insert(x)
        } else {
            before
        }
    }
}

/// The flags of a list, as the set of the places that are set.
pub open spec fn set_of(flags: Seq<bool>) -> Set<int> {
    Set::new(|x: int| 0 <= x < flags.len() && flags[x])
}

/// The places of a pool of files.
pub open spec fn pool_view(p: Seq<usize>) -> Seq<int> {
    p.map_values(|x: usize| x as int)
}

/// The places of a pool are distinct and name files.
pub open spec fn pool_ok(pool: Seq<int>, n: int) -> bool {
    &&& forall|i: int| 0 <= i < pool.len() ==> 0 <= #[trigger] pool[i] < n
    &&& forall|i: int, j: int| 0 <= i < j < pool.len() ==> pool[i] != pool[j]
}

/// Looks through the pool for the first file that answers an entry with this stem and
/// SHA-1, reading checksums on the way (see `answer_from` and `read_upto`).
fn scan_pool(
    files: &Vec<ModFileObj>,
    pool: &Vec<usize>,
    read: &mut Vec<bool>,
    stem: &str,
    sha1: &str,
    check_sha1: bool,
) -> (r: Option<usize>)
    requires
        pool_ok(pool_view(pool@), files@.len() as int),
        old(read)@.len() == files@.len(),
    ensures
        final(read)@.len() == files@.len(),
        match r {
            Some(k) => answer_from(
                mod_views(files@),
                pool_view(pool@),
                set_of(old(read)@),
                stem@,
                sha1@,
                check_sha1,
                0,
            ) == Some(k as int) && set_of(final(read)@) == read_upto(
                mod_views(files@),
                pool_view(pool@),
                set_of(old(read)@),
                stem@,
                check_sha1,
                k + 1,
            ),
            None => answer_from(
                mod_views(files@),
                pool_view(pool@),
                set_of(old(read)@),
                stem@,
                sha1@,
                check_sha1,
                0,
            ) is None && set_of(final(read)@) == read_upto(
                mod_views(files@),
                pool_view(pool@),
                set_of(old(read)@),
                stem@,
                check_sha1,
                pool@.len() as int,
            ),
        },
{
    let ghost fv = mod_views(files@);
    let ghost pv = pool_view(pool@);
    let ghost read0 = set_of(read@);
    let mut j: usize = 0;
    while j < pool.len()
        invariant
            j <= pool@.len(),
            fv == mod_views(files@),
            pv == pool_view(pool@),
            read0 == set_of(old(read)@),
            pool_ok(pv, files@.len() as int),
            read@.len() == files@.len(),
            set_of(read@) == read_upto(fv, pv, read0, stem@, check_sha1, j as int),
            answer_from(fv, pv, read0, stem@, sha1@, check_sha1, 0) == answer_from(
                fv,
                pv,
                read0,
                stem@,
                sha1@,
                check_sha1,
                j as int,
            ),
            forall|i: int| j <= i < pv.len() ==> (set_of(read@).contains(pv[i]) <==> read0.contains(pv[i])),
        decreases pool@.len() - j,
    {
        let x = pool[j];
        assert(pv[j as int] == x as int);
        assert(0 <= x < files@.len());
        let f = &files[x];
        assert(fv[x as int] == ModView { stem: opt_view(f.stem), sha1: opt_view(f.sha1) });
        let same_stem = match &f.stem {
            Some(st) => str_eq(st.as_str(), stem),
            None => false,
        };
        let was_read = read[x];
        assert(was_read == read0.contains(x as int));
        let mut answered = false;
        if same_stem {
            if check_sha1 {
                if was_read {
                    answered = match &f.sha1 {
                        Some(h) => str_eq(h.as_str(), sha1),
                        None => false,
                    };
                } else {
                    match &f.sha1 {
                        Some(h) => {
                            read.set(x, true);
                            answered = eq_ignore_ascii_case(h.as_str(), sha1);
                        },
                        None => {},
                    }
                }
            } else {
                answered = true;
            }
        }
        proof {
            let st = read_upto(fv, pv, read0, stem@, check_sha1, j as int);
            assert(set_of(read@) =~= if check_sha1 && fv[x as int].stem == Some(stem@)
                && fv[x as int].sha1 is Some {
                st.insert(x as int)
            } else {
                st
            });
            assert(answered == answers(fv[x as int], stem@, sha1@, check_sha1, was_read));
            assert forall|i: int| j + 1 <= i < pv.len() implies (set_of(read@).contains(pv[i])
                <==> read0.contains(pv[i])) by {
                assert(pv[i] != pv[j as int]);
            }
        }
        if answered {
            assert(answer_from(fv, pv, read0, stem@, sha1@, check_sha1, j as int) == Some(j as int));
            assert(set_of(read@) == read_upto(fv, pv, read0, stem@, check_sha1, j + 1));
            return Some(j);
        }
        assert(set_of(read@) == read_upto(fv, pv, read0, stem@, check_sha1, j + 1));
        j = j + 1;
    }
    None
}

/// The download of a listed mod that the mods folder lacks: into
/// `<game>/<path>/<file>`, from the entry's address, checked by its SHA-1.
pub open spec fn spec_missing_mod(game_dir: Seq<Seq<char>>, info: FileOnlineInfoObj) -> ItemView {
    ItemView {
        name: info.name@,
        file: game_dir.push(info.path@).push(info.file@),
        url: info.url@,
        hash: HashView::Sha1(info.sha1@),
        later: LaterView::Nothing,
    }
}

/// The download of a listed mod that the mods folder lacks.
pub fn missing_mod_item(game_dir: &PathObj, info: &FileOnlineInfoObj) -> (r: FileItemObj)
    ensures
        r@ == spec_missing_mod(game_dir@, *info),
{
    FileItemObj {
        name: copy_str(info.name.as_str()),
        file: game_dir.join(info.path.as_str()).join(info.file.as_str()),
        url: copy_str(info.url.as_str()),
        hash: FileHash::Sha1(copy_str(info.sha1.as_str())),
        later: LaterRun::Nothing,
    }
}

/// Where the search for a modpack's mods stands: the files of the mods folder not yet
/// matched to an entry (by their place), the files whose checksum was read, and the
/// entries found missing so far.
pub struct ModSearch {
    pub pool: Seq<int>,
    pub read: Set<int>,
    pub lost: Seq<ItemView>,
}

/// The search after one more online entry: an entry of another folder is passed over;
/// one whose file has no stem is missing; otherwise the first file of the pool that
/// answers it leaves the pool, and where none does the entry is missing.
pub open spec fn mod_step(
    st: ModSearch,
    files: Seq<ModView>,
    info: FileOnlineInfoObj,
    stem: Option<Seq<char>>,
    check_sha1: bool,
    game_dir: Seq<Seq<char>>,
) -> ModSearch {
    if info.path@ != GAME_MODS_DIR@ {
        st
    } else {
        match stem {
            None => ModSearch {
                pool: st.pool,
                read: st.read,
                lost: st.lost.push(spec_missing_mod(game_dir, info)),
            },
            Some(s) => match answer_from(files, st.pool, st.read, s, info.sha1@, check_sha1, 0) {
                Some(k) => ModSearch {
                    pool: st.pool.remove(k),
                    read: read_upto(files, st.pool, st.read, s, check_sha1, k + 1),
                    lost: st.lost,
                },
                None => ModSearch {
                    pool: st.pool,
                    read: read_upto(files, st.pool, st.read, s, check_sha1, st.pool.len() as int),
                    lost: st.lost.push(spec_missing_mod(game_dir, info)),
                },
            },
        }
    }
}

/// The search after the first `n` online entries, starting from every file of the
/// folder, in order, with no checksum read.
pub open spec fn search_mods(
    files: Seq<ModView>,
    infos: Seq<FileOnlineInfoObj>,
    stems: Seq<Option<Seq<char>>>,
    check_sha1: bool,
    game_dir: Seq<Seq<char>>,
    n: int,
) -> ModSearch
    decreases n,
{
    if n <= 0 {
        ModSearch { pool: Seq::new(files.len(), |i: int| i), read: Set::empty(), lost: seq![] }
    } else {
        mod_step(
            search_mods(files, infos, stems, check_sha1, game_dir, n - 1),
            files,
            infos[n - 1],
            stems[n - 1],
            check_sha1,
            game_dir,
        )
    }
}

/// The texts of a list of optional strings.
pub open spec fn opt_views(v: Seq<Option<String>>) -> Seq<Option<Seq<char>>> {
    v.map_values(|s: Option<String>| opt_view(s))
}

/// The mods that a modpack lists in its mods folder and that the folder lacks, in the
/// order of the entries (see `search_mods`); `stems` holds the lower-case file stem of
/// each entry's file, where it has one.
pub fn lost_mods(
    game_dir: &PathObj,
    infos: &Vec<FileOnlineInfoObj>,
    stems: &Vec<Option<String>>,
    files: &Vec<ModFileObj>,
    check_sha1: bool,
) -> (r: Vec<FileItemObj>)
    requires
        stems@.len() == infos@.len(),
    ensures
        items_view(r@) == search_mods(
            mod_views(files@),
            infos@,
            opt_views(stems@),
            check_sha1,
            game_dir@,
            infos@.len() as int,
        ).lost,
{
    let ghost fv = mod_views(files@);
    let ghost sv = opt_views(stems@);
    let mut pool: Vec<usize> = Vec::new();
    let mut read: Vec<bool> = Vec::new();
    let mut f: usize = 0;
    while f < files.len()
        invariant
            f <= files@.len(),
            pool_view(pool@) == Seq::new(f as nat, |i: int| i),
            read@ == Seq::new(f as nat, |i: int| false),
        decreases files@.len() - f,
    {
        let ghost p0 = pool@;
        pool.push(f);
        read.push(false);
        assert(pool_view(pool@) =~= pool_view(p0).push(f as int));
        f = f + 1;
        assert(pool_view(pool@) =~= Seq::new(f as nat, |i: int| i));
        assert(read@ =~= Seq::new(f as nat, |i: int| false));
    }
    assert(set_of(read@) =~= Set::<int>::empty());
    let mut lost: Vec<FileItemObj> = Vec::new();
    assert(items_view(lost@) =~= Seq::<ItemView>::empty());
    let mut i: usize = 0;
    while i < infos.len()
        invariant
            i <= infos@.len(),
            stems@.len() == infos@.len(),
            fv == mod_views(files@),
            sv == opt_views(stems@),
            read@.len() == files@.len(),
            pool_ok(pool_view(pool@), files@.len() as int),
            pool_view(pool@) == search_mods(fv, infos@, sv, check_sha1, game_dir@, i as int).pool,
            set_of(read@) == search_mods(fv, infos@, sv, check_sha1, game_dir@, i as int).read,
            items_view(lost@) == search_mods(fv, infos@, sv, check_sha1, game_dir@, i as int).lost,
        decreases infos@.len() - i,
    {
        let info = &infos[i];
        let ghost lost0 = lost@;
        if str_eq(info.path.as_str(), GAME_MODS_DIR) {
            match &stems[i] {
                None => {
                    lost.push(missing_mod_item(game_dir, info));
                    assert(items_view(lost@) =~= items_view(lost0).push(
                        spec_missing_mod(game_dir@, *info),
                    ));
                },
                Some(s) => {
                    assert(sv[i as int] == Some(s@));
                    match scan_pool(files, &pool, &mut read, s.as_str(), info.sha1.as_str(), check_sha1) {
                        Some(k) => {
                            proof {
                                lemma_answer_from_in(
                                    fv,
                                    pool_view(pool@),
                                    search_mods(fv, infos@, sv, check_sha1, game_dir@, i as int).read,
                                    s@,
                                    info.sha1@,
                                    check_sha1,
                                    0,
                                );
                            }
                            let ghost p0 = pool@;
                            pool.remove(k);
                            assert(pool_view(pool@) =~= pool_view(p0).remove(k as int));
                            proof {
                                let pv = pool_view(pool@);
                                let pv0 = pool_view(p0);
                                assert forall|a: int, b: int| 0 <= a < b < pv.len() implies pv[a] != pv[b] by {
                                    let a0 = if a < k { a } else { a + 1 };
                                    let b0 = if b < k { b } else { b + 1 };
                                    assert(pv[a] == pv0[a0]);
                                    assert(pv[b] == pv0[b0]);
                                }
                                assert forall|a: int| 0 <= a < pv.len() implies 0 <= #[trigger] pv[a] < files@.len() by {
                                    let a0 = if a < k { a } else { a + 1 };
                                    assert(pv[a] == pv0[a0]);
                                }
                            }
                        },
                        None => {
                            lost.push(missing_mod_item(game_dir, info));
                            assert(items_view(lost@) =~= items_view(lost0).push(
                                spec_missing_mod(game_dir@, *info),
                            ));
                        },
                    }
                },
            }
        }
        i = i + 1;
    }
    lost
}

// ---------------------------------------------------------------------------
// Outside calls on names of files
// ---------------------------------------------------------------------------

/// A bare file name: not empty, not `.` or `..`, and free of `/`, `\\` and `:`, so that
/// on every system it is one normal path part, the path's whole file name.
pub open spec fn plain_file_name(s: Seq<char>) -> bool {
    &&& s.len() > 0
    &&& s != seq!['.']
    &&& s != seq!['.', '.']
    &&& forall|i: int| 0 <= i < s.len() ==> (#[trigger] s[i]) != '/' && s[i] != '\\' && s[i] != ':'
}

/// The stem of a bare file name as `Path::file_stem` documents it: the whole name where
/// it has no `.`, or where its only `.` is its first character; otherwise the part
/// before its last `.`.
pub open spec fn spec_file_stem(s: Seq<char>) -> Seq<char> {
    match spec_rfind_char(s, '.') {
        None => s,
        Some(i) => if i == 0 {
            s
        } else {
            s.take(i)
        },
    }
}

/// `Path::file_stem` of a file name, as text. For a bare file name (see
/// `plain_file_name`) std documents the result on every system (see `spec_file_stem`);
/// for another name it depends on the system's path rules, and nothing is stated.
#[verifier::external_body]
pub(crate) fn file_stem_of(name: &str) -> (r: Option<String>)
    ensures
        plain_file_name(name@) ==> opt_view(r) == Some(spec_file_stem(name@)),
{
    match std::path::Path::new(name).file_stem() {
        Some(stem) => Some(stem.to_string_lossy().to_string()),
        None => None,
    }
}

// ---------------------------------------------------------------------------
// The whole check
// ---------------------------------------------------------------------------

/// The checks a launch runs on its files, as the launcher's settings give them: each
/// kind of file is checked or not, and by its checksum or by its presence.
#[derive(Debug, Clone, Copy)]
pub struct FileCheckConfig {
    pub core: bool,
    pub core_sha1: bool,
    pub assets: bool,
    pub assets_sha1: bool,
    pub lib: bool,
    pub lib_sha1: bool,
    pub game_mod: bool,
    pub mod_sha1: bool,
}

/// An object of the asset index: its name and hash.
#[derive(Debug)]
pub struct AssetEntry {
    pub name: String,
    pub hash: String,
}

/// What the disk holds of the files a launch needs: whether each is in order. The game
/// core is checked by its checksum where `core_sha1` is set and else by its presence;
/// the log4j configuration always by its checksum; the asset objects (at the file of
/// `lost_asset_item`) and the libraries as `assets_sha1` and `lib_sha1` say.
#[derive(Debug)]
pub struct FilePresence {
    pub game_jar: bool,
    pub log4j: bool,
    /// One flag per entry of the asset index.
    pub assets: Vec<bool>,
    pub game_libs: Vec<bool>,
    pub loader_libs: Vec<bool>,
    pub installer_libs: Vec<bool>,
}

/// The items of the first `n` whose flag is not set, in order.
pub open spec fn lost_upto(items: Seq<ItemView>, ok: Seq<bool>, n: int) -> Seq<ItemView>
    decreases n,
{
    if n <= 0 {
        seq![]
    } else if ok[n - 1] {
        lost_upto(items, ok, n - 1)
    } else {
        lost_upto(items, ok, n - 1).push(items[n - 1])
    }
}

/// The items whose flag is not set, in order.
pub open spec fn lost_items(items: Seq<ItemView>, ok: Seq<bool>) -> Seq<ItemView> {
    lost_upto(items, ok, items.len() as int)
}

/// The download of an asset object that the disk lacks: into `<objects>/<hash>` (the
/// folder of the first two characters is joined, then replaced by the hash), from
/// Mojang's resource server at `<first two>/<hash>`.
pub open spec fn spec_lost_asset(obj_dir: Seq<Seq<char>>, name: Seq<char>, hash: Seq<char>) -> ItemView {
    ItemView {
        name: name,
        file: obj_dir.push(hash),
        url: "https://resources.download.minecraft.net/"@ + hash_prefix(hash) + "/"@ + hash,
        hash: HashView::Sha1(hash),
        later: LaterView::Nothing,
    }
}

/// The lost asset objects among the first `n` entries of the index, in order.
pub open spec fn lost_assets_upto(
    obj_dir: Seq<Seq<char>>,
    entries: Seq<AssetEntry>,
    ok: Seq<bool>,
    n: int,
) -> Seq<ItemView>
    decreases n,
{
    if n <= 0 {
        seq![]
    } else if ok[n - 1] {
        lost_assets_upto(obj_dir, entries, ok, n - 1)
    } else {
        lost_assets_upto(obj_dir, entries, ok, n - 1).push(
            spec_lost_asset(obj_dir, entries[n - 1].name@, entries[n - 1].hash@),
        )
    }
}

/// The files a launch lacks besides a modpack's mods: the game core and its log4j
/// configuration, then the asset objects, then the libraries (the game's, the
/// loader's, its installer's), each kind only where it is checked.
pub open spec fn spec_lost_files(
    obj: GameLaunchObj,
    config: FileCheckConfig,
    presence: FilePresence,
    obj_dir: Seq<Seq<char>>,
    assets: Seq<AssetEntry>,
) -> Seq<ItemView> {
    let core = if config.core {
        (if presence.game_jar {
            seq![]
        } else {
            seq![obj.game_jar@]
        }) + match obj.log4j_xml {
            Some(l) => if presence.log4j {
                seq![]
            } else {
                seq![l@]
            },
            None => seq![],
        }
    } else {
        seq![]
    };
    let lost_assets = if config.assets {
        lost_assets_upto(obj_dir, assets, presence.assets@, assets.len() as int)
    } else {
        seq![]
    };
    let libs = if config.lib {
        lost_items(items_view(obj.game_libs@), presence.game_libs@) + lost_items(
            items_view(obj.loader_libs@),
            presence.loader_libs@,
        ) + lost_items(items_view(obj.installer_libs@), presence.installer_libs@)
    } else {
        seq![]
    };
    core + lost_assets + libs
}

/// The mod files with their stems in lower case.
pub open spec fn lowered(files: Seq<ModView>) -> Seq<ModView> {
    files.map_values(
        |f: ModView|
            ModView {
                stem: match f.stem {
                    Some(s) => Some(lowercase(s)),
                    None => None,
                },
                sha1: f.sha1,
            },
    )
}

/// The download of an asset object that the disk lacks (see `spec_lost_asset`).
pub fn lost_asset_item(obj_dir: &PathObj, name: &str, hash: &str) -> (r: FileItemObj)
    ensures
        r@ == spec_lost_asset(obj_dir@, name@, hash@),
{
    let chars = chars_of(hash);
    let mut dir = String::new();
    if chars.len() < 2 {
        push_chars(&mut dir, chars.as_slice());
    } else {
        let two = sub_chars(chars.as_slice(), 0, 2);
        push_chars(&mut dir, two.as_slice());
    }
    assert(dir@ =~= hash_prefix(hash@));
    let mut url = copy_str("https://resources.download.minecraft.net/");
    push_str(&mut url, dir.as_str());
    push_str(&mut url, "/");
    push_str(&mut url, hash);
    let file = obj_dir.join(dir.as_str()).with_file_name(hash);
    assert(file@ =~= obj_dir@.push(hash@));
    FileItemObj {
        name: copy_str(name),
        file,
        url,
        hash: FileHash::Sha1(copy_str(hash)),
        later: LaterRun::Nothing,
    }
}

/// Appends the items whose flag is not set.
fn push_lost_items(out: &mut Vec<FileItemObj>, items: &Vec<FileItemObj>, ok: &Vec<bool>)
    requires
        ok@.len() == items@.len(),
    ensures
        items_view(final(out)@) == items_view(old(out)@) + lost_items(items_view(items@), ok@),
{
    let ghost start = items_view(out@);
    let ghost iv = items_view(items@);
    let mut i: usize = 0;
    while i < items.len()
        invariant
            i <= items@.len(),
            ok@.len() == items@.len(),
            iv == items_view(items@),
            items_view(out@) == start + lost_upto(iv, ok@, i as int),
        decreases items@.len() - i,
    {
        let ghost o0 = out@;
        if !ok[i] {
            out.push(items[i].copy());
            assert(items_view(out@) =~= items_view(o0).push(iv[i as int]));
        }
        i = i + 1;
        assert(items_view(out@) =~= start + lost_upto(iv, ok@, i as int));
    }
}

/// Appends the lost asset objects.
fn push_lost_assets(
    out: &mut Vec<FileItemObj>,
    obj_dir: &PathObj,
    entries: &Vec<AssetEntry>,
    ok: &Vec<bool>,
)
    requires
        ok@.len() == entries@.len(),
    ensures
        items_view(final(out)@) == items_view(old(out)@) + lost_assets_upto(
            obj_dir@,
            entries@,
            ok@,
            entries@.len() as int,
        ),
{
    let ghost start = items_view(out@);
    let mut i: usize = 0;
    while i < entries.len()
        invariant
            i <= entries@.len(),
            ok@.len() == entries@.len(),
            items_view(out@) == start + lost_assets_upto(obj_dir@, entries@, ok@, i as int),
        decreases entries@.len() - i,
    {
        let ghost o0 = out@;
        if !ok[i] {
            let e = &entries[i];
            out.push(lost_asset_item(obj_dir, e.name.as_str(), e.hash.as_str()));
            assert(items_view(out@) =~= items_view(o0).push(
                spec_lost_asset(obj_dir@, e.name@, e.hash@),
            ));
        }
        i = i + 1;
        assert(items_view(out@) =~= start + lost_assets_upto(obj_dir@, entries@, ok@, i as int));
    }
}

/// The mod files with their stems in lower case.
fn lower_mod_files(files: &Vec<ModFileObj>) -> (r: Vec<ModFileObj>)
    ensures
        mod_views(r@) == lowered(mod_views(files@)),
{
    let mut r: Vec<ModFileObj> = Vec::new();
    let mut i: usize = 0;
    while i < files.len()
        invariant
            i <= files@.len(),
            mod_views(r@) == lowered(mod_views(files@)).take(i as int),
        decreases files@.len() - i,
    {
        let f = &files[i];
        let stem = match &f.stem {
            Some(s) => Some(to_lower(s.as_str())),
            None => None,
        };
        let sha1 = match &f.sha1 {
            Some(h) => Some(copy_str(h.as_str())),
            None => None,
        };
        let ghost r0 = r@;
        r.push(ModFileObj { stem, sha1 });
        assert(mod_views(r@) =~= mod_views(r0).push(lowered(mod_views(files@))[i as int]));
        i = i + 1;
        assert(mod_views(r@) =~= lowered(mod_views(files@)).take(i as int));
    }
    assert(lowered(mod_views(files@)).take(i as int) =~= lowered(mod_views(files@)));
    r
}

impl InstanceSettingObj {
    /// The files a launch lacks (see `spec_lost_files`), then, for a modpack whose mods
    /// are checked, the mods that its online list places in the mods folder and that
    /// the folder lacks (see `search_mods`: `mod_files` are the files of the mods
    /// folder, matched by their lower-case stems to the stems of the entries' lower-case
    /// file names; for a bare file name that stem is the one `spec_file_stem` gives).
    pub fn get_lost_game_file(
        &self,
        obj: &GameLaunchObj,
        config: &FileCheckConfig,
        presence: &FilePresence,
        obj_dir: &PathObj,
        asset_index: &Vec<AssetEntry>,
        game_dir: &PathObj,
        online: &Vec<FileOnlineInfoObj>,
        mod_files: &Vec<ModFileObj>,
    ) -> (r: Vec<FileItemObj>)
        requires
            presence.assets@.len() == asset_index@.len(),
            presence.game_libs@.len() == obj.game_libs@.len(),
            presence.loader_libs@.len() == obj.loader_libs@.len(),
            presence.installer_libs@.len() == obj.installer_libs@.len(),
        ensures
            self.is_modpack && config.game_mod ==> exists|stems: Seq<Option<Seq<char>>>|
                #![trigger stems.len()]
                stems.len() == online@.len() && (forall|i: int|
                    0 <= i < stems.len() && plain_file_name(lowercase(#[trigger] online@[i].file@))
                        ==> stems[i] == Some(spec_file_stem(lowercase(online@[i].file@))))
                    && items_view(r@) == spec_lost_files(
                    *obj,
                    *config,
                    *presence,
                    obj_dir@,
                    asset_index@,
                ) + search_mods(
                    lowered(mod_views(mod_files@)),
                    online@,
                    stems,
                    config.mod_sha1,
                    game_dir@,
                    online@.len() as int,
                ).lost,
            !(self.is_modpack && config.game_mod) ==> items_view(r@) == spec_lost_files(
                *obj,
                *config,
                *presence,
                obj_dir@,
                asset_index@,
            ),
    {
        let mut list: Vec<FileItemObj> = Vec::new();
        if config.core {
            let ghost l0 = list@;
            if !presence.game_jar {
                list.push(obj.game_jar.copy());
            }
            let ghost l1 = list@;
            match &obj.log4j_xml {
                Some(l) => {
                    if !presence.log4j {
                        list.push(l.copy());
                    }
                },
                None => {},
            }
            assert(items_view(list@) =~= items_view(l0) + (if presence.game_jar {
                seq![]
            } else {
                seq![obj.game_jar@]
            }) + match obj.log4j_xml {
                Some(l) => if presence.log4j {
                    seq![]
                } else {
                    seq![l@]
                },
                None => seq![],
            });
        }
        let ghost after_core = items_view(list@);
        if config.assets {
            push_lost_assets(&mut list, obj_dir, asset_index, &presence.assets);
        }
        let ghost after_assets = items_view(list@);
        if config.lib {
            push_lost_items(&mut list, &obj.game_libs, &presence.game_libs);
            push_lost_items(&mut list, &obj.loader_libs, &presence.loader_libs);
            push_lost_items(&mut list, &obj.installer_libs, &presence.installer_libs);
        }
        assert(items_view(list@) =~= spec_lost_files(
            *obj,
            *config,
            *presence,
            obj_dir@,
            asset_index@,
        ));
        if self.is_modpack && config.game_mod {
            let files = lower_mod_files(mod_files);
            let mut stems: Vec<Option<String>> = Vec::new();
            let mut i: usize = 0;
            while i < online.len()
                invariant
                    i <= online@.len(),
                    stems@.len() == i,
                    forall|j: int|
                        0 <= j < i && plain_file_name(lowercase(#[trigger] online@[j].file@))
                            ==> opt_view(stems@[j]) == Some(spec_file_stem(lowercase(online@[j].file@))),
                decreases online@.len() - i,
            {
                let lower = to_lower(online[i].file.as_str());
                stems.push(file_stem_of(lower.as_str()));
                i = i + 1;
            }
            let mods = lost_mods(game_dir, online, &stems, &files, config.mod_sha1);
            let ghost before = items_view(list@);
            let mut k: usize = 0;
            while k < mods.len()
                invariant
                    k <= mods@.len(),
                    items_view(list@) == before + items_view(mods@).take(k as int),
                decreases mods@.len() - k,
            {
                let ghost l0 = list@;
                list.push(mods[k].copy());
                assert(items_view(list@) =~= items_view(l0).push(mods@[k as int]@));
                k = k + 1;
                assert(items_view(list@) =~= before + items_view(mods@).take(k as int));
            }
            assert(items_view(mods@).take(k as int) =~= items_view(mods@));
            let ghost sv = opt_views(stems@);
            assert(sv.len() == online@.len());
            assert forall|i: int|
                0 <= i < sv.len() && plain_file_name(lowercase(#[trigger] online@[i].file@))
                    implies sv[i] == Some(spec_file_stem(lowercase(online@[i].file@))) by {
                assert(sv[i] == opt_view(stems@[i]));
            }
            assert(items_view(list@) == spec_lost_files(
                *obj,
                *config,
                *presence,
                obj_dir@,
                asset_index@,
            ) + search_mods(
                lowered(mod_views(mod_files@)),
                online@,
                sv,
                config.mod_sha1,
                game_dir@,
                online@.len() as int,
            ).lost);
        }
        list
    }
}

/// Every entry of a modpack's online list accounts for at most one file of the mods
/// folder or one missing mod, never both: the files left unmatched stay distinct
/// places of the folder, and the missing mods and matched files together number at
/// most the entries looked at.
pub proof fn law_search_accounts(
    files: Seq<ModView>,
    infos: Seq<FileOnlineInfoObj>,
    stems: Seq<Option<Seq<char>>>,
    check_sha1: bool,
    game_dir: Seq<Seq<char>>,
    n: int,
)
    requires
        0 <= n <= infos.len(),
        stems.len() == infos.len(),
    ensures
        pool_ok(search_mods(files, infos, stems, check_sha1, game_dir, n).pool, files.len() as int),
        search_mods(files, infos, stems, check_sha1, game_dir, n).pool.len() <= files.len(),
        search_mods(files, infos, stems, check_sha1, game_dir, n).lost.len() + files.len()
            - search_mods(files, infos, stems, check_sha1, game_dir, n).pool.len() <= n,
    decreases n,
{
    if n > 0 {
        law_search_accounts(files, infos, stems, check_sha1, game_dir, n - 1);
        let st = search_mods(files, infos, stems, check_sha1, game_dir, n - 1);
        let info = infos[n - 1];
        if info.path@ == GAME_MODS_DIR@ {
            if let Some(s) = stems[n - 1] {
                lemma_answer_from_in(files, st.pool, st.read, s, info.sha1@, check_sha1, 0);
                if let Some(k) = answer_from(files, st.pool, st.read, s, info.sha1@, check_sha1, 0) {
                    let pv = st.pool.remove(k);
                    assert forall|a: int, b: int| 0 <= a < b < pv.len() implies pv[a] != pv[b] by {
                        let a0 = if a < k { a } else { a + 1 };
                        let b0 = if b < k { b } else { b + 1 };
                        assert(pv[a] == st.pool[a0]);
                        assert(pv[b] == st.pool[b0]);
                    }
                    assert forall|a: int| 0 <= a < pv.len() implies 0 <= #[trigger] pv[a] < files.len() by {
                        let a0 = if a < k { a } else { a + 1 };
                        assert(pv[a] == st.pool[a0]);
                    }
                }
            }
        }
    } else {
        let p = Seq::new(files.len(), |i: int| i);
        assert(pool_ok(p, files.len() as int));
    }
}

/// A file whose flag says it is in order is never reported lost: where every flag is
/// set, nothing is.
pub proof fn law_all_present_none_lost(items: Seq<ItemView>, ok: Seq<bool>, n: int)
    requires
        0 <= n <= ok.len(),
        forall|i: int| 0 <= i < ok.len() ==> ok[i],
    ensures
        lost_upto(items, ok, n).len() == 0,
    decreases n,
{
    if n > 0 {
        law_all_present_none_lost(items, ok, n - 1);
    }
}

} // verus!

//! The versions folder: where game and loader descriptions are kept, and the caches
//! of the descriptions already read.
use vstd::prelude::*;

use crate::file_item::PathObj;
use crate::launcher::custom_loader_obj::CustomLoaderType;
use crate::launcher::game_setting_obj::InstanceSettingObj;
use crate::launcher_path::keyed_cache::{lookup, KeyedCache};
use crate::loader::fabric_loader_obj::FabricLoaderObj;
use crate::loader::forge_launch_obj::ForgeLaunchObj;
use crate::loader::quilt_loader_obj::QuiltLoaderObj;
use crate::loader::optifine_obj::OptifineObj;
use crate::loader::{LoaderKey, LoaderType};
use crate::mojang::game_arg_obj::GameArgObj;
use crate::mojang::version_checker::{is_game_version_1202, spec_is_at_least, v1202};
use crate::mojang::version_obj::{VersionObj, VersionsObj};
use crate::mojang::version_parse::version_fits;
use crate::names::{
    FABRIC_KEY, FABRIC_LOADER_KEY, QUILT_LOADER_KEY, FILE_INSTALL, FORGE_KEY, JSON_EXT, NEOFORGED_KEY, NEOFORGE_KEY,
    QUILT_KEY,
};
use crate::text::{
    copy_str, eq_ignore_ascii_case, str_eq, push_char, push_str, spec_eq_ignore_ascii_case,
};

verus! {

/// The versions folder and what the launcher has read of it: the list of game
/// versions, the game descriptions, the loader descriptions and the custom loaders of
/// instances.
#[derive(Debug)]
pub struct VersionPath {
    pub base_dir: PathObj,
    pub version: Option<VersionObj>,
    pub game_args: KeyedCache<String, GameArgObj>,
    pub forge_launchs: KeyedCache<LoaderKey, ForgeLaunchObj>,
    pub neoforge_launchs: KeyedCache<LoaderKey, ForgeLaunchObj>,
    pub fabric_loaders: KeyedCache<LoaderKey, FabricLoaderObj>,
    pub quilt_loaders: KeyedCache<LoaderKey, QuiltLoaderObj>,
    pub custom_loaders: KeyedCache<u128, CustomLoaderType>,
}

impl VersionPath {
    /// Every cache is well formed.
    pub open spec fn wf(&self) -> bool {
        &&& self.game_args.wf()
        &&& self.forge_launchs.wf()
        &&& self.neoforge_launchs.wf()
        &&& self.fabric_loaders.wf()
        &&& self.quilt_loaders.wf()
        &&& self.custom_loaders.wf()
    }

    /// The versions folder at `base_dir`, with nothing read yet.
    pub fn new(base_dir: PathObj) -> (r: Self)
        ensures
            r.wf(),
            r.base_dir@ == base_dir@,
            r.version is None,
            r.game_args@ == Map::<Seq<char>, GameArgObj>::empty(),
            r.forge_launchs@ == Map::<(Seq<char>, Seq<char>), ForgeLaunchObj>::empty(),
            r.neoforge_launchs@ == Map::<(Seq<char>, Seq<char>), ForgeLaunchObj>::empty(),
            r.fabric_loaders@ == Map::<(Seq<char>, Seq<char>), FabricLoaderObj>::empty(),
            r.quilt_loaders@ == Map::<(Seq<char>, Seq<char>), QuiltLoaderObj>::empty(),
            r.custom_loaders@ == Map::<u128, CustomLoaderType>::empty(),
    {
        VersionPath {
            base_dir,
            version: None,
            game_args: KeyedCache::new(),
            forge_launchs: KeyedCache::new(),
            neoforge_launchs: KeyedCache::new(),
            fabric_loaders: KeyedCache::new(),
            quilt_loaders: KeyedCache::new(),
            custom_loaders: KeyedCache::new(),
        }
    }
}

/// What an update check of a game version does once the version list is fresh.
#[derive(Debug, Clone, Copy, PartialEq, Eq, Structural)]
pub enum VersionUpdate {
    /// The list has no such version.
    NotFound,
    /// The description on disk differs from the listed one: fetch item `i` again.
    Fetch(usize),
    /// The description on disk is the listed one: read it.
    UseLocal,
}

/// The step of an update check of `version`: not found where the list has no such id
/// (ASCII case aside); otherwise the first such item is fetched again unless the SHA-1
/// of the description on disk, `local_sha1`, equals the listed one exactly.
pub fn version_update_step(obj: &VersionObj, version: &str, local_sha1: &str) -> (r: VersionUpdate)
    ensures
        r == VersionUpdate::NotFound <==> no_match(obj.versions@, version@),
        r matches VersionUpdate::Fetch(i) ==> is_first_match(obj.versions@, version@, i as int)
            && obj.versions@[i as int].sha1@ != local_sha1@,
        r == VersionUpdate::UseLocal ==> exists|i: int|
            is_first_match(obj.versions@, version@, i) && obj.versions@[i].sha1@ == local_sha1@,
{
    match find_version(obj, version) {
        None => VersionUpdate::NotFound,
        Some(i) => {
            proof {
                assert(obj.versions@[i as int].id@ =~= obj.versions@[i as int].id@);
            }
            if str_eq(obj.versions[i].sha1.as_str(), local_sha1) {
                VersionUpdate::UseLocal
            } else {
                VersionUpdate::Fetch(i)
            }
        },
    }
}

/// The OptiFine releases the launcher knows, by version.
#[derive(Debug)]
pub struct OptifineInfos {
    pub list: KeyedCache<String, OptifineObj>,
}

impl OptifineInfos {
    /// No release known yet.
    pub fn new() -> (r: Self)
        ensures
            r.list.wf(),
            r.list@ == Map::<Seq<char>, OptifineObj>::empty(),
    {
        OptifineInfos { list: KeyedCache::new() }
    }
}

/// Keeps an OptiFine release under its version, in place of one kept there before.
pub fn add_optifine(infos: &mut OptifineInfos, obj: OptifineObj)
    requires
        old(infos).list.wf(),
    ensures
        final(infos).list.wf(),
        final(infos).list@ == old(infos).list@.insert(obj.version@, obj),
{
    let key = copy_str(obj.version.as_str());
    infos.list.insert(key, obj);
}

/// The OptiFine release of a version, once known.
pub fn get_optifine<'a>(infos: &'a OptifineInfos, version: &str) -> (r: Option<&'a OptifineObj>)
    requires
        infos.list.wf(),
    ensures
        match r {
            Some(v) => lookup(infos.list@, version@) == Some(*v),
            None => lookup(infos.list@, version@) is None,
        },
{
    infos.list.get(&copy_str(version))
}

/// The folder of Forge descriptions.
pub open spec fn spec_forge_dir(base: Seq<Seq<char>>) -> Seq<Seq<char>> {
    base.push(FORGE_KEY@)
}

/// The folder of NeoForge descriptions.
pub open spec fn spec_neoforge_dir(base: Seq<Seq<char>>) -> Seq<Seq<char>> {
    base.push(NEOFORGED_KEY@)
}

/// The folder of Fabric descriptions.
pub open spec fn spec_fabric_dir(base: Seq<Seq<char>>) -> Seq<Seq<char>> {
    base.push(FABRIC_KEY@)
}

/// The folder of Quilt descriptions.
pub open spec fn spec_quilt_dir(base: Seq<Seq<char>>) -> Seq<Seq<char>> {
    base.push(QUILT_KEY@)
}

/// `name` followed by the JSON extension.
pub open spec fn json_name(name: Seq<char>) -> Seq<char> {
    name + JSON_EXT@
}

/// `a`, a hyphen, then `b`.
pub open spec fn dashed(a: Seq<char>, b: Seq<char>) -> Seq<char> {
    a + seq!['-'] + b
}

/// The file name of a Forge or NeoForge description: of the launch description, or of
/// the installer description when `install` is set. NeoForge from game version 1.20.2
/// on names its files by the loader version alone; before that it names them as Forge
/// does.
pub open spec fn spec_forge_json_name(
    mc: Seq<char>,
    version: Seq<char>,
    neo: bool,
    install: bool,
) -> Seq<char> {
    let stem = if neo && spec_is_at_least(mc, v1202()) {
        dashed(NEOFORGE_KEY@, version)
    } else if neo {
        dashed(dashed(FORGE_KEY@, mc), version)
    } else {
        dashed(FORGE_KEY@, version)
    };
    if install {
        json_name(dashed(stem, FILE_INSTALL@))
    } else {
        json_name(stem)
    }
}

/// The file name of a Fabric loader description.
pub open spec fn spec_fabric_json_name(mc: Seq<char>, version: Seq<char>) -> Seq<char> {
    json_name(dashed(dashed(FABRIC_LOADER_KEY@, version), mc))
}

/// The file name of a Quilt loader description.
pub open spec fn spec_quilt_json_name(mc: Seq<char>, version: Seq<char>) -> Seq<char> {
    json_name(dashed(dashed(QUILT_LOADER_KEY@, version), mc))
}

/// The file of the Forge (or, with `neo`, NeoForge) launch description of a game
/// version and a loader version: where it is written and where it is read back.
pub open spec fn spec_forge_launch_file(base: Seq<Seq<char>>, mc: Seq<char>, version: Seq<char>, neo: bool) -> Seq<Seq<char>> {
    (if neo {
        spec_neoforge_dir(base)
    } else {
        spec_forge_dir(base)
    }).push(spec_forge_json_name(mc, version, neo, false))
}

/// The file of the Fabric loader description of a game version and a loader version:
/// where it is written and where it is read back.
pub open spec fn spec_fabric_loader_file(base: Seq<Seq<char>>, mc: Seq<char>, version: Seq<char>) -> Seq<Seq<char>> {
    spec_fabric_dir(base).push(spec_fabric_json_name(mc, version))
}

/// The file of the Quilt loader description of a game version and a loader version:
/// where it is written and where it is read back.
pub open spec fn spec_quilt_loader_file(base: Seq<Seq<char>>, mc: Seq<char>, version: Seq<char>) -> Seq<Seq<char>> {
    spec_quilt_dir(base).push(spec_quilt_json_name(mc, version))
}

/// The versions folder.
pub fn get_version_dir(paths: &VersionPath) -> (r: PathObj)
    ensures
        r@ == paths.base_dir@,
{
    paths.base_dir.copy()
}

/// `a`, a hyphen, then `b`.
fn dashed_string(a: &str, b: &str) -> (r: String)
    ensures
        r@ == dashed(a@, b@),
{
    let mut r = copy_str(a);
    push_char(&mut r, '-');
    push_str(&mut r, b);
    r
}

/// The file name of a Forge or NeoForge description (see `spec_forge_json_name`).
pub fn get_forge_json_name(mc: &str, version: &str, neo: bool, install: bool) -> (r: String)
    requires
        neo ==> version_fits(mc@),
    ensures
        r@ == spec_forge_json_name(mc@, version@, neo, install),
{
    let mut stem = if neo {
        if is_game_version_1202(copy_str(mc)) {
            dashed_string(NEOFORGE_KEY, version)
        } else {
            let head = dashed_string(FORGE_KEY, mc);
            dashed_string(head.as_str(), version)
        }
    } else {
        dashed_string(FORGE_KEY, version)
    };
    if install {
        push_char(&mut stem, '-');
        push_str(&mut stem, FILE_INSTALL);
    }
    push_str(&mut stem, JSON_EXT);
    stem
}

/// The file that holds the Forge (or, with `neo`, NeoForge) launch description of a
/// game version and a loader version.
pub fn forge_launch_file(paths: &VersionPath, mc: &str, version: &str, neo: bool) -> (r: PathObj)
    requires
        neo ==> version_fits(mc@),
    ensures
        r@ == spec_forge_launch_file(paths.base_dir@, mc@, version@, neo),
{
    let dir = if neo {
        paths.base_dir.join(NEOFORGED_KEY)
    } else {
        paths.base_dir.join(FORGE_KEY)
    };
    dir.join_string(get_forge_json_name(mc, version, neo, false))
}

/// The file that holds the Fabric loader description of a game version and a loader
/// version.
pub fn fabric_loader_file(paths: &VersionPath, mc: &str, version: &str) -> (r: PathObj)
    ensures
        r@ == spec_fabric_loader_file(paths.base_dir@, mc@, version@),
{
    let mut name = dashed_string(FABRIC_LOADER_KEY, version);
    push_char(&mut name, '-');
    push_str(&mut name, mc);
    push_str(&mut name, JSON_EXT);
    assert(name@ =~= spec_fabric_json_name(mc@, version@));
    paths.base_dir.join(FABRIC_KEY).join_string(name)
}

/// The file that holds the Quilt loader description of a game version and a loader
/// version, in the Quilt folder.
pub fn quilt_loader_file(paths: &VersionPath, mc: &str, version: &str) -> (r: PathObj)
    ensures
        r@ == spec_quilt_loader_file(paths.base_dir@, mc@, version@),
{
    let mut name = dashed_string(QUILT_LOADER_KEY, version);
    push_char(&mut name, '-');
    push_str(&mut name, mc);
    push_str(&mut name, JSON_EXT);
    assert(name@ =~= spec_quilt_json_name(mc@, version@));
    paths.base_dir.join(QUILT_KEY).join_string(name)
}

/// The file that holds the description of a game version.
pub fn game_arg_file(paths: &VersionPath, version: &str) -> (r: PathObj)
    ensures
        r@ == paths.base_dir@.push(json_name(version@)),
{
    let mut name = copy_str(version);
    push_str(&mut name, JSON_EXT);
    paths.base_dir.join_string(name)
}

/// The Forge launch description of a game version and a loader version, once read.
pub fn get_forge<'a>(paths: &'a VersionPath, mc: &str, version: &str) -> (r: Option<
    &'a ForgeLaunchObj,
>)
    requires
        paths.wf(),
    ensures
        match r {
            Some(v) => lookup(paths.forge_launchs@, (mc@, version@)) == Some(*v),
            None => lookup(paths.forge_launchs@, (mc@, version@)) is None,
        },
{
    paths.forge_launchs.get(&LoaderKey::from_strs(mc, version))
}

/// The NeoForge launch description of a game version and a loader version, once read.
pub fn get_neoforge<'a>(paths: &'a VersionPath, mc: &str, version: &str) -> (r: Option<
    &'a ForgeLaunchObj,
>)
    requires
        paths.wf(),
    ensures
        match r {
            Some(v) => lookup(paths.neoforge_launchs@, (mc@, version@)) == Some(*v),
            None => lookup(paths.neoforge_launchs@, (mc@, version@)) is None,
        },
{
    paths.neoforge_launchs.get(&LoaderKey::from_strs(mc, version))
}

/// The Fabric loader description of a game version and a loader version, once read.
pub fn get_fabric<'a>(paths: &'a VersionPath, mc: &str, version: &str) -> (r: Option<
    &'a FabricLoaderObj,
>)
    requires
        paths.wf(),
    ensures
        match r {
            Some(v) => lookup(paths.fabric_loaders@, (mc@, version@)) == Some(*v),
            None => lookup(paths.fabric_loaders@, (mc@, version@)) is None,
        },
{
    paths.fabric_loaders.get(&LoaderKey::from_strs(mc, version))
}

/// The Quilt loader description of a game version and a loader version, once read.
pub fn get_quilt<'a>(paths: &'a VersionPath, mc: &str, version: &str) -> (r: Option<
    &'a QuiltLoaderObj,
>)
    requires
        paths.wf(),
    ensures
        match r {
            Some(v) => lookup(paths.quilt_loaders@, (mc@, version@)) == Some(*v),
            None => lookup(paths.quilt_loaders@, (mc@, version@)) is None,
        },
{
    paths.quilt_loaders.get(&LoaderKey::from_strs(mc, version))
}

/// The description of a game version, once read.
pub fn get_version<'a>(paths: &'a VersionPath, version: &str) -> (r: Option<&'a GameArgObj>)
    requires
        paths.wf(),
    ensures
        match r {
            Some(v) => lookup(paths.game_args@, version@) == Some(*v),
            None => lookup(paths.game_args@, version@) is None,
        },
{
    paths.game_args.get(&copy_str(version))
}

/// Keeps the description of a game version under its id; gives the file where its
/// text is to be written.
pub fn add_game(paths: &mut VersionPath, obj: &VersionsObj, json: GameArgObj) -> (r: PathObj)
    requires
        old(paths).wf(),
    ensures
        final(paths).wf(),
        final(paths).game_args@ == old(paths).game_args@.insert(obj.id@, json),
        final(paths).base_dir@ == old(paths).base_dir@,
        final(paths).version == old(paths).version,
        final(paths).forge_launchs@ == old(paths).forge_launchs@,
        final(paths).neoforge_launchs@ == old(paths).neoforge_launchs@,
        final(paths).fabric_loaders@ == old(paths).fabric_loaders@,
        final(paths).quilt_loaders@ == old(paths).quilt_loaders@,
        final(paths).custom_loaders@ == old(paths).custom_loaders@,
        r@ == old(paths).base_dir@.push(json_name(obj.id@)),
{
    let file = game_arg_file(paths, obj.id.as_str());
    paths.game_args.insert(copy_str(obj.id.as_str()), json);
    file
}

/// Keeps a game description that was read from its file.
pub fn put_version(paths: &mut VersionPath, version: &str, json: GameArgObj)
    requires
        old(paths).wf(),
    ensures
        final(paths).wf(),
        final(paths).game_args@ == old(paths).game_args@.insert(version@, json),
        final(paths).base_dir@ == old(paths).base_dir@,
        final(paths).version == old(paths).version,
        final(paths).forge_launchs@ == old(paths).forge_launchs@,
        final(paths).neoforge_launchs@ == old(paths).neoforge_launchs@,
        final(paths).fabric_loaders@ == old(paths).fabric_loaders@,
        final(paths).quilt_loaders@ == old(paths).quilt_loaders@,
        final(paths).custom_loaders@ == old(paths).custom_loaders@,
{
    paths.game_args.insert(copy_str(version), json);
}

/// Keeps a Fabric loader description under its game and loader versions; gives the
/// file where its text is to be written, the one `fabric_loader_file` reads back.
pub fn add_fabric(paths: &mut VersionPath, obj: FabricLoaderObj, mc: &str, version: &str) -> (r:
    PathObj)
    requires
        old(paths).wf(),
    ensures
        final(paths).wf(),
        final(paths).fabric_loaders@ == old(paths).fabric_loaders@.insert((mc@, version@), obj),
        final(paths).base_dir@ == old(paths).base_dir@,
        final(paths).version == old(paths).version,
        final(paths).game_args@ == old(paths).game_args@,
        final(paths).forge_launchs@ == old(paths).forge_launchs@,
        final(paths).neoforge_launchs@ == old(paths).neoforge_launchs@,
        final(paths).quilt_loaders@ == old(paths).quilt_loaders@,
        final(paths).custom_loaders@ == old(paths).custom_loaders@,
        r@ == spec_fabric_loader_file(old(paths).base_dir@, mc@, version@),
{
    let file = fabric_loader_file(paths, mc, version);
    paths.fabric_loaders.insert(LoaderKey::from_strs(mc, version), obj);
    file
}

/// Keeps a Quilt loader description under its game and loader versions; gives the
/// file where its text is to be written, the one `quilt_loader_file` reads back.
pub fn add_quilt(paths: &mut VersionPath, obj: QuiltLoaderObj, mc: &str, version: &str) -> (r:
    PathObj)
    requires
        old(paths).wf(),
    ensures
        final(paths).wf(),
        final(paths).quilt_loaders@ == old(paths).quilt_loaders@.insert((mc@, version@), obj),
        final(paths).base_dir@ == old(paths).base_dir@,
        final(paths).version == old(paths).version,
        final(paths).game_args@ == old(paths).game_args@,
        final(paths).forge_launchs@ == old(paths).forge_launchs@,
        final(paths).neoforge_launchs@ == old(paths).neoforge_launchs@,
        final(paths).fabric_loaders@ == old(paths).fabric_loaders@,
        final(paths).custom_loaders@ == old(paths).custom_loaders@,
        r@ == spec_quilt_loader_file(old(paths).base_dir@, mc@, version@),
{
    let file = quilt_loader_file(paths, mc, version);
    paths.quilt_loaders.insert(LoaderKey::from_strs(mc, version), obj);
    file
}

/// Keeps a Forge (or, with `neo`, NeoForge) launch description under its game and
/// loader versions; gives the file where its text is to be written, the one
/// `forge_launch_file` reads back.
pub fn add_forge(
    paths: &mut VersionPath,
    obj: ForgeLaunchObj,
    mc: &str,
    version: &str,
    neo: bool,
) -> (r: PathObj)
    requires
        old(paths).wf(),
        version_fits(mc@),
    ensures
        final(paths).wf(),
        neo ==> final(paths).neoforge_launchs@ == old(paths).neoforge_launchs@.insert(
            (mc@, version@),
            obj,
        ),
        neo ==> final(paths).forge_launchs@ == old(paths).forge_launchs@,
        !neo ==> final(paths).forge_launchs@ == old(paths).forge_launchs@.insert(
            (mc@, version@),
            obj,
        ),
        !neo ==> final(paths).neoforge_launchs@ == old(paths).neoforge_launchs@,
        final(paths).base_dir@ == old(paths).base_dir@,
        final(paths).version == old(paths).version,
        final(paths).game_args@ == old(paths).game_args@,
        final(paths).fabric_loaders@ == old(paths).fabric_loaders@,
        final(paths).quilt_loaders@ == old(paths).quilt_loaders@,
        final(paths).custom_loaders@ == old(paths).custom_loaders@,
        r@ == spec_forge_launch_file(old(paths).base_dir@, mc@, version@, neo),
{
    let file = forge_launch_file(paths, mc, version, neo);
    let key = LoaderKey::from_strs(mc, version);
    if neo {
        paths.neoforge_launchs.insert(key, obj);
    } else {
        paths.forge_launchs.insert(key, obj);
    }
    file
}

/// Keeps the custom loader of an instance.
pub fn add_custom_loader(paths: &mut VersionPath, obj: CustomLoaderType, uuid: u128)
    requires
        old(paths).wf(),
    ensures
        final(paths).wf(),
        final(paths).custom_loaders@ == old(paths).custom_loaders@.insert(uuid, obj),
        final(paths).base_dir@ == old(paths).base_dir@,
        final(paths).version == old(paths).version,
        final(paths).game_args@ == old(paths).game_args@,
        final(paths).forge_launchs@ == old(paths).forge_launchs@,
        final(paths).neoforge_launchs@ == old(paths).neoforge_launchs@,
        final(paths).fabric_loaders@ == old(paths).fabric_loaders@,
        final(paths).quilt_loaders@ == old(paths).quilt_loaders@,
{
    paths.custom_loaders.insert(uuid, obj);
}

/// Whether the list of game versions has been read.
pub fn is_have_version_info(paths: &VersionPath) -> (r: bool)
    ensures
        r == paths.version is Some,
{
    paths.version.is_some()
}

/// Item `i` is the first of `vs` whose id is `version`, ASCII case aside.
pub open spec fn is_first_match(vs: Seq<VersionsObj>, version: Seq<char>, i: int) -> bool {
    &&& 0 <= i < vs.len()
    &&& spec_eq_ignore_ascii_case(vs[i].id@, version)
    &&& forall|j: int| 0 <= j < i ==> !spec_eq_ignore_ascii_case(#[trigger] vs[j].id@, version)
}

/// No item of `vs` has `version` for its id, ASCII case aside.
pub open spec fn no_match(vs: Seq<VersionsObj>, version: Seq<char>) -> bool {
    forall|j: int| 0 <= j < vs.len() ==> !spec_eq_ignore_ascii_case(#[trigger] vs[j].id@, version)
}

/// Where the first item of the list whose id is `version` (ASCII case aside) stands.
pub fn find_version(obj: &VersionObj, version: &str) -> (r: Option<usize>)
    ensures
        match r {
            Some(i) => is_first_match(obj.versions@, version@, i as int),
            None => no_match(obj.versions@, version@),
        },
{
    let mut i: usize = 0;
    while i < obj.versions.len()
        invariant
            i <= obj.versions@.len(),
            no_match(obj.versions@.take(i as int), version@),
        decreases obj.versions@.len() - i,
    {
        if eq_ignore_ascii_case(obj.versions[i].id.as_str(), version) {
            assert forall|j: int| 0 <= j < i implies !spec_eq_ignore_ascii_case(
                #[trigger] obj.versions@[j].id@,
                version@,
            ) by {
                assert(obj.versions@.take(i as int)[j] == obj.versions@[j]);
            }
            return Some(i);
        }
        assert forall|j: int| 0 <= j < i + 1 implies !spec_eq_ignore_ascii_case(
            #[trigger] obj.versions@.take(i + 1)[j].id@,
            version@,
        ) by {
            if j < i {
                assert(obj.versions@.take(i + 1)[j] == obj.versions@.take(i as int)[j]);
            }
        }
        i = i + 1;
    }
    assert(obj.versions@.take(i as int) =~= obj.versions@);
    None
}

/// The type of a game version ("release", "snapshot", ...) in the list of versions;
/// empty where the list has not been read or does not hold the version.
pub open spec fn spec_version_type(version: Option<VersionObj>, v: Seq<char>) -> Seq<char> {
    match version {
        None => Seq::empty(),
        Some(obj) => if exists|i: int| is_first_match(obj.versions@, v, i) {
            obj.versions@[choose|i: int| is_first_match(obj.versions@, v, i)].version_type@
        } else {
            Seq::empty()
        },
    }
}

/// Only one item is the first match.
proof fn lemma_first_match_unique(vs: Seq<VersionsObj>, v: Seq<char>, i: int, k: int)
    requires
        is_first_match(vs, v, i),
        is_first_match(vs, v, k),
    ensures
        i == k,
{
    if i < k {
        assert(!spec_eq_ignore_ascii_case(vs[i].id@, v));
    } else if k < i {
        assert(!spec_eq_ignore_ascii_case(vs[k].id@, v));
    }
}

impl InstanceSettingObj {
    /// The type of the instance's game version in the list of versions.
    pub fn get_version_type(&self, paths: &VersionPath) -> (r: String)
        ensures
            r@ == spec_version_type(paths.version, self.version@),
    {
        match &paths.version {
            None => String::new(),
            Some(obj) => match find_version(obj, self.version.as_str()) {
                Some(i) => {
                    proof {
                        let k = choose|k: int| is_first_match(obj.versions@, self.version@, k);
                        lemma_first_match_unique(obj.versions@, self.version@, i as int, k);
                    }
                    copy_str(obj.versions[i].version_type.as_str())
                },
                None => {
                    assert(!exists|k: int| is_first_match(obj.versions@, self.version@, k));
                    String::new()
                },
            },
        }
    }

    /// The Forge launch description of the instance's loader, once read.
    pub fn get_forge<'a>(&self, paths: &'a VersionPath) -> (r: Option<&'a ForgeLaunchObj>)
        requires
            paths.wf(),
        ensures
            match self.loader_version {
                None => r is None,
                Some(lv) => match r {
                    Some(v) => lookup(paths.forge_launchs@, (self.version@, lv@)) == Some(*v),
                    None => lookup(paths.forge_launchs@, (self.version@, lv@)) is None,
                },
            },
    {
        match &self.loader_version {
            None => None,
            Some(data) => get_forge(paths, self.version.as_str(), data.as_str()),
        }
    }

    /// The NeoForge launch description of the instance's loader, once read.
    pub fn get_neoforge<'a>(&self, paths: &'a VersionPath) -> (r: Option<&'a ForgeLaunchObj>)
        requires
            paths.wf(),
        ensures
            match self.loader_version {
                None => r is None,
                Some(lv) => match r {
                    Some(v) => lookup(paths.neoforge_launchs@, (self.version@, lv@)) == Some(*v),
                    None => lookup(paths.neoforge_launchs@, (self.version@, lv@)) is None,
                },
            },
    {
        match &self.loader_version {
            None => None,
            Some(data) => get_neoforge(paths, self.version.as_str(), data.as_str()),
        }
    }

    /// The Fabric loader description of the instance's loader, once read.
    pub fn get_fabric<'a>(&self, paths: &'a VersionPath) -> (r: Option<&'a FabricLoaderObj>)
        requires
            paths.wf(),
        ensures
            match self.loader_version {
                None => r is None,
                Some(lv) => match r {
                    Some(v) => lookup(paths.fabric_loaders@, (self.version@, lv@)) == Some(*v),
                    None => lookup(paths.fabric_loaders@, (self.version@, lv@)) is None,
                },
            },
    {
        match &self.loader_version {
            None => None,
            Some(data) => get_fabric(paths, self.version.as_str(), data.as_str()),
        }
    }

    /// The Quilt loader description of the instance's loader, once read.
    pub fn get_quilt<'a>(&self, paths: &'a VersionPath) -> (r: Option<&'a QuiltLoaderObj>)
        requires
            paths.wf(),
        ensures
            match self.loader_version {
                None => r is None,
                Some(lv) => match r {
                    Some(v) => lookup(paths.quilt_loaders@, (self.version@, lv@)) == Some(*v),
                    None => lookup(paths.quilt_loaders@, (self.version@, lv@)) is None,
                },
            },
    {
        match &self.loader_version {
            None => None,
            Some(data) => get_quilt(paths, self.version.as_str(), data.as_str()),
        }
    }

    /// The OptiFine release of the instance's loader: none unless the instance runs
    /// OptiFine with a loader version.
    pub fn get_optifine<'a>(&self, infos: &'a OptifineInfos) -> (r: Option<&'a OptifineObj>)
        requires
            infos.list.wf(),
        ensures
            (self.loader != LoaderType::OptiFine || self.loader_version is None) ==> r is None,
            self.loader == LoaderType::OptiFine ==> match self.loader_version {
                None => true,
                Some(lv) => match r {
                    Some(v) => lookup(infos.list@, lv@) == Some(*v),
                    None => lookup(infos.list@, lv@) is None,
                },
            },
    {
        if self.loader != LoaderType::OptiFine {
            return None;
        }
        match &self.loader_version {
            None => None,
            Some(data) => get_optifine(infos, data.as_str()),
        }
    }

    /// The custom loader of the instance, once kept.
    pub fn get_custom_loader<'a>(&self, paths: &'a VersionPath) -> (r: Option<
        &'a CustomLoaderType,
    >)
        requires
            paths.wf(),
        ensures
            match r {
                Some(v) => lookup(paths.custom_loaders@, self.uuid) == Some(*v),
                None => lookup(paths.custom_loaders@, self.uuid) is None,
            },
    {
        paths.custom_loaders.get(&self.uuid)
    }

    /// Whether the instance's game version is described with the newer argument lists;
    /// false while its description has not been read.
    pub fn is_game_version_v2(&self, paths: &VersionPath) -> (r: bool)
        requires
            paths.wf(),
        ensures
            r == match lookup(paths.game_args@, self.version@) {
                Some(arg) => arg.minimum_launcher_version > 18,
                None => false,
            },
    {
        match get_version(paths, self.version.as_str()) {
            None => false,
            Some(data) => data.is_game_version_v2(),
        }
    }
}

/// A Forge description kept (by `add_forge`, not for NeoForge) under a game version and
/// a loader version is what `get_forge` of an instance with those versions finds.
pub proof fn law_forge_found_again(
    before: VersionPath,
    after: VersionPath,
    obj: ForgeLaunchObj,
    mc: Seq<char>,
    v: Seq<char>,
    inst: InstanceSettingObj,
)
    requires
        after.forge_launchs@ == before.forge_launchs@.insert((mc, v), obj),
        inst.version@ == mc,
        inst.loader_version matches Some(lv) && lv@ == v,
    ensures
        lookup(after.forge_launchs@, (inst.version@, inst.loader_version.unwrap()@)) == Some(obj),
{
}

/// A Quilt description kept (by `add_quilt`) under a game version and a loader version
/// is what `get_quilt` of an instance with those versions finds.
pub proof fn law_quilt_found_again(
    before: VersionPath,
    after: VersionPath,
    obj: QuiltLoaderObj,
    mc: Seq<char>,
    v: Seq<char>,
    inst: InstanceSettingObj,
)
    requires
        after.quilt_loaders@ == before.quilt_loaders@.insert((mc, v), obj),
        inst.version@ == mc,
        inst.loader_version matches Some(lv) && lv@ == v,
    ensures
        lookup(after.quilt_loaders@, (inst.version@, inst.loader_version.unwrap()@)) == Some(obj),
{
}

} // verus!

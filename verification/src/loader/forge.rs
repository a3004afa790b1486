//! Forge and NeoForge: libraries that old installers name without a download entry,
//! and the plan of files that a Forge launch needs.
use vstd::prelude::*;

use crate::file_item::{items_view, FileHash, FileItemObj, HashView, ItemView, LaterRun, LaterView, PathObj};
use crate::launcher_path::keyed_cache::KeyedCache;
use crate::loader::forge_launch_obj::{ForgeDownloadsObj, ForgeLaunchObj, ForgeLibrariesObj};
use crate::mojang::game_arg_obj::ArtifactObj;
use crate::mojang::game_libraries::{spec_name_to_path, version_name_to_path};
use crate::mojang::version_checker::{
    is_game_version_117, is_game_version_1202, spec_is_at_least, v117, v1202,
};
use crate::mojang::version_parse::version_fits;
use crate::names::{FILE_CLIENT, FILE_INSTALLER, FILE_LAUNCHER, FILE_UNIVERSAL};
use crate::text::{
    ends_with, spec_ends_with, chars_eq, chars_of, copy_str, push_chars, push_str, replace_char, seqs_of, spec_replace_char,
    spec_split, split_str,
};

verus! {

/// The repository of Mojang's libraries.
pub open spec fn host_mojang() -> Seq<char> {
    "https://libraries.minecraft.net/"@
}

/// The repository of Forge's libraries.
pub open spec fn host_forge() -> Seq<char> {
    "https://maven.minecraftforge.net/"@
}

/// The repository that serves a library an old Forge installer names, for the
/// libraries that this launcher knows.
pub open spec fn forge_lib_host(group: Seq<char>, artifact: Seq<char>) -> Option<Seq<char>> {
    if group == "net.minecraft"@ && artifact == "launchwrapper"@ {
        Some(host_mojang())
    } else if group == "org.ow2.asm"@ && artifact == "asm-all"@ {
        Some(host_forge())
    } else if group == "lzma"@ && artifact == "lzma"@ {
        Some(host_mojang())
    } else if group == "net.sf.jopt-simple"@ && artifact == "jopt-simple"@ {
        Some(host_mojang())
    } else if group == "com.google.guava"@ && artifact == "guava"@ {
        Some(host_mojang())
    } else if group == "org.apache.commons"@ && artifact == "commons-lang3"@ {
        Some(host_forge())
    } else if group == "net.java.jinput"@ && artifact == "jinput"@ {
        Some(host_forge())
    } else if group == "net.java.jutils"@ && artifact == "jutils"@ {
        Some(host_forge())
    } else if group == "java3d"@ && artifact == "vecmath"@ {
        Some(host_mojang())
    } else if group == "net.sf.trove4j"@ && artifact == "trove4j"@ {
        Some(host_forge())
    } else if group == "io.netty"@ && artifact == "netty-all"@ {
        Some(host_forge())
    } else {
        None
    }
}

/// The maven path of `group:artifact:version`:
/// `group/with/slashes/artifact/version/artifact-version.jar`.
pub open spec fn maven_jar_path(group: Seq<char>, artifact: Seq<char>, version: Seq<char>) -> Seq<char> {
    spec_replace_char(group, '.', '/') + "/"@ + artifact + "/"@ + version + "/"@ + artifact + "-"@
        + version + ".jar"@
}

/// The download path and address of a library named in an old Forge installer:
/// empty for Forge itself, built from the name for the known libraries (which need a
/// version), and `None` for anything else.
pub open spec fn spec_make_forge_libraries(name: Seq<char>) -> Option<(Seq<char>, Seq<char>)> {
    let args = spec_split(name, ':');
    if args.len() < 2 {
        None
    } else if args[0] == "net.minecraftforge"@ && args[1] == "forge"@ {
        Some((Seq::<char>::empty(), Seq::<char>::empty()))
    } else if args.len() >= 3 && forge_lib_host(args[0], args[1]) is Some {
        let path = maven_jar_path(args[0], args[1], args[2]);
        Some((path, forge_lib_host(args[0], args[1]).unwrap() + path))
    } else {
        None
    }
}

/// The repository address for a known library, in exec.
fn forge_lib_host_exec(group: &[char], artifact: &[char]) -> (r: Option<&'static str>)
    ensures
        match r {
            Some(h) => forge_lib_host(group@, artifact@) == Some(h@),
            None => forge_lib_host(group@, artifact@) is None,
        },
{
    let mojang = "https://libraries.minecraft.net/";
    let forge = "https://maven.minecraftforge.net/";
    if is_pair(group, artifact, "net.minecraft", "launchwrapper") {
        Some(mojang)
    } else if is_pair(group, artifact, "org.ow2.asm", "asm-all") {
        Some(forge)
    } else if is_pair(group, artifact, "lzma", "lzma") {
        Some(mojang)
    } else if is_pair(group, artifact, "net.sf.jopt-simple", "jopt-simple") {
        Some(mojang)
    } else if is_pair(group, artifact, "com.google.guava", "guava") {
        Some(mojang)
    } else if is_pair(group, artifact, "org.apache.commons", "commons-lang3") {
        Some(forge)
    } else if is_pair(group, artifact, "net.java.jinput", "jinput") {
        Some(forge)
    } else if is_pair(group, artifact, "net.java.jutils", "jutils") {
        Some(forge)
    } else if is_pair(group, artifact, "java3d", "vecmath") {
        Some(mojang)
    } else if is_pair(group, artifact, "net.sf.trove4j", "trove4j") {
        Some(forge)
    } else if is_pair(group, artifact, "io.netty", "netty-all") {
        Some(forge)
    } else {
        None
    }
}

/// Whether `group` and `artifact` are `g` and `a`.
fn is_pair(group: &[char], artifact: &[char], g: &str, a: &str) -> (r: bool)
    ensures
        r == (group@ == g@ && artifact@ == a@),
{
    let gv = chars_of(g);
    let av = chars_of(a);
    chars_eq(group, gv.as_slice()) && chars_eq(artifact, av.as_slice())
}

/// Builds the library entry that an old Forge installer names without a download
/// entry: Forge itself (with nothing to download) or one of the known libraries, whose
/// path and address follow from the name.
pub fn make_forge_libraries(name: &str) -> (r: Option<ForgeLibrariesObj>)
    ensures
        match r {
            Some(lib) => {
                &&& lib.name@ == name@
                &&& spec_make_forge_libraries(name@) == Some(
                    (lib.downloads.artifact.path@, lib.downloads.artifact.url@),
                )
                &&& lib.downloads.artifact.sha1@ == Seq::<char>::empty()
            },
            None => spec_make_forge_libraries(name@) is None,
        },
{
    let args = split_str(name, ':');
    proof {
        assert(seqs_of(args@) == spec_split(name@, ':'));
    }
    if args.len() < 2 {
        return None;
    }
    assert(args@[0]@ == spec_split(name@, ':')[0]);
    assert(args@[1]@ == spec_split(name@, ':')[1]);
    if is_pair(args[0].as_slice(), args[1].as_slice(), "net.minecraftforge", "forge") {
        return Some(
            ForgeLibrariesObj {
                name: copy_str(name),
                downloads: ForgeDownloadsObj {
                    artifact: ArtifactObj { path: String::new(), sha1: String::new(), url: String::new() },
                },
            },
        );
    }
    if args.len() < 3 {
        return None;
    }
    assert(args@[2]@ == spec_split(name@, ':')[2]);
    let host = match forge_lib_host_exec(args[0].as_slice(), args[1].as_slice()) {
        Some(h) => h,
        None => return None,
    };
    let group_path = replace_char(args[0].as_slice(), '.', '/');
    let mut path = String::new();
    push_chars(&mut path, group_path.as_slice());
    push_str(&mut path, "/");
    push_chars(&mut path, args[1].as_slice());
    push_str(&mut path, "/");
    push_chars(&mut path, args[2].as_slice());
    push_str(&mut path, "/");
    push_chars(&mut path, args[1].as_slice());
    push_str(&mut path, "-");
    push_chars(&mut path, args[2].as_slice());
    push_str(&mut path, ".jar");
    let mut url = copy_str(host);
    let path_chars = chars_of(path.as_str());
    push_chars(&mut url, path_chars.as_slice());
    assert(path@ =~= maven_jar_path(args@[0]@, args@[1]@, args@[2]@));
    Some(
        ForgeLibrariesObj {
            name: copy_str(name),
            downloads: ForgeDownloadsObj {
                artifact: ArtifactObj { path, sha1: String::new(), url },
            },
        },
    )
}

// ---------------------------------------------------------------------------
// Libraries of a Forge launch
// ---------------------------------------------------------------------------

/// The download of a library of a Forge description into the libraries folder.
pub open spec fn forge_lib_item(lib_dir: Seq<Seq<char>>, lib: ForgeLibrariesObj) -> ItemView {
    ItemView {
        name: lib.name@,
        file: lib_dir.push(lib.downloads.artifact.path@),
        url: lib.downloads.artifact.url@,
        hash: HashView::Sha1(lib.downloads.artifact.sha1@),
        later: LaterView::Nothing,
    }
}

/// The downloads of the first `n` libraries of a description, by name (a later library
/// of a name wins); libraries without a path are left out.
pub open spec fn forge_libs_map(lib_dir: Seq<Seq<char>>, info: Seq<ForgeLibrariesObj>, n: int) -> Map<
    Seq<char>,
    ItemView,
>
    decreases n,
{
    if n <= 0 {
        Map::empty()
    } else {
        let prev = forge_libs_map(lib_dir, info, n - 1);
        let lib = info[n - 1];
        if lib.downloads.artifact.path@.len() == 0 {
            prev
        } else {
            prev.insert(lib.name@, forge_lib_item(lib_dir, lib))
        }
    }
}

/// A library of the description with a path is a universal library.
pub open spec fn has_universal(info: Seq<ForgeLibrariesObj>) -> bool {
    exists|i: int|
        0 <= i < info.len() && info[i].downloads.artifact.path@.len() > 0 && spec_ends_with(
            #[trigger] info[i].name@,
            FILE_UNIVERSAL@,
        )
}

/// A library of the description with a path is an installer (and not a universal
/// library).
pub open spec fn has_installer(info: Seq<ForgeLibrariesObj>) -> bool {
    exists|i: int|
        0 <= i < info.len() && info[i].downloads.artifact.path@.len() > 0 && !spec_ends_with(
            #[trigger] info[i].name@,
            FILE_UNIVERSAL@,
        ) && spec_ends_with(info[i].name@, FILE_INSTALLER@)
}

/// A library of the description with a path is a launcher (and neither of the others).
pub open spec fn has_launcher(info: Seq<ForgeLibrariesObj>) -> bool {
    exists|i: int|
        0 <= i < info.len() && info[i].downloads.artifact.path@.len() > 0 && !spec_ends_with(
            #[trigger] info[i].name@,
            FILE_UNIVERSAL@,
        ) && !spec_ends_with(info[i].name@, FILE_INSTALLER@) && spec_ends_with(
            info[i].name@,
            FILE_LAUNCHER@,
        )
}

/// The game versions are compared where the plan needs them.
pub open spec fn forge_plan_fits(info: Seq<ForgeLibrariesObj>, mc: Seq<char>, neo: bool, v2: bool) -> bool {
    (neo && !has_universal(info)) || v2 ==> version_fits(mc)
}

/// The downloads of a Forge (or, with `neo`, NeoForge) launch, by name: the libraries of
/// the description; the installer, where one is wanted (`install`) and none is listed;
/// the universal library, where none is listed and the loader is Forge or NeoForge from
/// 1.20.2 on; the launcher, for the newer argument format (`v2`) before 1.17 where none
/// is listed. The three extra downloads are given.
pub open spec fn spec_forge_libs(
    lib_dir: Seq<Seq<char>>,
    info: Seq<ForgeLibrariesObj>,
    mc: Seq<char>,
    neo: bool,
    v2: bool,
    install: bool,
    installer: ItemView,
    universal: ItemView,
    launcher: ItemView,
) -> Map<Seq<char>, ItemView> {
    let m0 = forge_libs_map(lib_dir, info, info.len() as int);
    let m1 = if !has_installer(info) && install {
        m0.insert(FILE_INSTALLER@, installer)
    } else {
        m0
    };
    let m2 = if !has_universal(info) && (!neo || spec_is_at_least(mc, v1202())) {
        m1.insert(FILE_UNIVERSAL@, universal)
    } else {
        m1
    };
    if v2 && !spec_is_at_least(mc, v117()) && !has_launcher(info) {
        m2.insert(FILE_LAUNCHER@, launcher)
    } else {
        m2
    }
}

/// `r` holds the values of `m`, one per key, in the order of the keys `ks`.
pub open spec fn values_in_order(r: Seq<ItemView>, m: Map<Seq<char>, ItemView>, ks: Seq<Seq<char>>) -> bool {
    &&& ks.no_duplicates()
    &&& ks.to_set() == m.dom()
    &&& r.len() == ks.len()
    &&& forall|i: int| 0 <= i < r.len() ==> r[i] == m[#[trigger] ks[i]]
}

/// The views of a map of downloads.
pub open spec fn item_map(m: Map<Seq<char>, FileItemObj>) -> Map<Seq<char>, ItemView> {
    m.map_values(|i: FileItemObj| i@)
}

/// The download of a library of a Forge description.
fn make_forge_lib_item(lib_dir: &PathObj, lib: &ForgeLibrariesObj) -> (r: FileItemObj)
    ensures
        r@ == forge_lib_item(lib_dir@, *lib),
{
    FileItemObj {
        name: copy_str(lib.name.as_str()),
        file: lib_dir.join(lib.downloads.artifact.path.as_str()),
        url: copy_str(lib.downloads.artifact.url.as_str()),
        hash: FileHash::Sha1(copy_str(lib.downloads.artifact.sha1.as_str())),
        later: LaterRun::Nothing,
    }
}

/// The downloads of a Forge launch (see `spec_forge_libs`), one per name, in no
/// particular order.
pub fn build_forge_libs(
    info: &Vec<ForgeLibrariesObj>,
    lib_dir: &PathObj,
    mc: &str,
    neo: bool,
    v2: bool,
    install: bool,
    installer: FileItemObj,
    universal: FileItemObj,
    launcher: FileItemObj,
) -> (r: Vec<FileItemObj>)
    requires
        forge_plan_fits(info@, mc@, neo, v2),
    ensures
        exists|ks: Seq<Seq<char>>|
            #[trigger] values_in_order(
                items_view(r@),
                spec_forge_libs(lib_dir@, info@, mc@, neo, v2, install, installer@, universal@, launcher@),
                ks,
            ),
{
    proof {
        reveal_strlit("installer");
        reveal_strlit("universal");
        reveal_strlit("launcher");
    }
    let mut list: KeyedCache<String, FileItemObj> = KeyedCache::new();
    let mut has_u = false;
    let mut has_i = false;
    let mut has_l = false;
    let mut i: usize = 0;
    assert(item_map(list@) =~= Map::<Seq<char>, ItemView>::empty());
    while i < info.len()
        invariant
            i <= info@.len(),
            list.wf(),
            item_map(list@) == forge_libs_map(lib_dir@, info@, i as int),
            has_u == has_universal(info@.take(i as int)),
            has_i == has_installer(info@.take(i as int)),
            has_l == has_launcher(info@.take(i as int)),
        decreases info@.len() - i,
    {
        let lib = &info[i];
        let ghost t0 = info@.take(i as int);
        let ghost t1 = info@.take(i + 1);
        assert(t1 =~= t0.push(info@[i as int]));
        if !lib.downloads.artifact.path.as_str().is_empty() {
            let ghost before = list@;
            let item = make_forge_lib_item(lib_dir, lib);
            let ghost iv = item@;
            list.insert(copy_str(lib.name.as_str()), item);
            assert(item_map(list@) =~= item_map(before).insert(lib.name@, iv));
            let eu = ends_with(lib.name.as_str(), FILE_UNIVERSAL);
            let ei = ends_with(lib.name.as_str(), FILE_INSTALLER);
            let el = ends_with(lib.name.as_str(), FILE_LAUNCHER);
            if eu {
                has_u = true;
            } else if ei {
                has_i = true;
            } else if el {
                has_l = true;
            }
        }
        proof {
            let k = i as int;
            assert(t1[k] == info@[k]);
            assert forall|j: int| 0 <= j < k implies t1[j] == t0[j] by {}
            if has_universal(t0) {
                let j = choose|j: int|
                    0 <= j < t0.len() && t0[j].downloads.artifact.path@.len() > 0 && spec_ends_with(
                        #[trigger] t0[j].name@,
                        FILE_UNIVERSAL@,
                    );
                assert(t1[j] == t0[j]);
            }
            if has_installer(t0) {
                let j = choose|j: int|
                    0 <= j < t0.len() && t0[j].downloads.artifact.path@.len() > 0 && !spec_ends_with(
                        #[trigger] t0[j].name@,
                        FILE_UNIVERSAL@,
                    ) && spec_ends_with(t0[j].name@, FILE_INSTALLER@);
                assert(t1[j] == t0[j]);
            }
            if has_launcher(t0) {
                let j = choose|j: int|
                    0 <= j < t0.len() && t0[j].downloads.artifact.path@.len() > 0 && !spec_ends_with(
                        #[trigger] t0[j].name@,
                        FILE_UNIVERSAL@,
                    ) && !spec_ends_with(t0[j].name@, FILE_INSTALLER@) && spec_ends_with(
                        t0[j].name@,
                        FILE_LAUNCHER@,
                    );
                assert(t1[j] == t0[j]);
            }
            if has_universal(t1) {
                let j = choose|j: int|
                    0 <= j < t1.len() && t1[j].downloads.artifact.path@.len() > 0 && spec_ends_with(
                        #[trigger] t1[j].name@,
                        FILE_UNIVERSAL@,
                    );
                if j < k {
                    assert(t0[j] == t1[j]);
                }
            }
            if has_installer(t1) {
                let j = choose|j: int|
                    0 <= j < t1.len() && t1[j].downloads.artifact.path@.len() > 0 && !spec_ends_with(
                        #[trigger] t1[j].name@,
                        FILE_UNIVERSAL@,
                    ) && spec_ends_with(t1[j].name@, FILE_INSTALLER@);
                if j < k {
                    assert(t0[j] == t1[j]);
                }
            }
            if has_launcher(t1) {
                let j = choose|j: int|
                    0 <= j < t1.len() && t1[j].downloads.artifact.path@.len() > 0 && !spec_ends_with(
                        #[trigger] t1[j].name@,
                        FILE_UNIVERSAL@,
                    ) && !spec_ends_with(t1[j].name@, FILE_INSTALLER@) && spec_ends_with(
                        t1[j].name@,
                        FILE_LAUNCHER@,
                    );
                if j < k {
                    assert(t0[j] == t1[j]);
                }
            }
        }
        i = i + 1;
    }
    assert(info@.take(i as int) =~= info@);
    let ghost m0 = item_map(list@);
    if !has_i && install {
        let ghost before = list@;
        let ghost iv = installer@;
        list.insert(copy_str(FILE_INSTALLER), installer);
        assert(item_map(list@) =~= item_map(before).insert(FILE_INSTALLER@, iv));
    }
    if !has_u {
        if !neo || is_game_version_1202(copy_str(mc)) {
            let ghost before = list@;
            let ghost uv = universal@;
            list.insert(copy_str(FILE_UNIVERSAL), universal);
            assert(item_map(list@) =~= item_map(before).insert(FILE_UNIVERSAL@, uv));
        }
    }
    if v2 && !is_game_version_117(copy_str(mc)) && !has_l {
        let ghost before = list@;
        let ghost lv = launcher@;
        list.insert(copy_str(FILE_LAUNCHER), launcher);
        assert(item_map(list@) =~= item_map(before).insert(FILE_LAUNCHER@, lv));
    }
    let ghost m = item_map(list@);
    assert(m == spec_forge_libs(lib_dir@, info@, mc@, neo, v2, install, installer@, universal@, launcher@));
    proof {
        list.lemma_entries();
    }
    let ghost es = list.entry_seq();
    let r = list.into_values();
    proof {
        let ks = es.map_values(|e: (String, FileItemObj)| e.0@);
        let rv = items_view(r@);
        assert forall|a: int, b: int| 0 <= a < ks.len() && 0 <= b < ks.len() && a != b implies ks[a]
            != ks[b] by {}
        assert forall|k: Seq<char>| ks.to_set().contains(k) <==> m.dom().contains(k) by {
            if ks.to_set().contains(k) {
                let j = choose|j: int| 0 <= j < ks.len() && ks[j] == k;
                assert(es[j].0@ == k);
            }
            if m.dom().contains(k) {
                assert(list@.contains_key(k));
                let j = choose|j: int| 0 <= j < es.len() && es[j].0@ == k;
                assert(ks[j] == k);
            }
        }
        assert(ks.to_set() =~= m.dom());
        assert forall|j: int| 0 <= j < rv.len() implies rv[j] == m[#[trigger] ks[j]] by {
            assert(list@.contains_key(es[j].0@));
        }
        assert(values_in_order(rv, m, ks));
    }
    r
}

// ---------------------------------------------------------------------------
// Forge and NeoForge files
// ---------------------------------------------------------------------------

/// The repository of NeoForge's files.
pub open spec fn host_neoforge() -> Seq<char> {
    "https://maven.neoforged.net/releases/"@
}

/// A file of Forge (`jar` names its kind, such as `installer`): in the libraries folder
/// under `net/minecraftforge/forge/<mc>-<version>/`, from Forge's repository at the same
/// path, with no checksum.
pub open spec fn spec_forge_item(lib_dir: Seq<Seq<char>>, mc: Seq<char>, version: Seq<char>, jar: Seq<char>) -> ItemView {
    let folder = mc + "-"@ + version;
    let file = "forge-"@ + folder + "-"@ + jar + ".jar"@;
    ItemView {
        name: "net.minecraftforge:"@ + folder + "-"@ + jar,
        file: lib_dir.push("net"@).push("minecraftforge"@).push("forge"@).push(folder).push(file),
        url: host_forge() + "net/minecraftforge/forge/"@ + folder + "/"@ + file,
        hash: HashView::NoHash,
        later: LaterView::Nothing,
    }
}

/// A file of NeoForge: from 1.20.2 on under `net/neoforged/neoforge/<version>/` and
/// named `neoforge-<version>-<jar>`, before that under
/// `net/neoforged/forge/<mc>-<version>/` and named as Forge names it; from NeoForge's
/// repository at the same path, with no checksum.
pub open spec fn spec_neoforge_item(lib_dir: Seq<Seq<char>>, mc: Seq<char>, version: Seq<char>, jar: Seq<char>) -> ItemView {
    let new = spec_is_at_least(mc, v1202());
    let name = if new {
        "neoforge-"@ + version + "-"@ + jar
    } else {
        "forge-"@ + mc + "-"@ + version + "-"@ + jar
    };
    let folder = if new {
        seq!["neoforge"@, version]
    } else {
        seq!["forge"@, mc + "-"@ + version]
    };
    ItemView {
        name: "net.neoforged:"@ + name,
        file: lib_dir.push("net"@).push("neoforged"@) + folder.push(name + ".jar"@),
        url: host_neoforge() + "net/neoforged/"@ + folder[0] + "/"@ + folder[1] + "/"@ + name
            + ".jar"@,
        hash: HashView::NoHash,
        later: LaterView::Nothing,
    }
}

/// A file of Forge (see `spec_forge_item`).
pub fn build_forge_item(lib_dir: &PathObj, mc: &str, version: &str, jar: &str) -> (r: FileItemObj)
    ensures
        r@ == spec_forge_item(lib_dir@, mc@, version@, jar@),
{
    let mut folder = copy_str(mc);
    push_str(&mut folder, "-");
    push_str(&mut folder, version);
    let mut file = copy_str("forge-");
    push_str(&mut file, folder.as_str());
    push_str(&mut file, "-");
    push_str(&mut file, jar);
    push_str(&mut file, ".jar");
    let mut name = copy_str("net.minecraftforge:");
    push_str(&mut name, folder.as_str());
    push_str(&mut name, "-");
    push_str(&mut name, jar);
    let mut url = copy_str("https://maven.minecraftforge.net/");
    push_str(&mut url, "net/minecraftforge/forge/");
    push_str(&mut url, folder.as_str());
    push_str(&mut url, "/");
    push_str(&mut url, file.as_str());
    let path = lib_dir.join("net").join("minecraftforge").join("forge").join(folder.as_str()).join(
        file.as_str(),
    );
    let r = FileItemObj { name, file: path, url, hash: FileHash::NoHash, later: LaterRun::Nothing };
    assert(r@.url =~= spec_forge_item(lib_dir@, mc@, version@, jar@).url);
    assert(r@.name =~= spec_forge_item(lib_dir@, mc@, version@, jar@).name);
    r
}

/// A file of NeoForge (see `spec_neoforge_item`).
pub fn build_neoforge_item(lib_dir: &PathObj, mc: &str, version: &str, jar: &str) -> (r: FileItemObj)
    requires
        version_fits(mc@),
    ensures
        r@ == spec_neoforge_item(lib_dir@, mc@, version@, jar@),
{
    let new = is_game_version_1202(copy_str(mc));
    let mut name = if new {
        copy_str("neoforge-")
    } else {
        let mut n = copy_str("forge-");
        push_str(&mut n, mc);
        push_str(&mut n, "-");
        n
    };
    push_str(&mut name, version);
    push_str(&mut name, "-");
    push_str(&mut name, jar);
    let (kind, sub) = if new {
        (copy_str("neoforge"), copy_str(version))
    } else {
        let mut s = copy_str(mc);
        push_str(&mut s, "-");
        push_str(&mut s, version);
        (copy_str("forge"), s)
    };
    let mut file = copy_str(name.as_str());
    push_str(&mut file, ".jar");
    let mut url = copy_str("https://maven.neoforged.net/releases/");
    push_str(&mut url, "net/neoforged/");
    push_str(&mut url, kind.as_str());
    push_str(&mut url, "/");
    push_str(&mut url, sub.as_str());
    push_str(&mut url, "/");
    push_str(&mut url, file.as_str());
    let mut full = copy_str("net.neoforged:");
    push_str(&mut full, name.as_str());
    let path = lib_dir.join("net").join("neoforged").join(kind.as_str()).join(sub.as_str()).join(
        file.as_str(),
    );
    let r = FileItemObj { name: full, file: path, url, hash: FileHash::NoHash, later: LaterRun::Nothing };
    let ghost sp = spec_neoforge_item(lib_dir@, mc@, version@, jar@);
    assert(r@.name =~= sp.name);
    assert(r@.url =~= sp.url);
    assert(r@.file =~= sp.file);
    r
}

/// The installer of a Forge version.
pub fn build_forge_installer(lib_dir: &PathObj, mc: &str, version: &str) -> (r: FileItemObj)
    ensures
        r@ == spec_forge_item(lib_dir@, mc@, version@, FILE_INSTALLER@),
{
    build_forge_item(lib_dir, mc, version, FILE_INSTALLER)
}

/// The universal library of a Forge version.
pub fn build_forge_universal(lib_dir: &PathObj, mc: &str, version: &str) -> (r: FileItemObj)
    ensures
        r@ == spec_forge_item(lib_dir@, mc@, version@, FILE_UNIVERSAL@),
{
    build_forge_item(lib_dir, mc, version, FILE_UNIVERSAL)
}

/// The client library of a Forge version.
pub fn build_forge_client(lib_dir: &PathObj, mc: &str, version: &str) -> (r: FileItemObj)
    ensures
        r@ == spec_forge_item(lib_dir@, mc@, version@, FILE_CLIENT@),
{
    build_forge_item(lib_dir, mc, version, FILE_CLIENT)
}

/// The launcher library of a Forge version.
pub fn build_forge_launcher(lib_dir: &PathObj, mc: &str, version: &str) -> (r: FileItemObj)
    ensures
        r@ == spec_forge_item(lib_dir@, mc@, version@, FILE_LAUNCHER@),
{
    build_forge_item(lib_dir, mc, version, FILE_LAUNCHER)
}

/// The installer of a NeoForge version.
pub fn build_neoforge_installer(lib_dir: &PathObj, mc: &str, version: &str) -> (r: FileItemObj)
    requires
        version_fits(mc@),
    ensures
        r@ == spec_neoforge_item(lib_dir@, mc@, version@, FILE_INSTALLER@),
{
    build_neoforge_item(lib_dir, mc, version, FILE_INSTALLER)
}

/// The universal library of a NeoForge version.
pub fn build_neoforge_universal(lib_dir: &PathObj, mc: &str, version: &str) -> (r: FileItemObj)
    requires
        version_fits(mc@),
    ensures
        r@ == spec_neoforge_item(lib_dir@, mc@, version@, FILE_UNIVERSAL@),
{
    build_neoforge_item(lib_dir, mc, version, FILE_UNIVERSAL)
}

/// The client library of a NeoForge version.
pub fn build_neoforge_client(lib_dir: &PathObj, mc: &str, version: &str) -> (r: FileItemObj)
    requires
        version_fits(mc@),
    ensures
        r@ == spec_neoforge_item(lib_dir@, mc@, version@, FILE_CLIENT@),
{
    build_neoforge_item(lib_dir, mc, version, FILE_CLIENT)
}

/// A library an old Forge installer lists: its name and the repository it is in (empty
/// where it names none).
#[derive(Debug)]
pub struct ForgeOldLibraryObj {
    pub name: String,
    pub url: String,
}

/// The libraries of an old Forge installer as a launch description lists them: the
/// known ones as `make_forge_libraries` builds them, the others with a repository by
/// their maven path in it; the rest are left out.
pub open spec fn old_forge_libs(items: Seq<ForgeOldLibraryObj>, n: int) -> Seq<(Seq<char>, Seq<char>, Seq<char>)>
    decreases n,
{
    if n <= 0 {
        Seq::empty()
    } else {
        let prev = old_forge_libs(items, n - 1);
        let item = items[n - 1];
        match spec_make_forge_libraries(item.name@) {
            Some((path, url)) => prev.push((item.name@, path, url)),
            None => if item.url@.len() > 0 {
                prev.push(
                    (item.name@, spec_name_to_path(item.name@), item.url@ + spec_name_to_path(item.name@)),
                )
            } else {
                prev
            },
        }
    }
}

/// The name, path and address of each library of a description.
pub open spec fn forge_libs_view(v: Seq<ForgeLibrariesObj>) -> Seq<(Seq<char>, Seq<char>, Seq<char>)> {
    v.map_values(|l: ForgeLibrariesObj| (l.name@, l.downloads.artifact.path@, l.downloads.artifact.url@))
}

/// The launch description of an old Forge installer: its main class and argument line,
/// and its libraries (see `old_forge_libs`).
pub fn old_forge_launch(
    main_class: &str,
    minecraft_arguments: &str,
    items: &Vec<ForgeOldLibraryObj>,
) -> (r: ForgeLaunchObj)
    ensures
        r.main_class@ == main_class@,
        r.minecraft_arguments matches Some(a) && a@ == minecraft_arguments@,
        r.arguments is None,
        forge_libs_view(r.libraries@) == old_forge_libs(items@, items@.len() as int),
{
    let mut libraries: Vec<ForgeLibrariesObj> = Vec::new();
    let mut i: usize = 0;
    assert(forge_libs_view(libraries@) =~= Seq::<(Seq<char>, Seq<char>, Seq<char>)>::empty());
    while i < items.len()
        invariant
            i <= items@.len(),
            forge_libs_view(libraries@) == old_forge_libs(items@, i as int),
        decreases items@.len() - i,
    {
        let item = &items[i];
        let ghost before = libraries@;
        match make_forge_libraries(item.name.as_str()) {
            Some(lib) => {
                libraries.push(lib);
                assert(forge_libs_view(libraries@) =~= forge_libs_view(before).push(
                    (libraries@.last().name@, libraries@.last().downloads.artifact.path@,
                    libraries@.last().downloads.artifact.url@),
                ));
            },
            None => {
                if !item.url.as_str().is_empty() {
                    let path = version_name_to_path(item.name.as_str());
                    let mut url = copy_str(item.url.as_str());
                    push_str(&mut url, path.as_str());
                    libraries.push(
                        ForgeLibrariesObj {
                            name: copy_str(item.name.as_str()),
                            downloads: ForgeDownloadsObj {
                                artifact: ArtifactObj { url, path, sha1: String::new() },
                            },
                        },
                    );
                    assert(forge_libs_view(libraries@) =~= forge_libs_view(before).push(
                        (libraries@.last().name@, libraries@.last().downloads.artifact.path@,
                        libraries@.last().downloads.artifact.url@),
                    ));
                }
            },
        }
        i = i + 1;
    }
    ForgeLaunchObj {
        main_class: copy_str(main_class),
        minecraft_arguments: Some(copy_str(minecraft_arguments)),
        arguments: None,
        libraries,
    }
}

} // verus!

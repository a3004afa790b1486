//! The libraries of a game version: which files a launch needs, with their native
//! libraries, each download once.
use vstd::prelude::*;

use crate::file_item::{
    items_view, FileHash, FileItemObj, HashView, ItemView, LaterRun, LaterView, PathObj,
};
use crate::launcher_path::keyed_cache::KeyedCache;
use crate::loader::forge::{make_forge_libraries, spec_make_forge_libraries};
use crate::mojang::game_arg_obj::{ArtifactObj, ClassifiersObj, GameArgObj, GameLibrariesObj};
use crate::mojang::{check_allow, spec_check_allow};
use crate::system_info::{ArchEnum, Os, SystemInfo};
use crate::text::{
    chars_of, contains_str, copy_str, ends_with, push_chars, push_str, replace_char, rfind_char,
    seqs_of, spec_ends_with, spec_find, spec_replace_char, spec_rfind_char, spec_split,
    split_str, string_of, strings_view,
};

verus! {

// ---------------------------------------------------------------------------
// Maven names
// ---------------------------------------------------------------------------

/// The path of a library named `group:artifact:version[:classifier]` in a maven
/// repository: `group/as/folders/artifact/version/artifact-version[-classifier].jar`.
/// A name of fewer parts has no path.
pub open spec fn spec_name_to_path(name: Seq<char>) -> Seq<char> {
    let parts = spec_split(name, ':');
    if parts.len() < 3 {
        Seq::empty()
    } else {
        let stem = spec_replace_char(parts[0], '.', '/') + "/"@ + parts[1] + "/"@ + parts[2] + "/"@
            + parts[1] + "-"@ + parts[2];
        if parts.len() >= 4 {
            stem + "-"@ + parts[3] + ".jar"@
        } else {
            stem + ".jar"@
        }
    }
}

/// The maven path of a library name (see `spec_name_to_path`).
pub fn version_name_to_path(name: &str) -> (r: String)
    ensures
        r@ == spec_name_to_path(name@),
{
    let parts = split_str(name, ':');
    proof {
        assert(seqs_of(parts@) == spec_split(name@, ':'));
    }
    if parts.len() < 3 {
        return String::new();
    }
    assert(parts@[0]@ == spec_split(name@, ':')[0]);
    assert(parts@[1]@ == spec_split(name@, ':')[1]);
    assert(parts@[2]@ == spec_split(name@, ':')[2]);
    let group = replace_char(parts[0].as_slice(), '.', '/');
    let mut r = String::new();
    push_chars(&mut r, group.as_slice());
    push_str(&mut r, "/");
    push_chars(&mut r, parts[1].as_slice());
    push_str(&mut r, "/");
    push_chars(&mut r, parts[2].as_slice());
    push_str(&mut r, "/");
    push_chars(&mut r, parts[1].as_slice());
    push_str(&mut r, "-");
    push_chars(&mut r, parts[2].as_slice());
    if parts.len() >= 4 {
        assert(parts@[3]@ == spec_split(name@, ':')[3]);
        push_str(&mut r, "-");
        push_chars(&mut r, parts[3].as_slice());
    }
    push_str(&mut r, ".jar");
    assert(r@ =~= spec_name_to_path(name@));
    r
}

// ---------------------------------------------------------------------------
// The scan of a version's libraries
// ---------------------------------------------------------------------------

/// What a scan of libraries has found so far: the downloads, the checksums already
/// taken, the native libraries seen, and the keys of those that have an ARM build.
pub struct ScanView {
    pub list: Seq<ItemView>,
    pub keys: Set<Seq<char>>,
    pub natives: Set<Seq<char>>,
    pub arm: Seq<Seq<char>>,
}

/// A download added to a scan.
pub open spec fn push_item(s: ScanView, item: ItemView) -> ScanView {
    ScanView { list: s.list.push(item), ..s }
}

/// The download of a library of the oldest format, from its repository address.
pub open spec fn old_format_item(lib: GameLibrariesObj, lib_dir: Seq<Seq<char>>) -> ItemView {
    let path = spec_name_to_path(lib.name@);
    ItemView {
        name: lib.name@,
        file: lib_dir.push(path),
        url: lib.url@ + path,
        hash: HashView::NoHash,
        later: LaterView::Nothing,
    }
}

/// The key a native library is tracked under: its name up to the last colon, for names
/// that speak of natives.
pub open spec fn native_key(name: Seq<char>) -> Option<Seq<char>> {
    if spec_find(name, "natives"@) is Some {
        match spec_rfind_char(name, ':') {
            Some(i) => Some(name.take(i)),
            None => None,
        }
    } else {
        None
    }
}

/// The name is that of an ARM build.
pub open spec fn is_arm_name(name: Seq<char>) -> bool {
    spec_ends_with(name, "arm64"@) || spec_ends_with(name, "aarch_64"@)
}

/// A library's native key noted: ARM builds are set apart, others are kept.
pub open spec fn track_natives(s: ScanView, name: Seq<char>) -> ScanView {
    match native_key(name) {
        None => s,
        Some(k) => if is_arm_name(name) {
            ScanView { arm: s.arm.push(k), natives: s.natives.remove(k), ..s }
        } else {
            ScanView { natives: s.natives.insert(k), ..s }
        },
    }
}

/// The download of a library's artifact.
pub open spec fn artifact_item(lib: GameLibrariesObj, lib_dir: Seq<Seq<char>>) -> ItemView {
    let art = lib.downloads.artifact;
    ItemView {
        name: lib.name@,
        file: lib_dir.push(art.path@),
        url: art.url@,
        hash: HashView::Sha1(art.sha1@),
        later: LaterView::Nothing,
    }
}

/// The native build of a library for the system: by operating system, and on Windows
/// by architecture where there is no common one. None on other systems.
pub open spec fn chosen_native(c: ClassifiersObj, sys: SystemInfo) -> Option<ArtifactObj> {
    match sys.os {
        Os::Windows => Some(
            if c.natives_windows.path@.len() == 0 {
                if sys.system_arch == ArchEnum::X86 {
                    c.natives_windows_32
                } else {
                    c.natives_windows_64
                }
            } else {
                c.natives_windows
            },
        ),
        Os::Linux => Some(c.natives_linux),
        Os::MacOS => Some(c.natives_osx),
        _ => None,
    }
}

/// The name of an operating system, as it appears in the names of native downloads.
pub open spec fn os_name(os: Os) -> Seq<char> {
    match os {
        Os::Windows => "Windows"@,
        Os::Linux => "Linux"@,
        Os::MacOS => "MacOS"@,
        Os::Android => "Android"@,
        Os::Other => "Other"@,
    }
}

/// The download of a library's native build, to be unpacked into `native_dir` (as
/// native libraries, where `unpack_native` is set, else as a plain archive).
pub open spec fn native_item(
    lib: GameLibrariesObj,
    art: ArtifactObj,
    sys: SystemInfo,
    native_dir: Seq<Seq<char>>,
    lib_dir: Seq<Seq<char>>,
    unpack_native: bool,
) -> ItemView {
    ItemView {
        name: lib.name@ + "-native"@ + os_name(sys.os),
        file: lib_dir.push(art.path@),
        url: art.url@,
        hash: HashView::Sha1(art.sha1@),
        later: if unpack_native {
            LaterView::UnpackNative(native_dir)
        } else {
            LaterView::Unpack(native_dir)
        },
    }
}

/// A library that nothing else provided, looked for in the instance: as a library an
/// old Forge installer names, else as a file of the instance's libraries folder
/// `game_dir`, where `present` tells that file exists.
pub open spec fn fallback(
    s: ScanView,
    lib: GameLibrariesObj,
    lib_dir: Seq<Seq<char>>,
    game_dir: Option<Seq<Seq<char>>>,
    present: bool,
) -> ScanView {
    if lib.name@.len() > 0 && game_dir is Some {
        match spec_make_forge_libraries(lib.name@) {
            Some((path, url)) => push_item(
                s,
                ItemView {
                    name: lib.name@,
                    file: lib_dir.push(path),
                    url: url,
                    hash: HashView::NoHash,
                    later: LaterView::Nothing,
                },
            ),
            None => if present {
                push_item(
                    s,
                    ItemView {
                        name: lib.name@,
                        file: game_dir.unwrap().push(spec_name_to_path(lib.name@)),
                        url: Seq::empty(),
                        hash: HashView::NoHash,
                        later: LaterView::Nothing,
                    },
                )
            } else {
                s
            },
        }
    } else {
        s
    }
}

/// The environment of a scan: the system, where native libraries are unpacked, the
/// libraries folder, the instance's own libraries folder, if any, and whether native
/// builds are unpacked as native libraries or as plain archives.
pub struct ScanEnv {
    pub sys: SystemInfo,
    pub native_dir: Seq<Seq<char>>,
    pub lib_dir: Seq<Seq<char>>,
    pub game_dir: Option<Seq<Seq<char>>>,
    pub unpack_native: bool,
}

/// One library scanned. A library the rules leave out adds nothing. A library of the
/// oldest format is downloaded from its repository. An artifact is downloaded unless
/// its checksum was already taken (a library with native builds is always looked at
/// further); a native build for the system is downloaded and unpacked unless its
/// checksum was already taken. A library that none of these provided is looked for in
/// the instance.
pub open spec fn scan_step(s: ScanView, lib: GameLibrariesObj, env: ScanEnv, present: bool) -> ScanView {
    if !spec_check_allow(lib.rules@, env.sys) {
        s
    } else {
        let old_added = lib.url@.len() > 0;
        let a = if old_added {
            push_item(s, old_format_item(lib, env.lib_dir))
        } else {
            s
        };
        let art = lib.downloads.artifact;
        let has_art = art.path@.len() > 0;
        if has_art && a.keys.contains(art.sha1@) && lib.downloads.classifiers is None {
            a
        } else {
            let b = if has_art {
                let t = track_natives(a, lib.name@);
                ScanView {
                    list: t.list.push(artifact_item(lib, env.lib_dir)),
                    keys: t.keys.insert(art.sha1@),
                    ..t
                }
            } else {
                a
            };
            let added = old_added || has_art;
            let rest = if added {
                b
            } else {
                fallback(b, lib, env.lib_dir, env.game_dir, present)
            };
            match lib.downloads.classifiers {
                None => rest,
                Some(c) => match chosen_native(c, env.sys) {
                    None => b,
                    Some(n) => if n.path@.len() == 0 {
                        rest
                    } else if b.keys.contains(n.sha1@) {
                        b
                    } else {
                        ScanView {
                            list: b.list.push(native_item(lib, n, env.sys, env.native_dir, env.lib_dir, env.unpack_native)),
                            keys: b.keys.insert(n.sha1@),
                            natives: b.natives.insert(lib.name@),
                            ..b
                        }
                    },
                },
            }
        }
    }
}

/// The first `n` libraries scanned, in order; `present[i]` tells whether library `i`
/// is a file of the instance's libraries folder.
pub open spec fn scan_upto(
    libs: Seq<GameLibrariesObj>,
    env: ScanEnv,
    present: Seq<bool>,
    n: int,
) -> ScanView
    decreases n,
{
    if n <= 0 {
        ScanView { list: Seq::empty(), keys: Set::empty(), natives: Set::empty(), arm: Seq::empty() }
    } else {
        scan_step(scan_upto(libs, env, present, n - 1), libs[n - 1], env, present[n - 1])
    }
}

/// A scan of libraries under way.
#[derive(Debug)]
pub struct LibraryScan {
    pub list: Vec<FileItemObj>,
    pub keys: KeyedCache<String, bool>,
    pub natives: KeyedCache<String, bool>,
    pub natives_arm: Vec<String>,
}

impl LibraryScan {
    /// The scan is well formed.
    pub open spec fn wf(&self) -> bool {
        self.keys.wf() && self.natives.wf()
    }

    /// What the scan has found.
    pub open spec fn state(&self) -> ScanView {
        ScanView {
            list: items_view(self.list@),
            keys: self.keys@.dom(),
            natives: self.natives@.dom(),
            arm: strings_view(self.natives_arm@),
        }
    }

    /// A scan that has found nothing.
    pub fn new() -> (r: Self)
        ensures
            r.wf(),
            r.state() == (ScanView {
                list: Seq::empty(),
                keys: Set::empty(),
                natives: Set::empty(),
                arm: Seq::empty(),
            }),
    {
        let r = LibraryScan {
            list: Vec::new(),
            keys: KeyedCache::new(),
            natives: KeyedCache::new(),
            natives_arm: Vec::new(),
        };
        assert(r.state().list =~= Seq::<ItemView>::empty());
        assert(r.state().keys =~= Set::<Seq<char>>::empty());
        assert(r.state().natives =~= Set::<Seq<char>>::empty());
        assert(r.state().arm =~= Seq::<Seq<char>>::empty());
        r
    }

    /// Adds a download.
    fn push(&mut self, item: FileItemObj)
        requires
            old(self).wf(),
        ensures
            final(self).wf(),
            final(self).state() == push_item(old(self).state(), item@),
    {
        let ghost before = self.list@;
        self.list.push(item);
        assert(items_view(self.list@) =~= items_view(before).push(item@));
    }

    /// Takes a checksum.
    fn take_key(&mut self, sha1: &String)
        requires
            old(self).wf(),
        ensures
            final(self).wf(),
            final(self).state() == (ScanView {
                keys: old(self).state().keys.insert(sha1@),
                ..old(self).state()
            }),
    {
        self.keys.insert(sha1.clone(), true);
        assert(self.state().keys =~= old(self).state().keys.insert(sha1@));
    }

    /// Notes a native key.
    fn note_native(&mut self, key: String)
        requires
            old(self).wf(),
        ensures
            final(self).wf(),
            final(self).state() == (ScanView {
                natives: old(self).state().natives.insert(key@),
                ..old(self).state()
            }),
    {
        let ghost k = key@;
        self.natives.insert(key, true);
        assert(self.state().natives =~= old(self).state().natives.insert(k));
    }

    /// Notes the native key of a library's artifact (see `track_natives`).
    fn track(&mut self, name: &str)
        requires
            old(self).wf(),
        ensures
            final(self).wf(),
            final(self).state() == track_natives(old(self).state(), name@),
    {
        if !contains_str(name, "natives") {
            return;
        }
        let chars = chars_of(name);
        match rfind_char(chars.as_slice(), ':') {
            None => {},
            Some(index) => {
                let key_chars = crate::mojang::version_parse::sub_chars(chars.as_slice(), 0, index);
                let key = string_of(key_chars.as_slice());
                assert(key@ =~= name@.take(index as int));
                if ends_with(name, "arm64") || ends_with(name, "aarch_64") {
                    let ghost before = self.natives_arm@;
                    let ghost k = key@;
                    self.natives_arm.push(copy_str(key.as_str()));
                    assert(strings_view(self.natives_arm@) =~= strings_view(before).push(k));
                    self.natives.remove(&key);
                    assert(self.state().natives =~= old(self).state().natives.remove(k));
                } else {
                    self.note_native(key);
                }
            },
        }
    }
}

/// The download of a library of the oldest format.
fn make_old_format_item(lib: &GameLibrariesObj, lib_dir: &PathObj) -> (r: FileItemObj)
    ensures
        r@ == old_format_item(*lib, lib_dir@),
{
    let path = version_name_to_path(lib.name.as_str());
    let mut url = copy_str(lib.url.as_str());
    push_str(&mut url, path.as_str());
    FileItemObj {
        name: copy_str(lib.name.as_str()),
        file: lib_dir.join(path.as_str()),
        url,
        hash: FileHash::NoHash,
        later: LaterRun::Nothing,
    }
}

/// The download of a library's artifact.
fn make_artifact_item(lib: &GameLibrariesObj, lib_dir: &PathObj) -> (r: FileItemObj)
    ensures
        r@ == artifact_item(*lib, lib_dir@),
{
    let art = &lib.downloads.artifact;
    FileItemObj {
        name: copy_str(lib.name.as_str()),
        file: lib_dir.join(art.path.as_str()),
        url: copy_str(art.url.as_str()),
        hash: FileHash::Sha1(copy_str(art.sha1.as_str())),
        later: LaterRun::Nothing,
    }
}

/// The name of an operating system.
fn os_name_str(os: Os) -> (r: &'static str)
    ensures
        r@ == os_name(os),
{
    proof {
        reveal_strlit("Windows");
        reveal_strlit("Linux");
        reveal_strlit("MacOS");
        reveal_strlit("Android");
        reveal_strlit("Other");
    }
    match os {
        Os::Windows => "Windows",
        Os::Linux => "Linux",
        Os::MacOS => "MacOS",
        Os::Android => "Android",
        Os::Other => "Other",
    }
}

/// The download of a library's native build.
fn make_native_item(
    lib: &GameLibrariesObj,
    art: &ArtifactObj,
    sys: &SystemInfo,
    native_dir: &PathObj,
    lib_dir: &PathObj,
    unpack_native: bool,
) -> (r: FileItemObj)
    ensures
        r@ == native_item(*lib, *art, *sys, native_dir@, lib_dir@, unpack_native),
{
    let mut name = copy_str(lib.name.as_str());
    push_str(&mut name, "-native");
    push_str(&mut name, os_name_str(sys.os));
    FileItemObj {
        name,
        file: lib_dir.join(art.path.as_str()),
        url: copy_str(art.url.as_str()),
        hash: FileHash::Sha1(copy_str(art.sha1.as_str())),
        later: if unpack_native {
            LaterRun::UnpackNative(native_dir.copy())
        } else {
            LaterRun::Unpack(native_dir.copy())
        },
    }
}

/// The native build of a library for the system (see `chosen_native`).
fn choose_native<'a>(c: &'a ClassifiersObj, sys: &SystemInfo) -> (r: Option<&'a ArtifactObj>)
    ensures
        match r {
            Some(a) => chosen_native(*c, *sys) == Some(*a),
            None => chosen_native(*c, *sys) is None,
        },
{
    match sys.os {
        Os::Windows => {
            if c.natives_windows.path.as_str().is_empty() {
                if sys.system_arch == ArchEnum::X86 {
                    Some(&c.natives_windows_32)
                } else {
                    Some(&c.natives_windows_64)
                }
            } else {
                Some(&c.natives_windows)
            }
        },
        Os::Linux => Some(&c.natives_linux),
        Os::MacOS => Some(&c.natives_osx),
        _ => None,
    }
}

/// Looks for a library that nothing else provided in the instance (see `fallback`).
fn do_fallback(
    scan: &mut LibraryScan,
    lib: &GameLibrariesObj,
    lib_dir: &PathObj,
    game_dir: &Option<PathObj>,
    present: bool,
)
    requires
        old(scan).wf(),
    ensures
        final(scan).wf(),
        final(scan).state() == fallback(
            old(scan).state(),
            *lib,
            lib_dir@,
            match game_dir {
                Some(d) => Some(d@),
                None => None,
            },
            present,
        ),
{
    if lib.name.as_str().is_empty() {
        return;
    }
    match game_dir {
        None => {},
        Some(dir) => {
            match make_forge_libraries(lib.name.as_str()) {
                Some(found) => {
                    scan.push(
                        FileItemObj {
                            name: copy_str(lib.name.as_str()),
                            file: lib_dir.join(found.downloads.artifact.path.as_str()),
                            url: copy_str(found.downloads.artifact.url.as_str()),
                            hash: FileHash::NoHash,
                            later: LaterRun::Nothing,
                        },
                    );
                },
                None => {
                    if present {
                        let path = version_name_to_path(lib.name.as_str());
                        scan.push(
                            FileItemObj {
                                name: copy_str(lib.name.as_str()),
                                file: dir.join(path.as_str()),
                                url: String::new(),
                                hash: FileHash::NoHash,
                                later: LaterRun::Nothing,
                            },
                        );
                    }
                },
            }
        },
    }
}

/// The view of an optional folder.
pub open spec fn opt_dir(d: Option<PathObj>) -> Option<Seq<Seq<char>>> {
    match d {
        Some(p) => Some(p@),
        None => None,
    }
}

/// The environment of a scan, from its parts.
pub open spec fn scan_env_with(
    sys: SystemInfo,
    native_dir: PathObj,
    lib_dir: PathObj,
    game_dir: Option<PathObj>,
    unpack_native: bool,
) -> ScanEnv {
    ScanEnv {
        sys,
        native_dir: native_dir@,
        lib_dir: lib_dir@,
        game_dir: opt_dir(game_dir),
        unpack_native,
    }
}

/// The environment of a scan whose native builds are unpacked as native libraries.
pub open spec fn scan_env(
    sys: SystemInfo,
    native_dir: PathObj,
    lib_dir: PathObj,
    game_dir: Option<PathObj>,
) -> ScanEnv {
    scan_env_with(sys, native_dir, lib_dir, game_dir, true)
}

/// Scans one library (see `scan_step`); native builds are unpacked as native
/// libraries.
pub fn process_one_library(
    scan: &mut LibraryScan,
    lib: &GameLibrariesObj,
    sys: &SystemInfo,
    native_dir: &PathObj,
    lib_dir: &PathObj,
    game_dir: &Option<PathObj>,
    present: bool,
)
    requires
        old(scan).wf(),
    ensures
        final(scan).wf(),
        final(scan).state() == scan_step(
            old(scan).state(),
            *lib,
            scan_env(*sys, *native_dir, *lib_dir, *game_dir),
            present,
        ),
{
    scan_one_library(scan, lib, sys, native_dir, lib_dir, game_dir, present, true);
}

/// Scans one library (see `scan_step`).
fn scan_one_library(
    scan: &mut LibraryScan,
    lib: &GameLibrariesObj,
    sys: &SystemInfo,
    native_dir: &PathObj,
    lib_dir: &PathObj,
    game_dir: &Option<PathObj>,
    present: bool,
    unpack_native: bool,
)
    requires
        old(scan).wf(),
    ensures
        final(scan).wf(),
        final(scan).state() == scan_step(
            old(scan).state(),
            *lib,
            scan_env_with(*sys, *native_dir, *lib_dir, *game_dir, unpack_native),
            present,
        ),
{
    if !check_allow(&lib.rules, sys) {
        return;
    }
    let old_added = !lib.url.as_str().is_empty();
    if old_added {
        scan.push(make_old_format_item(lib, lib_dir));
    }
    let art = &lib.downloads.artifact;
    let has_art = !art.path.as_str().is_empty();
    if has_art && scan.keys.contains(&art.sha1) && lib.downloads.classifiers.is_none() {
        return;
    }
    if has_art {
        scan.track(lib.name.as_str());
        scan.push(make_artifact_item(lib, lib_dir));
        scan.take_key(&art.sha1);
    }
    let ghost b = scan.state();
    let added = old_added || has_art;
    match &lib.downloads.classifiers {
        None => {
            if !added {
                do_fallback(scan, lib, lib_dir, game_dir, present);
            }
        },
        Some(c) => match choose_native(c, sys) {
            None => {},
            Some(n) => {
                if n.path.as_str().is_empty() {
                    if !added {
                        do_fallback(scan, lib, lib_dir, game_dir, present);
                    }
                } else if scan.keys.contains(&n.sha1) {
                } else {
                    scan.push(make_native_item(lib, n, sys, native_dir, lib_dir, unpack_native));
                    scan.take_key(&n.sha1);
                    scan.note_native(copy_str(lib.name.as_str()));
                    assert(scan.state() == (ScanView {
                        list: b.list.push(
                            native_item(*lib, *n, *sys, native_dir@, lib_dir@, unpack_native),
                        ),
                        keys: b.keys.insert(n.sha1@),
                        natives: b.natives.insert(lib.name@),
                        ..b
                    }));
                }
            },
        },
    }
}

impl GameArgObj {
    /// Scans the version's libraries, in order (see `scan_step`).
    fn scan_libraries(
        &self,
        sys: &SystemInfo,
        native_dir: &PathObj,
        lib_dir: &PathObj,
        game_dir: &Option<PathObj>,
        present: &Vec<bool>,
        unpack_native: bool,
    ) -> (r: LibraryScan)
        requires
            match self.libraries {
                Some(libs) => present@.len() == libs@.len(),
                None => true,
            },
        ensures
            r.wf(),
            r.state() == scan_upto(
                self.library_list(),
                scan_env_with(*sys, *native_dir, *lib_dir, *game_dir, unpack_native),
                present@,
                self.library_list().len() as int,
            ),
    {
        let mut scan = LibraryScan::new();
        let ghost env = scan_env_with(*sys, *native_dir, *lib_dir, *game_dir, unpack_native);
        if let Some(libs) = &self.libraries {
            let mut i: usize = 0;
            while i < libs.len()
                invariant
                    present@.len() == libs@.len(),
                    env == scan_env_with(*sys, *native_dir, *lib_dir, *game_dir, unpack_native),
                    i <= libs@.len(),
                    scan.wf(),
                    scan.state() == scan_upto(libs@, env, present@, i as int),
                decreases libs@.len() - i,
            {
                scan_one_library(
                    &mut scan,
                    &libs[i],
                    sys,
                    native_dir,
                    lib_dir,
                    game_dir,
                    present[i],
                    unpack_native,
                );
                i = i + 1;
            }
        }
        scan
    }

    /// The libraries of the description, none where it lists none.
    pub open spec fn library_list(&self) -> Seq<GameLibrariesObj> {
        match self.libraries {
            Some(libs) => libs@,
            None => Seq::empty(),
        }
    }

    /// Scans the version's libraries, in order (see `scan_step`); `present[i]` tells
    /// whether library `i` is a file of the instance's libraries folder `game_dir`.
    /// Native builds are unpacked as native libraries.
    pub fn build_game_libraries(
        &self,
        sys: &SystemInfo,
        native_dir: &PathObj,
        lib_dir: &PathObj,
        game_dir: &Option<PathObj>,
        present: &Vec<bool>,
    ) -> (r: LibraryScan)
        requires
            match self.libraries {
                Some(libs) => present@.len() == libs@.len(),
                None => true,
            },
        ensures
            r.wf(),
            r.state() == scan_upto(
                self.library_list(),
                scan_env(*sys, *native_dir, *lib_dir, *game_dir),
                present@,
                self.library_list().len() as int,
            ),
    {
        self.scan_libraries(sys, native_dir, lib_dir, game_dir, present, true)
    }

    /// Scans the version's libraries as `build_game_libraries` does, except that native
    /// builds are unpacked as plain archives.
    pub fn build_game_libs(
        &self,
        sys: &SystemInfo,
        native_dir: &PathObj,
        lib_dir: &PathObj,
        game_dir: &Option<PathObj>,
        present: &Vec<bool>,
    ) -> (r: LibraryScan)
        requires
            match self.libraries {
                Some(libs) => present@.len() == libs@.len(),
                None => true,
            },
        ensures
            r.wf(),
            r.state() == scan_upto(
                self.library_list(),
                scan_env_with(*sys, *native_dir, *lib_dir, *game_dir, false),
                present@,
                self.library_list().len() as int,
            ),
    {
        self.scan_libraries(sys, native_dir, lib_dir, game_dir, present, false)
    }
}

/// Every checksummed download of a scan has its checksum among those taken.
pub open spec fn hashes_taken(s: ScanView) -> bool {
    forall|i: int|
        #![trigger s.list[i]]
        0 <= i < s.list.len() ==> match s.list[i].hash {
            HashView::Sha1(h) => s.keys.contains(h),
            _ => true,
        }
}

/// Scanning a library keeps every checksum taken, takes those of the checksummed
/// downloads it adds, and keeps the downloads found so far in front.
pub proof fn law_scan_step_hashes(s: ScanView, lib: GameLibrariesObj, env: ScanEnv, present: bool)
    requires
        hashes_taken(s),
    ensures
        hashes_taken(scan_step(s, lib, env, present)),
        s.keys.subset_of(scan_step(s, lib, env, present).keys),
        scan_step(s, lib, env, present).list.take(s.list.len() as int) == s.list,
{
    let r = scan_step(s, lib, env, present);
    assert(r.list.take(s.list.len() as int) =~= s.list);
}

/// Every checksummed download of a whole scan has its checksum among those taken.
pub proof fn law_scan_hashes_taken(libs: Seq<GameLibrariesObj>, env: ScanEnv, present: Seq<bool>, n: int)
    requires
        0 <= n <= libs.len(),
    ensures
        hashes_taken(scan_upto(libs, env, present, n)),
    decreases n,
{
    if n > 0 {
        law_scan_hashes_taken(libs, env, present, n - 1);
        law_scan_step_hashes(scan_upto(libs, env, present, n - 1), libs[n - 1], env, present[n - 1]);
    }
}

// ---------------------------------------------------------------------------
// ARM builds of native libraries
// ---------------------------------------------------------------------------

/// The native keys of a scan that no ARM build was found for.
pub fn natives_without_arm(scan: &LibraryScan) -> (r: Vec<String>)
    requires
        scan.wf(),
    ensures
        strings_view(r@).no_duplicates(),
        strings_view(r@).to_set() == scan.state().natives.difference(scan.state().arm.to_set()),
{
    let mut left: KeyedCache<String, bool> = KeyedCache::new();
    proof {
        scan.natives.lemma_entries();
    }
    let ghost es = scan.natives.entry_seq();
    let n = scan.natives.len();
    let mut i: usize = 0;
    while i < n
        invariant
            n == es.len(),
            es == scan.natives.entry_seq(),
            scan.wf(),
            left.wf(),
            i <= n,
            forall|k: Seq<char>| #[trigger]
                left@.contains_key(k) <==> exists|j: int| 0 <= j < i && es[j].0@ == k,
        decreases n - i,
    {
        let ghost before = left@;
        left.insert(copy_str(scan.natives.key_at(i).as_str()), true);
        proof {
            assert forall|k: Seq<char>| #[trigger]
                left@.contains_key(k) <==> exists|j: int| 0 <= j < i + 1 && es[j].0@ == k by {
                if left@.contains_key(k) && k != es[i as int].0@ {
                    assert(before.contains_key(k));
                }
                if exists|j: int| 0 <= j < i + 1 && es[j].0@ == k {
                    let j = choose|j: int| 0 <= j < i + 1 && es[j].0@ == k;
                    if j < i {
                        assert(before.contains_key(k));
                    }
                }
            }
        }
        i = i + 1;
    }
    let mut a: usize = 0;
    while a < scan.natives_arm.len()
        invariant
            n == es.len(),
            left.wf(),
            a <= scan.natives_arm@.len(),
            forall|k: Seq<char>| #[trigger]
                left@.contains_key(k) <==> (exists|j: int| 0 <= j < n && es[j].0@ == k) && !strings_view(
                    scan.natives_arm@,
                ).take(a as int).contains(k),
        decreases scan.natives_arm@.len() - a,
    {
        let ghost before = left@;
        left.remove(&scan.natives_arm[a]);
        proof {
            let arm = strings_view(scan.natives_arm@);
            let t0 = arm.take(a as int);
            let t1 = arm.take(a + 1);
            assert(t1 =~= t0.push(scan.natives_arm@[a as int]@));
            assert forall|k: Seq<char>| #[trigger]
                left@.contains_key(k) <==> (exists|j: int| 0 <= j < n && es[j].0@ == k)
                    && !t1.contains(k) by {
                assert(before.contains_key(k) == ((exists|j: int| 0 <= j < n && es[j].0@ == k)
                    && !t0.contains(k)));
                if k == scan.natives_arm@[a as int]@ {
                    assert(t1[a as int] == k);
                }
                if t1.contains(k) && k != scan.natives_arm@[a as int]@ {
                    let j = choose|j: int| 0 <= j < t1.len() && t1[j] == k;
                    assert(t0[j] == k);
                }
                if t0.contains(k) {
                    let j = choose|j: int| 0 <= j < t0.len() && t0[j] == k;
                    assert(t1[j] == k);
                }
            }
        }
        a = a + 1;
    }
    proof {
        left.lemma_entries();
    }
    let ghost ls = left.entry_seq();
    let m = left.len();
    let mut r: Vec<String> = Vec::new();
    let mut j: usize = 0;
    while j < m
        invariant
            m == ls.len(),
            ls == left.entry_seq(),
            left.wf(),
            j <= m,
            r@.len() == j,
            forall|t: int| 0 <= t < j ==> (#[trigger] r@[t])@ == ls[t].0@,
        decreases m - j,
    {
        r.push(copy_str(left.key_at(j).as_str()));
        j = j + 1;
    }
    proof {
        let arm = strings_view(scan.natives_arm@);
        assert(arm.take(arm.len() as int) =~= arm);
        let sv = strings_view(r@);
        assert forall|x: int, y: int| 0 <= x < sv.len() && 0 <= y < sv.len() && x != y implies sv[x]
            != sv[y] by {
            assert(sv[x] == ls[x].0@);
            assert(sv[y] == ls[y].0@);
        }
        assert forall|k: Seq<char>|
            sv.to_set().contains(k) <==> scan.state().natives.difference(arm.to_set()).contains(k) by {
            if sv.to_set().contains(k) {
                let t = choose|t: int| 0 <= t < sv.len() && sv[t] == k;
                assert(left.entry_seq()[t] == ls[t]);
                assert(left@.contains_key(k));
                let jj = choose|jj: int| 0 <= jj < n && es[jj].0@ == k;
                assert(scan.natives.entry_seq()[jj] == es[jj]);
            }
            if scan.state().natives.difference(arm.to_set()).contains(k) {
                assert(scan.natives@.contains_key(k));
                let jj = choose|jj: int| 0 <= jj < es.len() && es[jj].0@ == k;
                assert(left@.contains_key(k));
                let t = choose|t: int| 0 <= t < ls.len() && ls[t].0@ == k;
                assert(sv[t] == k);
            }
        }
        assert(sv.to_set() =~= scan.state().natives.difference(arm.to_set()));
    }
    r
}

/// The name of the system in the names of ARM native builds.
pub open spec fn arm_system(os: Os) -> Seq<char> {
    match os {
        Os::Linux => "linux"@,
        Os::MacOS => "macos"@,
        _ => "windows"@,
    }
}

/// The name and maven path of the ARM native build (of kind `suffix`, such as `arm64`)
/// of the native library tracked under `key` (`group:artifact:version`).
pub open spec fn spec_arm_candidate(key: Seq<char>, os: Os, suffix: Seq<char>) -> (Seq<char>, Seq<char>) {
    let path = spec_split(key, ':');
    let stem = path[1] + "-"@ + path[2] + "-natives-"@ + arm_system(os) + "-"@ + suffix;
    (
        key + ":"@ + stem,
        spec_replace_char(path[0], '.', '/') + "/"@ + path[1] + "/"@ + path[2] + "/"@ + stem
            + ".jar"@,
    )
}

/// The name and maven path of an ARM native build to look for (see
/// `spec_arm_candidate`).
pub fn arm_native_candidate(key: &str, os: Os, suffix: &str) -> (r: (String, String))
    requires
        spec_split(key@, ':').len() >= 3,
    ensures
        (r.0@, r.1@) == spec_arm_candidate(key@, os, suffix@),
{
    let path = split_str(key, ':');
    proof {
        assert(seqs_of(path@) == spec_split(key@, ':'));
        assert(path@[0]@ == spec_split(key@, ':')[0]);
        assert(path@[1]@ == spec_split(key@, ':')[1]);
        assert(path@[2]@ == spec_split(key@, ':')[2]);
        reveal_strlit("linux");
        reveal_strlit("macos");
        reveal_strlit("windows");
    }
    let system: &str = match os {
        Os::Linux => "linux",
        Os::MacOS => "macos",
        _ => "windows",
    };
    let mut stem = String::new();
    push_chars(&mut stem, path[1].as_slice());
    push_str(&mut stem, "-");
    push_chars(&mut stem, path[2].as_slice());
    push_str(&mut stem, "-natives-");
    push_str(&mut stem, system);
    push_str(&mut stem, "-");
    push_str(&mut stem, suffix);
    let mut name = copy_str(key);
    push_str(&mut name, ":");
    push_str(&mut name, stem.as_str());
    let group = replace_char(path[0].as_slice(), '.', '/');
    let mut dir = String::new();
    push_chars(&mut dir, group.as_slice());
    push_str(&mut dir, "/");
    push_chars(&mut dir, path[1].as_slice());
    push_str(&mut dir, "/");
    push_chars(&mut dir, path[2].as_slice());
    push_str(&mut dir, "/");
    push_str(&mut dir, stem.as_str());
    push_str(&mut dir, ".jar");
    assert(name@ =~= spec_arm_candidate(key@, os, suffix@).0);
    assert(dir@ =~= spec_arm_candidate(key@, os, suffix@).1);
    (name, dir)
}

} // verus!

//! Custom loaders: loaders that an instance brings in an installer archive of its own.
use vstd::prelude::*;

use crate::file_item::{FileHash, FileItemObj, LaterRun, PathObj};
use crate::launcher::custom_loader_obj::CustomLoaderType;
use crate::launcher::game_setting_obj::InstanceSettingObj;
use crate::launcher_path::keyed_cache::lookup;
use crate::launcher_path::version_path::VersionPath;
use crate::loader::forge_launch_obj::{ForgeLaunchObj, ForgeLibrariesObj};
use crate::text::{
    chars_of, copy_str, extend_from_chars, extend_strings, push_char, push_str, spec_split,
    split_str, strings_view,
};

verus! {

/// The game arguments of a Forge-like launch description: its argument line split on
/// spaces, then its list of game arguments.
pub open spec fn spec_forge_game_args(forge: ForgeLaunchObj) -> Seq<Seq<char>> {
    let line = match forge.minecraft_arguments {
        Some(data) => spec_split(data@, ' '),
        None => Seq::empty(),
    };
    let list = match forge.arguments {
        Some(args) => strings_view(args.game@),
        None => Seq::empty(),
    };
    line + list
}

/// The JVM arguments of a Forge-like launch description.
pub open spec fn spec_forge_jvm_args(forge: ForgeLaunchObj) -> Seq<Seq<char>> {
    match forge.arguments {
        Some(args) => strings_view(args.jvm@),
        None => Seq::empty(),
    }
}

/// The custom loader kept for an instance.
pub open spec fn custom_loader_of(paths: VersionPath, uuid: u128) -> Option<CustomLoaderType> {
    lookup(paths.custom_loaders@, uuid)
}

/// The game arguments of the custom loader kept for an instance; none without one.
pub open spec fn spec_custom_game_args(paths: VersionPath, uuid: u128) -> Seq<Seq<char>> {
    match custom_loader_of(paths, uuid) {
        Some(CustomLoaderType::ForgeLaunch(forge)) => spec_forge_game_args(forge),
        None => Seq::empty(),
    }
}

/// The JVM arguments of the custom loader kept for an instance; none without one.
pub open spec fn spec_custom_jvm_args(paths: VersionPath, uuid: u128) -> Seq<Seq<char>> {
    match custom_loader_of(paths, uuid) {
        Some(CustomLoaderType::ForgeLaunch(forge)) => spec_forge_jvm_args(forge),
        None => Seq::empty(),
    }
}

/// The main class of the custom loader kept for an instance; empty without one.
pub open spec fn spec_custom_mainclass(paths: VersionPath, uuid: u128) -> Seq<char> {
    match custom_loader_of(paths, uuid) {
        Some(CustomLoaderType::ForgeLaunch(forge)) => forge.main_class@,
        None => Seq::empty(),
    }
}

impl InstanceSettingObj {
    /// The game arguments of the instance's custom loader; none without one.
    pub fn get_custom_loader_game_args(&self, paths: &VersionPath) -> (r: Vec<String>)
        requires
            paths.wf(),
        ensures
            strings_view(r@) == spec_custom_game_args(*paths, self.uuid),
    {
        let mut args: Vec<String> = Vec::new();
        assert(strings_view(args@) =~= Seq::<Seq<char>>::empty());
        if let Some(data) = self.get_custom_loader(paths) {
            match data {
                CustomLoaderType::ForgeLaunch(forge) => {
                    if let Some(line) = &forge.minecraft_arguments {
                        let parts = split_str(line.as_str(), ' ');
                        extend_from_chars(&mut args, &parts);
                    }
                    if let Some(list) = &forge.arguments {
                        extend_strings(&mut args, &list.game);
                    }
                    assert(strings_view(args@) =~= spec_forge_game_args(*forge));
                },
            }
        }
        args
    }

    /// The JVM arguments of the instance's custom loader; none without one.
    pub fn get_custom_loader_jvm_args(&self, paths: &VersionPath) -> (r: Vec<String>)
        requires
            paths.wf(),
        ensures
            strings_view(r@) == spec_custom_jvm_args(*paths, self.uuid),
    {
        let mut args: Vec<String> = Vec::new();
        assert(strings_view(args@) =~= Seq::<Seq<char>>::empty());
        if let Some(data) = self.get_custom_loader(paths) {
            match data {
                CustomLoaderType::ForgeLaunch(forge) => {
                    if let Some(list) = &forge.arguments {
                        extend_strings(&mut args, &list.jvm);
                    }
                    assert(strings_view(args@) =~= spec_forge_jvm_args(*forge));
                },
            }
        }
        args
    }

    /// The main class of the instance's custom loader; empty without one.
    pub fn get_custom_loader_mainclass(&self, paths: &VersionPath) -> (r: String)
        requires
            paths.wf(),
        ensures
            r@ == spec_custom_mainclass(*paths, self.uuid),
    {
        match self.get_custom_loader(paths) {
            Some(CustomLoaderType::ForgeLaunch(forge)) => copy_str(forge.main_class.as_str()),
            None => String::new(),
        }
    }
}

/// `prefix` begins `s`.
pub open spec fn spec_starts_with(s: Seq<char>, prefix: Seq<char>) -> bool {
    prefix.len() <= s.len() && s.take(prefix.len() as int) == prefix
}

/// Whether `prefix` begins `s`.
pub fn starts_with(s: &str, prefix: &str) -> (r: bool)
    ensures
        r == spec_starts_with(s@, prefix@),
{
    let a = chars_of(s);
    let p = chars_of(prefix);
    if p.len() > a.len() {
        return false;
    }
    let mut i: usize = 0;
    while i < p.len()
        invariant
            a@ == s@,
            p@ == prefix@,
            p@.len() <= a@.len(),
            i <= p@.len(),
            forall|j: int| 0 <= j < i ==> a@[j] == p@[j],
        decreases p@.len() - i,
    {
        if a[i] != p[i] {
            assert(s@.take(prefix@.len() as int)[i as int] != prefix@[i as int]);
            return false;
        }
        i = i + 1;
    }
    assert(s@.take(prefix@.len() as int) =~= prefix@);
    true
}

/// The name of a custom loader: its version, with its profile in front where the
/// version does not begin with it.
pub open spec fn spec_custom_loader_name(profile: Seq<char>, version: Seq<char>) -> Seq<char> {
    if !spec_starts_with(version, profile) {
        profile + seq!['-'] + version
    } else {
        version
    }
}

/// The name of a custom loader from the profile and version of its installer.
pub fn custom_loader_name(profile: &str, version: &str) -> (r: String)
    ensures
        r@ == spec_custom_loader_name(profile@, version@),
{
    if !starts_with(version, profile) {
        let mut r = copy_str(profile);
        push_char(&mut r, '-');
        push_str(&mut r, version);
        r
    } else {
        copy_str(version)
    }
}

/// The download of a library of a custom loader into the libraries folder.
pub open spec fn spec_library_item(lib_dir: Seq<Seq<char>>, lib: ForgeLibrariesObj, item: FileItemObj) -> bool {
    &&& item.name@ == lib.name@
    &&& item.file@ == lib_dir.push(lib.downloads.artifact.path@)
    &&& item.url@ == lib.downloads.artifact.url@
    &&& item.hash matches FileHash::Sha1(h) && h@ == lib.downloads.artifact.sha1@
    &&& item.later is Nothing
}

/// The download of a library of a custom loader into the libraries folder.
pub fn custom_library_item(lib_dir: &PathObj, lib: &ForgeLibrariesObj) -> (r: FileItemObj)
    ensures
        spec_library_item(lib_dir@, *lib, r),
{
    FileItemObj {
        name: copy_str(lib.name.as_str()),
        file: lib_dir.join(lib.downloads.artifact.path.as_str()),
        url: copy_str(lib.downloads.artifact.url.as_str()),
        hash: FileHash::Sha1(copy_str(lib.downloads.artifact.sha1.as_str())),
        later: LaterRun::Nothing,
    }
}

/// Which libraries of a custom loader are to be downloaded: those with an address whose
/// file is not already in place (`in_place[i]` tells whether the file of library `i`
/// exists with the right checksum). Libraries without an address come from the
/// installer archive itself.
pub open spec fn spec_needs_download(libs: Seq<ForgeLibrariesObj>, in_place: Seq<bool>, i: int) -> bool {
    libs[i].downloads.artifact.url@.len() > 0 && !in_place[i]
}

/// The number of libraries among the first `n` that are to be downloaded.
pub open spec fn count_downloads(libs: Seq<ForgeLibrariesObj>, in_place: Seq<bool>, n: int) -> nat
    decreases n,
{
    if n <= 0 {
        0
    } else if spec_needs_download(libs, in_place, n - 1) {
        count_downloads(libs, in_place, n - 1) + 1
    } else {
        count_downloads(libs, in_place, n - 1)
    }
}

/// The downloads of a custom loader's libraries, in their order (see
/// `spec_needs_download`).
pub fn custom_loader_downloads(
    lib_dir: &PathObj,
    libs: &Vec<ForgeLibrariesObj>,
    in_place: &Vec<bool>,
) -> (r: Vec<FileItemObj>)
    requires
        in_place@.len() == libs@.len(),
    ensures
        r@.len() == count_downloads(libs@, in_place@, libs@.len() as int),
        forall|i: int|
            #![trigger libs@[i]]
            0 <= i < libs@.len() && spec_needs_download(libs@, in_place@, i) ==> spec_library_item(
                lib_dir@,
                libs@[i],
                r@[count_downloads(libs@, in_place@, i) as int],
            ),
{
    let mut r: Vec<FileItemObj> = Vec::new();
    let mut i: usize = 0;
    while i < libs.len()
        invariant
            in_place@.len() == libs@.len(),
            i <= libs@.len(),
            r@.len() == count_downloads(libs@, in_place@, i as int),
            forall|k: int|
                #![trigger libs@[k]]
                0 <= k < i && spec_needs_download(libs@, in_place@, k) ==> spec_library_item(
                    lib_dir@,
                    libs@[k],
                    r@[count_downloads(libs@, in_place@, k) as int],
                ),
        decreases libs@.len() - i,
    {
        let ghost before = r@;
        if !libs[i].downloads.artifact.url.as_str().is_empty() && !in_place[i] {
            r.push(custom_library_item(lib_dir, &libs[i]));
        }
        proof {
            lemma_count_mono(libs@, in_place@, i as int);
            assert forall|k: int|
                #![trigger libs@[k]]
                0 <= k < i + 1 && spec_needs_download(libs@, in_place@, k) implies spec_library_item(
                lib_dir@,
                libs@[k],
                r@[count_downloads(libs@, in_place@, k) as int],
            ) by {
                if k < i {
                    assert(count_downloads(libs@, in_place@, k + 1) == count_downloads(
                        libs@,
                        in_place@,
                        k,
                    ) + 1);
                    assert(r@[count_downloads(libs@, in_place@, k) as int]
                        == before[count_downloads(libs@, in_place@, k) as int]);
                }
            }
        }
        i = i + 1;
    }
    r
}

/// Earlier prefixes count no more downloads.
proof fn lemma_count_mono(libs: Seq<ForgeLibrariesObj>, in_place: Seq<bool>, n: int)
    requires
        0 <= n,
    ensures
        forall|k: int| 0 <= k <= n ==> count_downloads(libs, in_place, k) <= count_downloads(
            libs,
            in_place,
            n,
        ),
    decreases n,
{
    if n > 0 {
        lemma_count_mono(libs, in_place, n - 1);
    }
}

/// Once a custom loader's launch description is kept for an instance (by
/// `add_custom_loader`), the instance's custom main class is that description's main
/// class; with no custom loader kept, it is empty.
pub proof fn law_custom_mainclass(before: VersionPath, after: VersionPath, forge: ForgeLaunchObj, uuid: u128)
    requires
        after.custom_loaders@ == before.custom_loaders@.insert(uuid, CustomLoaderType::ForgeLaunch(forge)),
    ensures
        spec_custom_mainclass(after, uuid) == forge.main_class@,
        !before.custom_loaders@.contains_key(uuid) ==> spec_custom_mainclass(before, uuid) == Seq::<char>::empty(),
{
}

} // verus!

//! Mojang version metadata: launch descriptions, version lists and version numbers.
use vstd::prelude::*;

use crate::file_item::{FileHash, FileItemObj, HashView, ItemView, LaterRun, LaterView, PathObj};
use crate::launcher_path::keyed_cache::lookup;
use crate::launcher_path::libraries_path::{get_game_file, spec_game_file, LibrariesPath};
use crate::launcher_path::version_path::{get_version, VersionPath};
use crate::mojang::game_arg_obj::{GameRulesObj, LoggingObj};
use crate::system_info::{Os, SystemInfo};
use crate::text::{chars_of, copy_str, push_chars, push_str, str_eq};

pub mod game_arg_obj;
pub mod game_libraries;
pub mod version_checker;
pub mod version_obj;
pub mod version_parse;

verus! {

/// The release kind of a game version.
#[derive(Debug, Clone, Copy, PartialEq, Eq, Structural)]
pub enum GameType {
    Release,
    Snapshot,
    Other,
    All,
}

impl Default for GameType {
    fn default() -> (r: Self)
        ensures
            r == GameType::Release,
    {
        GameType::Release
    }
}

/// Whether an operating system name of a rule names the system.
pub open spec fn os_matches(name: Seq<char>, sys: SystemInfo) -> bool {
    (name == "osx"@ && sys.os == Os::MacOS) || (name == "windows"@ && sys.os == Os::Windows) || (
    name == "linux"@ && sys.os == Os::Linux)
}

/// Whether an item applies on the system after the given rules, taken in order: an
/// `allow` rule allows (only on its operating system, when it names one), a `disallow`
/// rule forbids (only on its operating system, when it names one), an `x86`
/// architecture condition decides on non-ARM systems, and other actions change nothing.
pub open spec fn spec_check_allow(rules: Seq<GameRulesObj>, sys: SystemInfo) -> bool
    decreases rules.len(),
{
    if rules.len() == 0 {
        true
    } else {
        let prev = spec_check_allow(rules.drop_last(), sys);
        let item = rules.last();
        if item.action@ == "allow"@ {
            match item.os {
                Some(os) => if os.arch@ == "x86"@ && !sys.is_arm {
                    true
                } else {
                    os_matches(os.name@, sys)
                },
                None => true,
            }
        } else if item.action@ == "disallow"@ {
            match item.os {
                Some(os) => if os.arch@ == "x86"@ && !sys.is_arm {
                    false
                } else {
                    !os_matches(os.name@, sys)
                },
                None => false,
            }
        } else {
            prev
        }
    }
}

/// Whether the rules allow an item on the system.
pub fn check_allow(list: &Vec<GameRulesObj>, sys: &SystemInfo) -> (r: bool)
    ensures
        r == spec_check_allow(list@, *sys),
{
    let mut allow = true;
    let mut i: usize = 0;
    assert(list@.take(0) =~= Seq::<GameRulesObj>::empty());
    while i < list.len()
        invariant
            i <= list@.len(),
            allow == spec_check_allow(list@.take(i as int), *sys),
        decreases list@.len() - i,
    {
        let item = &list[i];
        assert(list@.take(i + 1).drop_last() =~= list@.take(i as int));
        assert(list@.take(i + 1).last() == list@[i as int]);
        if str_eq(item.action.as_str(), "allow") {
            match &item.os {
                Some(os) => {
                    if str_eq(os.name.as_str(), "osx") && sys.os == Os::MacOS {
                        allow = true;
                    } else if str_eq(os.name.as_str(), "windows") && sys.os == Os::Windows {
                        allow = true;
                    } else if str_eq(os.name.as_str(), "linux") && sys.os == Os::Linux {
                        allow = true;
                    } else {
                        allow = false;
                    }
                    if str_eq(os.arch.as_str(), "x86") && !sys.is_arm {
                        allow = true;
                    }
                },
                None => {
                    allow = true;
                },
            }
        } else if str_eq(item.action.as_str(), "disallow") {
            match &item.os {
                Some(os) => {
                    if str_eq(os.name.as_str(), "osx") && sys.os == Os::MacOS {
                        allow = false;
                    } else if str_eq(os.name.as_str(), "windows") && sys.os == Os::Windows {
                        allow = false;
                    } else if str_eq(os.name.as_str(), "linux") && sys.os == Os::Linux {
                        allow = false;
                    } else {
                        allow = true;
                    }
                    if str_eq(os.arch.as_str(), "x86") && !sys.is_arm {
                        allow = false;
                    }
                },
                None => {
                    allow = false;
                },
            }
        }
        i = i + 1;
    }
    assert(list@.take(list@.len() as int) =~= list@);
    allow
}

/// The download of the safe log4j configuration of a version: into the versions
/// folder, under `log4j2/log4j2.xml`.
pub open spec fn spec_log4j_item(base: Seq<Seq<char>>, obj: LoggingObj) -> ItemView {
    ItemView {
        name: "log4j2-xml"@,
        file: base.push("log4j2"@).push("log4j2.xml"@),
        url: obj.client.file.url@,
        hash: HashView::Sha1(obj.client.file.sha1@),
        later: LaterView::Nothing,
    }
}

/// The download of the safe log4j configuration of a version.
pub fn build_log4j_item(paths: &VersionPath, obj: &LoggingObj) -> (r: FileItemObj)
    ensures
        r@ == spec_log4j_item(paths.base_dir@, *obj),
{
    FileItemObj {
        name: copy_str("log4j2-xml"),
        file: paths.base_dir.join("log4j2").join("log4j2.xml"),
        url: copy_str(obj.client.file.url.as_str()),
        hash: FileHash::Sha1(copy_str(obj.client.file.sha1.as_str())),
        later: LaterRun::Nothing,
    }
}

/// The first two characters of a checksum (fewer where it is shorter): the folder of
/// an asset object.
pub open spec fn hash_prefix(hash: Seq<char>) -> Seq<char> {
    if hash.len() < 2 {
        hash
    } else {
        hash.take(2)
    }
}

/// The download of an asset object: into `<objects>/<first two>/<hash>`, from Mojang's
/// resource server at `<first two>/<hash>`.
pub open spec fn spec_assets_item(obj_dir: Seq<Seq<char>>, name: Seq<char>, hash: Seq<char>) -> ItemView {
    ItemView {
        name: name,
        file: obj_dir.push(hash_prefix(hash)).push(hash),
        url: "https://resources.download.minecraft.net/"@ + hash_prefix(hash) + "/"@ + hash,
        hash: HashView::Sha1(hash),
        later: LaterView::Nothing,
    }
}

/// The download of an asset object.
pub fn build_assets_item(obj_dir: &PathObj, name: &str, hash: &str) -> (r: FileItemObj)
    ensures
        r@ == spec_assets_item(obj_dir@, name@, hash@),
{
    let chars = chars_of(hash);
    let mut dir = String::new();
    if chars.len() < 2 {
        push_chars(&mut dir, chars.as_slice());
    } else {
        let two = crate::mojang::version_parse::sub_chars(chars.as_slice(), 0, 2);
        push_chars(&mut dir, two.as_slice());
    }
    assert(dir@ =~= hash_prefix(hash@));
    let mut url = copy_str("https://resources.download.minecraft.net/");
    push_str(&mut url, dir.as_str());
    push_str(&mut url, "/");
    push_str(&mut url, hash);
    FileItemObj {
        name: copy_str(name),
        file: obj_dir.join(dir.as_str()).join(hash),
        url,
        hash: FileHash::Sha1(copy_str(hash)),
        later: LaterRun::Nothing,
    }
}

/// The download of a game core: into the libraries folder, from the address of the
/// version's description.
pub open spec fn spec_game_item(
    lib_dir: Seq<Seq<char>>,
    version: Seq<char>,
    client_url: Seq<char>,
    client_sha1: Seq<char>,
) -> ItemView {
    ItemView {
        name: "minecraft-clinet-"@ + version + ".jar"@,
        file: spec_game_file(lib_dir, version),
        url: client_url,
        hash: HashView::Sha1(client_sha1),
        later: LaterView::Nothing,
    }
}

/// The download of the game core of a version whose description has been read.
pub fn build_game_item(paths: &VersionPath, libs: &LibrariesPath, version: &str) -> (r: FileItemObj)
    requires
        paths.wf(),
        lookup(paths.game_args@, version@) is Some,
    ensures
        r@ == spec_game_item(
            libs.lib_dir@,
            version@,
            lookup(paths.game_args@, version@).unwrap().downloads.client.url@,
            lookup(paths.game_args@, version@).unwrap().downloads.client.sha1@,
        ),
{
    let game = match get_version(paths, version) {
        Some(g) => g,
        None => {
            assert(false);
            return FileItemObj::default();
        },
    };
    let mut name = copy_str("minecraft-clinet-");
    push_str(&mut name, version);
    push_str(&mut name, ".jar");
    FileItemObj {
        name,
        file: get_game_file(libs, version),
        url: copy_str(game.downloads.client.url.as_str()),
        hash: FileHash::Sha1(copy_str(game.downloads.client.sha1.as_str())),
        later: LaterRun::Nothing,
    }
}

} // verus!

//! A launch put together from the custom descriptions that an instance brings (in the
//! manner of MultiMC components), one after the other.
use vstd::prelude::*;

use crate::file_item::{
    items_view, spec_display, FileHash, FileItemObj, HashView, ItemView, LaterRun, LaterView, PathObj,
};
use crate::game_arg::{
    make_v1_game_arg, make_v2_game_arg, make_v2_jvm_arg, spec_v1_game_arg, spec_v1_jvm_arg,
    spec_v2_game_arg, spec_v2_jvm_arg, v1_jvm_arg, GameLaunchObj,
};
use crate::launcher::custom_game_arg_obj::CustomGameArgObj;
use crate::launcher_path::libraries_path::{
    get_game_file, get_game_file_with_custom, spec_game_file, spec_game_file_with_custom,
    LibrariesPath,
};
use crate::launcher_path::version_path::VersionPath;
use crate::mojang::game_arg_obj::{GameAssetIndexObj, LoggingObj};
use crate::mojang::game_libraries::{spec_name_to_path, version_name_to_path};
use crate::mojang::{build_log4j_item, check_allow, spec_check_allow, spec_log4j_item};
use crate::system_info::SystemInfo;
use crate::text::{
    copy_str, extend_strings, push_owned, push_str, push_string, replace_str, spec_replace,
    strings_view,
};

verus! {

/// A set of Java major versions kept as a list: `v` added where it is not in it yet.
pub open spec fn java_insert(s: Seq<i32>, v: i32) -> Seq<i32> {
    if s.contains(v) {
        s
    } else {
        s.push(v)
    }
}

/// The set of Java major versions with each of `vs` added, in order.
pub open spec fn java_insert_all(s: Seq<i32>, vs: Seq<i32>) -> Seq<i32>
    decreases vs.len(),
{
    if vs.len() == 0 {
        s
    } else {
        java_insert(java_insert_all(s, vs.drop_last()), vs.last())
    }
}

/// Adds a Java major version where it is not listed yet.
pub fn insert_java(list: &mut Vec<i32>, v: i32)
    ensures
        final(list)@ == java_insert(old(list)@, v),
{
    let mut i: usize = 0;
    while i < list.len()
        invariant
            i <= list@.len(),
            list@ == old(list)@,
            forall|j: int| 0 <= j < i ==> list@[j] != v,
        decreases list@.len() - i,
    {
        if list[i] == v {
            assert(list@.contains(v));
            return;
        }
        i = i + 1;
    }
    list.push(v);
}

/// The game core once a custom description is read: its own client where it names one
/// (the game's core file for the game version it names, else a core named by its id),
/// and its main jar instead where it names one that the rules allow on this system.
pub open spec fn custom_game_jar(
    jar: ItemView,
    item: CustomGameArgObj,
    lib_dir: Seq<Seq<char>>,
    sys: SystemInfo,
) -> ItemView {
    let client = item.base.downloads.client;
    let a = if client.url@.len() > 0 {
        match item.minecraft_version {
            Some(v) => ItemView {
                name: v@ + ".jar"@,
                file: spec_game_file(lib_dir, v@),
                url: client.url@,
                hash: HashView::Sha1(client.sha1@),
                later: LaterView::Nothing,
            },
            None => ItemView {
                name: item.base.id@ + ".jar"@,
                file: spec_game_file_with_custom(lib_dir, item.base.id@),
                url: client.url@,
                hash: HashView::Sha1(client.sha1@),
                later: LaterView::Nothing,
            },
        }
    } else {
        jar
    };
    let main = item.main_jar;
    let art = main.downloads.artifact;
    if main.name@.len() > 0 && spec_check_allow(main.rules@, sys) {
        ItemView {
            name: main.name@,
            file: lib_dir.push(
                if art.path@.len() == 0 {
                    spec_name_to_path(main.name@)
                } else {
                    art.path@
                },
            ),
            url: art.url@,
            hash: HashView::Sha1(art.sha1@),
            later: LaterView::Nothing,
        }
    } else {
        a
    }
}

/// A path names no file: each of its parts is empty.
pub open spec fn path_is_empty(p: Seq<Seq<char>>) -> bool {
    forall|i: int| 0 <= i < p.len() ==> #[trigger] p[i].len() == 0
}

/// The libraries of a list that name a file, in order.
pub open spec fn named_libs(items: Seq<ItemView>) -> Seq<ItemView>
    decreases items.len(),
{
    if items.len() == 0 {
        seq![]
    } else if path_is_empty(items.last().file) {
        named_libs(items.drop_last())
    } else {
        named_libs(items.drop_last()).push(items.last())
    }
}

/// The Java major versions once a custom description is read: the one its description
/// asks for, then those it is compatible with.
pub open spec fn custom_java(s: Seq<i32>, item: CustomGameArgObj) -> Seq<i32> {
    let a = match item.base.java_version {
        Some(j) => java_insert(s, j.major_version),
        None => s,
    };
    match item.compatible_java_majors {
        Some(v) => java_insert_all(a, v@),
        None => a,
    }
}

/// The game arguments once a custom description is read: its own in the first format,
/// then in the second, then a `--tweakClass` followed by its tweakers.
pub open spec fn custom_game_args(s: Seq<Seq<char>>, item: CustomGameArgObj) -> Seq<Seq<char>> {
    s + spec_v1_game_arg(item.base) + spec_v2_game_arg(item.base) + match item.add_tweakers {
        Some(t) => seq!["--tweakClass"@] + strings_view(t@),
        None => seq![],
    }
}

/// The JVM arguments once a custom description is read: its own in the second format,
/// then the arguments it adds, after the first format's defaults where there were no
/// arguments yet.
pub open spec fn custom_jvm_args(
    s: Seq<Seq<char>>,
    item: CustomGameArgObj,
    sys: SystemInfo,
) -> Seq<Seq<char>> {
    let a = s + spec_v2_jvm_arg(item.base, sys);
    match item.add_jvm_args {
        Some(add) => (if a.len() == 0 {
            spec_v1_jvm_arg()
        } else {
            a
        }) + strings_view(add@),
        None => a,
    }
}

/// The main class once a custom description is read: its own, where it names one.
pub open spec fn custom_main_class(s: Seq<char>, item: CustomGameArgObj) -> Seq<char> {
    if item.base.main_class@.len() > 0 {
        item.base.main_class@
    } else {
        s
    }
}

/// Whether a path names no file.
pub fn path_empty(p: &PathObj) -> (r: bool)
    ensures
        r == path_is_empty(p@),
{
    let mut i: usize = 0;
    while i < p.parts.len()
        invariant
            i <= p.parts@.len(),
            forall|j: int| 0 <= j < i ==> #[trigger] p@[j].len() == 0,
        decreases p.parts@.len() - i,
    {
        if !p.parts[i].as_str().is_empty() {
            assert(p@[i as int].len() != 0);
            return false;
        }
        i = i + 1;
    }
    true
}

/// A copy of an asset index.
fn copy_asset_index(a: &GameAssetIndexObj) -> (r: GameAssetIndexObj)
    ensures
        r.id@ == a.id@,
        r.url@ == a.url@,
{
    GameAssetIndexObj { id: copy_str(a.id.as_str()), url: copy_str(a.url.as_str()) }
}

/// The game core once a custom description is read (see `custom_game_jar`).
fn read_custom_game_jar(
    jar: &mut FileItemObj,
    item: &CustomGameArgObj,
    paths: &LibrariesPath,
    sys: &SystemInfo,
)
    ensures
        final(jar)@ == custom_game_jar(old(jar)@, *item, paths.lib_dir@, *sys),
{
    let client = &item.base.downloads.client;
    if !client.url.as_str().is_empty() {
        match &item.minecraft_version {
            Some(v) => {
                let mut name = copy_str(v.as_str());
                push_str(&mut name, ".jar");
                *jar = FileItemObj {
                    name,
                    file: get_game_file(paths, v.as_str()),
                    url: copy_str(client.url.as_str()),
                    hash: FileHash::Sha1(copy_str(client.sha1.as_str())),
                    later: LaterRun::Nothing,
                };
            },
            None => {
                let mut name = copy_str(item.base.id.as_str());
                push_str(&mut name, ".jar");
                *jar = FileItemObj {
                    name,
                    file: get_game_file_with_custom(paths, item.base.id.as_str()),
                    url: copy_str(client.url.as_str()),
                    hash: FileHash::Sha1(copy_str(client.sha1.as_str())),
                    later: LaterRun::Nothing,
                };
            },
        }
    }
    let main = &item.main_jar;
    if !main.name.as_str().is_empty() && check_allow(&main.rules, sys) {
        let art = &main.downloads.artifact;
        let file = if art.path.as_str().is_empty() {
            version_name_to_path(main.name.as_str())
        } else {
            copy_str(art.path.as_str())
        };
        *jar = FileItemObj {
            name: copy_str(main.name.as_str()),
            file: paths.lib_dir.join(file.as_str()),
            url: copy_str(art.url.as_str()),
            hash: FileHash::Sha1(copy_str(art.sha1.as_str())),
            later: LaterRun::Nothing,
        };
    }
}

/// Appends the libraries that name a file.
fn push_named_libs(out: &mut Vec<FileItemObj>, libs: &Vec<FileItemObj>)
    ensures
        items_view(final(out)@) == items_view(old(out)@) + named_libs(items_view(libs@)),
{
    let ghost start = items_view(out@);
    let ghost lv = items_view(libs@);
    let mut i: usize = 0;
    while i < libs.len()
        invariant
            i <= libs@.len(),
            lv == items_view(libs@),
            items_view(out@) == start + named_libs(lv.take(i as int)),
        decreases libs@.len() - i,
    {
        let ghost o0 = out@;
        assert(lv.take(i + 1).drop_last() =~= lv.take(i as int));
        if !path_empty(&libs[i].file) {
            out.push(libs[i].copy());
            assert(items_view(out@) =~= items_view(o0).push(lv[i as int]));
        }
        i = i + 1;
        assert(items_view(out@) =~= start + named_libs(lv.take(i as int)));
    }
    assert(lv.take(i as int) =~= lv);
}

/// Adds each of a list of Java major versions where it is not listed yet.
fn insert_java_all(list: &mut Vec<i32>, vs: &Vec<i32>)
    ensures
        final(list)@ == java_insert_all(old(list)@, vs@),
{
    let ghost start = list@;
    let mut i: usize = 0;
    while i < vs.len()
        invariant
            i <= vs@.len(),
            list@ == java_insert_all(start, vs@.take(i as int)),
        decreases vs@.len() - i,
    {
        assert(vs@.take(i + 1).drop_last() =~= vs@.take(i as int));
        insert_java(list, vs[i]);
        i = i + 1;
    }
    assert(vs@.take(i as int) =~= vs@);
}

/// Reads one custom description into a launch: its game core (see `custom_game_jar`),
/// its asset index, the libraries built from it (`libs`) that name a file, its Java
/// versions, main class and arguments (see the `custom_*` spec functions).
pub fn apply_custom_item(
    obj: &mut GameLaunchObj,
    item: &CustomGameArgObj,
    libs: &Vec<FileItemObj>,
    paths: &LibrariesPath,
    sys: &SystemInfo,
)
    ensures
        final(obj).game_jar@ == custom_game_jar(old(obj).game_jar@, *item, paths.lib_dir@, *sys),
        match item.base.asset_index {
            Some(a) => final(obj).assets.id@ == a.id@ && final(obj).assets.url@ == a.url@,
            None => final(obj).assets == old(obj).assets,
        },
        items_view(final(obj).game_libs@) == items_view(old(obj).game_libs@) + named_libs(
            items_view(libs@),
        ),
        final(obj).java_versions@ == custom_java(old(obj).java_versions@, *item),
        final(obj).main_class@ == custom_main_class(old(obj).main_class@, *item),
        strings_view(final(obj).game_args@) == custom_game_args(
            strings_view(old(obj).game_args@),
            *item,
        ),
        strings_view(final(obj).jvm_args@) == custom_jvm_args(
            strings_view(old(obj).jvm_args@),
            *item,
            *sys,
        ),
        final(obj).loader_libs@ == old(obj).loader_libs@,
        final(obj).installer_libs@ == old(obj).installer_libs@,
        final(obj).native_dir == old(obj).native_dir,
        final(obj).log4j_xml == old(obj).log4j_xml,
        final(obj).use_asm == old(obj).use_asm,
{
    read_custom_game_jar(&mut obj.game_jar, item, paths, sys);
    if let Some(a) = &item.base.asset_index {
        obj.assets = copy_asset_index(a);
    }
    push_named_libs(&mut obj.game_libs, libs);
    if let Some(j) = &item.base.java_version {
        insert_java(&mut obj.java_versions, j.major_version);
    }
    if !item.base.main_class.as_str().is_empty() {
        obj.main_class = copy_str(item.base.main_class.as_str());
    }
    let ghost g0 = strings_view(obj.game_args@);
    let v1 = make_v1_game_arg(&item.base);
    extend_strings(&mut obj.game_args, &v1);
    let v2 = make_v2_game_arg(&item.base);
    extend_strings(&mut obj.game_args, &v2);
    let ghost j0 = strings_view(obj.jvm_args@);
    let jv2 = make_v2_jvm_arg(&item.base, sys);
    extend_strings(&mut obj.jvm_args, &jv2);
    if let Some(majors) = &item.compatible_java_majors {
        insert_java_all(&mut obj.java_versions, majors);
    }
    if let Some(add) = &item.add_jvm_args {
        if obj.jvm_args.len() == 0 {
            let d = v1_jvm_arg();
            extend_strings(&mut obj.jvm_args, &d);
        }
        extend_strings(&mut obj.jvm_args, add);
    }
    if let Some(t) = &item.add_tweakers {
        push_string(&mut obj.game_args, "--tweakClass");
        proof {
            reveal_strlit("--tweakClass");
        }
        extend_strings(&mut obj.game_args, t);
    }
    assert(strings_view(obj.game_args@) =~= custom_game_args(g0, *item));
    assert(strings_view(obj.jvm_args@) =~= custom_jvm_args(j0, *item, *sys));
}

/// The logging configuration of the last description that has one.
pub open spec fn last_logging(items: Seq<CustomGameArgObj>) -> Option<LoggingObj>
    decreases items.len(),
{
    if items.len() == 0 {
        None
    } else if items.last().base.logging is Some {
        items.last().base.logging
    } else {
        last_logging(items.drop_last())
    }
}

/// The logging configuration of the last description that has one.
fn find_last_logging(items: &Vec<CustomGameArgObj>) -> (r: Option<&LoggingObj>)
    ensures
        match r {
            Some(l) => last_logging(items@) == Some(*l),
            None => last_logging(items@) is None,
        },
{
    let mut i: usize = items.len();
    assert(items@.take(i as int) =~= items@);
    while i > 0
        invariant
            i <= items@.len(),
            last_logging(items@) == last_logging(items@.take(i as int)),
        decreases i,
    {
        assert(items@.take(i as int).drop_last() =~= items@.take(i - 1));
        if let Some(l) = &items[i - 1].base.logging {
            return Some(l);
        }
        i = i - 1;
    }
    None
}

/// The Java major version the launcher's own JVM arguments are made for: one that the
/// launch suits (the first listed), or 8 where it lists none.
pub fn launch_java_version(obj: &GameLaunchObj) -> (r: i32)
    ensures
        obj.java_versions@.len() == 0 ==> r == 8,
        obj.java_versions@.len() > 0 ==> r == obj.java_versions@[0],
{
    if obj.java_versions.len() == 0 {
        8
    } else {
        obj.java_versions[0]
    }
}

/// The JVM arguments once the custom descriptions are all read: the first format's
/// defaults where there are none yet, then the launcher's own (`own`).
pub open spec fn custom_jvm_done(s: Seq<Seq<char>>, own: Seq<Seq<char>>) -> Seq<Seq<char>> {
    (if s.len() == 0 {
        spec_v1_jvm_arg()
    } else {
        s
    }) + own
}

/// The argument that points the game at the safe log4j configuration: the
/// description's argument with `${path}` replaced by the configuration's file.
pub open spec fn log4j_argument(l: LoggingObj, base: Seq<Seq<char>>, sep: char) -> Seq<char> {
    spec_replace(l.client.argument@, "${path}"@, spec_display(spec_log4j_item(base, l).file, sep))
}

/// Completes a launch put together from custom descriptions (`items`, already read
/// with `apply_custom_item`): the JVM arguments get the first format's defaults where
/// there are none, then the launcher's own (`jvm_own`); the game arguments get the
/// instance's own (`game_own`); and where a description has a logging configuration,
/// the last such one gives the safe log4j configuration and its argument.
pub fn finish_custom_args(
    obj: &mut GameLaunchObj,
    items: &Vec<CustomGameArgObj>,
    jvm_own: &Vec<String>,
    game_own: &Vec<String>,
    paths: &VersionPath,
    sep: char,
)
    ensures
        strings_view(final(obj).game_args@) == strings_view(old(obj).game_args@) + strings_view(
            game_own@,
        ),
        match last_logging(items@) {
            Some(l) => {
                &&& final(obj).log4j_xml matches Some(x) && x@ == spec_log4j_item(paths.base_dir@, l)
                &&& strings_view(final(obj).jvm_args@) == custom_jvm_done(
                    strings_view(old(obj).jvm_args@),
                    strings_view(jvm_own@),
                ).push(log4j_argument(l, paths.base_dir@, sep))
            },
            None => {
                &&& final(obj).log4j_xml == old(obj).log4j_xml
                &&& strings_view(final(obj).jvm_args@) == custom_jvm_done(
                    strings_view(old(obj).jvm_args@),
                    strings_view(jvm_own@),
                )
            },
        },
        final(obj).game_jar == old(obj).game_jar,
        final(obj).game_libs@ == old(obj).game_libs@,
        final(obj).java_versions@ == old(obj).java_versions@,
        final(obj).main_class == old(obj).main_class,
{
    if obj.jvm_args.len() == 0 {
        let d = v1_jvm_arg();
        extend_strings(&mut obj.jvm_args, &d);
    }
    extend_strings(&mut obj.jvm_args, jvm_own);
    extend_strings(&mut obj.game_args, game_own);
    match find_last_logging(items) {
        Some(l) => {
            let item = build_log4j_item(paths, l);
            let shown = item.file.display(sep);
            proof {
                reveal_strlit("${path}");
            }
            let arg = replace_str(l.client.argument.as_str(), "${path}", shown.as_str());
            obj.log4j_xml = Some(item);
            push_owned(&mut obj.jvm_args, arg);
        },
        None => {},
    }
}

/// The Java versions of a launch stay a set: adding versions to a list without
/// repeats leaves one without repeats that holds what it held and every version added.
pub proof fn law_java_insert_all_set(s: Seq<i32>, vs: Seq<i32>)
    requires
        s.no_duplicates(),
    ensures
        java_insert_all(s, vs).no_duplicates(),
        forall|x: i32| s.contains(x) ==> java_insert_all(s, vs).contains(x),
        forall|i: int| 0 <= i < vs.len() ==> java_insert_all(s, vs).contains(#[trigger] vs[i]),
    decreases vs.len(),
{
    if vs.len() > 0 {
        let rest = vs.drop_last();
        law_java_insert_all_set(s, rest);
        let before = java_insert_all(s, rest);
        let v = vs.last();
        if !before.contains(v) {
            let after = before.push(v);
            assert forall|i: int, j: int| 0 <= i < after.len() && 0 <= j < after.len() && i != j implies after[i] != after[j] by {
                if i < before.len() && j < before.len() {
                } else if i == before.len() {
                    assert(after[j] == before[j]);
                } else {
                    assert(after[i] == before[i]);
                }
            }
            assert forall|x: i32| before.contains(x) implies after.contains(x) by {
                let k = choose|k: int| 0 <= k < before.len() && before[k] == x;
                assert(after[k] == x);
            }
            assert(after[before.len() as int] == v);
        }
        assert forall|i: int| 0 <= i < vs.len() implies java_insert_all(s, vs).contains(#[trigger] vs[i]) by {
            if i < vs.len() - 1 {
                assert(rest[i] == vs[i]);
                assert(before.contains(rest[i]));
            } else {
                if !before.contains(v) {
                    assert(before.push(v)[before.len() as int] == v);
                }
            }
        }
    }
}

} // verus!

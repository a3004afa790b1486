//! The libraries folder: where game cores, OptiFine installers and libraries go, and
//! which libraries an instance's class path holds.
use vstd::prelude::*;

use crate::file_item::{FileHash, FileItemObj, LaterRun, PathObj};
use crate::game_arg::GameLaunchObj;
use crate::launcher::game_setting_obj::InstanceSettingObj;
use crate::loader::LoaderType;
use crate::text::{
    chars_eq, copy_str, lowercase, push_str, seqs_of, spec_split, split_str, str_eq, string_of,
    to_lower,
};

verus! {

/// The folders of the libraries store: the libraries folder, the native libraries
/// folder, and the authentication agents once they are ready.
#[derive(Debug)]
pub struct LibrariesPath {
    pub lib_dir: PathObj,
    pub native_dir: PathObj,
    pub authlib_file: Option<PathObj>,
    pub nide8_file: Option<PathObj>,
}

/// The libraries folder.
pub fn get_lib_dir(paths: &LibrariesPath) -> (r: PathObj)
    ensures
        r@ == paths.lib_dir@,
{
    paths.lib_dir.copy()
}

/// The authlib-injector agent, once it is ready.
pub fn get_authlib_file(paths: &LibrariesPath) -> (r: Option<PathObj>)
    ensures
        match (r, paths.authlib_file) {
            (Some(a), Some(b)) => a@ == b@,
            (None, None) => true,
            _ => false,
        },
{
    match &paths.authlib_file {
        Some(p) => Some(p.copy()),
        None => None,
    }
}

/// The Nide8 agent, once it is ready.
pub fn get_nide8_file(paths: &LibrariesPath) -> (r: Option<PathObj>)
    ensures
        match (r, paths.nide8_file) {
            (Some(a), Some(b)) => a@ == b@,
            (None, None) => true,
            _ => false,
        },
{
    match &paths.nide8_file {
        Some(p) => Some(p.copy()),
        None => None,
    }
}

/// The parts of a library name `pack:name:version[:extra]`.
#[derive(Debug)]
pub struct LibVersionObj {
    pub pack: String,
    pub name: String,
    pub version: String,
    pub extr: String,
}

/// The parts of a library name: package, name, version, extra.
pub type LibKey = (Seq<char>, Seq<char>, Seq<char>, Seq<char>);

impl View for LibVersionObj {
    type V = LibKey;

    open spec fn view(&self) -> LibKey {
        (self.pack@, self.name@, self.version@, self.extr@)
    }
}

/// The parts of a library name: with fewer than three `:`-separated parts, the whole
/// text is the name; otherwise package, name, version and (with four or more) extra.
pub open spec fn spec_lib_version(name: Seq<char>) -> LibKey {
    let args = spec_split(name, ':');
    if args.len() < 3 {
        (Seq::<char>::empty(), name, Seq::<char>::empty(), Seq::<char>::empty())
    } else if args.len() > 3 {
        (args[0], args[1], args[2], args[3])
    } else {
        (args[0], args[1], args[2], Seq::<char>::empty())
    }
}

/// Whether two libraries are the same apart from their version.
pub open spec fn same_lib(a: LibKey, b: LibKey) -> bool {
    a.0 == b.0 && a.1 == b.1 && a.3 == b.3
}

impl LibVersionObj {
    /// Splits a library name into its parts.
    pub fn new(name: &str) -> (r: Self)
        ensures
            r@ == spec_lib_version(name@),
    {
        let arg = split_str(name, ':');
        proof {
            assert(seqs_of(arg@) == spec_split(name@, ':'));
        }
        if arg.len() < 3 {
            LibVersionObj { pack: String::new(), name: copy_str(name), version: String::new(), extr: String::new() }
        } else if arg.len() > 3 {
            assert(arg@[3]@ == spec_split(name@, ':')[3]);
            assert(arg@[2]@ == spec_split(name@, ':')[2]);
            assert(arg@[1]@ == spec_split(name@, ':')[1]);
            assert(arg@[0]@ == spec_split(name@, ':')[0]);
            LibVersionObj {
                pack: string_of(arg[0].as_slice()),
                name: string_of(arg[1].as_slice()),
                version: string_of(arg[2].as_slice()),
                extr: string_of(arg[3].as_slice()),
            }
        } else {
            assert(arg@[2]@ == spec_split(name@, ':')[2]);
            assert(arg@[1]@ == spec_split(name@, ':')[1]);
            assert(arg@[0]@ == spec_split(name@, ':')[0]);
            LibVersionObj {
                pack: string_of(arg[0].as_slice()),
                name: string_of(arg[1].as_slice()),
                version: string_of(arg[2].as_slice()),
                extr: String::new(),
            }
        }
    }

    /// Whether two libraries are the same apart from their version.
    pub fn eq_without_version(&self, obj: &LibVersionObj) -> (r: bool)
        ensures
            r == same_lib(self@, obj@),
    {
        let a = crate::text::chars_of(self.pack.as_str());
        let b = crate::text::chars_of(obj.pack.as_str());
        let c = crate::text::chars_of(self.name.as_str());
        let d = crate::text::chars_of(obj.name.as_str());
        let e = crate::text::chars_of(self.extr.as_str());
        let f = crate::text::chars_of(obj.extr.as_str());
        chars_eq(a.as_slice(), b.as_slice()) && chars_eq(c.as_slice(), d.as_slice()) && chars_eq(
            e.as_slice(),
            f.as_slice(),
        )
    }

    /// The package, name and extra part.
    pub fn key_without_version(&self) -> (r: (String, String, String))
        ensures
            r.0@ == self.pack@,
            r.1@ == self.name@,
            r.2@ == self.extr@,
    {
        (copy_str(self.pack.as_str()), copy_str(self.name.as_str()), copy_str(self.extr.as_str()))
    }

    /// A copy.
    pub fn copy(&self) -> (r: Self)
        ensures
            r@ == self@,
    {
        LibVersionObj {
            pack: copy_str(self.pack.as_str()),
            name: copy_str(self.name.as_str()),
            version: copy_str(self.version.as_str()),
            extr: copy_str(self.extr.as_str()),
        }
    }
}

/// The folder native libraries are unpacked into: that of a game version, or the
/// common one.
pub fn get_native_dir(paths: &LibrariesPath, version: Option<&str>) -> (r: PathObj)
    ensures
        r@ == match version {
            Some(v) => paths.native_dir@.push(v@),
            None => paths.native_dir@,
        },
{
    match version {
        Some(v) => paths.native_dir.join(v),
        None => paths.native_dir.copy(),
    }
}

/// The game core of a version: `<libraries>/net/minecraft/client/<version>/client-<version>.jar`.
pub open spec fn spec_game_file(lib_dir: Seq<Seq<char>>, version: Seq<char>) -> Seq<Seq<char>> {
    lib_dir.push("net"@).push("minecraft"@).push("client"@).push(version).push(
        "client-"@ + version + ".jar"@,
    )
}

/// The game core of a custom version: `<libraries>/net/minecraft/client/<custom>.jar`.
pub open spec fn spec_game_file_with_custom(lib_dir: Seq<Seq<char>>, custom: Seq<char>) -> Seq<Seq<char>> {
    lib_dir.push("net"@).push("minecraft"@).push("client"@).push(custom + ".jar"@)
}

/// An OptiFine installer: `<libraries>/optifine/installer/OptiFine-<mc>-<version>.jar`.
pub open spec fn spec_optifine_file(lib_dir: Seq<Seq<char>>, mc: Seq<char>, version: Seq<char>) -> Seq<Seq<char>> {
    lib_dir.push("optifine"@).push("installer"@).push("OptiFine-"@ + mc + "-"@ + version + ".jar"@)
}

/// The game core of a version.
pub fn get_game_file(paths: &LibrariesPath, version: &str) -> (r: PathObj)
    ensures
        r@ == spec_game_file(paths.lib_dir@, version@),
{
    let mut file = String::new();
    push_str(&mut file, "client-");
    push_str(&mut file, version);
    push_str(&mut file, ".jar");
    paths.lib_dir.join("net").join("minecraft").join("client").join(version).join_string(file)
}

/// The game core of a custom version.
pub fn get_game_file_with_custom(paths: &LibrariesPath, custom: &str) -> (r: PathObj)
    ensures
        r@ == spec_game_file_with_custom(paths.lib_dir@, custom@),
{
    let mut file = copy_str(custom);
    push_str(&mut file, ".jar");
    paths.lib_dir.join("net").join("minecraft").join("client").join_string(file)
}

/// The OptiFine installer of a game version and OptiFine version.
pub fn get_optifine_file(paths: &LibrariesPath, mc: &str, version: &str) -> (r: PathObj)
    ensures
        r@ == spec_optifine_file(paths.lib_dir@, mc@, version@),
{
    let mut file = String::new();
    push_str(&mut file, "OptiFine-");
    push_str(&mut file, mc);
    push_str(&mut file, "-");
    push_str(&mut file, version);
    push_str(&mut file, ".jar");
    paths.lib_dir.join("optifine").join("installer").join_string(file)
}

// ---------------------------------------------------------------------------
// The class path of an instance
// ---------------------------------------------------------------------------

/// A library and the file that holds it.
pub type LibEntry = (LibKey, Seq<Seq<char>>);

/// `list` without the entries for the same library as `k`.
pub open spec fn drop_same(list: Seq<LibEntry>, k: LibKey) -> Seq<LibEntry>
    decreases list.len(),
{
    if list.len() == 0 {
        list
    } else {
        let rest = drop_same(list.drop_last(), k);
        if same_lib(list.last().0, k) {
            rest
        } else {
            rest.push(list.last())
        }
    }
}

/// `list` with `e` in place of any entry for the same library.
pub open spec fn add_or_update(list: Seq<LibEntry>, e: LibEntry) -> Seq<LibEntry> {
    drop_same(list, e.0).push(e)
}

/// `add_or_update` of each of `items`, in order.
pub open spec fn fold_update(acc: Seq<LibEntry>, items: Seq<LibEntry>) -> Seq<LibEntry>
    decreases items.len(),
{
    if items.len() == 0 {
        acc
    } else {
        add_or_update(fold_update(acc, items.drop_last()), items.last())
    }
}

/// Whether `list` holds an entry for the same library as `k`.
pub open spec fn has_same(list: Seq<LibEntry>, k: LibKey) -> bool {
    exists|i: int| 0 <= i < list.len() && same_lib(#[trigger] list[i].0, k)
}

/// Each of `items`, in order, added where no entry for the same library is there yet.
pub open spec fn fold_insert_absent(acc: Seq<LibEntry>, items: Seq<LibEntry>) -> Seq<LibEntry>
    decreases items.len(),
{
    if items.len() == 0 {
        acc
    } else {
        let prev = fold_insert_absent(acc, items.drop_last());
        if has_same(prev, items.last().0) {
            prev
        } else {
            prev.push(items.last())
        }
    }
}

/// The files of the entries.
pub open spec fn entry_files(list: Seq<LibEntry>) -> Seq<Seq<Seq<char>>> {
    list.map_values(|e: LibEntry| e.1)
}

/// The entries of download items: the library parts of each name and its file.
pub open spec fn item_entries(items: Seq<FileItemObj>) -> Seq<LibEntry> {
    items.map_values(|it: FileItemObj| (spec_lib_version(it.name@), it.file@))
}

/// The class path of an instance: its game libraries and loader libraries with one
/// file per library (the last one named wins, a loader library over a game library),
/// merged as its custom loader settings say (which may drop the game libraries), and
/// the game core last (except under NeoForge, whose loader brings it).
pub open spec fn spec_get_libs(obj: InstanceSettingObj, arg: GameLaunchObj) -> Seq<Seq<Seq<char>>> {
    let game = fold_update(Seq::empty(), item_entries(arg.game_libs@));
    let custom_json = match obj.custom_loader {
        Some(c) => c.custom_json,
        None => false,
    };
    let off_list = match obj.custom_loader {
        Some(c) => c.off_list,
        None => false,
    };
    let keep_game = match obj.custom_loader {
        Some(c) => !c.remove_lib,
        None => true,
    };
    if custom_json {
        entry_files(game).push(arg.game_jar.file@)
    } else {
        let loader = fold_update(Seq::empty(), item_entries(arg.loader_libs@));
        let result = if obj.loader == LoaderType::Custom && off_list {
            let t = fold_update(Seq::empty(), loader);
            if keep_game {
                fold_insert_absent(t, game)
            } else {
                t
            }
        } else {
            let t = if keep_game {
                fold_update(Seq::empty(), game)
            } else {
                Seq::empty()
            };
            fold_update(t, loader)
        };
        if obj.loader != LoaderType::NeoForge {
            entry_files(result).push(arg.game_jar.file@)
        } else {
            entry_files(result)
        }
    }
}

/// Two library names are the same library exactly when their package, name and extra
/// (classifier) parts agree, whatever their versions: names that differ in the extra
/// part are different libraries (`a:b:1` and `a:b:1:natives-linux` among them), and a
/// newer version of the same library is the same library.
pub proof fn law_same_library(a: Seq<char>, b: Seq<char>)
    ensures
        spec_lib_version(a).3 != spec_lib_version(b).3 ==> !same_lib(spec_lib_version(a), spec_lib_version(b)),
        spec_lib_version(a).0 != spec_lib_version(b).0 ==> !same_lib(spec_lib_version(a), spec_lib_version(b)),
        spec_lib_version(a).1 != spec_lib_version(b).1 ==> !same_lib(spec_lib_version(a), spec_lib_version(b)),
        spec_lib_version(a).0 == spec_lib_version(b).0 && spec_lib_version(a).1 == spec_lib_version(b).1
            && spec_lib_version(a).3 == spec_lib_version(b).3 ==> same_lib(spec_lib_version(a), spec_lib_version(b)),
        spec_split(a, ':').len() == 3 && spec_split(b, ':').len() >= 4 && spec_split(b, ':')[3].len() > 0
            ==> !same_lib(spec_lib_version(a), spec_lib_version(b)),
{
    if spec_split(a, ':').len() == 3 && spec_split(b, ':').len() >= 4 && spec_split(b, ':')[3].len() > 0 {
        assert(spec_lib_version(a).3.len() == 0);
        assert(spec_lib_version(b).3 == spec_split(b, ':')[3]);
    }
}

/// Dropping the entries of one library keeps every entry of another.
proof fn lemma_drop_same_keeps(list: Seq<LibEntry>, k: LibKey, x: LibEntry)
    requires
        list.contains(x),
        !same_lib(x.0, k),
    ensures
        drop_same(list, k).contains(x),
    decreases list.len(),
{
    let d = list.drop_last();
    let i = choose|i: int| 0 <= i < list.len() && list[i] == x;
    if i == list.len() - 1 {
        assert(drop_same(list, k) == drop_same(d, k).push(x));
        assert(drop_same(list, k)[drop_same(d, k).len() as int] == x);
    } else {
        assert(d[i] == x);
        lemma_drop_same_keeps(d, k, x);
        let w = drop_same(d, k);
        let j = choose|j: int| 0 <= j < w.len() && w[j] == x;
        if same_lib(list.last().0, k) {
        } else {
            assert(w.push(list.last())[j] == x);
        }
    }
}

/// An entry already kept stays through updates by other libraries only.
proof fn lemma_fold_keeps(acc: Seq<LibEntry>, items: Seq<LibEntry>, x: LibEntry)
    requires
        acc.contains(x),
        forall|k: int| 0 <= k < items.len() ==> !same_lib(#[trigger] items[k].0, x.0),
    ensures
        fold_update(acc, items).contains(x),
    decreases items.len(),
{
    if items.len() > 0 {
        let d = items.drop_last();
        assert forall|k: int| 0 <= k < d.len() implies !same_lib(#[trigger] d[k].0, x.0) by {
            assert(d[k] == items[k]);
        }
        lemma_fold_keeps(acc, d, x);
        let e = items.last();
        assert(!same_lib(items[items.len() - 1].0, x.0));
        assert(!same_lib(x.0, e.0));
        lemma_drop_same_keeps(fold_update(acc, d), e.0, x);
        let w = drop_same(fold_update(acc, d), e.0);
        let j = choose|j: int| 0 <= j < w.len() && w[j] == x;
        assert(w.push(e)[j] == x);
    }
}

/// An item stays in the updated list where no later item is the same library.
proof fn lemma_fold_keeps_item(acc: Seq<LibEntry>, items: Seq<LibEntry>, j: int)
    requires
        0 <= j < items.len(),
        forall|k: int| j < k < items.len() ==> !same_lib(#[trigger] items[k].0, items[j].0),
    ensures
        fold_update(acc, items).contains(items[j]),
    decreases items.len(),
{
    let d = items.drop_last();
    let e = items.last();
    if j == items.len() - 1 {
        let w = drop_same(fold_update(acc, d), e.0);
        assert(w.push(e)[w.len() as int] == e);
    } else {
        assert forall|k: int| j < k < d.len() implies !same_lib(#[trigger] d[k].0, d[j].0) by {
            assert(d[k] == items[k]);
        }
        lemma_fold_keeps_item(acc, d, j);
        assert(d[j] == items[j]);
        assert(!same_lib(items[items.len() - 1].0, items[j].0));
        assert(!same_lib(items[j].0, e.0));
        lemma_drop_same_keeps(fold_update(acc, d), e.0, items[j]);
        let w = drop_same(fold_update(acc, d), e.0);
        let i = choose|i: int| 0 <= i < w.len() && w[i] == items[j];
        assert(w.push(e)[i] == items[j]);
    }
}

/// Every entry of an updated list was in the list or among the items.
proof fn lemma_fold_from(acc: Seq<LibEntry>, items: Seq<LibEntry>, y: LibEntry)
    requires
        fold_update(acc, items).contains(y),
    ensures
        acc.contains(y) || items.contains(y),
    decreases items.len(),
{
    if items.len() > 0 {
        let d = items.drop_last();
        let e = items.last();
        let f = fold_update(acc, d);
        lemma_drop_same_props(f, e.0);
        let w = drop_same(f, e.0);
        let i = choose|i: int| 0 <= i < w.push(e).len() && w.push(e)[i] == y;
        if i == w.len() {
            assert(items[items.len() - 1] == y);
        } else {
            assert(w[i] == y);
            assert(w.contains(y));
            lemma_fold_from(acc, d, y);
            if d.contains(y) {
                let m = choose|m: int| 0 <= m < d.len() && d[m] == y;
                assert(items[m] == y);
            }
        }
    }
}

/// No two entries of the list are the same library.
pub open spec fn distinct_libs(list: Seq<LibEntry>) -> bool {
    forall|i: int, j: int| 0 <= i < j < list.len() ==> !same_lib(#[trigger] list[i].0, #[trigger] list[j].0)
}

/// Dropping the entries of one library keeps only entries of the list, none of that
/// library, and no two of one library where the list had none.
proof fn lemma_drop_same_props(list: Seq<LibEntry>, k: LibKey)
    ensures
        forall|x: LibEntry| #[trigger] drop_same(list, k).contains(x) ==> list.contains(x) && !same_lib(x.0, k),
        distinct_libs(list) ==> distinct_libs(drop_same(list, k)),
    decreases list.len(),
{
    if list.len() > 0 {
        let d = list.drop_last();
        let a = list.last();
        lemma_drop_same_props(d, k);
        let w = drop_same(d, k);
        assert forall|x: LibEntry| #[trigger] drop_same(list, k).contains(x) implies list.contains(x) && !same_lib(x.0, k) by {
            let i = choose|i: int| 0 <= i < drop_same(list, k).len() && drop_same(list, k)[i] == x;
            if same_lib(a.0, k) {
                assert(w.contains(x));
            } else if i < w.len() {
                assert(w[i] == x);
                assert(w.contains(x));
            } else {
                assert(list[list.len() - 1] == x);
            }
            if w.contains(x) {
                let m = choose|m: int| 0 <= m < d.len() && d[m] == x;
                assert(list[m] == x);
            }
        }
        if distinct_libs(list) {
            assert(distinct_libs(d)) by {
                assert forall|i: int, j: int| 0 <= i < j < d.len() implies !same_lib(#[trigger] d[i].0, #[trigger] d[j].0) by {
                    assert(d[i] == list[i] && d[j] == list[j]);
                }
            }
            if !same_lib(a.0, k) {
                let r = w.push(a);
                assert forall|i: int, j: int| 0 <= i < j < r.len() implies !same_lib(#[trigger] r[i].0, #[trigger] r[j].0) by {
                    if j == w.len() {
                        assert(w.contains(r[i]));
                        let m = choose|m: int| 0 <= m < d.len() && d[m] == r[i];
                        assert(list[m] == r[i]);
                        assert(list[list.len() - 1] == a);
                        assert(!same_lib(list[m].0, list[list.len() - 1].0));
                    } else {
                        assert(r[i] == w[i] && r[j] == w[j]);
                    }
                }
            }
        }
    }
}

/// Updating keeps a list free of two entries of one library.
proof fn lemma_fold_distinct(acc: Seq<LibEntry>, items: Seq<LibEntry>)
    requires
        distinct_libs(acc),
    ensures
        distinct_libs(fold_update(acc, items)),
    decreases items.len(),
{
    if items.len() > 0 {
        let d = items.drop_last();
        let e = items.last();
        lemma_fold_distinct(acc, d);
        let f = fold_update(acc, d);
        lemma_drop_same_props(f, e.0);
        let w = drop_same(f, e.0);
        let r = w.push(e);
        assert forall|i: int, j: int| 0 <= i < j < r.len() implies !same_lib(#[trigger] r[i].0, #[trigger] r[j].0) by {
            if j == w.len() {
                assert(w.contains(w[i]));
                assert(r[i] == w[i]);
            } else {
                assert(r[i] == w[i] && r[j] == w[j]);
            }
        }
    }
}

/// The class path of an instance without custom loader settings keeps the file of
/// every game library that no later game library and no loader library replaces (one
/// being a replacement only where it is the same library: same package, name and extra
/// part), and ends with the game core unless the loader is NeoForge.
pub proof fn law_class_path_keeps_game_libs(obj: InstanceSettingObj, arg: GameLaunchObj, j: int)
    requires
        obj.custom_loader is None,
        0 <= j < arg.game_libs@.len(),
        forall|k: int| j < k < arg.game_libs@.len() ==> !same_lib(
            spec_lib_version((#[trigger] arg.game_libs@[k]).name@),
            spec_lib_version(arg.game_libs@[j].name@),
        ),
        forall|k: int| 0 <= k < arg.loader_libs@.len() ==> !same_lib(
            spec_lib_version((#[trigger] arg.loader_libs@[k]).name@),
            spec_lib_version(arg.game_libs@[j].name@),
        ),
    ensures
        spec_get_libs(obj, arg).contains(arg.game_libs@[j].file@),
        obj.loader != LoaderType::NeoForge ==> spec_get_libs(obj, arg).last() == arg.game_jar.file@,
{
    let game_items = item_entries(arg.game_libs@);
    let loader_items = item_entries(arg.loader_libs@);
    let x = game_items[j];
    assert(x == (spec_lib_version(arg.game_libs@[j].name@), arg.game_libs@[j].file@));
    assert forall|k: int| j < k < game_items.len() implies !same_lib(#[trigger] game_items[k].0, game_items[j].0) by {
        assert(game_items[k].0 == spec_lib_version(arg.game_libs@[k].name@));
    }
    lemma_fold_keeps_item(Seq::empty(), game_items, j);
    let game = fold_update(Seq::empty(), game_items);
    lemma_fold_distinct(Seq::empty(), game_items);
    let m = choose|m: int| 0 <= m < game.len() && game[m] == x;
    assert forall|k: int| m < k < game.len() implies !same_lib(#[trigger] game[k].0, game[m].0) by {
        assert(!same_lib(game[m].0, game[k].0));
    }
    lemma_fold_keeps_item(Seq::empty(), game, m);
    let game2 = fold_update(Seq::empty(), game);
    let loader = fold_update(Seq::empty(), loader_items);
    assert forall|k: int| 0 <= k < loader.len() implies !same_lib(#[trigger] loader[k].0, x.0) by {
        assert(loader.contains(loader[k]));
        lemma_fold_from(Seq::empty(), loader_items, loader[k]);
        let n = choose|n: int| 0 <= n < loader_items.len() && loader_items[n] == loader[k];
        assert(loader_items[n].0 == spec_lib_version(arg.loader_libs@[n].name@));
    }
    lemma_fold_keeps(game2, loader, x);
    let result = fold_update(game2, loader);
    let i = choose|i: int| 0 <= i < result.len() && result[i] == x;
    assert(entry_files(result)[i] == x.1);
    if obj.loader != LoaderType::NeoForge {
        assert(entry_files(result).push(arg.game_jar.file@)[i] == x.1);
    }
}

/// The views of library entries.
pub open spec fn entries_view(v: Seq<(LibVersionObj, PathObj)>) -> Seq<LibEntry> {
    v.map_values(|e: (LibVersionObj, PathObj)| (e.0@, e.1@))
}

/// Replaces any entry for the same library as `key` by `(key, value)`.
fn add_or_update_lib_kv(map: &mut Vec<(LibVersionObj, PathObj)>, key: LibVersionObj, value: PathObj)
    ensures
        entries_view(final(map)@) == add_or_update(entries_view(old(map)@), (key@, value@)),
{
    let ghost old_view = entries_view(map@);
    let mut kept: Vec<(LibVersionObj, PathObj)> = Vec::new();
    let mut i: usize = 0;
    assert(old_view.take(0) =~= Seq::<LibEntry>::empty());
    while i < map.len()
        invariant
            map@ == old(map)@,
            old_view == entries_view(map@),
            i <= map@.len(),
            entries_view(kept@) == drop_same(old_view.take(i as int), key@),
        decreases map@.len() - i,
    {
        assert(old_view.take(i + 1).drop_last() =~= old_view.take(i as int));
        assert(old_view[i as int] == (map@[i as int].0@, map@[i as int].1@));
        if !map[i].0.eq_without_version(&key) {
            let ghost kb = kept@;
            kept.push((map[i].0.copy(), map[i].1.copy()));
            assert(entries_view(kept@) =~= entries_view(kb).push(old_view[i as int]));
        }
        i = i + 1;
    }
    assert(old_view.take(i as int) =~= old_view);
    let ghost kb = kept@;
    kept.push((key, value));
    assert(entries_view(kept@) =~= entries_view(kb).push((key@, value@)));
    *map = kept;
}

/// The views of a list of paths.
pub open spec fn paths_view(v: Seq<PathObj>) -> Seq<Seq<Seq<char>>> {
    v.map_values(|p: PathObj| p@)
}

/// One entry per library of the download items (the last one named wins).
fn build_list(items: &Vec<FileItemObj>) -> (r: Vec<(LibVersionObj, PathObj)>)
    ensures
        entries_view(r@) == fold_update(Seq::empty(), item_entries(items@)),
{
    let mut list: Vec<(LibVersionObj, PathObj)> = Vec::new();
    let mut i: usize = 0;
    assert(item_entries(items@).take(0) =~= Seq::<LibEntry>::empty());
    assert(entries_view(list@) =~= Seq::<LibEntry>::empty());
    while i < items.len()
        invariant
            i <= items@.len(),
            entries_view(list@) == fold_update(Seq::empty(), item_entries(items@).take(i as int)),
        decreases items@.len() - i,
    {
        let key = LibVersionObj::new(items[i].name.as_str());
        let file = items[i].file.copy();
        assert(item_entries(items@).take(i + 1).drop_last() =~= item_entries(items@).take(i as int));
        assert(item_entries(items@).take(i + 1).last() == (key@, file@));
        add_or_update_lib_kv(&mut list, key, file);
        i = i + 1;
    }
    assert(item_entries(items@).take(items@.len() as int) =~= item_entries(items@));
    list
}

/// A copy of an entry list.
fn copy_list(items: &Vec<(LibVersionObj, PathObj)>) -> (r: Vec<(LibVersionObj, PathObj)>)
    ensures
        entries_view(r@) == entries_view(items@),
{
    let mut r: Vec<(LibVersionObj, PathObj)> = Vec::new();
    let mut i: usize = 0;
    while i < items.len()
        invariant
            i <= items@.len(),
            entries_view(r@) == entries_view(items@).take(i as int),
        decreases items@.len() - i,
    {
        let ghost rb = r@;
        r.push((items[i].0.copy(), items[i].1.copy()));
        assert(entries_view(r@) =~= entries_view(rb).push(entries_view(items@)[i as int]));
        i = i + 1;
        assert(entries_view(r@) =~= entries_view(items@).take(i as int));
    }
    assert(entries_view(items@).take(items@.len() as int) =~= entries_view(items@));
    r
}

/// `add_or_update` of each of `items` into `acc`.
fn update_all(acc: &mut Vec<(LibVersionObj, PathObj)>, items: &Vec<(LibVersionObj, PathObj)>)
    ensures
        entries_view(final(acc)@) == fold_update(entries_view(old(acc)@), entries_view(items@)),
{
    let ghost start = entries_view(acc@);
    let mut i: usize = 0;
    assert(entries_view(items@).take(0) =~= Seq::<LibEntry>::empty());
    while i < items.len()
        invariant
            i <= items@.len(),
            start == entries_view(old(acc)@),
            entries_view(acc@) == fold_update(start, entries_view(items@).take(i as int)),
        decreases items@.len() - i,
    {
        assert(entries_view(items@).take(i + 1).drop_last() =~= entries_view(items@).take(i as int));
        assert(entries_view(items@).take(i + 1).last() == (items@[i as int].0@, items@[i as int].1@));
        add_or_update_lib_kv(acc, items[i].0.copy(), items[i].1.copy());
        i = i + 1;
    }
    assert(entries_view(items@).take(items@.len() as int) =~= entries_view(items@));
}

/// Whether `list` holds an entry for the same library as `key`.
fn has_same_exec(list: &Vec<(LibVersionObj, PathObj)>, key: &LibVersionObj) -> (r: bool)
    ensures
        r == has_same(entries_view(list@), key@),
{
    let mut i: usize = 0;
    while i < list.len()
        invariant
            i <= list@.len(),
            forall|j: int| 0 <= j < i ==> !same_lib(#[trigger] entries_view(list@)[j].0, key@),
        decreases list@.len() - i,
    {
        if list[i].0.eq_without_version(key) {
            assert(same_lib(entries_view(list@)[i as int].0, key@));
            return true;
        }
        i = i + 1;
    }
    false
}

/// Each of `items` added into `acc` where no entry for the same library is there yet.
fn insert_absent_all(acc: &mut Vec<(LibVersionObj, PathObj)>, items: &Vec<(LibVersionObj, PathObj)>)
    ensures
        entries_view(final(acc)@) == fold_insert_absent(entries_view(old(acc)@), entries_view(items@)),
{
    let ghost start = entries_view(acc@);
    let mut i: usize = 0;
    assert(entries_view(items@).take(0) =~= Seq::<LibEntry>::empty());
    while i < items.len()
        invariant
            i <= items@.len(),
            start == entries_view(old(acc)@),
            entries_view(acc@) == fold_insert_absent(start, entries_view(items@).take(i as int)),
        decreases items@.len() - i,
    {
        assert(entries_view(items@).take(i + 1).drop_last() =~= entries_view(items@).take(i as int));
        assert(entries_view(items@).take(i + 1).last() == (items@[i as int].0@, items@[i as int].1@));
        if !has_same_exec(acc, &items[i].0) {
            let ghost ab = acc@;
            acc.push((items[i].0.copy(), items[i].1.copy()));
            assert(entries_view(acc@) =~= entries_view(ab).push((items@[i as int].0@, items@[i as int].1@)));
        }
        i = i + 1;
    }
    assert(entries_view(items@).take(items@.len() as int) =~= entries_view(items@));
}

/// The files of the entries.
fn files_of(list: &Vec<(LibVersionObj, PathObj)>) -> (r: Vec<PathObj>)
    ensures
        paths_view(r@) == entry_files(entries_view(list@)),
{
    let mut r: Vec<PathObj> = Vec::new();
    let mut i: usize = 0;
    while i < list.len()
        invariant
            i <= list@.len(),
            paths_view(r@) == entry_files(entries_view(list@)).take(i as int),
        decreases list@.len() - i,
    {
        let ghost rb = r@;
        r.push(list[i].1.copy());
        assert(paths_view(r@) =~= paths_view(rb).push(list@[i as int].1@));
        i = i + 1;
        assert(paths_view(r@) =~= entry_files(entries_view(list@)).take(i as int));
    }
    assert(entry_files(entries_view(list@)).take(list@.len() as int) =~= entry_files(entries_view(list@)));
    r
}

impl InstanceSettingObj {
    /// The OptiFine installer of this instance.
    pub fn get_optifine_file(&self, paths: &LibrariesPath) -> (r: PathObj)
        requires
            self.loader_version is Some,
        ensures
            r@ == spec_optifine_file(paths.lib_dir@, self.version@, self.loader_version.unwrap()@),
    {
        match &self.loader_version {
            Some(v) => get_optifine_file(paths, self.version.as_str(), v.as_str()),
            None => PathObj::empty(),
        }
    }

    /// The game core of this instance.
    pub fn get_game_file(&self, paths: &LibrariesPath) -> (r: PathObj)
        ensures
            r@ == spec_game_file(paths.lib_dir@, self.version@),
    {
        get_game_file(paths, self.version.as_str())
    }

    /// The class path of this instance for a launch.
    pub fn get_libs(&self, arg: &GameLaunchObj) -> (r: Vec<PathObj>)
        ensures
            paths_view(r@) == spec_get_libs(*self, *arg),
    {
        let game_list = build_list(&arg.game_libs);
        let custom_json = match &self.custom_loader {
            Some(c) => c.custom_json,
            None => false,
        };
        let off_list = match &self.custom_loader {
            Some(c) => c.off_list,
            None => false,
        };
        let keep_game = match &self.custom_loader {
            Some(c) => !c.remove_lib,
            None => true,
        };
        if custom_json {
            let mut out = files_of(&game_list);
            let ghost ob = out@;
            out.push(arg.game_jar.file.copy());
            assert(paths_view(out@) =~= paths_view(ob).push(arg.game_jar.file@));
            return out;
        }
        let loader_list = build_list(&arg.loader_libs);
        let mut result: Vec<(LibVersionObj, PathObj)> = Vec::new();
        assert(entries_view(result@) =~= Seq::<LibEntry>::empty());
        if self.loader == LoaderType::Custom && off_list {
            update_all(&mut result, &loader_list);
            if keep_game {
                insert_absent_all(&mut result, &game_list);
            }
        } else {
            if keep_game {
                update_all(&mut result, &game_list);
            }
            update_all(&mut result, &loader_list);
        }
        let mut out = files_of(&result);
        if self.loader != LoaderType::NeoForge {
            let ghost ob = out@;
            out.push(arg.game_jar.file.copy());
            assert(paths_view(out@) =~= paths_view(ob).push(arg.game_jar.file@));
        }
        out
    }
}

/// The download item of the authlib-injector agent.
pub fn build_authlib_injector_item(paths: &LibrariesPath, version: &str, download_url: &str, sha256: &str) -> (r: FileItemObj)
    ensures
        r.name@ == "moe.yushi:authlibinjector:"@ + version@,
        r.file@ == paths.lib_dir@.push("moe"@).push("yushi"@).push("authlibinjector"@).push(version@).push(
            "authlib-injector-"@ + version@ + ".jar"@,
        ),
        r.url@ == download_url@,
        r.hash matches FileHash::Sha256(h) && h@ == sha256@,
        r.later is Nothing,
{
    let mut name = String::new();
    push_str(&mut name, "moe.yushi:authlibinjector:");
    push_str(&mut name, version);
    let mut file = String::new();
    push_str(&mut file, "authlib-injector-");
    push_str(&mut file, version);
    push_str(&mut file, ".jar");
    FileItemObj {
        name,
        file: paths.lib_dir.join("moe").join("yushi").join("authlibinjector").join(version).join_string(file),
        url: copy_str(download_url),
        hash: FileHash::Sha256(copy_str(sha256)),
        later: LaterRun::Nothing,
    }
}

/// The download item of the Nide8 agent of version `jar_version`: kept under
/// `com/nide8/login2/nide8auth/<version>/`, fetched from `jar_url`, checked by the SHA-1
/// `jar_hash`.
pub fn build_nide8_item(paths: &LibrariesPath, jar_version: &str, jar_hash: &str, jar_url: &str) -> (r: FileItemObj)
    ensures
        r.name@ == "com.nide8.login2:nide8auth:"@ + jar_version@,
        r.file@ == paths.lib_dir@.push("com"@).push("nide8"@).push("login2"@).push("nide8auth"@).push(
            jar_version@,
        ).push("nide8auth-"@ + jar_version@ + ".jar"@),
        r.url@ == jar_url@,
        r.hash matches FileHash::Sha1(h) && h@ == jar_hash@,
        r.later is Nothing,
{
    let mut name = String::new();
    push_str(&mut name, "com.nide8.login2:nide8auth:");
    push_str(&mut name, jar_version);
    let mut file = String::new();
    push_str(&mut file, "nide8auth-");
    push_str(&mut file, jar_version);
    push_str(&mut file, ".jar");
    FileItemObj {
        name,
        file: paths.lib_dir.join("com").join("nide8").join("login2").join("nide8auth").join(
            jar_version,
        ).join_string(file),
        url: copy_str(jar_url),
        hash: FileHash::Sha1(copy_str(jar_hash)),
        later: LaterRun::Nothing,
    }
}

/// The libraries folder under the launcher's folder.
pub const LIBRARIES_DIR: &'static str = "libraries";

/// The folder of unpacked native libraries under the libraries folder.
pub const NATIVE_DIR: &'static str = "natives";

impl LibrariesPath {
    /// The libraries folders under the launcher's folder `dir`: the libraries folder,
    /// and its native folder for this system, named by the system's and architecture's
    /// names in lower case. No agent is ready yet.
    pub fn init(dir: &PathObj, os_name: &str, arch_name: &str) -> (r: Self)
        ensures
            r.lib_dir@ == dir@.push(LIBRARIES_DIR@),
            r.native_dir@ == r.lib_dir@.push(NATIVE_DIR@).push(lowercase(os_name@)).push(
                lowercase(arch_name@),
            ),
            r.authlib_file is None,
            r.nide8_file is None,
    {
        let lib_dir = dir.join(LIBRARIES_DIR);
        let native_dir = lib_dir.join(NATIVE_DIR).join_string(to_lower(os_name)).join_string(
            to_lower(arch_name),
        );
        LibrariesPath { lib_dir, native_dir, authlib_file: None, nide8_file: None }
    }
}

/// What readying a login agent (authlib-injector or Nide8) comes to.
#[derive(Debug)]
pub enum AgentStep {
    /// The agent's file is on disk with the expected checksum: it is kept as ready and
    /// nothing is downloaded.
    Ready(FileItemObj),
    /// The agent's file is to be downloaded.
    Download(FileItemObj),
}

/// The step for an agent whose download item was just built from its online record:
/// ready where its file is on disk (`on_disk`) and the file's checksum (`file_hash`, of the kind the
/// record gives) equals the record's `expected` one exactly; downloaded otherwise.
pub fn fresh_agent_step(item: FileItemObj, on_disk: bool, file_hash: &str, expected: &str) -> (r: AgentStep)
    ensures
        (on_disk && file_hash@ == expected@) ==> (r matches AgentStep::Ready(i) && i == item),
        !(on_disk && file_hash@ == expected@) ==> (r matches AgentStep::Download(i) && i == item),
{
    if on_disk && str_eq(file_hash, expected) {
        AgentStep::Ready(item)
    } else {
        AgentStep::Download(item)
    }
}

/// The download an agent that was readied before needs: its item again where its file
/// is not on disk (`on_disk`) or the file's checksum does not match the item's (`hash_matches`); none
/// otherwise.
pub fn cached_agent_step(cached: &FileItemObj, on_disk: bool, hash_matches: bool) -> (r: Option<FileItemObj>)
    ensures
        (!on_disk || !hash_matches) ==> (r matches Some(i) && i@ == cached@),
        (on_disk && hash_matches) ==> r is None,
{
    if !on_disk || !hash_matches {
        Some(cached.copy())
    } else {
        None
    }
}

} // verus!

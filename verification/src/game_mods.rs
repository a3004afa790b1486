//! What a mod's description files say of it: the `mcmod.info` list, the `mods.toml`
//! tables of Forge and NeoForge, and the `fabric.mod.json` and `quilt.mod.json`
//! objects.
use vstd::prelude::*;

use crate::file_item::{FileHash, PathObj};
use crate::loader::LoaderType;
use crate::names::{DISABLED_EXT, DISABLE_EXT, JAR_EXT};
use crate::text::{
    ascii_lower, copy_str, eq_ignore_ascii_case, spec_eq_ignore_ascii_case, spec_split, split_str, str_eq,
    string_of, strings_view,
};

verus! {

/// The side a mod loads on.
#[derive(Debug, Clone, Copy, PartialEq, Eq, Structural)]
pub enum LoadSideType {
    Unknown,
    Client,
    Server,
    Both,
}

impl Default for LoadSideType {
    fn default() -> (r: Self)
        ensures
            r == LoadSideType::Unknown,
    {
        LoadSideType::Unknown
    }
}

/// A mod that another needs, or one it suggests.
#[derive(Debug)]
pub enum DependantType {
    Required(String),
    Recommend(String),
}

/// A dependency as a switch (whether it is needed) and the id of the mod.
pub open spec fn dep_view(d: DependantType) -> (bool, Seq<char>) {
    match d {
        DependantType::Required(s) => (true, s@),
        DependantType::Recommend(s) => (false, s@),
    }
}

/// What a mod's description says of one mod.
#[derive(Debug)]
pub struct ModItemObj {
    pub mod_id: String,
    pub name: String,
    pub description: Option<String>,
    pub version: Option<String>,
    pub author: Vec<String>,
    pub dependants: Vec<DependantType>,
    pub url: Option<String>,
    pub icon: Option<Vec<u8>>,
    /// The loader it is for.
    pub loaders: LoaderType,
    pub side: LoadSideType,
}

/// What is known of one mod.
pub struct ModItemView {
    pub mod_id: Seq<char>,
    pub name: Seq<char>,
    pub description: Option<Seq<char>>,
    pub version: Option<Seq<char>>,
    pub author: Seq<Seq<char>>,
    pub dependants: Seq<(bool, Seq<char>)>,
    pub url: Option<Seq<char>>,
    pub icon: Option<Seq<u8>>,
    pub loaders: LoaderType,
    pub side: LoadSideType,
}

/// The text of an optional string.
pub open spec fn opt_text(s: Option<String>) -> Option<Seq<char>> {
    match s {
        Some(x) => Some(x@),
        None => None,
    }
}

impl View for ModItemObj {
    type V = ModItemView;

    open spec fn view(&self) -> ModItemView {
        ModItemView {
            mod_id: self.mod_id@,
            name: self.name@,
            description: opt_text(self.description),
            version: opt_text(self.version),
            author: strings_view(self.author@),
            dependants: self.dependants@.map_values(|d: DependantType| dep_view(d)),
            url: opt_text(self.url),
            icon: match self.icon {
                Some(v) => Some(v@),
                None => None,
            },
            loaders: self.loaders,
            side: self.side,
        }
    }
}

/// A mod with nothing known of it.
pub open spec fn empty_item() -> ModItemView {
    ModItemView {
        mod_id: Seq::empty(),
        name: Seq::empty(),
        description: None,
        version: None,
        author: Seq::empty(),
        dependants: Seq::empty(),
        url: None,
        icon: None,
        loaders: LoaderType::Normal,
        side: LoadSideType::Unknown,
    }
}

impl Default for ModItemObj {
    fn default() -> (r: Self)
        ensures
            r@ == empty_item(),
    {
        let r = ModItemObj {
            mod_id: String::new(),
            name: String::new(),
            description: None,
            version: None,
            author: Vec::new(),
            dependants: Vec::new(),
            url: None,
            icon: None,
            loaders: LoaderType::Normal,
            side: LoadSideType::Unknown,
        };
        assert(r@.author =~= Seq::<Seq<char>>::empty());
        assert(r@.dependants =~= Seq::<(bool, Seq<char>)>::empty());
        r
    }
}

/// The views of a list of mods.
pub open spec fn items_of(v: Seq<ModItemObj>) -> Seq<ModItemView> {
    v.map_values(|i: ModItemObj| i@)
}

// ---------------------------------------------------------------------------
// Values of description files
// ---------------------------------------------------------------------------

/// A value of a description file, as JSON or TOML gives it, with what the reading of
/// descriptions looks at: switches, texts, lists and tables.
#[derive(Debug)]
pub enum MetaValue {
    /// A number that is not an `i64`, a date or a null.
    Other,
    /// A whole number that fits in an `i64`.
    Int(i64),
    Bool(bool),
    Str(String),
    Array(Vec<MetaValue>),
    /// A table, its entries in the order the file's reader gives them.
    Table(Vec<(String, MetaValue)>),
}

/// The value of the first entry with this key.
pub open spec fn entry_of(entries: Seq<(String, MetaValue)>, key: Seq<char>) -> Option<MetaValue>
    decreases entries.len(),
{
    if entries.len() == 0 {
        None
    } else if entries[0].0@ == key {
        Some(entries[0].1)
    } else {
        entry_of(entries.drop_first(), key)
    }
}

/// The value of the first entry with this key.
pub fn find_entry<'a>(entries: &'a Vec<(String, MetaValue)>, key: &str) -> (r: Option<&'a MetaValue>)
    ensures
        match r {
            Some(v) => entry_of(entries@, key@) == Some(*v),
            None => entry_of(entries@, key@) is None,
        },
{
    let mut i: usize = 0;
    assert(entries@.skip(0) =~= entries@);
    while i < entries.len()
        invariant
            i <= entries@.len(),
            entry_of(entries@, key@) == entry_of(entries@.skip(i as int), key@),
        decreases entries@.len() - i,
    {
        assert(entries@.skip(i as int).drop_first() =~= entries@.skip(i + 1));
        if str_eq(entries[i].0.as_str(), key) {
            return Some(&entries[i].1);
        }
        i = i + 1;
    }
    None
}

/// A text entry, or the empty text.
pub open spec fn get_string(map: Seq<(String, MetaValue)>, key: Seq<char>) -> Seq<char> {
    match entry_of(map, key) {
        Some(MetaValue::Str(s)) => s@,
        _ => Seq::empty(),
    }
}

/// An entry, as text where it is one and empty where it is not; nothing where it is
/// absent.
pub open spec fn get_opt_string(map: Seq<(String, MetaValue)>, key: Seq<char>) -> Option<Seq<char>> {
    match entry_of(map, key) {
        Some(MetaValue::Str(s)) => Some(s@),
        Some(_) => Some(Seq::empty()),
        None => None,
    }
}

/// The texts of a list, in order, the other values passed over.
pub open spec fn texts_of(list: Seq<MetaValue>) -> Seq<Seq<char>>
    decreases list.len(),
{
    if list.len() == 0 {
        seq![]
    } else {
        let rest = texts_of(list.drop_last());
        match list.last() {
            MetaValue::Str(s) => rest.push(s@),
            _ => rest,
        }
    }
}

/// The texts of a list entry, none where it is not a list.
pub open spec fn extract_strings(map: Seq<(String, MetaValue)>, key: Seq<char>) -> Seq<Seq<char>> {
    match entry_of(map, key) {
        Some(MetaValue::Array(list)) => texts_of(list@),
        _ => seq![],
    }
}

/// The texts of a list entry as dependencies, needed or suggested.
pub open spec fn extract_dependants(
    map: Seq<(String, MetaValue)>,
    key: Seq<char>,
    required: bool,
) -> Seq<(bool, Seq<char>)> {
    extract_strings(map, key).map_values(|s: Seq<char>| (required, s))
}

/// A text entry, or the empty text.
fn get_string_from(map: &Vec<(String, MetaValue)>, key: &str) -> (r: String)
    ensures
        r@ == get_string(map@, key@),
{
    match find_entry(map, key) {
        Some(MetaValue::Str(s)) => copy_str(s.as_str()),
        _ => String::new(),
    }
}

/// An entry as text (see `get_opt_string`).
fn get_opt_string_from(map: &Vec<(String, MetaValue)>, key: &str) -> (r: Option<String>)
    ensures
        opt_text(r) == get_opt_string(map@, key@),
{
    match find_entry(map, key) {
        Some(MetaValue::Str(s)) => Some(copy_str(s.as_str())),
        Some(_) => Some(String::new()),
        None => None,
    }
}

/// The texts of a list, in order.
fn texts_in(list: &Vec<MetaValue>) -> (r: Vec<String>)
    ensures
        strings_view(r@) == texts_of(list@),
{
    let mut r: Vec<String> = Vec::new();
    let mut i: usize = 0;
    while i < list.len()
        invariant
            i <= list@.len(),
            strings_view(r@) == texts_of(list@.take(i as int)),
        decreases list@.len() - i,
    {
        assert(list@.take(i + 1).drop_last() =~= list@.take(i as int));
        let ghost r0 = r@;
        match &list[i] {
            MetaValue::Str(s) => {
                r.push(copy_str(s.as_str()));
                assert(strings_view(r@) =~= strings_view(r0).push(s@));
            },
            _ => {},
        }
        i = i + 1;
    }
    assert(list@.take(i as int) =~= list@);
    r
}

/// The texts of a list entry.
fn extract_strings_from(map: &Vec<(String, MetaValue)>, key: &str) -> (r: Vec<String>)
    ensures
        strings_view(r@) == extract_strings(map@, key@),
{
    match find_entry(map, key) {
        Some(MetaValue::Array(list)) => texts_in(list),
        _ => Vec::new(),
    }
}

/// Appends the texts of a list entry as dependencies.
fn push_dependants(out: &mut Vec<DependantType>, map: &Vec<(String, MetaValue)>, key: &str, required: bool)
    ensures
        final(out)@.map_values(|d: DependantType| dep_view(d)) == old(out)@.map_values(
            |d: DependantType| dep_view(d),
        ) + extract_dependants(map@, key@, required),
{
    let texts = extract_strings_from(map, key);
    let ghost start = out@.map_values(|d: DependantType| dep_view(d));
    let ghost tv = strings_view(texts@);
    let mut i: usize = 0;
    while i < texts.len()
        invariant
            i <= texts@.len(),
            tv == strings_view(texts@),
            tv == extract_strings(map@, key@),
            out@.map_values(|d: DependantType| dep_view(d)) == start + tv.take(i as int).map_values(
                |s: Seq<char>| (required, s),
            ),
        decreases texts@.len() - i,
    {
        let ghost o0 = out@;
        let s = copy_str(texts[i].as_str());
        if required {
            out.push(DependantType::Required(s));
        } else {
            out.push(DependantType::Recommend(s));
        }
        assert(out@.map_values(|d: DependantType| dep_view(d)) =~= o0.map_values(
            |d: DependantType| dep_view(d),
        ).push((required, tv[i as int])));
        i = i + 1;
        assert(tv.take(i as int).map_values(|s: Seq<char>| (required, s)) =~= tv.take(
            i - 1,
        ).map_values(|s: Seq<char>| (required, s)).push((required, tv[i - 1])));
    }
    assert(tv.take(i as int) =~= tv);
}

// ---------------------------------------------------------------------------
// mcmod.info
// ---------------------------------------------------------------------------

/// One mod of an `mcmod.info` list: a table gives its id (`modid`), name (its id where
/// it has none), description, version, address, authors (`authorList`) and
/// dependencies (suggested under `dependants` and `dependencies`, needed under
/// `requiredMods`), for Forge; any other value gives a mod with nothing known.
pub open spec fn forge_json_item(v: MetaValue) -> ModItemView {
    match v {
        MetaValue::Table(map) => {
            let id = get_string(map@, "modid"@);
            ModItemView {
                mod_id: id,
                name: match get_opt_string(map@, "name"@) {
                    Some(n) => n,
                    None => id,
                },
                description: get_opt_string(map@, "description"@),
                version: get_opt_string(map@, "version"@),
                author: extract_strings(map@, "authorList"@),
                dependants: extract_dependants(map@, "dependants"@, false) + extract_dependants(
                    map@,
                    "dependencies"@,
                    false,
                ) + extract_dependants(map@, "requiredMods"@, true),
                url: get_opt_string(map@, "url"@),
                icon: None,
                loaders: LoaderType::Forge,
                side: LoadSideType::Unknown,
            }
        },
        _ => empty_item(),
    }
}

/// The entries of an `mcmod.info` file: the file itself where it is a list, else its
/// `modList` where that is one.
pub open spec fn forge_json_list(v: MetaValue) -> Seq<MetaValue> {
    match v {
        MetaValue::Array(values) => values@,
        MetaValue::Table(map) => match entry_of(map@, "modList"@) {
            Some(MetaValue::Array(values)) => values@,
            _ => seq![],
        },
        _ => seq![],
    }
}

/// The mods of an `mcmod.info` file, in order.
pub open spec fn forge_json_items(v: MetaValue) -> Seq<ModItemView> {
    forge_json_list(v).map_values(|x: MetaValue| forge_json_item(x))
}

/// One mod of an `mcmod.info` list (see `forge_json_item`).
fn read_forge_json_item(v: &MetaValue) -> (r: ModItemObj)
    ensures
        r@ == forge_json_item(*v),
{
    let mut info = ModItemObj::default();
    if let MetaValue::Table(map) = v {
        info.mod_id = get_string_from(map, "modid");
        info.name = match get_opt_string_from(map, "name") {
            Some(n) => n,
            None => copy_str(info.mod_id.as_str()),
        };
        info.description = get_opt_string_from(map, "description");
        info.version = get_opt_string_from(map, "version");
        info.url = get_opt_string_from(map, "url");
        info.loaders = LoaderType::Forge;
        info.author = extract_strings_from(map, "authorList");
        push_dependants(&mut info.dependants, map, "dependants", false);
        push_dependants(&mut info.dependants, map, "dependencies", false);
        push_dependants(&mut info.dependants, map, "requiredMods", true);
        assert(info@.dependants =~= forge_json_item(*v).dependants);
    }
    info
}

/// Appends the mods of an `mcmod.info` file (see `forge_json_items`).
pub fn read_forge_json(v: &MetaValue, out: &mut Vec<ModItemObj>)
    ensures
        items_of(final(out)@) == items_of(old(out)@) + forge_json_items(*v),
{
    let empty: Vec<MetaValue> = Vec::new();
    let list: &Vec<MetaValue> = match v {
        MetaValue::Array(values) => values,
        MetaValue::Table(map) => match find_entry(map, "modList") {
            Some(MetaValue::Array(values)) => values,
            _ => &empty,
        },
        _ => &empty,
    };
    assert(list@ == forge_json_list(*v));
    let ghost start = items_of(out@);
    let mut i: usize = 0;
    while i < list.len()
        invariant
            i <= list@.len(),
            list@ == forge_json_list(*v),
            items_of(out@) == start + forge_json_items(*v).take(i as int),
        decreases list@.len() - i,
    {
        let ghost o0 = out@;
        out.push(read_forge_json_item(&list[i]));
        assert(items_of(out@) =~= items_of(o0).push(forge_json_item(list@[i as int])));
        i = i + 1;
        assert(items_of(out@) =~= start + forge_json_items(*v).take(i as int));
    }
    assert(forge_json_items(*v).take(i as int) =~= forge_json_items(*v));
}

// ---------------------------------------------------------------------------
// mods.toml
// ---------------------------------------------------------------------------

/// A text entry of a value that is a table.
pub open spec fn table_str(v: MetaValue, key: Seq<char>) -> Option<Seq<char>> {
    match v {
        MetaValue::Table(m) => match entry_of(m@, key) {
            Some(MetaValue::Str(s)) => Some(s@),
            _ => None,
        },
        _ => None,
    }
}

/// The authors a text entry lists, separated by commas.
pub open spec fn authors_in(v: MetaValue, key: Seq<char>) -> Seq<Seq<char>> {
    match table_str(v, key) {
        Some(s) => spec_split(s, ','),
        None => seq![],
    }
}

/// One mod of the `mods` list of a `mods.toml` file: its id (`modId`), name
/// (`displayName`, else its id), description, version, address (`displayURL`) and
/// authors (`authorList` then `authors`, each split on commas), for `loader`.
pub open spec fn toml_mod_item(v: MetaValue, loader: LoaderType) -> ModItemView {
    let id = match table_str(v, "modId"@) {
        Some(s) => s,
        None => Seq::empty(),
    };
    ModItemView {
        mod_id: id,
        name: match table_str(v, "displayName"@) {
            Some(s) => s,
            None => id,
        },
        description: table_str(v, "description"@),
        version: table_str(v, "version"@),
        author: authors_in(v, "authorList"@) + authors_in(v, "authors"@),
        dependants: seq![],
        url: table_str(v, "displayURL"@),
        icon: None,
        loaders: loader,
        side: LoadSideType::Unknown,
    }
}

/// The `mods` list of a `mods.toml` file.
pub open spec fn toml_mods(root: Seq<(String, MetaValue)>) -> Seq<MetaValue> {
    match entry_of(root, "mods"@) {
        Some(MetaValue::Array(values)) => values@,
        _ => seq![],
    }
}

/// The first mod, from `i` on, whose id is `key` ignoring ASCII case.
pub open spec fn find_mod_from(infos: Seq<ModItemView>, key: Seq<char>, i: int) -> Option<int>
    decreases infos.len() - i,
{
    if i < 0 || i >= infos.len() {
        None
    } else if spec_eq_ignore_ascii_case(infos[i].mod_id, key) {
        Some(i)
    } else {
        find_mod_from(infos, key, i + 1)
    }
}

/// A text entry of a table.
pub open spec fn entry_str(m: Seq<(String, MetaValue)>, key: Seq<char>) -> Option<Seq<char>> {
    match entry_of(m, key) {
        Some(MetaValue::Str(s)) => Some(s@),
        _ => None,
    }
}

/// A switch of a table: a switch, or a text that reads `true` ignoring ASCII case; off
/// where there is neither.
pub open spec fn table_flag(m: Seq<(String, MetaValue)>, key: Seq<char>) -> bool {
    match entry_of(m, key) {
        Some(MetaValue::Bool(b)) => b,
        Some(MetaValue::Str(s)) => spec_eq_ignore_ascii_case(s@, "true"@),
        _ => false,
    }
}

/// The side a text names ignoring ASCII case (`both`, `client`, `server`), else `keep`.
pub open spec fn side_named(s: Seq<char>, keep: LoadSideType) -> LoadSideType {
    if spec_eq_ignore_ascii_case(s, "both"@) {
        LoadSideType::Both
    } else if spec_eq_ignore_ascii_case(s, "client"@) {
        LoadSideType::Client
    } else if spec_eq_ignore_ascii_case(s, "server"@) {
        LoadSideType::Server
    } else {
        keep
    }
}

/// One entry of the `dependencies` table: where its value is a table and a mod has its
/// key as id (ignoring ASCII case), the first such mod gets, from a dependency on
/// `minecraft`, the side it names, and from any other a dependency: needed where its
/// `type` is `required` or it is not `mandatory`, else suggested.
pub open spec fn toml_dep(infos: Seq<ModItemView>, key: Seq<char>, value: MetaValue) -> Seq<ModItemView> {
    match value {
        MetaValue::Table(m) => match find_mod_from(infos, key, 0) {
            None => infos,
            Some(i) => match entry_str(m@, "modid"@) {
                None => infos,
                Some(modid) => if spec_eq_ignore_ascii_case(modid, "minecraft"@) {
                    match entry_str(m@, "side"@) {
                        Some(side) => infos.update(
                            i,
                            ModItemView { side: side_named(side, infos[i].side), ..infos[i] },
                        ),
                        None => infos,
                    }
                } else {
                    let mandatory = table_flag(m@, "mandatory"@);
                    let required = match entry_str(m@, "type"@) {
                        Some(t) => spec_eq_ignore_ascii_case(t, "required"@),
                        None => false,
                    };
                    infos.update(
                        i,
                        ModItemView {
                            dependants: infos[i].dependants.push((required || !mandatory, modid)),
                            ..infos[i]
                        },
                    )
                },
            },
        },
        _ => infos,
    }
}

/// The first `n` entries of the `dependencies` table applied in order.
pub open spec fn toml_deps_upto(
    infos: Seq<ModItemView>,
    deps: Seq<(String, MetaValue)>,
    n: int,
) -> Seq<ModItemView>
    decreases n,
{
    if n <= 0 {
        infos
    } else {
        toml_dep(toml_deps_upto(infos, deps, n - 1), deps[n - 1].0@, deps[n - 1].1)
    }
}

/// The mods known once a `mods.toml` file for `loader` is read: those of its `mods`
/// list appended, then its `dependencies` table applied to all of them.
pub open spec fn forge_toml_read(
    infos: Seq<ModItemView>,
    root: Seq<(String, MetaValue)>,
    loader: LoaderType,
) -> Seq<ModItemView> {
    let with_mods = infos + toml_mods(root).map_values(|v: MetaValue| toml_mod_item(v, loader));
    match entry_of(root, "dependencies"@) {
        Some(MetaValue::Table(deps)) => toml_deps_upto(with_mods, deps@, deps@.len() as int),
        _ => with_mods,
    }
}

/// A text entry of a value that is a table.
fn table_str_of(v: &MetaValue, key: &str) -> (r: Option<String>)
    ensures
        opt_text(r) == table_str(*v, key@),
{
    match v {
        MetaValue::Table(m) => match find_entry(m, key) {
            Some(MetaValue::Str(s)) => Some(copy_str(s.as_str())),
            _ => None,
        },
        _ => None,
    }
}

/// Appends the authors a text entry lists.
fn push_authors(out: &mut Vec<String>, v: &MetaValue, key: &str)
    ensures
        strings_view(final(out)@) == strings_view(old(out)@) + authors_in(*v, key@),
{
    match table_str_of(v, key) {
        Some(s) => {
            let parts = split_str(s.as_str(), ',');
            let ghost start = strings_view(out@);
            let mut i: usize = 0;
            while i < parts.len()
                invariant
                    i <= parts@.len(),
                    parts@.map_values(|x: Vec<char>| x@) == spec_split(s@, ','),
                    strings_view(out@) == start + spec_split(s@, ',').take(i as int),
                decreases parts@.len() - i,
            {
                let ghost o0 = out@;
                out.push(string_of(parts[i].as_slice()));
                assert(strings_view(out@) =~= strings_view(o0).push(parts@[i as int]@));
                i = i + 1;
                assert(strings_view(out@) =~= start + spec_split(s@, ',').take(i as int));
            }
            assert(spec_split(s@, ',').take(i as int) =~= spec_split(s@, ','));
        },
        None => {
            assert(strings_view(out@) =~= strings_view(out@) + Seq::<Seq<char>>::empty());
        },
    }
}

/// One mod of the `mods` list of a `mods.toml` file (see `toml_mod_item`).
fn read_toml_mod_item(v: &MetaValue, loader: LoaderType) -> (r: ModItemObj)
    ensures
        r@ == toml_mod_item(*v, loader),
{
    let mut info = ModItemObj::default();
    info.mod_id = match table_str_of(v, "modId") {
        Some(s) => s,
        None => String::new(),
    };
    info.name = match table_str_of(v, "displayName") {
        Some(s) => s,
        None => copy_str(info.mod_id.as_str()),
    };
    info.description = table_str_of(v, "description");
    info.version = table_str_of(v, "version");
    info.url = table_str_of(v, "displayURL");
    info.loaders = loader;
    push_authors(&mut info.author, v, "authorList");
    push_authors(&mut info.author, v, "authors");
    assert(info@.author =~= toml_mod_item(*v, loader).author);
    info
}

/// The first mod whose id is `key` ignoring ASCII case.
fn find_mod(infos: &Vec<ModItemObj>, key: &str) -> (r: Option<usize>)
    ensures
        match r {
            Some(i) => find_mod_from(items_of(infos@), key@, 0) == Some(i as int) && i
                < infos@.len(),
            None => find_mod_from(items_of(infos@), key@, 0) is None,
        },
{
    let ghost iv = items_of(infos@);
    let mut i: usize = 0;
    while i < infos.len()
        invariant
            i <= infos@.len(),
            iv == items_of(infos@),
            find_mod_from(iv, key@, 0) == find_mod_from(iv, key@, i as int),
        decreases infos@.len() - i,
    {
        if eq_ignore_ascii_case(infos[i].mod_id.as_str(), key) {
            assert(iv[i as int].mod_id == infos@[i as int].mod_id@);
            return Some(i);
        }
        i = i + 1;
    }
    None
}

/// A switch of a table (see `table_flag`).
fn table_flag_of(m: &Vec<(String, MetaValue)>, key: &str) -> (r: bool)
    ensures
        r == table_flag(m@, key@),
{
    match find_entry(m, key) {
        Some(MetaValue::Bool(b)) => *b,
        Some(MetaValue::Str(s)) => eq_ignore_ascii_case(s.as_str(), "true"),
        _ => false,
    }
}

/// The side a text names (see `side_named`).
fn side_of(s: &str, keep: LoadSideType) -> (r: LoadSideType)
    ensures
        r == side_named(s@, keep),
{
    if eq_ignore_ascii_case(s, "both") {
        LoadSideType::Both
    } else if eq_ignore_ascii_case(s, "client") {
        LoadSideType::Client
    } else if eq_ignore_ascii_case(s, "server") {
        LoadSideType::Server
    } else {
        keep
    }
}

/// Applies one entry of the `dependencies` table (see `toml_dep`).
fn apply_toml_dep(infos: &mut Vec<ModItemObj>, key: &str, value: &MetaValue)
    ensures
        items_of(final(infos)@) == toml_dep(items_of(old(infos)@), key@, *value),
{
    if let MetaValue::Table(m) = value {
        if let Some(i) = find_mod(infos, key) {
            match find_entry(m, "modid") {
                Some(MetaValue::Str(modid)) => {
                    let ghost before = items_of(infos@);
                    if eq_ignore_ascii_case(modid.as_str(), "minecraft") {
                        match find_entry(m, "side") {
                            Some(MetaValue::Str(side)) => {
                                let mut item = infos.remove(i);
                                item.side = side_of(side.as_str(), item.side);
                                let ghost changed = item@;
                                infos.insert(i, item);
                                assert(items_of(infos@) =~= before.update(i as int, changed));
                            },
                            _ => {},
                        }
                    } else {
                        let mandatory = table_flag_of(m, "mandatory");
                        let required = match find_entry(m, "type") {
                            Some(MetaValue::Str(t)) => eq_ignore_ascii_case(t.as_str(), "required"),
                            _ => false,
                        };
                        let mut item = infos.remove(i);
                        let ghost d0 = item@.dependants;
                        if required || !mandatory {
                            item.dependants.push(DependantType::Required(copy_str(modid.as_str())));
                        } else {
                            item.dependants.push(DependantType::Recommend(copy_str(modid.as_str())));
                        }
                        assert(item@.dependants =~= d0.push((required || !mandatory, modid@)));
                        let ghost changed = item@;
                        infos.insert(i, item);
                        assert(items_of(infos@) =~= before.update(i as int, changed));
                    }
                },
                _ => {},
            }
        }
    }
}

/// Reads a `mods.toml` file for `loader` into the mods known so far (see
/// `forge_toml_read`).
pub fn read_forge_toml(root: &Vec<(String, MetaValue)>, loader: LoaderType, infos: &mut Vec<ModItemObj>)
    ensures
        items_of(final(infos)@) == forge_toml_read(items_of(old(infos)@), root@, loader),
{
    let empty: Vec<MetaValue> = Vec::new();
    let mods: &Vec<MetaValue> = match find_entry(root, "mods") {
        Some(MetaValue::Array(values)) => values,
        _ => &empty,
    };
    assert(mods@ == toml_mods(root@));
    let ghost start = items_of(infos@);
    let ghost added = toml_mods(root@).map_values(|v: MetaValue| toml_mod_item(v, loader));
    let mut i: usize = 0;
    while i < mods.len()
        invariant
            i <= mods@.len(),
            mods@ == toml_mods(root@),
            added == toml_mods(root@).map_values(|v: MetaValue| toml_mod_item(v, loader)),
            items_of(infos@) == start + added.take(i as int),
        decreases mods@.len() - i,
    {
        let ghost o0 = infos@;
        infos.push(read_toml_mod_item(&mods[i], loader));
        assert(items_of(infos@) =~= items_of(o0).push(added[i as int]));
        i = i + 1;
        assert(items_of(infos@) =~= start + added.take(i as int));
    }
    assert(added.take(i as int) =~= added);
    let ghost with_mods = items_of(infos@);
    match find_entry(root, "dependencies") {
        Some(MetaValue::Table(deps)) => {
            let mut k: usize = 0;
            while k < deps.len()
                invariant
                    k <= deps@.len(),
                    items_of(infos@) == toml_deps_upto(with_mods, deps@, k as int),
                decreases deps@.len() - k,
            {
                apply_toml_dep(infos, deps[k].0.as_str(), &deps[k].1);
                k = k + 1;
            }
        },
        _ => {},
    }
}

// ---------------------------------------------------------------------------
// fabric.mod.json and quilt.mod.json
// ---------------------------------------------------------------------------

/// The side a Fabric `environment` text names ignoring ASCII case (`client`,
/// `server`, `*` for both); unknown otherwise.
pub open spec fn fabric_side(v: Option<MetaValue>) -> LoadSideType {
    match v {
        Some(MetaValue::Str(s)) => if spec_eq_ignore_ascii_case(s@, "client"@) {
            LoadSideType::Client
        } else if spec_eq_ignore_ascii_case(s@, "server"@) {
            LoadSideType::Server
        } else if spec_eq_ignore_ascii_case(s@, "*"@) {
            LoadSideType::Both
        } else {
            LoadSideType::Unknown
        },
        _ => LoadSideType::Unknown,
    }
}

/// The Fabric `environment` words name the sides of the same name: a mod whose
/// `environment` is `server` (ASCII case aside) loads on the server only, `client` on
/// the client only, `*` on both; any other text, or none, leaves the side unknown.
pub proof fn law_fabric_environment(map: Vec<(String, MetaValue)>, env: String)
    requires
        entry_of(map@, "environment"@) == Some(MetaValue::Str(env)),
    ensures
        spec_eq_ignore_ascii_case(env@, "server"@) ==> fabric_item(MetaValue::Table(map)).side
            == LoadSideType::Server,
        spec_eq_ignore_ascii_case(env@, "client"@) ==> fabric_item(MetaValue::Table(map)).side
            == LoadSideType::Client,
        spec_eq_ignore_ascii_case(env@, "*"@) ==> fabric_item(MetaValue::Table(map)).side
            == LoadSideType::Both,
        !spec_eq_ignore_ascii_case(env@, "server"@) && !spec_eq_ignore_ascii_case(env@, "client"@)
            && !spec_eq_ignore_ascii_case(env@, "*"@) ==> fabric_item(MetaValue::Table(map)).side
            == LoadSideType::Unknown,
{
    reveal_strlit("server");
    reveal_strlit("client");
    reveal_strlit("*");
    if spec_eq_ignore_ascii_case(env@, "server"@) {
        assert(ascii_lower(env@[0]) == ascii_lower('s'));
        assert(!spec_eq_ignore_ascii_case(env@, "client"@)) by {
            if spec_eq_ignore_ascii_case(env@, "client"@) {
                assert(ascii_lower(env@[0]) == ascii_lower('c'));
            }
        }
    }
}

/// The side words of a `mods.toml` dependency on `minecraft` name the sides of the same
/// name: `server` (ASCII case aside) the server, `client` the client, `both` both; any
/// other word keeps the side there was.
pub proof fn law_toml_side_words(word: Seq<char>, keep: LoadSideType)
    ensures
        spec_eq_ignore_ascii_case(word, "server"@) ==> side_named(word, keep) == LoadSideType::Server,
        spec_eq_ignore_ascii_case(word, "client"@) ==> side_named(word, keep) == LoadSideType::Client,
        spec_eq_ignore_ascii_case(word, "both"@) ==> side_named(word, keep) == LoadSideType::Both,
        !spec_eq_ignore_ascii_case(word, "server"@) && !spec_eq_ignore_ascii_case(word, "client"@)
            && !spec_eq_ignore_ascii_case(word, "both"@) ==> side_named(word, keep) == keep,
{
    reveal_strlit("server");
    reveal_strlit("client");
    reveal_strlit("both");
    if spec_eq_ignore_ascii_case(word, "server"@) {
        assert(ascii_lower(word[0]) == ascii_lower('s'));
        assert(!spec_eq_ignore_ascii_case(word, "both"@)) by {
            if spec_eq_ignore_ascii_case(word, "both"@) {
                assert(word.len() == 4);
            }
        }
        assert(!spec_eq_ignore_ascii_case(word, "client"@)) by {
            if spec_eq_ignore_ascii_case(word, "client"@) {
                assert(ascii_lower(word[0]) == ascii_lower('c'));
            }
        }
    }
    if spec_eq_ignore_ascii_case(word, "client"@) {
        assert(!spec_eq_ignore_ascii_case(word, "both"@)) by {
            if spec_eq_ignore_ascii_case(word, "both"@) {
                assert(word.len() == 4);
            }
        }
    }
}

/// The author an entry of a Fabric `authors` list names: a text, or the `name` text of
/// a table.
pub open spec fn author_of(v: MetaValue) -> Seq<Seq<char>> {
    match v {
        MetaValue::Str(s) => seq![s@],
        MetaValue::Table(m) => match entry_of(m@, "name"@) {
            Some(MetaValue::Str(s)) => seq![s@],
            _ => seq![],
        },
        _ => seq![],
    }
}

/// The authors of a Fabric `authors` list, in order.
pub open spec fn authors_of(list: Seq<MetaValue>) -> Seq<Seq<char>>
    decreases list.len(),
{
    if list.len() == 0 {
        seq![]
    } else {
        authors_of(list.drop_last()) + author_of(list.last())
    }
}

/// The keys of a table entry, in order; none where it is not a table.
pub open spec fn table_keys(v: Option<MetaValue>) -> Seq<Seq<char>> {
    match v {
        Some(MetaValue::Table(m)) => m@.map_values(|e: (String, MetaValue)| e.0@),
        _ => seq![],
    }
}

/// The `homepage` of a `contact` table, where there is such a table.
pub open spec fn homepage(v: Option<MetaValue>) -> Option<Seq<char>> {
    match v {
        Some(MetaValue::Table(m)) => get_opt_string(m@, "homepage"@),
        _ => None,
    }
}

/// The mod a `fabric.mod.json` object describes: its id, name, description, version,
/// address (`contact.homepage`), side (`environment`), authors, and dependencies
/// (the keys of `depends`, needed, then of `suggests`, suggested); any other value
/// gives a mod with nothing known.
pub open spec fn fabric_item(v: MetaValue) -> ModItemView {
    match v {
        MetaValue::Table(map) => ModItemView {
            mod_id: get_string(map@, "id"@),
            name: get_string(map@, "name"@),
            description: get_opt_string(map@, "description"@),
            version: get_opt_string(map@, "version"@),
            author: match entry_of(map@, "authors"@) {
                Some(MetaValue::Array(list)) => authors_of(list@),
                _ => seq![],
            },
            dependants: table_keys(entry_of(map@, "depends"@)).map_values(
                |k: Seq<char>| (true, k),
            ) + table_keys(entry_of(map@, "suggests"@)).map_values(|k: Seq<char>| (false, k)),
            url: homepage(entry_of(map@, "contact"@)),
            icon: None,
            loaders: LoaderType::Normal,
            side: fabric_side(entry_of(map@, "environment"@)),
        },
        _ => empty_item(),
    }
}

/// The dependency an entry of a Quilt `depends` list names: the `id` text of a table,
/// needed.
pub open spec fn quilt_dep(v: MetaValue) -> Seq<(bool, Seq<char>)> {
    match v {
        MetaValue::Table(m) => match entry_of(m@, "id"@) {
            Some(MetaValue::Str(s)) => seq![(true, s@)],
            _ => seq![],
        },
        _ => seq![],
    }
}

/// The dependencies of a Quilt `depends` list, in order.
pub open spec fn quilt_deps(list: Seq<MetaValue>) -> Seq<(bool, Seq<char>)>
    decreases list.len(),
{
    if list.len() == 0 {
        seq![]
    } else {
        quilt_deps(list.drop_last()) + quilt_dep(list.last())
    }
}

/// The mod a `quilt.mod.json` object describes through its `quilt_loader` table: its
/// id, version and dependencies there, and from its `metadata` table its name,
/// description, address (`contact.homepage`) and authors (the keys of
/// `contributors`); anything else gives a mod with nothing known.
pub open spec fn quilt_item(v: MetaValue) -> ModItemView {
    match v {
        MetaValue::Table(map) => match entry_of(map@, "quilt_loader"@) {
            Some(MetaValue::Table(ql)) => {
                let md = entry_of(ql@, "metadata"@);
                ModItemView {
                    mod_id: get_string(ql@, "id"@),
                    name: match md {
                        Some(MetaValue::Table(m)) => get_string(m@, "name"@),
                        _ => Seq::empty(),
                    },
                    description: match md {
                        Some(MetaValue::Table(m)) => get_opt_string(m@, "description"@),
                        _ => None,
                    },
                    version: get_opt_string(ql@, "version"@),
                    author: match md {
                        Some(MetaValue::Table(m)) => table_keys(entry_of(m@, "contributors"@)),
                        _ => seq![],
                    },
                    dependants: match entry_of(ql@, "depends"@) {
                        Some(MetaValue::Array(list)) => quilt_deps(list@),
                        _ => seq![],
                    },
                    url: match md {
                        Some(MetaValue::Table(m)) => homepage(entry_of(m@, "contact"@)),
                        _ => None,
                    },
                    icon: None,
                    loaders: LoaderType::Normal,
                    side: LoadSideType::Unknown,
                }
            },
            _ => empty_item(),
        },
        _ => empty_item(),
    }
}

/// The keys of a table entry (see `table_keys`), appended.
fn push_keys(out: &mut Vec<String>, v: Option<&MetaValue>)
    ensures
        strings_view(final(out)@) == strings_view(old(out)@) + table_keys(
            match v {
                Some(x) => Some(*x),
                None => None,
            },
        ),
{
    match v {
        Some(MetaValue::Table(m)) => {
            let ghost start = strings_view(out@);
            let ghost keys = m@.map_values(|e: (String, MetaValue)| e.0@);
            let mut i: usize = 0;
            while i < m.len()
                invariant
                    i <= m@.len(),
                    keys == m@.map_values(|e: (String, MetaValue)| e.0@),
                    strings_view(out@) == start + keys.take(i as int),
                decreases m@.len() - i,
            {
                let ghost o0 = out@;
                out.push(copy_str(m[i].0.as_str()));
                assert(strings_view(out@) =~= strings_view(o0).push(keys[i as int]));
                i = i + 1;
                assert(strings_view(out@) =~= start + keys.take(i as int));
            }
            assert(keys.take(i as int) =~= keys);
        },
        _ => {
            assert(strings_view(out@) =~= strings_view(out@) + Seq::<Seq<char>>::empty());
        },
    }
}

/// The keys of a table entry as dependencies, appended.
fn push_key_deps(out: &mut Vec<DependantType>, v: Option<&MetaValue>, required: bool)
    ensures
        final(out)@.map_values(|d: DependantType| dep_view(d)) == old(out)@.map_values(
            |d: DependantType| dep_view(d),
        ) + table_keys(
            match v {
                Some(x) => Some(*x),
                None => None,
            },
        ).map_values(|k: Seq<char>| (required, k)),
{
    let mut keys: Vec<String> = Vec::new();
    push_keys(&mut keys, v);
    let ghost kv = strings_view(keys@);
    assert(kv =~= table_keys(
        match v {
            Some(x) => Some(*x),
            None => None,
        },
    ));
    let ghost start = out@.map_values(|d: DependantType| dep_view(d));
    let mut i: usize = 0;
    while i < keys.len()
        invariant
            i <= keys@.len(),
            kv == strings_view(keys@),
            out@.map_values(|d: DependantType| dep_view(d)) == start + kv.take(i as int).map_values(
                |k: Seq<char>| (required, k),
            ),
        decreases keys@.len() - i,
    {
        let ghost o0 = out@;
        let k = copy_str(keys[i].as_str());
        if required {
            out.push(DependantType::Required(k));
        } else {
            out.push(DependantType::Recommend(k));
        }
        assert(out@.map_values(|d: DependantType| dep_view(d)) =~= o0.map_values(
            |d: DependantType| dep_view(d),
        ).push((required, kv[i as int])));
        i = i + 1;
        assert(kv.take(i as int).map_values(|k: Seq<char>| (required, k)) =~= kv.take(
            i - 1,
        ).map_values(|k: Seq<char>| (required, k)).push((required, kv[i - 1])));
    }
    assert(kv.take(i as int) =~= kv);
}

/// The `homepage` of a `contact` table (see `homepage`).
fn homepage_of(v: Option<&MetaValue>) -> (r: Option<String>)
    ensures
        opt_text(r) == homepage(
            match v {
                Some(x) => Some(*x),
                None => None,
            },
        ),
{
    match v {
        Some(MetaValue::Table(m)) => get_opt_string_from(m, "homepage"),
        _ => None,
    }
}

/// The mod a `fabric.mod.json` object describes (see `fabric_item`).
pub fn read_fabric_json(v: &MetaValue) -> (r: ModItemObj)
    ensures
        r@ == fabric_item(*v),
{
    let mut info = ModItemObj::default();
    if let MetaValue::Table(map) = v {
        info.mod_id = get_string_from(map, "id");
        info.name = get_string_from(map, "name");
        info.description = get_opt_string_from(map, "description");
        info.version = get_opt_string_from(map, "version");
        info.url = homepage_of(find_entry(map, "contact"));
        info.side = match find_entry(map, "environment") {
            Some(MetaValue::Str(s)) => {
                if eq_ignore_ascii_case(s.as_str(), "client") {
                    LoadSideType::Client
                } else if eq_ignore_ascii_case(s.as_str(), "server") {
                    LoadSideType::Server
                } else if eq_ignore_ascii_case(s.as_str(), "*") {
                    LoadSideType::Both
                } else {
                    LoadSideType::Unknown
                }
            },
            _ => LoadSideType::Unknown,
        };
        let mut authors: Vec<String> = Vec::new();
        if let Some(MetaValue::Array(list)) = find_entry(map, "authors") {
            let mut i: usize = 0;
            while i < list.len()
                invariant
                    i <= list@.len(),
                    strings_view(authors@) == authors_of(list@.take(i as int)),
                decreases list@.len() - i,
            {
                assert(list@.take(i + 1).drop_last() =~= list@.take(i as int));
                let ghost a0 = strings_view(authors@);
                match &list[i] {
                    MetaValue::Str(s) => {
                        authors.push(copy_str(s.as_str()));
                    },
                    MetaValue::Table(m) => {
                        if let Some(MetaValue::Str(s)) = find_entry(m, "name") {
                            authors.push(copy_str(s.as_str()));
                        }
                    },
                    _ => {},
                }
                assert(strings_view(authors@) =~= a0 + author_of(list@[i as int]));
                i = i + 1;
            }
            assert(list@.take(i as int) =~= list@);
        } else {
            assert(strings_view(authors@) =~= Seq::<Seq<char>>::empty());
        }
        info.author = authors;
        let ghost d0 = info@.dependants;
        assert(d0 =~= Seq::<(bool, Seq<char>)>::empty());
        let dep = find_entry(map, "depends");
        assert(match dep {
            Some(x) => Some(*x),
            None => None,
        } == entry_of(map@, "depends"@));
        push_key_deps(&mut info.dependants, dep, true);
        let sug = find_entry(map, "suggests");
        assert(match sug {
            Some(x) => Some(*x),
            None => None,
        } == entry_of(map@, "suggests"@));
        push_key_deps(&mut info.dependants, sug, false);
        assert(info@.dependants =~= fabric_item(*v).dependants);
    }
    info
}

/// The mod a `quilt.mod.json` object describes (see `quilt_item`).
pub fn read_quilt_json(v: &MetaValue) -> (r: ModItemObj)
    ensures
        r@ == quilt_item(*v),
{
    let mut info = ModItemObj::default();
    if let MetaValue::Table(map) = v {
        if let Some(MetaValue::Table(ql)) = find_entry(map, "quilt_loader") {
            info.mod_id = get_string_from(ql, "id");
            info.version = get_opt_string_from(ql, "version");
            if let Some(MetaValue::Table(md)) = find_entry(ql, "metadata") {
                info.url = homepage_of(find_entry(md, "contact"));
                info.name = get_string_from(md, "name");
                info.description = get_opt_string_from(md, "description");
                let c = find_entry(md, "contributors");
                assert(match c {
                    Some(x) => Some(*x),
                    None => None,
                } == entry_of(md@, "contributors"@));
                assert(strings_view(info.author@) =~= Seq::<Seq<char>>::empty());
                push_keys(&mut info.author, c);
            }
            let mut deps: Vec<DependantType> = Vec::new();
            if let Some(MetaValue::Array(list)) = find_entry(ql, "depends") {
                let mut i: usize = 0;
                while i < list.len()
                    invariant
                        i <= list@.len(),
                        deps@.map_values(|d: DependantType| dep_view(d)) == quilt_deps(
                            list@.take(i as int),
                        ),
                    decreases list@.len() - i,
                {
                    assert(list@.take(i + 1).drop_last() =~= list@.take(i as int));
                    let ghost d0 = deps@.map_values(|d: DependantType| dep_view(d));
                    if let MetaValue::Table(m) = &list[i] {
                        if let Some(MetaValue::Str(s)) = find_entry(m, "id") {
                            deps.push(DependantType::Required(copy_str(s.as_str())));
                        }
                    }
                    assert(deps@.map_values(|d: DependantType| dep_view(d)) =~= d0 + quilt_dep(
                        list@[i as int],
                    ));
                    i = i + 1;
                }
                assert(list@.take(i as int) =~= list@);
            } else {
                assert(deps@.map_values(|d: DependantType| dep_view(d)) =~= Seq::<
                    (bool, Seq<char>),
                >::empty());
            }
            info.dependants = deps;
            assert(info@.author =~= quilt_item(*v).author);
        }
    }
    info
}

// ---------------------------------------------------------------------------
// Mod archives
// ---------------------------------------------------------------------------

/// What a mod archive holds: the mods its descriptions give, whether it is switched
/// off, whether it is a core mod, its checksum, the archives it carries, whether
/// reading it failed, and its file.
#[derive(Debug)]
pub struct ModObj {
    pub info: Vec<ModItemObj>,
    pub disable: bool,
    pub core: bool,
    pub hash: FileHash,
    pub jar_in_jar: Vec<ModObj>,
    pub fail: bool,
    pub file: PathObj,
}

impl Default for ModObj {
    fn default() -> (r: Self)
        ensures
            r.info@.len() == 0,
            !r.disable,
            !r.core,
            r.hash is NoHash,
            r.jar_in_jar@.len() == 0,
            !r.fail,
            r.file@.len() == 0,
    {
        ModObj {
            info: Vec::new(),
            disable: false,
            core: false,
            hash: FileHash::NoHash,
            jar_in_jar: Vec::new(),
            fail: false,
            file: PathObj::empty(),
        }
    }
}

/// A description file of a mod archive: absent, present but unreadable (it could not
/// be read or parsed), or read.
#[derive(Debug)]
pub enum MetaFile {
    Absent,
    Broken,
    Read(MetaValue),
}

#[verifier::external_type_specification]
#[verifier::external_body]
pub struct ExJsonValue(serde_json::Value);

#[verifier::external_type_specification]
#[verifier::external_body]
pub struct ExTomlValue(toml::Value);

/// The value `serde_json::from_str::<serde_json::Value>` reads from `text`, as a
/// description value (a number that is not an `i64`, or a null, as `Other`; an object's
/// entries in the order of its keys), or `None` where the text is not JSON.
pub uninterp spec fn parsed_json(text: Seq<char>) -> Option<MetaValue>;

/// The entries of the table that `toml::Table`'s `FromStr` reads from `text`, as
/// description values (a float or a date as `Other`; a table's entries in the order of
/// their keys), or `None` where the text is not a TOML table.
pub uninterp spec fn parsed_toml_table(text: Seq<char>) -> Option<Seq<(String, MetaValue)>>;

/// A JSON value as a description value, variant by variant.
#[verifier::external_body]
fn json_to_meta(v: &serde_json::Value) -> MetaValue {
    match v {
        serde_json::Value::Null => MetaValue::Other,
        serde_json::Value::Bool(b) => MetaValue::Bool(*b),
        serde_json::Value::Number(n) => match n.as_i64() {
            Some(x) => MetaValue::Int(x),
            None => MetaValue::Other,
        },
        serde_json::Value::String(t) => MetaValue::Str(t.clone()),
        serde_json::Value::Array(a) => MetaValue::Array(a.iter().map(json_to_meta).collect()),
        serde_json::Value::Object(m) => MetaValue::Table(m.iter().map(|(k, x)| (k.clone(), json_to_meta(x))).collect()),
    }
}

/// A TOML value as a description value, variant by variant.
#[verifier::external_body]
fn toml_to_meta(v: &toml::Value) -> MetaValue {
    match v {
        toml::Value::String(t) => MetaValue::Str(t.clone()),
        toml::Value::Integer(i) => MetaValue::Int(*i),
        toml::Value::Float(_) => MetaValue::Other,
        toml::Value::Boolean(b) => MetaValue::Bool(*b),
        toml::Value::Datetime(_) => MetaValue::Other,
        toml::Value::Array(a) => MetaValue::Array(a.iter().map(toml_to_meta).collect()),
        toml::Value::Table(t) => MetaValue::Table(t.iter().map(|(k, x)| (k.clone(), toml_to_meta(x))).collect()),
    }
}

/// Parses `text` with `serde_json::from_str::<serde_json::Value>` and converts the
/// value (see `parsed_json`); `None` where the text is not JSON.
#[verifier::external_body]
pub fn parse_json(text: &str) -> (r: Option<MetaValue>)
    ensures
        r == parsed_json(text@),
{
    match serde_json::from_str::<serde_json::Value>(text) {
        Ok(v) => Some(json_to_meta(&v)),
        Err(_) => None,
    }
}

/// Parses `text` as a `toml::Table` and converts its entries (see
/// `parsed_toml_table`); `None` where the text is not a TOML table.
#[verifier::external_body]
pub fn parse_toml_table(text: &str) -> (r: Option<Vec<(String, MetaValue)>>)
    ensures
        match r {
            Some(t) => parsed_toml_table(text@) == Some(t@),
            None => parsed_toml_table(text@) is None,
        },
{
    match text.parse::<toml::Table>() {
        Ok(t) => Some(t.iter().map(|(k, x)| (k.clone(), toml_to_meta(x))).collect()),
        Err(_) => None,
    }
}

/// A JSON description file of an archive: absent where the archive has no such entry
/// (`None`), broken where its text is not JSON, else read as the value it holds.
pub fn json_meta_file(text: Option<&str>) -> (r: MetaFile)
    ensures
        text is None ==> r is Absent,
        text matches Some(t) ==> match parsed_json(t@) {
            Some(m) => r == MetaFile::Read(m),
            None => r is Broken,
        },
{
    match text {
        None => MetaFile::Absent,
        Some(t) => match parse_json(t) {
            Some(m) => MetaFile::Read(m),
            None => MetaFile::Broken,
        },
    }
}

/// A `mods.toml` file of an archive: absent where the archive has no such entry
/// (`None`), broken where its text is not a TOML table, else read as that table.
pub fn toml_meta_file(text: Option<&str>) -> (r: MetaFile)
    ensures
        text is None ==> r is Absent,
        text matches Some(t) ==> match parsed_toml_table(t@) {
            Some(e) => r matches MetaFile::Read(MetaValue::Table(v)) && v@ == e,
            None => r is Broken,
        },
{
    match text {
        None => MetaFile::Absent,
        Some(t) => match parse_toml_table(t) {
            Some(e) => MetaFile::Read(MetaValue::Table(e)),
            None => MetaFile::Broken,
        },
    }
}

/// The mods once what a class scan found is applied: for each mod the scan names, in
/// order, the first mod with that id gets the side the scan found.
pub open spec fn scan_sides(infos: Seq<ModItemView>, scan: Seq<(String, LoadSideType)>, n: int) -> Seq<ModItemView>
    decreases n,
{
    if n <= 0 {
        infos
    } else {
        let before = scan_sides(infos, scan, n - 1);
        match first_with_id(before, scan[n - 1].0@, 0) {
            Some(i) => before.update(i, ModItemView { side: scan[n - 1].1, ..before[i] }),
            None => before,
        }
    }
}

/// The first mod, from `i` on, with exactly this id.
pub open spec fn first_with_id(infos: Seq<ModItemView>, id: Seq<char>, i: int) -> Option<int>
    decreases infos.len() - i,
{
    if i < 0 || i >= infos.len() {
        None
    } else if infos[i].mod_id == id {
        Some(i)
    } else {
        first_with_id(infos, id, i + 1)
    }
}

/// The mods once a `mods.toml` file is read (where it is present and read).
pub open spec fn toml_step(infos: Seq<ModItemView>, f: MetaFile, loader: LoaderType) -> Seq<ModItemView> {
    match f {
        MetaFile::Read(MetaValue::Table(root)) => forge_toml_read(infos, root@, loader),
        _ => infos,
    }
}

/// The mods the description files of an archive give, read in order: `mcmod.info`
/// (a broken one gives none; where the file is there, the class scan's sides are
/// applied), the `mods.toml` files of Forge and NeoForge (a broken one gives none),
/// then `fabric.mod.json` and `quilt.mod.json`, each one mod; reading fails, giving
/// `None`, where one of the last two is broken.
pub open spec fn mod_infos(
    mcmod: MetaFile,
    scan: Option<Seq<(String, LoadSideType)>>,
    forge_toml: MetaFile,
    neo_toml: MetaFile,
    neo_toml1: MetaFile,
    fabric: MetaFile,
    quilt: MetaFile,
) -> Option<Seq<ModItemView>> {
    let a = match mcmod {
        MetaFile::Absent => seq![],
        MetaFile::Broken => match scan {
            Some(sc) => scan_sides(seq![], sc, sc.len() as int),
            None => seq![],
        },
        MetaFile::Read(v) => match scan {
            Some(sc) => scan_sides(forge_json_items(v), sc, sc.len() as int),
            None => forge_json_items(v),
        },
    };
    let b = toml_step(
        toml_step(toml_step(a, forge_toml, LoaderType::Forge), neo_toml, LoaderType::NeoForge),
        neo_toml1,
        LoaderType::NeoForge,
    );
    match fabric {
        MetaFile::Broken => None,
        _ => {
            let c = match fabric {
                MetaFile::Read(v) => b.push(fabric_item(v)),
                _ => b,
            };
            match quilt {
                MetaFile::Broken => None,
                MetaFile::Read(v) => Some(c.push(quilt_item(v))),
                MetaFile::Absent => Some(c),
            }
        },
    }
}

/// The first mod with exactly this id.
fn find_id(infos: &Vec<ModItemObj>, id: &str) -> (r: Option<usize>)
    ensures
        match r {
            Some(i) => first_with_id(items_of(infos@), id@, 0) == Some(i as int) && i
                < infos@.len(),
            None => first_with_id(items_of(infos@), id@, 0) is None,
        },
{
    let ghost iv = items_of(infos@);
    let mut i: usize = 0;
    while i < infos.len()
        invariant
            i <= infos@.len(),
            iv == items_of(infos@),
            first_with_id(iv, id@, 0) == first_with_id(iv, id@, i as int),
        decreases infos@.len() - i,
    {
        if str_eq(infos[i].mod_id.as_str(), id) {
            assert(iv[i as int].mod_id == infos@[i as int].mod_id@);
            return Some(i);
        }
        i = i + 1;
    }
    None
}

/// Applies what a class scan found (see `scan_sides`).
fn apply_scan(infos: &mut Vec<ModItemObj>, scan: &Vec<(String, LoadSideType)>)
    ensures
        items_of(final(infos)@) == scan_sides(items_of(old(infos)@), scan@, scan@.len() as int),
{
    let ghost start = items_of(infos@);
    let mut k: usize = 0;
    while k < scan.len()
        invariant
            k <= scan@.len(),
            items_of(infos@) == scan_sides(start, scan@, k as int),
        decreases scan@.len() - k,
    {
        let ghost before = items_of(infos@);
        let id = &scan[k].0;
        let found = find_id(infos, id.as_str());
        match found {
            Some(i) => {
                let mut item = infos.remove(i);
                item.side = scan[k].1;
                let ghost changed = item@;
                infos.insert(i, item);
                assert(items_of(infos@) =~= before.update(i as int, changed));
            },
            None => {},
        }
        k = k + 1;
    }
}

/// Reads a `mods.toml` file, where it is present and read.
fn read_toml_file(f: &MetaFile, loader: LoaderType, infos: &mut Vec<ModItemObj>)
    ensures
        items_of(final(infos)@) == toml_step(items_of(old(infos)@), *f, loader),
{
    if let MetaFile::Read(MetaValue::Table(root)) = f {
        read_forge_toml(root, loader, infos);
    }
}

/// Reads the description files of a mod archive (see `mod_infos`) into what the archive
/// at `file` holds; `None` where reading fails.
pub fn read_mod_info(
    file: &PathObj,
    mcmod: &MetaFile,
    scan: &Option<Vec<(String, LoadSideType)>>,
    forge_toml: &MetaFile,
    neo_toml: &MetaFile,
    neo_toml1: &MetaFile,
    fabric: &MetaFile,
    quilt: &MetaFile,
) -> (r: Option<ModObj>)
    ensures
        match r {
            Some(m) => mod_infos(
                *mcmod,
                match scan {
                    Some(s) => Some(s@),
                    None => None,
                },
                *forge_toml,
                *neo_toml,
                *neo_toml1,
                *fabric,
                *quilt,
            ) == Some(items_of(m.info@)) && m.file@ == file@ && !m.disable && !m.core
                && m.hash is NoHash && m.jar_in_jar@.len() == 0 && !m.fail,
            None => mod_infos(
                *mcmod,
                match scan {
                    Some(s) => Some(s@),
                    None => None,
                },
                *forge_toml,
                *neo_toml,
                *neo_toml1,
                *fabric,
                *quilt,
            ) is None,
        },
{
    let mut infos: Vec<ModItemObj> = Vec::new();
    assert(items_of(infos@) =~= Seq::<ModItemView>::empty());
    match mcmod {
        MetaFile::Absent => {},
        MetaFile::Broken => {
            if let Some(sc) = scan {
                apply_scan(&mut infos, sc);
            }
        },
        MetaFile::Read(v) => {
            read_forge_json(v, &mut infos);
            assert(items_of(infos@) =~= forge_json_items(*v));
            if let Some(sc) = scan {
                apply_scan(&mut infos, sc);
            }
        },
    }
    read_toml_file(forge_toml, LoaderType::Forge, &mut infos);
    read_toml_file(neo_toml, LoaderType::NeoForge, &mut infos);
    read_toml_file(neo_toml1, LoaderType::NeoForge, &mut infos);
    match fabric {
        MetaFile::Broken => {
            return None;
        },
        MetaFile::Read(v) => {
            let ghost i0 = items_of(infos@);
            infos.push(read_fabric_json(v));
            assert(items_of(infos@) =~= i0.push(fabric_item(*v)));
        },
        MetaFile::Absent => {},
    }
    match quilt {
        MetaFile::Broken => {
            return None;
        },
        MetaFile::Read(v) => {
            let ghost i0 = items_of(infos@);
            infos.push(read_quilt_json(v));
            assert(items_of(infos@) =~= i0.push(quilt_item(*v)));
        },
        MetaFile::Absent => {},
    }
    let mut m = ModObj::default();
    m.info = infos;
    m.file = file.copy();
    Some(m)
}

/// Whether a file is a mod, by its extension (ignoring ASCII case): `Some(false)` for a
/// `jar`, `Some(true)` for one switched off (`disable` or `disabled`), `None` for
/// anything else.
pub open spec fn spec_mod_file_kind(ext: Option<Seq<char>>) -> Option<bool> {
    match ext {
        Some(e) => if spec_eq_ignore_ascii_case(e, JAR_EXT@) {
            Some(false)
        } else if spec_eq_ignore_ascii_case(e, DISABLE_EXT@) || spec_eq_ignore_ascii_case(
            e,
            DISABLED_EXT@,
        ) {
            Some(true)
        } else {
            None
        },
        None => None,
    }
}

/// Whether a file is a mod, by its extension (see `spec_mod_file_kind`).
pub fn mod_file_kind(ext: Option<&str>) -> (r: Option<bool>)
    ensures
        r == spec_mod_file_kind(
            match ext {
                Some(e) => Some(e@),
                None => None,
            },
        ),
{
    match ext {
        Some(e) => {
            if eq_ignore_ascii_case(e, JAR_EXT) {
                Some(false)
            } else if eq_ignore_ascii_case(e, DISABLE_EXT) || eq_ignore_ascii_case(e, DISABLED_EXT) {
                Some(true)
            } else {
                None
            }
        },
        None => None,
    }
}

/// The entry of the mod list for a mod file: what reading it gave, marked switched off
/// or not; where reading failed, an entry marked failed with only its file.
pub fn mod_entry(read: Option<ModObj>, disabled: bool, file: &PathObj) -> (r: ModObj)
    ensures
        match read {
            Some(m) => r.info@ == m.info@ && r.hash == m.hash && r.file == m.file && r.fail
                == m.fail && r.core == m.core && r.jar_in_jar@ == m.jar_in_jar@ && r.disable
                == disabled,
            None => r.fail && r.file@ == file@ && r.info@.len() == 0 && r.hash is NoHash
                && !r.disable && !r.core && r.jar_in_jar@.len() == 0,
        },
{
    match read {
        Some(mut m) => {
            m.disable = disabled;
            m
        },
        None => {
            let mut m = ModObj::default();
            m.fail = true;
            m.file = file.copy();
            m
        },
    }
}

/// The checksum of a mod file: its SHA-1, with its SHA-256 where that is asked for.
pub fn mod_hash(sha1: String, sha256: Option<String>) -> (r: FileHash)
    ensures
        match sha256 {
            Some(b) => r == FileHash::Sha1Sha256(sha1, b),
            None => r == FileHash::Sha1(sha1),
        },
{
    match sha256 {
        Some(b) => FileHash::Sha1Sha256(sha1, b),
        None => FileHash::Sha1(sha1),
    }
}

/// The entry of the quick mod list for a mod file: its file and SHA-1, nothing read.
pub fn fast_mod_entry(file: &PathObj, sha1: String) -> (r: ModObj)
    ensures
        r.file@ == file@,
        r.hash == FileHash::Sha1(sha1),
        r.info@.len() == 0,
        !r.disable,
        !r.core,
        !r.fail,
        r.jar_in_jar@.len() == 0,
{
    let mut m = ModObj::default();
    m.hash = FileHash::Sha1(sha1);
    m.file = file.copy();
    m
}

/// The dependencies of a `mods.toml` file change the mods it lists and those known
/// before, never their number: reading the file adds exactly the mods of its `mods`
/// list.
pub proof fn law_toml_keeps_count(infos: Seq<ModItemView>, root: Seq<(String, MetaValue)>, loader: LoaderType)
    ensures
        forge_toml_read(infos, root, loader).len() == infos.len() + toml_mods(root).len(),
{
    let with_mods = infos + toml_mods(root).map_values(|v: MetaValue| toml_mod_item(v, loader));
    if let Some(MetaValue::Table(deps)) = entry_of(root, "dependencies"@) {
        lemma_deps_keep_count(with_mods, deps@, deps@.len() as int);
    }
}

/// Applying dependency entries keeps the number of mods.
proof fn lemma_deps_keep_count(infos: Seq<ModItemView>, deps: Seq<(String, MetaValue)>, n: int)
    ensures
        toml_deps_upto(infos, deps, n).len() == infos.len(),
    decreases n,
{
    if n > 0 {
        lemma_deps_keep_count(infos, deps, n - 1);
        let before = toml_deps_upto(infos, deps, n - 1);
        lemma_find_mod_in(before, deps[n - 1].0@, 0);
    }
}

/// A place that `find_mod_from` gives lies in the list.
proof fn lemma_find_mod_in(infos: Seq<ModItemView>, key: Seq<char>, i: int)
    ensures
        find_mod_from(infos, key, i) matches Some(k) ==> 0 <= k < infos.len(),
    decreases infos.len() - i,
{
    if 0 <= i < infos.len() {
        lemma_find_mod_in(infos, key, i + 1);
    }
}

} // verus!

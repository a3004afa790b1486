//! Worlds of an instance: what their level data says, their data packs and their
//! backups.
use vstd::prelude::*;

use crate::file_item::PathObj;
use crate::names::{GAME_DATAPACK_DIR, ICON_FILE, LEVEL_FILE};
use crate::game_mods::{entry_of, find_entry, MetaValue};
use crate::launcher_path::keyed_cache::{lookup, KeyedCache};
use crate::game_check::{file_stem_of, opt_view, plain_file_name, spec_file_stem};
use crate::text::{
    chars_of, string_of_range, copy_str, decimal, eq_ignore_ascii_case, push_str, spec_decimal, spec_eq_ignore_ascii_case,
    strings_view,
};

verus! {

/// The backups of a world: the folder of the world under the worlds folder, and the
/// backup archives made of it.
#[derive(Debug)]
pub struct SaveBackupObj {
    pub dir: String,
    pub back: Vec<String>,
}

impl Default for SaveBackupObj {
    fn default() -> (r: Self)
        ensures
            r.dir@.len() == 0,
            r.back@.len() == 0,
    {
        SaveBackupObj { dir: String::new(), back: Vec::new() }
    }
}

/// What the level data of a world says, as read from its `Data` compound: each field
/// where it is present; `world_gen_seed` and `gen_settings` come from its
/// `WorldGenSettings` (the seed, and the `settings` of the overworld's generator).
#[derive(Debug)]
pub struct LevelData {
    pub last_played: Option<i64>,
    pub random_seed: Option<i64>,
    pub game_type: Option<i32>,
    pub hardcore: Option<u8>,
    pub difficulty: Option<u8>,
    pub level_name: Option<String>,
    pub world_gen_seed: Option<i64>,
    pub gen_settings: Option<String>,
    pub generator_name: Option<String>,
}

/// A world of an instance.
#[derive(Debug)]
pub struct SaveObj {
    pub random_seed: i64,
    pub last_played: i64,
    pub game_type: i32,
    pub hard_core: u8,
    pub level_name: String,
    pub difficulty: u8,
    pub generator_name: String,
    pub path: PathObj,
    pub icon: Option<PathObj>,
    /// Its level data has no `Data` compound.
    pub broken: bool,
}

/// A field of the level data, or its default.
pub open spec fn or_zero_i64(v: Option<i64>) -> i64 {
    match v {
        Some(x) => x,
        None => 0,
    }
}

/// The generator of a world: the old `generatorName` behind `minecraft:`, else the
/// generator settings of its world generation, else none.
pub open spec fn spec_generator(d: LevelData) -> Seq<char> {
    match d.generator_name {
        Some(n) => "minecraft:"@ + n@,
        None => match d.gen_settings {
            Some(s) => s@,
            None => Seq::empty(),
        },
    }
}

/// A world whose level data was read: each field from the data (0 or empty where
/// absent), the seed of its world generation over its old seed, and its generator (see
/// `spec_generator`); `None` stands for level data without a `Data` compound, which gives
/// a world marked broken.
pub fn save_from_level(data: &Option<LevelData>) -> (r: SaveObj)
    ensures
        r.path@.len() == 0,
        r.icon is None,
        match data {
            Some(d) => {
                &&& !r.broken
                &&& r.last_played == or_zero_i64(d.last_played)
                &&& r.random_seed == match d.world_gen_seed {
                    Some(s) => s,
                    None => or_zero_i64(d.random_seed),
                }
                &&& r.game_type == match d.game_type {
                    Some(g) => g,
                    None => 0,
                }
                &&& r.hard_core == match d.hardcore {
                    Some(h) => h,
                    None => 0,
                }
                &&& r.difficulty == match d.difficulty {
                    Some(h) => h,
                    None => 0,
                }
                &&& r.level_name@ == match d.level_name {
                    Some(n) => n@,
                    None => Seq::<char>::empty(),
                }
                &&& r.generator_name@ == spec_generator(*d)
            },
            None => r.broken && r.random_seed == 0 && r.last_played == 0 && r.game_type == 0
                && r.hard_core == 0 && r.difficulty == 0 && r.level_name@.len() == 0
                && r.generator_name@.len() == 0,
        },
{
    let mut r = SaveObj {
        random_seed: 0,
        last_played: 0,
        game_type: 0,
        hard_core: 0,
        level_name: String::new(),
        difficulty: 0,
        generator_name: String::new(),
        path: PathObj::empty(),
        icon: None,
        broken: false,
    };
    match data {
        None => {
            r.broken = true;
        },
        Some(d) => {
            r.last_played = match d.last_played {
                Some(x) => x,
                None => 0,
            };
            r.random_seed = match d.random_seed {
                Some(x) => x,
                None => 0,
            };
            r.game_type = match d.game_type {
                Some(x) => x,
                None => 0,
            };
            r.hard_core = match d.hardcore {
                Some(x) => x,
                None => 0,
            };
            r.difficulty = match d.difficulty {
                Some(x) => x,
                None => 0,
            };
            r.level_name = match &d.level_name {
                Some(n) => copy_str(n.as_str()),
                None => String::new(),
            };
            if let Some(seed) = d.world_gen_seed {
                r.random_seed = seed;
            }
            if let Some(s) = &d.gen_settings {
                r.generator_name = copy_str(s.as_str());
            }
            if let Some(n) = &d.generator_name {
                let mut g = copy_str("minecraft:");
                push_str(&mut g, n.as_str());
                proof {
                    reveal_strlit("minecraft:");
                }
                r.generator_name = g;
            }
        },
    }
    r
}

impl SaveObj {
    /// The data pack folder of the world.
    pub fn get_datapack_path(&self) -> (r: PathObj)
        ensures
            r@ == self.path@.push(GAME_DATAPACK_DIR@),
    {
        self.path.join(GAME_DATAPACK_DIR)
    }

    /// The level data file of the world.
    pub fn get_level_file(&self) -> (r: PathObj)
        ensures
            r@ == self.path@.push(LEVEL_FILE@),
    {
        self.path.join(LEVEL_FILE)
    }
}

/// The entry of a world folder `dir` whose level data was read as `data`: the world of
/// that data (see `save_from_level`), at `dir`, with the icon file of `dir` where one
/// exists.
pub fn save_entry(dir: &PathObj, data: &Option<LevelData>, icon_exists: bool) -> (r: SaveObj)
    ensures
        r.path@ == dir@,
        r.icon matches Some(p) ==> p@ == dir@.push(ICON_FILE@),
        r.icon is Some <==> icon_exists,
        ({
            let w = save_from_level_spec(*data);
            &&& r.broken == w.0
            &&& r.random_seed == w.1
            &&& r.last_played == w.2
            &&& r.game_type == w.3
            &&& r.hard_core == w.4
            &&& r.difficulty == w.5
            &&& r.level_name@ == w.6
            &&& r.generator_name@ == w.7
        }),
{
    let mut r = save_from_level(data);
    r.path = dir.copy();
    if icon_exists {
        r.icon = Some(dir.join(ICON_FILE));
    }
    r
}

/// What `save_from_level` gives for `data`: whether the world is broken, its seed, when
/// it was last played, its game type, hardcore flag, difficulty, name and generator.
pub open spec fn save_from_level_spec(data: Option<LevelData>) -> (
    bool,
    i64,
    i64,
    i32,
    u8,
    u8,
    Seq<char>,
    Seq<char>,
) {
    match data {
        Some(d) => (
            false,
            match d.world_gen_seed {
                Some(s) => s,
                None => or_zero_i64(d.random_seed),
            },
            or_zero_i64(d.last_played),
            match d.game_type {
                Some(g) => g,
                None => 0,
            },
            match d.hardcore {
                Some(h) => h,
                None => 0,
            },
            match d.difficulty {
                Some(h) => h,
                None => 0,
            },
            match d.level_name {
                Some(n) => n@,
                None => Seq::<char>::empty(),
            },
            spec_generator(d),
        ),
        None => (true, 0, 0, 0, 0, 0, Seq::<char>::empty(), Seq::<char>::empty()),
    }
}

/// The end that is taken off an archive's name, as often as it ends it.
pub open spec fn tar_suffix() -> Seq<char> {
    seq!['.', 't', 'a', 'r']
}

/// `s` with every `.tar` that ends it taken off, one after the other.
pub open spec fn spec_trim_tar(s: Seq<char>) -> Seq<char>
    decreases s.len(),
{
    if s.len() >= 4 && s.skip(s.len() - 4) == tar_suffix() {
        spec_trim_tar(s.take(s.len() - 4))
    } else {
        s
    }
}

/// `s` with every `.tar` that ends it taken off.
pub fn trim_tar(s: &str) -> (r: String)
    ensures
        r@ == spec_trim_tar(s@),
{
    let v = chars_of(s);
    let mut n: usize = v.len();
    assert(v@.take(n as int) =~= s@);
    while n >= 4 && v[n - 4] == '.' && v[n - 3] == 't' && v[n - 2] == 'a' && v[n - 1] == 'r'
        invariant
            n <= v@.len(),
            v@ == s@,
            spec_trim_tar(v@.take(n as int)) == spec_trim_tar(s@),
        decreases n,
    {
        let ghost t = v@.take(n as int);
        assert(t.skip(t.len() - 4) =~= tar_suffix());
        assert(t.take(t.len() - 4) =~= v@.take(n - 4));
        n = n - 4;
    }
    let ghost t = v@.take(n as int);
    if n >= 4 {
        assert(t.skip(t.len() - 4) != tar_suffix()) by {
            if t.skip(t.len() - 4) == tar_suffix() {
                assert(t.skip(t.len() - 4)[0] == v@[n - 4]);
                assert(t.skip(t.len() - 4)[1] == v@[n - 3]);
                assert(t.skip(t.len() - 4)[2] == v@[n - 2]);
                assert(t.skip(t.len() - 4)[3] == v@[n - 1]);
            }
        }
    }
    assert(v@.take(n as int) =~= v@.subrange(0, n as int));
    string_of_range(&v, 0, n)
}

/// Taking every trailing `.tar` off leaves a text that does not end with `.tar`.
proof fn lemma_trim_tar_done(s: Seq<char>)
    ensures
        !(spec_trim_tar(s).len() >= 4 && spec_trim_tar(s).skip(spec_trim_tar(s).len() - 4) == tar_suffix()),
    decreases s.len(),
{
    if s.len() >= 4 && s.skip(s.len() - 4) == tar_suffix() {
        lemma_trim_tar_done(s.take(s.len() - 4));
    }
}

/// Taking the trailing `.tar`s off twice is taking them off once.
pub proof fn law_trim_tar_idempotent(s: Seq<char>)
    ensures
        spec_trim_tar(spec_trim_tar(s)) == spec_trim_tar(s),
{
    lemma_trim_tar_done(s);
}

/// The folder under `saves_dir` that an imported world archive is unpacked into: the
/// worlds folder itself where every entry of the archive lies in one top folder;
/// otherwise a new folder named by the archive's file stem (`save` where it has none),
/// with every `.tar` that ends it taken off.
pub fn import_dir_for(saves_dir: &PathObj, single_top_dir: bool, stem: &Option<String>) -> (r: PathObj)
    ensures
        single_top_dir ==> r@ == saves_dir@,
        !single_top_dir ==> r@ == saves_dir@.push(
            spec_trim_tar(
                match stem {
                    Some(t) => t@,
                    None => seq!['s', 'a', 'v', 'e'],
                },
            ),
        ),
{
    if single_top_dir {
        saves_dir.copy()
    } else {
        let name = match stem {
            Some(t) => trim_tar(t.as_str()),
            None => {
                let t = trim_tar("save");
                proof {
                    reveal_strlit("save");
                    assert("save"@ =~= seq!['s', 'a', 'v', 'e']);
                }
                t
            },
        };
        saves_dir.join_string(name)
    }
}

/// The folder that the world archive at `archive` is unpacked into under `saves_dir`
/// (see `import_dir_for`; the stem is the file stem of `archive`).
pub fn import_save_dir(saves_dir: &PathObj, single_top_dir: bool, archive: &str) -> (r: PathObj)
    ensures
        single_top_dir ==> r@ == saves_dir@,
        !single_top_dir ==> r@.len() == saves_dir@.len() + 1 && r@.drop_last() == saves_dir@,
        !single_top_dir && plain_file_name(archive@) ==> r@ == saves_dir@.push(
            spec_trim_tar(spec_file_stem(archive@)),
        ),
{
    let stem = file_stem_of(archive);
    let r = import_dir_for(saves_dir, single_top_dir, &stem);
    proof {
        if !single_top_dir {
            assert(r@.drop_last() =~= saves_dir@);
        }
    }
    r
}

/// A data pack of a world: its name (`file/` and its file name), path, description,
/// format, and whether the world lists it as on (`Some(true)`), off (`Some(false)`) or
/// not at all.
#[derive(Debug)]
pub struct SaveDataPackObj {
    pub name: String,
    pub path: PathObj,
    pub description: String,
    pub pack_format: i64,
    pub enable: Option<bool>,
}

/// Whether one of the names of a list of the world's packs is `name`, ignoring ASCII
/// case; entries that are not names are passed over.
pub open spec fn listed(list: Seq<Option<String>>, name: Seq<char>) -> bool {
    exists|i: int| 0 <= i < list.len() && names_it(#[trigger] list[i], name)
}

/// Whether an entry of a list of packs is `name`, ignoring ASCII case.
pub open spec fn names_it(entry: Option<String>, name: Seq<char>) -> bool {
    match entry {
        Some(s) => spec_eq_ignore_ascii_case(s@, name),
        None => false,
    }
}

/// Whether one of the names of a list is `name`, ignoring ASCII case.
fn is_listed(list: &Vec<Option<String>>, name: &str) -> (r: bool)
    ensures
        r == listed(list@, name@),
{
    let mut i: usize = 0;
    while i < list.len()
        invariant
            i <= list@.len(),
            forall|j: int| 0 <= j < i ==> !names_it(#[trigger] list@[j], name@),
        decreases list@.len() - i,
    {
        if let Some(s) = &list[i] {
            if eq_ignore_ascii_case(s.as_str(), name) {
                assert(names_it(list@[i as int], name@));
                return true;
            }
        }
        i = i + 1;
    }
    false
}

/// Where the first entry of `list` from `i` on that names `name` (ASCII case aside)
/// stands.
pub open spec fn first_named_from(list: Seq<Option<String>>, name: Seq<char>, i: int) -> Option<int>
    decreases list.len() - i,
{
    if i < 0 || i >= list.len() {
        None
    } else if names_it(list[i], name) {
        Some(i)
    } else {
        first_named_from(list, name, i + 1)
    }
}

/// Where the first entry of `list` that names `name` (ASCII case aside) stands.
pub open spec fn first_named(list: Seq<Option<String>>, name: Seq<char>) -> Option<int> {
    first_named_from(list, name, 0)
}

/// Where the first entry of a list of packs that names `name` stands.
fn find_named(list: &Vec<Option<String>>, name: &str) -> (r: Option<usize>)
    ensures
        match r {
            Some(i) => first_named(list@, name@) == Some(i as int),
            None => first_named(list@, name@) is None,
        },
{
    let mut i: usize = list.len();
    let mut found: Option<usize> = None;
    while i > 0
        invariant
            i <= list@.len(),
            match found {
                Some(k) => first_named_from(list@, name@, i as int) == Some(k as int),
                None => first_named_from(list@, name@, i as int) is None,
            },
        decreases i,
    {
        i = i - 1;
        let hit = match &list[i] {
            Some(t) => eq_ignore_ascii_case(t.as_str(), name),
            None => false,
        };
        if hit {
            found = Some(i);
        }
    }
    found
}

/// The changes to the lists of switched-on and switched-off packs of a world: the
/// positions that leave each list, greatest first, and the names that are added to
/// each, in order.
#[derive(Debug)]
pub struct DataPackChanges {
    pub remove_enabled: Vec<usize>,
    pub add_enabled: Vec<String>,
    pub remove_disabled: Vec<usize>,
    pub add_disabled: Vec<String>,
}

/// The changes the first `n` packs of `names` call for, as positions in the order they
/// are found and names in order: a pack in both lists leaves the off list; one only on
/// leaves the on list and is added to the off list; one only off leaves the off list;
/// one in neither is added to the on list. Each pack is found by the first entry that
/// names it.
pub open spec fn change_plan(
    ens: Seq<Option<String>>,
    dis: Seq<Option<String>>,
    names: Seq<Seq<char>>,
    n: int,
) -> (Seq<usize>, Seq<Seq<char>>, Seq<usize>, Seq<Seq<char>>)
    decreases n,
{
    if n <= 0 {
        (seq![], seq![], seq![], seq![])
    } else {
        let p = change_plan(ens, dis, names, n - 1);
        let name = names[n - 1];
        match (first_named(ens, name), first_named(dis, name)) {
            (Some(_), Some(d)) => (p.0, p.1, p.2.push(d as usize), p.3),
            (Some(e), None) => (p.0.push(e as usize), p.1, p.2, p.3.push(name)),
            (None, Some(d)) => (p.0, p.1, p.2.push(d as usize), p.3),
            (None, None) => (p.0, p.1.push(name), p.2, p.3),
        }
    }
}

/// The positions the first `n` packs of `names` remove from the on and off lists when
/// they are deleted: each pack's first entry in each list that names it.
pub open spec fn delete_plan(
    ens: Seq<Option<String>>,
    dis: Seq<Option<String>>,
    names: Seq<Seq<char>>,
    n: int,
) -> (Seq<usize>, Seq<usize>)
    decreases n,
{
    if n <= 0 {
        (seq![], seq![])
    } else {
        let p = delete_plan(ens, dis, names, n - 1);
        let name = names[n - 1];
        (
            match first_named(ens, name) {
                Some(e) => p.0.push(e as usize),
                None => p.0,
            },
            match first_named(dis, name) {
                Some(d) => p.1.push(d as usize),
                None => p.1,
            },
        )
    }
}

/// Every pack of a switch is acted on exactly once: it leaves the off list, or it is
/// added to the on list, or it leaves the on list and is added to the off list.
pub proof fn law_change_plan_each_once(
    ens: Seq<Option<String>>,
    dis: Seq<Option<String>>,
    names: Seq<Seq<char>>,
    n: int,
)
    requires
        0 <= n <= names.len(),
    ensures
        ({
            let p = change_plan(ens, dis, names, n);
            &&& p.1.len() + p.2.len() + p.3.len() == n
            &&& p.0.len() == p.3.len()
        }),
    decreases n,
{
    if n > 0 {
        law_change_plan_each_once(ens, dis, names, n - 1);
    }
}

/// The names of a list of packs.
pub open spec fn pack_names(list: Seq<SaveDataPackObj>) -> Seq<Seq<char>> {
    list.map_values(|p: SaveDataPackObj| p.name@)
}

/// The positions of a list, greatest first.
pub open spec fn desc_usize(s: Seq<usize>) -> bool {
    forall|i: int, j: int| 0 <= i < j < s.len() ==> s[i] >= s[j]
}

/// Positions sorted greatest first, the same positions as many times each.
fn sort_desc(v: &Vec<usize>) -> (r: Vec<usize>)
    ensures
        desc_usize(r@),
        r@.to_multiset() == v@.to_multiset(),
{
    let mut r: Vec<usize> = Vec::new();
    let mut i: usize = 0;
    assert(v@.take(0) =~= Seq::<usize>::empty());
    while i < v.len()
        invariant
            i <= v@.len(),
            desc_usize(r@),
            r@.to_multiset() == v@.take(i as int).to_multiset(),
        decreases v@.len() - i,
    {
        let x = v[i];
        let mut pos: usize = 0;
        while pos < r.len() && r[pos] >= x
            invariant
                pos <= r@.len(),
                forall|j: int| 0 <= j < pos ==> r@[j] >= x,
            decreases r@.len() - pos,
        {
            pos = pos + 1;
        }
        let ghost r0 = r@;
        r.insert(pos, x);
        assert(r@ == r0.insert(pos as int, x));
        assert forall|a: int, b: int| 0 <= a < b < r@.len() implies r@[a] >= r@[b] by {
            if b < pos {
            } else if b == pos {
                assert(r@[a] == r0[a]);
            } else if a < pos {
                assert(r@[b] == r0[b - 1]);
                assert(r0[a] >= r0[b - 1] || a == b - 1);
            } else if a == pos {
                assert(r@[b] == r0[b - 1]);
                assert(pos < r0.len());
                assert(!(r0[pos as int] >= x));
            } else {
                assert(r@[a] == r0[a - 1]);
                assert(r@[b] == r0[b - 1]);
            }
        }
        assert(v@.take(i + 1) =~= v@.take(i as int).push(x));
        proof {
            vstd::seq_lib::to_multiset_insert(r0, pos as int, x);
            vstd::seq_lib::to_multiset_build(v@.take(i as int), x);
        }
        i = i + 1;
    }
    assert(v@.take(i as int) =~= v@);
    r
}

/// The changes that switch each pack of `list` over (see `change_plan`); the
/// positions that leave each list come greatest first, so that removing them one after
/// the other leaves the others in place. Fails with the name of the list the world
/// lacks, the on list first.
pub fn change_data_pack(
    ens: &Option<Vec<Option<String>>>,
    dis: &Option<Vec<Option<String>>>,
    list: &Vec<SaveDataPackObj>,
) -> (r: Result<DataPackChanges, String>)
    ensures
        ens is None ==> (r matches Err(k) && k@ == "Enabled"@),
        ens is Some && dis is None ==> (r matches Err(k) && k@ == "Disabled"@),
        match (ens, dis) {
            (Some(e), Some(d)) => r matches Ok(c) && {
                let p = change_plan(e@, d@, pack_names(list@), list@.len() as int);
                &&& desc_usize(c.remove_enabled@)
                &&& c.remove_enabled@.to_multiset() == p.0.to_multiset()
                &&& strings_view(c.add_enabled@) == p.1
                &&& desc_usize(c.remove_disabled@)
                &&& c.remove_disabled@.to_multiset() == p.2.to_multiset()
                &&& strings_view(c.add_disabled@) == p.3
            },
            _ => r is Err,
        },
{
    let e = match ens {
        Some(e) => e,
        None => {
            return Err(copy_str("Enabled"));
        },
    };
    let d = match dis {
        Some(d) => d,
        None => {
            return Err(copy_str("Disabled"));
        },
    };
    let ghost names = pack_names(list@);
    let mut re: Vec<usize> = Vec::new();
    let mut ae: Vec<String> = Vec::new();
    let mut rd: Vec<usize> = Vec::new();
    let mut ad: Vec<String> = Vec::new();
    let mut i: usize = 0;
    while i < list.len()
        invariant
            i <= list@.len(),
            names == pack_names(list@),
            ({
                let p = change_plan(e@, d@, names, i as int);
                &&& re@ == p.0
                &&& strings_view(ae@) == p.1
                &&& rd@ == p.2
                &&& strings_view(ad@) == p.3
            }),
        decreases list@.len() - i,
    {
        let name = list[i].name.as_str();
        assert(names[i as int] == name@);
        let fe = find_named(e, name);
        let fd = find_named(d, name);
        let ghost (r0, a0, r1, a1) = (re@, ae@, rd@, ad@);
        match (fe, fd) {
            (Some(_), Some(y)) => {
                rd.push(y);
                assert(rd@ =~= r1.push(y));
            },
            (Some(x), None) => {
                re.push(x);
                ad.push(copy_str(name));
                assert(re@ =~= r0.push(x));
                assert(strings_view(ad@) =~= strings_view(a1).push(name@));
            },
            (None, Some(y)) => {
                rd.push(y);
                assert(rd@ =~= r1.push(y));
            },
            (None, None) => {
                ae.push(copy_str(name));
                assert(strings_view(ae@) =~= strings_view(a0).push(name@));
            },
        }
        i = i + 1;
    }
    let se = sort_desc(&re);
    let sd = sort_desc(&rd);
    Ok(DataPackChanges { remove_enabled: se, add_enabled: ae, remove_disabled: sd, add_disabled: ad })
}

/// The positions that deleting the packs of `list` removes from the on and off lists
/// (see `delete_plan`), greatest first. Fails with the name of the list the world
/// lacks, the on list first.
pub fn delete_datapack(
    ens: &Option<Vec<Option<String>>>,
    dis: &Option<Vec<Option<String>>>,
    list: &Vec<SaveDataPackObj>,
) -> (r: Result<(Vec<usize>, Vec<usize>), String>)
    ensures
        ens is None ==> (r matches Err(k) && k@ == "Enabled"@),
        ens is Some && dis is None ==> (r matches Err(k) && k@ == "Disabled"@),
        match (ens, dis) {
            (Some(e), Some(d)) => r matches Ok(c) && {
                let p = delete_plan(e@, d@, pack_names(list@), list@.len() as int);
                &&& desc_usize(c.0@)
                &&& c.0@.to_multiset() == p.0.to_multiset()
                &&& desc_usize(c.1@)
                &&& c.1@.to_multiset() == p.1.to_multiset()
            },
            _ => r is Err,
        },
{
    let e = match ens {
        Some(e) => e,
        None => {
            return Err(copy_str("Enabled"));
        },
    };
    let d = match dis {
        Some(d) => d,
        None => {
            return Err(copy_str("Disabled"));
        },
    };
    let ghost names = pack_names(list@);
    let mut re: Vec<usize> = Vec::new();
    let mut rd: Vec<usize> = Vec::new();
    let mut i: usize = 0;
    while i < list.len()
        invariant
            i <= list@.len(),
            names == pack_names(list@),
            ({
                let p = delete_plan(e@, d@, names, i as int);
                &&& re@ == p.0
                &&& rd@ == p.1
            }),
        decreases list@.len() - i,
    {
        let name = list[i].name.as_str();
        assert(names[i as int] == name@);
        let ghost (r0, r1) = (re@, rd@);
        if let Some(x) = find_named(e, name) {
            re.push(x);
            assert(re@ =~= r0.push(x));
        }
        if let Some(y) = find_named(d, name) {
            rd.push(y);
            assert(rd@ =~= r1.push(y));
        }
        i = i + 1;
    }
    let se = sort_desc(&re);
    let sd = sort_desc(&rd);
    Ok((se, sd))
}

/// A text field of a table, or the empty text.
pub open spec fn text_field(v: MetaValue, key: Seq<char>) -> Seq<char> {
    match v {
        MetaValue::Table(m) => match entry_of(m@, key) {
            Some(MetaValue::Str(s)) => s@,
            _ => Seq::empty(),
        },
        _ => Seq::empty(),
    }
}

/// A whole-number field of a table, or -1.
pub open spec fn format_field(v: MetaValue) -> i64 {
    match v {
        MetaValue::Table(m) => match entry_of(m@, "pack_format"@) {
            Some(MetaValue::Int(x)) => x,
            _ => -1i64,
        },
        _ => -1i64,
    }
}

/// The data pack a `pack.mcmeta` file describes, where it has a `pack` entry: named
/// `file/` and its file name, with the description and format of that entry (empty and
/// -1 where absent), on where the enabled list names it, off where the disabled list
/// does (the latter winning), unlisted otherwise.
pub fn read_pack(
    path: &PathObj,
    file_name: &str,
    enabled: &Option<Vec<Option<String>>>,
    disabled: &Option<Vec<Option<String>>>,
    data: &MetaValue,
) -> (r: Option<SaveDataPackObj>)
    ensures
        match data {
            MetaValue::Table(m) => match entry_of(m@, "pack"@) {
                Some(pack) => r matches Some(p) && {
                    &&& p.name@ == "file/"@ + file_name@
                    &&& p.path@ == path@
                    &&& p.description@ == text_field(pack, "description"@)
                    &&& p.pack_format == format_field(pack)
                    &&& p.enable == if (match disabled {
                        Some(d) => listed(d@, p.name@),
                        None => false,
                    }) {
                        Some(false)
                    } else if (match enabled {
                        Some(e) => listed(e@, p.name@),
                        None => false,
                    }) {
                        Some(true)
                    } else {
                        None
                    }
                },
                None => r is None,
            },
            _ => r is None,
        },
{
    let map = match data {
        MetaValue::Table(m) => m,
        _ => {
            return None;
        },
    };
    let pack = match find_entry(map, "pack") {
        Some(p) => p,
        None => {
            return None;
        },
    };
    let mut name = copy_str("file/");
    push_str(&mut name, file_name);
    proof {
        reveal_strlit("file/");
    }
    let description = match pack {
        MetaValue::Table(m) => match find_entry(m, "description") {
            Some(MetaValue::Str(s)) => copy_str(s.as_str()),
            _ => String::new(),
        },
        _ => String::new(),
    };
    let pack_format: i64 = match pack {
        MetaValue::Table(m) => match find_entry(m, "pack_format") {
            Some(MetaValue::Int(x)) => *x,
            _ => -1,
        },
        _ => -1,
    };
    let mut enable: Option<bool> = None;
    if let Some(e) = enabled {
        if is_listed(e, name.as_str()) {
            enable = Some(true);
        }
    }
    if let Some(d) = disabled {
        if is_listed(d, name.as_str()) {
            enable = Some(false);
        }
    }
    Some(SaveDataPackObj { name, path: path.copy(), description, pack_format, enable })
}

/// The decimal text of a signed number.
pub open spec fn spec_signed_decimal(n: int) -> Seq<char> {
    if n < 0 {
        "-"@ + spec_decimal((-n) as nat)
    } else {
        spec_decimal(n as nat)
    }
}

/// The decimal text of a signed number.
fn signed_decimal(n: i32) -> (r: String)
    ensures
        r@ == spec_signed_decimal(n as int),
{
    if n < 0 {
        let mut r = copy_str("-");
        let m: u64 = (-(n as i64)) as u64;
        let d = decimal(m);
        push_str(&mut r, d.as_str());
        proof {
            reveal_strlit("-");
        }
        r
    } else {
        decimal(n as u64)
    }
}

/// The name of a backup archive of a world made at a moment: the world's name, the
/// year, month, day, hour, minute and second, joined by `_`, then `.zip`.
pub open spec fn spec_backup_name(
    level: Seq<char>,
    year: int,
    month: nat,
    day: nat,
    hour: nat,
    minute: nat,
    second: nat,
) -> Seq<char> {
    level + "_"@ + spec_signed_decimal(year) + "_"@ + spec_decimal(month) + "_"@ + spec_decimal(
        day,
    ) + "_"@ + spec_decimal(hour) + "_"@ + spec_decimal(minute) + "_"@ + spec_decimal(second)
        + ".zip"@
}

/// The name of a backup archive (see `spec_backup_name`).
pub fn backup_name(
    level: &str,
    year: i32,
    month: u32,
    day: u32,
    hour: u32,
    minute: u32,
    second: u32,
) -> (r: String)
    ensures
        r@ == spec_backup_name(
            level@,
            year as int,
            month as nat,
            day as nat,
            hour as nat,
            minute as nat,
            second as nat,
        ),
{
    let mut r = copy_str(level);
    push_str(&mut r, "_");
    let y = signed_decimal(year);
    push_str(&mut r, y.as_str());
    push_str(&mut r, "_");
    let mo = decimal(month as u64);
    push_str(&mut r, mo.as_str());
    push_str(&mut r, "_");
    let d = decimal(day as u64);
    push_str(&mut r, d.as_str());
    push_str(&mut r, "_");
    let h = decimal(hour as u64);
    push_str(&mut r, h.as_str());
    push_str(&mut r, "_");
    let mi = decimal(minute as u64);
    push_str(&mut r, mi.as_str());
    push_str(&mut r, "_");
    let s = decimal(second as u64);
    push_str(&mut r, s.as_str());
    push_str(&mut r, ".zip");
    proof {
        reveal_strlit("_");
        reveal_strlit(".zip");
    }
    assert(r@ =~= spec_backup_name(
        level@,
        year as int,
        month as nat,
        day as nat,
        hour as nat,
        minute as nat,
        second as nat,
    ));
    r
}

/// The backups of a world as texts: its folder and archives.
pub open spec fn backup_view(b: SaveBackupObj) -> (Seq<char>, Seq<Seq<char>>) {
    (b.dir@, strings_view(b.back@))
}

/// The backup record once an archive of a world is recorded: the archive added to the
/// world's list, or a new entry for the world with its folder `dir` and the archive.
pub fn record_backup(
    info: &mut KeyedCache<String, SaveBackupObj>,
    level: &str,
    name: &str,
    dir: &str,
)
    requires
        old(info).wf(),
    ensures
        final(info).wf(),
        final(info)@.dom() == old(info)@.dom().insert(level@),
        forall|k: Seq<char>|
            k != level@ && #[trigger] old(info)@.contains_key(k) ==> final(info)@[k] == old(
                info,
            )@[k],
        match lookup(old(info)@, level@) {
            Some(b) => backup_view(final(info)@[level@]) == (
                b.dir@,
                strings_view(b.back@).push(name@),
            ),
            None => backup_view(final(info)@[level@]) == (dir@, seq![name@]),
        },
{
    let key = copy_str(level);
    let ghost m0 = info@;
    match info.remove(&key) {
        Some(mut b) => {
            let ghost b0 = strings_view(b.back@);
            b.back.push(copy_str(name));
            assert(strings_view(b.back@) =~= b0.push(name@));
            info.insert(key, b);
            assert(info@.dom() =~= m0.dom().insert(level@));
        },
        None => {
            let mut back: Vec<String> = Vec::new();
            back.push(copy_str(name));
            assert(strings_view(back@) =~= seq![name@]);
            info.insert(key, SaveBackupObj { dir: copy_str(dir), back });
            assert(info@.dom() =~= m0.dom().insert(level@));
        },
    }
}

} // verus!

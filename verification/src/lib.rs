//! The game side of a Minecraft launcher: instances and their groups, game and loader
//! descriptions, launch arguments and the folders they live in.
use vstd::prelude::*;

pub mod auth;
pub mod custom_arg;
pub mod file_item;
pub mod game_arg;
pub mod game_check;
pub mod game_download;
pub mod game_export;
pub mod game_lan;
pub mod game_launch;
pub mod game_log;
pub mod game_mods;
pub mod game_options;
pub mod game_resourcepacks;
pub mod game_saves;
pub mod game_schematics;
pub mod game_screenshots;
pub mod game_server;
pub mod game_shaderpacks;
pub mod launcher;
pub mod launcher_path;
pub mod loader;
pub mod mojang;
pub mod names;
pub mod system_info;
pub mod text;

use crate::launcher::game_setting_obj::InstanceSettingObj;
use crate::launcher_path::keyed_cache::{lookup, KeyedCache};
use crate::names::DEFAULT_GROUP;
use crate::file_item::PathObj;
use crate::launcher::custom_game_arg_obj::CustomGameArgObj;
use crate::launcher::mod_info_obj::FileOnlineInfoObj;
use crate::launcher::LogEncoding;
use crate::game_log::{spec_add_entry, GameLog, GameLogItemObj, GameRuntimeLog};
use crate::system_info::Os;
use crate::text::{
    copy_str, decimal, eq_ignore_ascii_case, push_str, spec_decimal, spec_eq_ignore_ascii_case,
    strings_view,
};

verus! {

// ---------------------------------------------------------------------------
// Instances and groups
// ---------------------------------------------------------------------------

/// The instances of a group as lists of ids, by group name.
pub open spec fn group_lists(m: Map<Seq<char>, Vec<u128>>) -> Map<Seq<char>, Seq<u128>> {
    m.map_values(|v: Vec<u128>| v@)
}

/// The group an instance belongs to: its own, or the default one.
pub open spec fn group_key(group: Option<String>) -> Seq<char> {
    match group {
        Some(g) => g@,
        None => DEFAULT_GROUP@,
    }
}

/// The list of a group, or no ids where the group does not exist.
pub open spec fn list_or_empty(lists: Map<Seq<char>, Seq<u128>>, key: Seq<char>) -> Seq<u128> {
    if lists.contains_key(key) {
        lists[key]
    } else {
        Seq::empty()
    }
}

/// The instances that a list of ids names, in its order; ids of no instance are skipped.
pub open spec fn members(list: Seq<u128>, inst: Map<u128, InstanceSettingObj>) -> Seq<
    InstanceSettingObj,
>
    decreases list.len(),
{
    if list.len() == 0 {
        Seq::empty()
    } else {
        let prev = members(list.drop_last(), inst);
        if inst.contains_key(list.last()) {
            prev.push(inst[list.last()])
        } else {
            prev
        }
    }
}

/// A list without repeats keeps none when one new id is added.
proof fn lemma_push_distinct(ids: Seq<u64>, id: u64)
    requires
        ids.no_duplicates(),
        !ids.contains(id),
    ensures
        ids.push(id).no_duplicates(),
{
    let p = ids.push(id);
    assert forall|i: int, j: int| 0 <= i < p.len() && 0 <= j < p.len() && i != j implies p[i] != p[j] by {
        if i == ids.len() {
            assert(ids[j] == p[j]);
        } else if j == ids.len() {
            assert(ids[i] == p[i]);
        }
    }
}

/// Removing an id from a list without repeats leaves a list without repeats, holding
/// nothing the list did not hold.
proof fn lemma_without_distinct(ids: Seq<u64>, x: u64)
    requires
        ids.no_duplicates(),
    ensures
        without_id(ids, x).no_duplicates(),
        forall|y: u64| without_id(ids, x).contains(y) ==> ids.contains(y),
    decreases ids.len(),
{
    if ids.len() > 0 {
        let d = ids.drop_last();
        assert(d.no_duplicates()) by {
            assert forall|i: int, j: int| 0 <= i < d.len() && 0 <= j < d.len() && i != j implies d[i] != d[j] by {
                assert(d[i] == ids[i] && d[j] == ids[j]);
            }
        }
        lemma_without_distinct(d, x);
        let w = without_id(d, x);
        let a = ids.last();
        assert forall|y: u64| w.contains(y) implies ids.contains(y) by {
            assert(d.contains(y));
            let k = choose|k: int| 0 <= k < d.len() && d[k] == y;
            assert(ids[k] == y);
        }
        if a != x {
            assert(!w.contains(a)) by {
                if w.contains(a) {
                    assert(d.contains(a));
                    let k = choose|k: int| 0 <= k < d.len() && d[k] == a;
                    assert(ids[k] == a);
                    assert(ids[ids.len() - 1] == a);
                    assert(k != ids.len() - 1);
                }
            }
            lemma_push_distinct(w, a);
            assert forall|y: u64| w.push(a).contains(y) implies ids.contains(y) by {
                let k = choose|k: int| 0 <= k < w.push(a).len() && w.push(a)[k] == y;
                if k == w.len() {
                    assert(ids[ids.len() - 1] == y);
                } else {
                    assert(w[k] == y);
                    assert(w.contains(y));
                }
            }
        }
    }
}

/// A list of ids without `x`.
pub open spec fn without(list: Seq<u128>, x: u128) -> Seq<u128>
    decreases list.len(),
{
    if list.len() == 0 {
        Seq::empty()
    } else {
        let prev = without(list.drop_last(), x);
        if list.last() == x {
            prev
        } else {
            prev.push(list.last())
        }
    }
}

/// The instances of the launcher, by id, and its groups of instances, by name. The
/// default group always exists, and each instance is kept under its own id.
#[derive(Debug)]
pub struct InstanceRegistry {
    pub groups: KeyedCache<String, Vec<u128>>,
    pub instances: KeyedCache<u128, InstanceSettingObj>,
}

impl InstanceRegistry {
    /// The registry is well formed.
    pub open spec fn wf(&self) -> bool {
        &&& self.groups.wf()
        &&& self.instances.wf()
        &&& self.groups@.contains_key(DEFAULT_GROUP@)
        &&& forall|k: u128| #[trigger]
            self.instances@.contains_key(k) ==> self.instances@[k].uuid == k
    }

    /// The groups, as lists of ids by name.
    pub open spec fn lists(&self) -> Map<Seq<char>, Seq<u128>> {
        group_lists(self.groups@)
    }

    /// A registry with no instance and the default group alone, empty.
    pub fn new() -> (r: Self)
        ensures
            r.wf(),
            r.lists() == map![DEFAULT_GROUP@ => Seq::<u128>::empty()],
            r.instances@ == Map::<u128, InstanceSettingObj>::empty(),
    {
        let mut groups: KeyedCache<String, Vec<u128>> = KeyedCache::new();
        let empty: Vec<u128> = Vec::new();
        groups.insert(copy_str(DEFAULT_GROUP), empty);
        let r = InstanceRegistry { groups, instances: KeyedCache::new() };
        assert(r.lists() =~= map![DEFAULT_GROUP@ => Seq::<u128>::empty()]);
        r
    }
}

/// All instances, each once, in no particular order.
pub fn get_instances(reg: &InstanceRegistry) -> (r: Vec<&InstanceSettingObj>)
    requires
        reg.wf(),
    ensures
        r@.len() == reg.instances@.dom().len(),
        forall|i: int|
            0 <= i < r@.len() ==> lookup(reg.instances@, (#[trigger] r@[i]).uuid) == Some(*r@[i]),
        forall|k: u128|
            #[trigger] reg.instances@.contains_key(k) ==> exists|i: int|
                0 <= i < r@.len() && r@[i].uuid == k,
        forall|i: int, j: int| 0 <= i < j < r@.len() ==> r@[i].uuid != r@[j].uuid,
{
    proof {
        reg.instances.lemma_entries();
    }
    let ghost es = reg.instances.entry_seq();
    let mut r: Vec<&InstanceSettingObj> = Vec::new();
    let mut i: usize = 0;
    let n = reg.instances.len();
    while i < n
        invariant
            n == es.len(),
            es == reg.instances.entry_seq(),
            reg.wf(),
            i <= n,
            r@.len() == i,
            forall|j: int| 0 <= j < i ==> *r@[j] == es[j].1,
        decreases n - i,
    {
        r.push(reg.instances.value_at(i));
        i = i + 1;
    }
    proof {
        assert forall|j: int| 0 <= j < r@.len() implies lookup(
            reg.instances@,
            (#[trigger] r@[j]).uuid,
        ) == Some(*r@[j]) by {
            assert(es[j] == reg.instances.entry_seq()[j]);
            assert(reg.instances@.contains_key(es[j].0));
        }
        assert forall|k: u128| #[trigger] reg.instances@.contains_key(k) implies exists|j: int|
            0 <= j < r@.len() && r@[j].uuid == k by {
            let j = choose|j: int| 0 <= j < es.len() && es[j].0 == k;
            assert(reg.instances.entry_seq()[j] == es[j]);
            assert(r@[j].uuid == k);
        }
        assert forall|a: int, b: int| 0 <= a < b < r@.len() implies r@[a].uuid != r@[b].uuid by {
            assert(reg.instances.entry_seq()[a] == es[a]);
            assert(reg.instances.entry_seq()[b] == es[b]);
            assert(reg.instances@.contains_key(es[a].0));
            assert(reg.instances@.contains_key(es[b].0));
        }
    }
    r
}

/// The instance of an id.
pub fn get_instance(reg: &InstanceRegistry, uuid: u128) -> (r: Option<&InstanceSettingObj>)
    requires
        reg.wf(),
    ensures
        match r {
            Some(v) => lookup(reg.instances@, uuid) == Some(*v),
            None => lookup(reg.instances@, uuid) is None,
        },
{
    reg.instances.get(&uuid)
}

/// The names of all groups, each once, in no particular order.
pub fn get_group_keys(reg: &InstanceRegistry) -> (r: Vec<String>)
    requires
        reg.wf(),
    ensures
        strings_view(r@).no_duplicates(),
        strings_view(r@).to_set() == reg.groups@.dom(),
{
    proof {
        reg.groups.lemma_entries();
    }
    let ghost es = reg.groups.entry_seq();
    let mut r: Vec<String> = Vec::new();
    let mut i: usize = 0;
    let n = reg.groups.len();
    while i < n
        invariant
            n == es.len(),
            es == reg.groups.entry_seq(),
            reg.wf(),
            i <= n,
            r@.len() == i,
            forall|j: int| 0 <= j < i ==> (#[trigger] r@[j])@ == es[j].0@,
        decreases n - i,
    {
        r.push(copy_str(reg.groups.key_at(i).as_str()));
        i = i + 1;
    }
    proof {
        let sv = strings_view(r@);
        assert forall|a: int, b: int| 0 <= a < sv.len() && 0 <= b < sv.len() && a != b implies sv[a]
            != sv[b] by {
            assert(sv[a] == es[a].0@);
            assert(sv[b] == es[b].0@);
        }
        assert forall|k: Seq<char>| sv.to_set().contains(k) <==> reg.groups@.dom().contains(k) by {
            if sv.to_set().contains(k) {
                let j = choose|j: int| 0 <= j < sv.len() && sv[j] == k;
                assert(reg.groups.entry_seq()[j] == es[j]);
            }
            if reg.groups@.dom().contains(k) {
                assert(reg.groups@.contains_key(k));
                let j = choose|j: int| 0 <= j < es.len() && es[j].0@ == k;
                assert(sv[j] == k);
            }
        }
        assert(sv.to_set() =~= reg.groups@.dom());
    }
    r
}

/// The instances of a group, in the group's order; none where the group does not exist.
pub fn get_group<'a>(reg: &'a InstanceRegistry, key: &str) -> (r: Vec<&'a InstanceSettingObj>)
    requires
        reg.wf(),
    ensures
        r@.map_values(|x: &InstanceSettingObj| *x) == members(
            list_or_empty(reg.lists(), key@),
            reg.instances@,
        ),
{
    let mut r: Vec<&InstanceSettingObj> = Vec::new();
    let name = copy_str(key);
    match reg.groups.get(&name) {
        None => {
            assert(r@.map_values(|x: &InstanceSettingObj| *x) =~= Seq::<InstanceSettingObj>::empty());
            r
        },
        Some(list) => {
            let mut i: usize = 0;
            assert(list@.take(0) =~= Seq::<u128>::empty());
            while i < list.len()
                invariant
                    reg.wf(),
                    i <= list@.len(),
                    r@.map_values(|x: &InstanceSettingObj| *x) == members(
                        list@.take(i as int),
                        reg.instances@,
                    ),
                decreases list@.len() - i,
            {
                let ghost before = r@;
                assert(list@.take(i + 1).drop_last() =~= list@.take(i as int));
                if let Some(instance) = reg.instances.get(&list[i]) {
                    r.push(instance);
                    assert(r@.map_values(|x: &InstanceSettingObj| *x) =~= before.map_values(
                        |x: &InstanceSettingObj| *x,
                    ).push(*instance));
                }
                i = i + 1;
            }
            assert(list@.take(i as int) =~= list@);
            r
        },
    }
}

/// Adds an empty group; false, with nothing changed, where the group exists.
pub fn add_group(reg: &mut InstanceRegistry, name: &str) -> (r: bool)
    requires
        old(reg).wf(),
    ensures
        final(reg).wf(),
        r == !old(reg).lists().contains_key(name@),
        r ==> final(reg).lists() == old(reg).lists().insert(name@, Seq::empty()),
        !r ==> final(reg).lists() == old(reg).lists(),
        final(reg).instances@ == old(reg).instances@,
{
    let key = copy_str(name);
    if reg.groups.contains(&key) {
        false
    } else {
        let empty: Vec<u128> = Vec::new();
        reg.groups.insert(key, empty);
        assert(reg.lists() =~= old(reg).lists().insert(name@, Seq::empty()));
        true
    }
}

/// Removes a group; its instances join the default group. False, with nothing
/// changed, where the group does not exist. The default group itself is never removed.
pub fn remove_group(reg: &mut InstanceRegistry, name: &str) -> (r: bool)
    requires
        old(reg).wf(),
        name@ != DEFAULT_GROUP@,
    ensures
        final(reg).wf(),
        r == old(reg).lists().contains_key(name@),
        r ==> final(reg).lists() == old(reg).lists().remove(name@).insert(
            DEFAULT_GROUP@,
            old(reg).lists()[DEFAULT_GROUP@] + old(reg).lists()[name@],
        ),
        !r ==> final(reg).lists() == old(reg).lists(),
        final(reg).instances@ == old(reg).instances@,
{
    let key = copy_str(name);
    match reg.groups.remove(&key) {
        None => {
            assert(reg.lists() =~= old(reg).lists());
            false
        },
        Some(items) => {
            let default_key = copy_str(DEFAULT_GROUP);
            let ghost mid = reg.groups@;
            match reg.groups.remove(&default_key) {
                Some(mut list) => {
                    let ghost start = list@;
                    let mut i: usize = 0;
                    while i < items.len()
                        invariant
                            i <= items@.len(),
                            list@ == start + items@.take(i as int),
                        decreases items@.len() - i,
                    {
                        list.push(items[i]);
                        assert(items@.take(i + 1) =~= items@.take(i as int).push(items@[i as int]));
                        i = i + 1;
                    }
                    assert(items@.take(i as int) =~= items@);
                    reg.groups.insert(default_key, list);
                    assert(reg.lists() =~= old(reg).lists().remove(name@).insert(
                        DEFAULT_GROUP@,
                        old(reg).lists()[DEFAULT_GROUP@] + old(reg).lists()[name@],
                    ));
                },
                None => {
                    assert(mid.contains_key(DEFAULT_GROUP@));
                },
            }
            true
        },
    }
}

/// Whether an instance of this name exists, ASCII case aside.
pub open spec fn name_taken(inst: Map<u128, InstanceSettingObj>, name: Seq<char>) -> bool {
    exists|k: u128| #[trigger]
        inst.contains_key(k) && spec_eq_ignore_ascii_case(inst[k].name@, name)
}

/// An instance of this name (ASCII case aside), where there is one; which one, where
/// several have it, is left open.
pub fn get_instance_by_name<'a>(reg: &'a InstanceRegistry, name: &str) -> (r: Option<
    &'a InstanceSettingObj,
>)
    requires
        reg.wf(),
    ensures
        match r {
            Some(v) => lookup(reg.instances@, v.uuid) == Some(*v) && spec_eq_ignore_ascii_case(
                v.name@,
                name@,
            ),
            None => !name_taken(reg.instances@, name@),
        },
{
    proof {
        reg.instances.lemma_entries();
    }
    let ghost es = reg.instances.entry_seq();
    let n = reg.instances.len();
    let mut i: usize = 0;
    while i < n
        invariant
            n == es.len(),
            es == reg.instances.entry_seq(),
            reg.wf(),
            i <= n,
            forall|j: int| 0 <= j < i ==> !spec_eq_ignore_ascii_case(#[trigger] es[j].1.name@, name@),
        decreases n - i,
    {
        let item = reg.instances.value_at(i);
        if eq_ignore_ascii_case(item.name.as_str(), name) {
            proof {
                reg.instances.lemma_entries();
                assert(reg.instances.entry_seq()[i as int] == es[i as int]);
                assert(reg.instances@.contains_key(es[i as int].0));
            }
            return Some(item);
        }
        i = i + 1;
    }
    proof {
        if name_taken(reg.instances@, name@) {
            let k = choose|k: u128|
                #[trigger] reg.instances@.contains_key(k) && spec_eq_ignore_ascii_case(
                    reg.instances@[k].name@,
                    name@,
                );
            let j = choose|j: int| 0 <= j < es.len() && es[j].0 == k;
            assert(reg.instances.entry_seq()[j] == es[j]);
            assert(!spec_eq_ignore_ascii_case(es[j].1.name@, name@));
        }
    }
    None
}

/// Whether an instance of this name exists, ASCII case aside.
pub fn have_instance_name(reg: &InstanceRegistry, name: &str) -> (r: bool)
    requires
        reg.wf(),
    ensures
        r == name_taken(reg.instances@, name@),
{
    match get_instance_by_name(reg, name) {
        Some(v) => {
            assert(reg.instances@.contains_key(v.uuid));
            true
        },
        None => false,
    }
}

/// Whether an instance can be added under this id: it is not the nil id and no
/// instance has it.
pub fn is_free_uuid(reg: &InstanceRegistry, uuid: u128) -> (r: bool)
    requires
        reg.wf(),
    ensures
        r == (uuid != 0 && !reg.instances@.contains_key(uuid)),
{
    uuid != 0 && !reg.instances.contains(&uuid)
}

/// Adds an instance under its id, at the end of its group, which is made where it does
/// not exist.
pub fn add_to_group(reg: &mut InstanceRegistry, obj: InstanceSettingObj)
    requires
        old(reg).wf(),
        obj.uuid != 0,
        !old(reg).instances@.contains_key(obj.uuid),
    ensures
        final(reg).wf(),
        final(reg).instances@ == old(reg).instances@.insert(obj.uuid, obj),
        final(reg).lists() == old(reg).lists().insert(
            group_key(obj.group),
            list_or_empty(old(reg).lists(), group_key(obj.group)).push(obj.uuid),
        ),
{
    let uuid = obj.uuid;
    let key = match &obj.group {
        Some(g) => copy_str(g.as_str()),
        None => copy_str(DEFAULT_GROUP),
    };
    let ghost gk = group_key(obj.group);
    reg.instances.insert(uuid, obj);
    let mut list = match reg.groups.remove(&key) {
        Some(list) => list,
        None => Vec::new(),
    };
    list.push(uuid);
    reg.groups.insert(key, list);
    assert(reg.lists() =~= old(reg).lists().insert(
        gk,
        list_or_empty(old(reg).lists(), gk).push(uuid),
    ));
}

/// A list of ids without `x`.
fn remove_id(list: &Vec<u128>, x: u128) -> (r: Vec<u128>)
    ensures
        r@ == without(list@, x),
{
    let mut r: Vec<u128> = Vec::new();
    let mut i: usize = 0;
    assert(list@.take(0) =~= Seq::<u128>::empty());
    while i < list.len()
        invariant
            i <= list@.len(),
            r@ == without(list@.take(i as int), x),
        decreases list@.len() - i,
    {
        assert(list@.take(i + 1).drop_last() =~= list@.take(i as int));
        if list[i] != x {
            r.push(list[i]);
        }
        i = i + 1;
    }
    assert(list@.take(i as int) =~= list@);
    r
}

/// Removes an instance: its id leaves every group, and the instance is forgotten.
pub open spec fn lists_without(lists: Map<Seq<char>, Seq<u128>>, x: u128) -> Map<
    Seq<char>,
    Seq<u128>,
> {
    lists.map_values(|l: Seq<u128>| without(l, x))
}

/// A list without `x` holds exactly what the list held other than `x`.
proof fn lemma_without_contains(list: Seq<u128>, x: u128, y: u128)
    ensures
        without(list, x).contains(y) <==> (list.contains(y) && y != x),
    decreases list.len(),
{
    if list.len() > 0 {
        let d = list.drop_last();
        let a = list.last();
        lemma_without_contains(d, x, y);
        assert(list =~= d.push(a));
        let w = without(d, x);
        if list.contains(y) && y != x {
            let k = choose|k: int| 0 <= k < list.len() && list[k] == y;
            if k < d.len() {
                assert(d[k] == y);
                if a != x {
                    let j = choose|j: int| 0 <= j < w.len() && w[j] == y;
                    assert(w.push(a)[j] == y);
                }
            } else {
                assert(a == y);
                assert(w.push(a)[w.len() as int] == y);
            }
        }
        if without(list, x).contains(y) {
            if a != x {
                let j = choose|j: int| 0 <= j < w.push(a).len() && w.push(a)[j] == y;
                if j < w.len() {
                    assert(w[j] == y);
                } else {
                    assert(list[list.len() - 1] == y);
                }
                if j < w.len() {
                    assert(d.contains(y));
                    let k = choose|k: int| 0 <= k < d.len() && d[k] == y;
                    assert(list[k] == y);
                }
            } else {
                assert(d.contains(y));
                let k = choose|k: int| 0 <= k < d.len() && d[k] == y;
                assert(list[k] == y);
            }
        }
    }
}

/// Removing an instance (see `remove_from_group`) forgets it and takes its id out of
/// every group; every other instance stays registered as it was and in the same
/// groups, and the names of the groups stay the same.
pub proof fn law_remove_instance(
    lists: Map<Seq<char>, Seq<u128>>,
    instances: Map<u128, InstanceSettingObj>,
    uuid: u128,
    other: u128,
    g: Seq<char>,
)
    ensures
        !instances.remove(uuid).contains_key(uuid),
        lists_without(lists, uuid).dom() == lists.dom(),
        lists.contains_key(g) ==> !lists_without(lists, uuid)[g].contains(uuid),
        other != uuid ==> lookup(instances.remove(uuid), other) == lookup(instances, other),
        other != uuid && lists.contains_key(g) ==> (lists_without(lists, uuid)[g].contains(other)
            <==> lists[g].contains(other)),
{
    assert(lists_without(lists, uuid).dom() =~= lists.dom());
    if lists.contains_key(g) {
        lemma_without_contains(lists[g], uuid, uuid);
        lemma_without_contains(lists[g], uuid, other);
    }
}

/// After `remove_from_group` of an instance (from `before` to `after`, as its contract
/// relates them): the instance is no longer registered and its id is in no group;
/// every other instance is registered as before and in the same groups; the group
/// names, the default group among them, are the same.
pub proof fn law_removed_instance_gone(
    before: InstanceRegistry,
    after: InstanceRegistry,
    uuid: u128,
    other: u128,
    g: Seq<char>,
)
    requires
        after.instances@ == before.instances@.remove(uuid),
        after.lists() == lists_without(before.lists(), uuid),
    ensures
        lookup(after.instances@, uuid) is None,
        after.lists().dom() == before.lists().dom(),
        after.lists().contains_key(g) ==> !after.lists()[g].contains(uuid),
        other != uuid ==> lookup(after.instances@, other) == lookup(before.instances@, other),
        other != uuid && after.lists().contains_key(g) ==> (after.lists()[g].contains(other)
            <==> before.lists()[g].contains(other)),
{
    law_remove_instance(before.lists(), before.instances@, uuid, other, g);
}

/// Removes an instance: its id leaves every group and the instance is forgotten.
pub fn remove_from_group(reg: &mut InstanceRegistry, uuid: u128)
    requires
        old(reg).wf(),
    ensures
        final(reg).wf(),
        final(reg).instances@ == old(reg).instances@.remove(uuid),
        final(reg).lists() == lists_without(old(reg).lists(), uuid),
{
    let mut groups: KeyedCache<String, Vec<u128>> = KeyedCache::new();
    proof {
        reg.groups.lemma_entries();
    }
    let ghost es = reg.groups.entry_seq();
    let n = reg.groups.len();
    let mut i: usize = 0;
    while i < n
        invariant
            n == es.len(),
            es == reg.groups.entry_seq(),
            reg.groups.wf(),
            reg.groups@ == old(reg).groups@,
            groups.wf(),
            i <= n,
            forall|k: Seq<char>| #[trigger]
                groups@.contains_key(k) <==> exists|j: int| 0 <= j < i && es[j].0@ == k,
            forall|j: int|
                #![trigger es[j]]
                0 <= j < i ==> groups@.contains_key(es[j].0@) && groups@[es[j].0@]@ == without(
                    es[j].1@,
                    uuid,
                ),
        decreases n - i,
    {
        let key = copy_str(reg.groups.key_at(i).as_str());
        let list = remove_id(reg.groups.value_at(i), uuid);
        let ghost before = groups@;
        groups.insert(key, list);
        proof {
            reg.groups.lemma_entries();
            assert forall|j: int| #![trigger es[j]] 0 <= j < i + 1 implies groups@.contains_key(
                es[j].0@,
            ) && groups@[es[j].0@]@ == without(es[j].1@, uuid) by {
                if j < i {
                    assert(es[j].0@ != es[i as int].0@);
                }
            }
            assert forall|k: Seq<char>| #[trigger]
                groups@.contains_key(k) <==> exists|j: int| 0 <= j < i + 1 && es[j].0@ == k by {
                if groups@.contains_key(k) && k != es[i as int].0@ {
                    assert(before.contains_key(k));
                }
            }
        }
        i = i + 1;
    }
    proof {
        assert forall|k: Seq<char>| #[trigger]
            groups@.contains_key(k) <==> old(reg).groups@.contains_key(k) by {
            if groups@.contains_key(k) {
                let j = choose|j: int| 0 <= j < n && es[j].0@ == k;
                assert(old(reg).groups.entry_seq()[j] == es[j]);
            }
        }
        assert forall|k: Seq<char>| #[trigger] groups@.contains_key(k) implies groups@[k]@
            == without(old(reg).groups@[k]@, uuid) by {
            let j = choose|j: int| 0 <= j < n && es[j].0@ == k;
            assert(old(reg).groups.entry_seq()[j] == es[j]);
        }
        assert(group_lists(groups@) =~= lists_without(old(reg).lists(), uuid));
    }
    reg.groups = groups;
    reg.instances.remove(&uuid);
}

/// An instance with its group set to `group`.
pub open spec fn with_group(g: InstanceSettingObj, group: Option<String>) -> InstanceSettingObj {
    InstanceSettingObj { group, ..g }
}

/// One instance moved to the group `new` (the default group for `None`): its id leaves
/// the list of its group, where that group exists, and joins the end of the new one,
/// which is made where it does not exist. An id of no instance changes nothing.
pub open spec fn move_one(
    lists: Map<Seq<char>, Seq<u128>>,
    inst: Map<u128, InstanceSettingObj>,
    uuid: u128,
    new: Option<String>,
) -> (Map<Seq<char>, Seq<u128>>, Map<u128, InstanceSettingObj>) {
    if !inst.contains_key(uuid) {
        (lists, inst)
    } else {
        let g = inst[uuid];
        let from = group_key(g.group);
        let lists1 = if lists.contains_key(from) {
            lists.insert(from, without(lists[from], uuid))
        } else {
            lists
        };
        let to = group_key(new);
        (
            lists1.insert(to, list_or_empty(lists1, to).push(uuid)),
            inst.insert(uuid, with_group(g, new)),
        )
    }
}

/// Instances moved, in the order of `list`, to the group `new`.
pub open spec fn move_all(
    lists: Map<Seq<char>, Seq<u128>>,
    inst: Map<u128, InstanceSettingObj>,
    list: Seq<u128>,
    new: Option<String>,
) -> (Map<Seq<char>, Seq<u128>>, Map<u128, InstanceSettingObj>)
    decreases list.len(),
{
    if list.len() == 0 {
        (lists, inst)
    } else {
        let prev = move_all(lists, inst, list.drop_last(), new);
        move_one(prev.0, prev.1, list.last(), new)
    }
}

/// The ids of a list that name an instance, in order.
pub open spec fn present(list: Seq<u128>, inst: Map<u128, InstanceSettingObj>) -> Seq<u128>
    decreases list.len(),
{
    if list.len() == 0 {
        Seq::empty()
    } else {
        let prev = present(list.drop_last(), inst);
        if inst.contains_key(list.last()) {
            prev.push(list.last())
        } else {
            prev
        }
    }
}

/// A copy of a group name that may be absent.
fn copy_group(group: &Option<String>) -> (r: Option<String>)
    ensures
        r == *group,
{
    match group {
        Some(g) => Some(g.clone()),
        None => None,
    }
}

/// The name of the group of an instance: its own, or the default one.
fn group_name(group: &Option<String>) -> (r: String)
    ensures
        r@ == group_key(*group),
{
    match group {
        Some(g) => copy_str(g.as_str()),
        None => copy_str(DEFAULT_GROUP),
    }
}

/// Moves one instance to the group `new`; whether the id names an instance.
fn move_one_instance(reg: &mut InstanceRegistry, uuid: u128, new: &Option<String>) -> (r: bool)
    requires
        old(reg).wf(),
    ensures
        final(reg).wf(),
        (final(reg).lists(), final(reg).instances@) == move_one(
            old(reg).lists(),
            old(reg).instances@,
            uuid,
            *new,
        ),
        r == old(reg).instances@.contains_key(uuid),
{
    let mut game = match reg.instances.remove(&uuid) {
        None => {
            assert(reg.instances@ =~= old(reg).instances@);
            return false;
        },
        Some(game) => game,
    };
    let ghost g = game;
    let from = group_name(&game.group);
    let ghost lists0 = reg.lists();
    let ghost lists1 = if lists0.contains_key(from@) {
        lists0.insert(from@, without(lists0[from@], uuid))
    } else {
        lists0
    };
    match reg.groups.remove(&from) {
        Some(list) => {
            let kept = remove_id(&list, uuid);
            reg.groups.insert(from, kept);
        },
        None => {},
    }
    assert(reg.lists() =~= lists1);
    let to = group_name(new);
    let ghost to_key = to@;
    let mut list = match reg.groups.remove(&to) {
        Some(list) => list,
        None => Vec::new(),
    };
    list.push(uuid);
    reg.groups.insert(to, list);
    assert(reg.lists() =~= lists1.insert(to_key, list_or_empty(lists1, to_key).push(uuid)));
    game.group = copy_group(new);
    assert(game == with_group(g, *new));
    reg.instances.insert(uuid, game);
    assert(reg.instances@ =~= old(reg).instances@.insert(uuid, with_group(g, *new)));
    true
}

/// Moves instances, in the order of `list`, to the group `new` (the default group for
/// `None`; see `move_one`). Gives the ids that named an instance, in order: those whose
/// settings are to be saved.
pub fn move_group(reg: &mut InstanceRegistry, list: &Vec<u128>, new: Option<String>) -> (r: Vec<
    u128,
>)
    requires
        old(reg).wf(),
    ensures
        final(reg).wf(),
        (final(reg).lists(), final(reg).instances@) == move_all(
            old(reg).lists(),
            old(reg).instances@,
            list@,
            new,
        ),
        r@ == present(list@, old(reg).instances@),
{
    let mut moved: Vec<u128> = Vec::new();
    let mut i: usize = 0;
    assert(list@.take(0) =~= Seq::<u128>::empty());
    while i < list.len()
        invariant
            reg.wf(),
            i <= list@.len(),
            (reg.lists(), reg.instances@) == move_all(
                old(reg).lists(),
                old(reg).instances@,
                list@.take(i as int),
                new,
            ),
            moved@ == present(list@.take(i as int), old(reg).instances@),
            forall|k: u128| old(reg).instances@.contains_key(k) <==> reg.instances@.contains_key(k),
        decreases list@.len() - i,
    {
        assert(list@.take(i + 1).drop_last() =~= list@.take(i as int));
        if move_one_instance(reg, list[i], &new) {
            moved.push(list[i]);
        }
        i = i + 1;
    }
    assert(list@.take(i as int) =~= list@);
    moved
}

// ---------------------------------------------------------------------------
// Laws of the registry
// ---------------------------------------------------------------------------

/// Every id in a group names an instance.
pub open spec fn ids_known(lists: Map<Seq<char>, Seq<u128>>, inst: Map<u128, InstanceSettingObj>) -> bool {
    forall|g: Seq<char>, i: int|
        #![trigger lists[g][i]]
        lists.contains_key(g) && 0 <= i < lists[g].len() ==> inst.contains_key(lists[g][i])
}

/// An id is in some group.
pub open spec fn in_some_group(lists: Map<Seq<char>, Seq<u128>>, x: u128) -> bool {
    exists|g: Seq<char>| #[trigger] lists.contains_key(g) && lists[g].contains(x)
}

/// Removing an id that a list does not hold leaves the list as it was.
proof fn lemma_without_absent(ids: Seq<u64>, id: u64)
    requires
        !ids.contains(id),
    ensures
        without_id(ids, id) == ids,
    decreases ids.len(),
{
    if ids.len() > 0 {
        let d = ids.drop_last();
        assert(!d.contains(id)) by {
            if d.contains(id) {
                let i = choose|i: int| 0 <= i < d.len() && d[i] == id;
                assert(ids[i] == id);
            }
        }
        lemma_without_absent(d, id);
        assert(ids.last() != id) by {
            assert(ids[ids.len() - 1] == ids.last());
        }
        assert(d.push(ids.last()) =~= ids);
    }
}

/// A handler that is added and then removed by the id it was given leaves the ids as
/// they were before it was added.
pub proof fn law_add_then_remove_handler(ids: Seq<u64>, id: u64)
    requires
        !ids.contains(id),
    ensures
        without_id(ids.push(id), id) == ids,
{
    lemma_without_absent(ids, id);
    assert(ids.push(id).drop_last() =~= ids);
}

/// Once a handler is removed by its id, the handlers a later event goes to (see
/// `EventHandlers::receivers`) are the others: the removed one is not among them, each
/// other handler held is, and none is there twice. Removing an id that is not held
/// leaves them as they were.
pub proof fn law_event_after_remove<F>(h: EventHandlers<F>, id: u64, other: u64)
    requires
        h.wf(),
    ensures
        !without_id(h.ids(), id).contains(id),
        without_id(h.ids(), id).no_duplicates(),
        other != id && h.ids().contains(other) ==> without_id(h.ids(), id).contains(other),
        !h.ids().contains(id) ==> without_id(h.ids(), id) == h.ids(),
{
    law_remove_handler(h.ids(), id, other);
    lemma_without_distinct(h.ids(), id);
    if !h.ids().contains(id) {
        lemma_without_absent(h.ids(), id);
    }
}

/// Handlers `h` and `h2` are added (given the ids `a` and `a + 1`, as `add_handler`
/// gives them) and `h` is removed by its id: a later event goes to `h2` once and not to
/// `h`, and to every handler held before, once; removing an id that is not held then
/// changes nothing.
pub proof fn law_add_add_remove<F>(h: EventHandlers<F>, unknown: u64)
    requires
        h.wf(),
        h.next() + 1 < u64::MAX,
    ensures
        ({
            let a = h.next();
            let after = without_id(h.ids().push(a).push((a + 1) as u64), a);
            &&& !after.contains(a)
            &&& after.contains((a + 1) as u64)
            &&& after.no_duplicates()
            &&& forall|x: u64| h.ids().contains(x) ==> after.contains(x)
            &&& (!after.contains(unknown) ==> without_id(after, unknown) == after)
        }),
{
    let a = h.next();
    let b = (a + 1) as u64;
    let ids = h.ids();
    assert(!ids.contains(a)) by {
        if ids.contains(a) {
            let i = choose|i: int| 0 <= i < ids.len() && ids[i] == a;
            assert(h.ids()[i] == a);
            assert(h.handlers@[i].0 == a);
        }
    }
    assert(!ids.contains(b)) by {
        if ids.contains(b) {
            let i = choose|i: int| 0 <= i < ids.len() && ids[i] == b;
            assert(h.handlers@[i].0 == b);
        }
    }
    lemma_push_distinct(ids, a);
    lemma_push_contains_id(ids, a, b);
    lemma_push_distinct(ids.push(a), b);
    let both = ids.push(a).push(b);
    lemma_without_distinct(both, a);
    law_remove_handler(both, a, b);
    lemma_push_contains_id(ids.push(a), b, b);
    assert forall|x: u64| ids.contains(x) implies without_id(both, a).contains(x) by {
        lemma_push_contains_id(ids, a, x);
        lemma_push_contains_id(ids.push(a), b, x);
        law_remove_handler(both, a, x);
    }
    let after = without_id(both, a);
    if !after.contains(unknown) {
        lemma_without_absent(after, unknown);
    }
}

/// `law_add_add_remove` for the exit handlers: after `add_exit` twice and `remove_exit`
/// of the first id, a later exit goes to the second handler once and not the first.
pub proof fn law_remove_exit<E, C, L>(events: InstanceEvents<E, C, L>, unknown: u64)
    requires
        events.exit.wf(),
        events.exit.next() + 1 < u64::MAX,
    ensures
        ({
            let a = events.exit.next();
            let after = without_id(events.exit.ids().push(a).push((a + 1) as u64), a);
            &&& !after.contains(a)
            &&& after.contains((a + 1) as u64)
            &&& after.no_duplicates()
            &&& (!after.contains(unknown) ==> without_id(after, unknown) == after)
        }),
{
    law_add_add_remove(events.exit, unknown);
}

/// `law_add_add_remove` for the change handlers.
pub proof fn law_remove_change<E, C, L>(events: InstanceEvents<E, C, L>, unknown: u64)
    requires
        events.change.wf(),
        events.change.next() + 1 < u64::MAX,
    ensures
        ({
            let a = events.change.next();
            let after = without_id(events.change.ids().push(a).push((a + 1) as u64), a);
            &&& !after.contains(a)
            &&& after.contains((a + 1) as u64)
            &&& after.no_duplicates()
            &&& (!after.contains(unknown) ==> without_id(after, unknown) == after)
        }),
{
    law_add_add_remove(events.change, unknown);
}

/// `law_add_add_remove` for the run-log handlers.
pub proof fn law_remove_run_log<E, C, L>(events: InstanceEvents<E, C, L>, unknown: u64)
    requires
        events.run_log.wf(),
        events.run_log.next() + 1 < u64::MAX,
    ensures
        ({
            let a = events.run_log.next();
            let after = without_id(events.run_log.ids().push(a).push((a + 1) as u64), a);
            &&& !after.contains(a)
            &&& after.contains((a + 1) as u64)
            &&& after.no_duplicates()
            &&& (!after.contains(unknown) ==> without_id(after, unknown) == after)
        }),
{
    law_add_add_remove(events.run_log, unknown);
}

/// A sequence with one more element holds what it held and that element.
proof fn lemma_push_contains(s: Seq<u128>, a: u128, y: u128)
    ensures
        s.push(a).contains(y) <==> (s.contains(y) || a == y),
{
    if s.push(a).contains(y) {
        let i = choose|i: int| 0 <= i < s.push(a).len() && s.push(a)[i] == y;
        if i < s.len() {
            assert(s[i] == y);
        }
    }
    if s.contains(y) {
        let i = choose|i: int| 0 <= i < s.len() && s[i] == y;
        assert(s.push(a)[i] == y);
    }
    if a == y {
        assert(s.push(a)[s.len() as int] == y);
    }
}

/// What `without` keeps: every id but `x`, and nothing else.
pub proof fn lemma_without(list: Seq<u128>, x: u128)
    ensures
        !without(list, x).contains(x),
        forall|y: u128| y != x ==> (list.contains(y) <==> #[trigger] without(list, x).contains(y)),
    decreases list.len(),
{
    if list.len() > 0 {
        let d = list.drop_last();
        let a = list.last();
        lemma_without(d, x);
        assert(list =~= d.push(a));
        let wd = without(d, x);
        if a != x {
            lemma_push_contains(wd, a, x);
        }
        assert forall|y: u128| y != x implies (list.contains(y) <==> #[trigger] without(
            list,
            x,
        ).contains(y)) by {
            assert(wd.contains(y) <==> d.contains(y));
            lemma_push_contains(d, a, y);
            if a != x {
                lemma_push_contains(wd, a, y);
            }
        }
    }
}

/// Adding an instance keeps every id of every group naming an instance.
pub proof fn law_add_to_group_keeps_ids_known(
    lists: Map<Seq<char>, Seq<u128>>,
    inst: Map<u128, InstanceSettingObj>,
    obj: InstanceSettingObj,
)
    requires
        ids_known(lists, inst),
    ensures
        ids_known(
            lists.insert(group_key(obj.group), list_or_empty(lists, group_key(obj.group)).push(obj.uuid)),
            inst.insert(obj.uuid, obj),
        ),
{
    let k = group_key(obj.group);
    let l2 = lists.insert(k, list_or_empty(lists, k).push(obj.uuid));
    let i2 = inst.insert(obj.uuid, obj);
    assert forall|g: Seq<char>, i: int|
        #![trigger l2[g][i]]
        l2.contains_key(g) && 0 <= i < l2[g].len() implies i2.contains_key(l2[g][i]) by {
        if g == k && i < list_or_empty(lists, k).len() {
            assert(l2[g][i] == lists[k][i]);
        }
    }
}

/// Removing a group keeps every id of every group naming an instance, and every id
/// that was in a group stays in one.
pub proof fn law_remove_group_keeps_ids(
    lists: Map<Seq<char>, Seq<u128>>,
    inst: Map<u128, InstanceSettingObj>,
    name: Seq<char>,
    x: u128,
)
    requires
        lists.contains_key(name),
        lists.contains_key(DEFAULT_GROUP@),
        name != DEFAULT_GROUP@,
    ensures
        ids_known(lists, inst) ==> ids_known(
            lists.remove(name).insert(DEFAULT_GROUP@, lists[DEFAULT_GROUP@] + lists[name]),
            inst,
        ),
        in_some_group(lists, x) ==> in_some_group(
            lists.remove(name).insert(DEFAULT_GROUP@, lists[DEFAULT_GROUP@] + lists[name]),
            x,
        ),
{
    let d = DEFAULT_GROUP@;
    let l2 = lists.remove(name).insert(d, lists[d] + lists[name]);
    if ids_known(lists, inst) {
        assert forall|g: Seq<char>, i: int|
            #![trigger l2[g][i]]
            l2.contains_key(g) && 0 <= i < l2[g].len() implies inst.contains_key(l2[g][i]) by {
            if g == d {
                if i < lists[d].len() {
                    assert(l2[g][i] == lists[d][i]);
                } else {
                    assert(l2[g][i] == lists[name][i - lists[d].len()]);
                }
            }
        }
    }
    if in_some_group(lists, x) {
        let g = choose|g: Seq<char>| #[trigger] lists.contains_key(g) && lists[g].contains(x);
        let i = choose|i: int| 0 <= i < lists[g].len() && lists[g][i] == x;
        if g == name {
            assert(l2[d][lists[d].len() + i] == x);
            assert(l2.contains_key(d) && l2[d].contains(x));
        } else if g == d {
            assert(l2[d][i] == x);
            assert(l2.contains_key(d) && l2[d].contains(x));
        } else {
            assert(l2[g] == lists[g]);
            assert(l2.contains_key(g) && l2[g].contains(x));
        }
    }
}

/// A moved instance ends in its new group, with that group set; where the group
/// changes, it leaves the list of its former group. Every id of every group still
/// names an instance.
pub proof fn law_move_one_places(
    lists: Map<Seq<char>, Seq<u128>>,
    inst: Map<u128, InstanceSettingObj>,
    uuid: u128,
    new: Option<String>,
)
    requires
        inst.contains_key(uuid),
    ensures
        ({
            let (l2, i2) = move_one(lists, inst, uuid, new);
            &&& l2.contains_key(group_key(new))
            &&& l2[group_key(new)].last() == uuid
            &&& i2[uuid].group == new
            &&& (group_key(inst[uuid].group) != group_key(new) && l2.contains_key(
                group_key(inst[uuid].group),
            ) ==> !l2[group_key(inst[uuid].group)].contains(uuid))
            &&& (ids_known(lists, inst) ==> ids_known(l2, i2))
        }),
{
    let g = inst[uuid];
    let from = group_key(g.group);
    let to = group_key(new);
    let lists1 = if lists.contains_key(from) {
        lists.insert(from, without(lists[from], uuid))
    } else {
        lists
    };
    let (l2, i2) = move_one(lists, inst, uuid, new);
    if lists.contains_key(from) {
        lemma_without(lists[from], uuid);
    }
    if ids_known(lists, inst) {
        assert forall|k: Seq<char>, i: int|
            #![trigger l2[k][i]]
            l2.contains_key(k) && 0 <= i < l2[k].len() implies i2.contains_key(l2[k][i]) by {
            if l2[k][i] != uuid {
                if k == to && i < list_or_empty(lists1, to).len() {
                    assert(l2[k][i] == lists1[k][i]);
                }
                if lists1.contains_key(k) && (k != to || i < list_or_empty(lists1, to).len()) {
                    if k == from && lists.contains_key(from) {
                        lemma_without(lists[from], uuid);
                        assert(lists1[k].contains(l2[k][i]));
                        assert(lists[from].contains(l2[k][i]));
                        let j = choose|j: int| 0 <= j < lists[from].len() && lists[from][j] == l2[k][i];
                        assert(inst.contains_key(lists[from][j]));
                    } else {
                        assert(lists1[k] == lists[k]);
                        assert(inst.contains_key(lists[k][i]));
                    }
                }
            }
        }
    }
}

/// Removing an instance keeps every id of every group naming an instance, and its
/// id is in no group afterwards.
pub proof fn law_remove_instance_keeps_ids_known(
    lists: Map<Seq<char>, Seq<u128>>,
    inst: Map<u128, InstanceSettingObj>,
    uuid: u128,
)
    requires
        ids_known(lists, inst),
    ensures
        ids_known(lists_without(lists, uuid), inst.remove(uuid)),
        !in_some_group(lists_without(lists, uuid), uuid),
{
    let l2 = lists_without(lists, uuid);
    assert forall|g: Seq<char>, i: int|
        #![trigger l2[g][i]]
        l2.contains_key(g) && 0 <= i < l2[g].len() implies inst.remove(uuid).contains_key(l2[g][i]) by {
        lemma_without(lists[g], uuid);
        assert(l2[g] == without(lists[g], uuid));
        assert(l2[g].contains(l2[g][i]));
        if l2[g][i] == uuid {
            assert(false);
        }
        assert(lists[g].contains(l2[g][i]));
        let j = choose|j: int| 0 <= j < lists[g].len() && lists[g][j] == l2[g][i];
        assert(inst.contains_key(lists[g][j]));
    }
    if in_some_group(l2, uuid) {
        let g = choose|g: Seq<char>| #[trigger] l2.contains_key(g) && l2[g].contains(uuid);
        lemma_without(lists[g], uuid);
    }
}

/// Moving instances keeps every id of every group naming an instance.
pub proof fn law_move_all_keeps_ids_known(
    lists: Map<Seq<char>, Seq<u128>>,
    inst: Map<u128, InstanceSettingObj>,
    list: Seq<u128>,
    new: Option<String>,
)
    requires
        ids_known(lists, inst),
    ensures
        ids_known(move_all(lists, inst, list, new).0, move_all(lists, inst, list, new).1),
    decreases list.len(),
{
    if list.len() > 0 {
        law_move_all_keeps_ids_known(lists, inst, list.drop_last(), new);
        let prev = move_all(lists, inst, list.drop_last(), new);
        if prev.1.contains_key(list.last()) {
            law_move_one_places(prev.0, prev.1, list.last(), new);
        }
    }
}

/// Once a group is added it exists, so adding it again is refused (`add_group` answers
/// whether the group was absent).
pub proof fn law_add_group_twice(lists: Map<Seq<char>, Seq<u128>>, name: Seq<char>)
    ensures
        lists.insert(name, Seq::empty()).contains_key(name),
        lists.insert(name, Seq::empty())[name] == Seq::<u128>::empty(),
{
}

// ---------------------------------------------------------------------------
// Event handlers
// ---------------------------------------------------------------------------

/// The handlers of one kind of event, each under the id it was added with.
#[derive(Debug)]
pub struct EventHandlers<F> {
    handlers: Vec<(u64, F)>,
    next_id: u64,
}

impl<F> EventHandlers<F> {
    /// The ids of the handlers, in the order they were added.
    pub closed spec fn ids(&self) -> Seq<u64> {
        self.handlers@.map_values(|e: (u64, F)| e.0)
    }

    /// The id the next handler gets.
    pub closed spec fn next(&self) -> u64 {
        self.next_id
    }

    /// Every id held is below the next one, and no id is held twice.
    pub closed spec fn wf(&self) -> bool {
        &&& forall|i: int| 0 <= i < self.handlers@.len() ==> (#[trigger] self.handlers@[i]).0 < self.next_id
        &&& self.ids().no_duplicates()
    }

    /// No handler yet.
    pub fn new() -> (r: Self)
        ensures
            r.wf(),
            r.ids() == Seq::<u64>::empty(),
            r.next() == 0,
    {
        let r = EventHandlers { handlers: Vec::new(), next_id: 0 };
        assert(r.ids() =~= Seq::<u64>::empty());
        r
    }

    /// Adds a handler; gives its id, which no other handler held has.
    pub fn add_handler(&mut self, handler: F) -> (r: u64)
        requires
            old(self).wf(),
            old(self).next() < u64::MAX,
        ensures
            final(self).wf(),
            r == old(self).next(),
            !old(self).ids().contains(r),
            final(self).ids() == old(self).ids().push(r),
            final(self).next() == old(self).next() + 1,
    {
        let id = self.next_id;
        let ghost before = self.handlers@;
        assert(!self.ids().contains(id)) by {
            if self.ids().contains(id) {
                let i = choose|i: int| 0 <= i < self.ids().len() && self.ids()[i] == id;
                assert(self.handlers@[i].0 == id);
            }
        }
        self.handlers.push((id, handler));
        self.next_id = id + 1;
        assert(self.ids() =~= old(self).ids().push(id));
        proof {
            lemma_push_distinct(old(self).ids(), id);
        }
        id
    }

    /// Removes the handler of an id; the others stay, in their order.
    pub fn remove_handler(&mut self, id: u64)
        requires
            old(self).wf(),
        ensures
            final(self).wf(),
            final(self).ids() == without_id(old(self).ids(), id),
            final(self).next() == old(self).next(),
    {
        let mut kept: Vec<(u64, F)> = Vec::new();
        let ghost all = self.handlers@;
        let ghost all_ids = self.ids();
        let mut rest: Vec<(u64, F)> = Vec::new();
        std::mem::swap(&mut rest, &mut self.handlers);
        assert(all_ids.take(0) =~= Seq::<u64>::empty());
        assert(kept@.map_values(|e: (u64, F)| e.0) =~= Seq::<u64>::empty());
        while rest.len() > 0
            invariant
                rest@.len() <= all.len(),
                rest@ == all.skip(all.len() - rest@.len()),
                kept@.map_values(|e: (u64, F)| e.0) == without_id(
                    all_ids.take(all.len() - rest@.len()),
                    id,
                ),
                forall|i: int| 0 <= i < kept@.len() ==> (#[trigger] kept@[i]).0 < self.next_id,
                forall|i: int| 0 <= i < all.len() ==> (#[trigger] all[i]).0 < self.next_id,
                all_ids == all.map_values(|e: (u64, F)| e.0),
            decreases rest@.len(),
        {
            let ghost k = all.len() - rest@.len();
            let e = rest.remove(0);
            assert(e == all[k]);
            assert(all_ids.take(k + 1).drop_last() =~= all_ids.take(k));
            assert(rest@ =~= all.skip(all.len() - rest@.len()));
            if e.0 != id {
                let ghost kb = kept@;
                kept.push(e);
                assert(kept@.map_values(|e: (u64, F)| e.0) =~= kb.map_values(|e: (u64, F)| e.0).push(
                    e.0,
                ));
            }
        }
        assert(all_ids.take(all.len() as int) =~= all_ids);
        self.handlers = kept;
        proof {
            lemma_without_distinct(all_ids, id);
        }
    }

    /// The handlers an event goes to, by id: each handler held, once, in the order
    /// they were added.
    pub fn receivers(&self) -> (r: Vec<u64>)
        requires
            self.wf(),
        ensures
            r@ == self.ids(),
            r@.no_duplicates(),
    {
        let mut r: Vec<u64> = Vec::new();
        let mut i: usize = 0;
        while i < self.handlers.len()
            invariant
                i <= self.handlers@.len(),
                r@ == self.ids().take(i as int),
            decreases self.handlers@.len() - i,
        {
            r.push(self.handlers[i].0);
            i = i + 1;
            assert(r@ =~= self.ids().take(i as int));
        }
        assert(self.ids().take(i as int) =~= self.ids());
        r
    }

    /// The handlers, in the order they were added.
    pub fn handlers(&self) -> (r: &Vec<(u64, F)>)
        ensures
            r@.map_values(|e: (u64, F)| e.0) == self.ids(),
    {
        &self.handlers
    }
}

/// A list of ids without `x`.
pub open spec fn without_id(list: Seq<u64>, x: u64) -> Seq<u64>
    decreases list.len(),
{
    if list.len() == 0 {
        Seq::empty()
    } else {
        let prev = without_id(list.drop_last(), x);
        if list.last() == x {
            prev
        } else {
            prev.push(list.last())
        }
    }
}

/// The handlers of the launcher's instance events: an instance exits, the instances
/// change, an instance writes to its log.
#[derive(Debug)]
pub struct InstanceEvents<E, C, L> {
    pub exit: EventHandlers<E>,
    pub change: EventHandlers<C>,
    pub run_log: EventHandlers<L>,
}

/// An instance stopped running, with the code its process exited with.
#[derive(Debug, Clone, Copy, PartialEq, Eq)]
pub struct InstanceExit {
    pub uuid: u128,
    pub code: i32,
}

/// A change to the set of instances or to their groups.
#[derive(Debug, Clone, PartialEq, Eq)]
pub enum InstanceChange {
    AddInstance(u128),
    RemoveInstance(u128),
    MoveGroup(u128, Option<String>),
}

/// What happened to an instance's run log.
#[derive(Debug)]
pub enum LogType {
    AddLog(GameLogItemObj),
    ClearLog,
}

/// A log event of one instance.
#[derive(Debug)]
pub struct InstanceLog {
    pub uuid: u128,
    pub log: LogType,
}

/// Adds an exit handler; gives its fresh id.
pub fn add_exit<E, C, L>(events: &mut InstanceEvents<E, C, L>, handler: E) -> (r: u64)
    requires
        old(events).exit.wf(),
        old(events).exit.next() < u64::MAX,
    ensures
        final(events).exit.wf(),
        r == old(events).exit.next(),
        !old(events).exit.ids().contains(r),
        final(events).exit.ids() == old(events).exit.ids().push(r),
        final(events).exit.next() == old(events).exit.next() + 1,
        final(events).change == old(events).change,
        final(events).run_log == old(events).run_log,
{
    events.exit.add_handler(handler)
}

/// Adds a change handler; gives its fresh id.
pub fn add_change<E, C, L>(events: &mut InstanceEvents<E, C, L>, handler: C) -> (r: u64)
    requires
        old(events).change.wf(),
        old(events).change.next() < u64::MAX,
    ensures
        final(events).change.wf(),
        r == old(events).change.next(),
        !old(events).change.ids().contains(r),
        final(events).change.ids() == old(events).change.ids().push(r),
        final(events).change.next() == old(events).change.next() + 1,
        final(events).exit == old(events).exit,
        final(events).run_log == old(events).run_log,
{
    events.change.add_handler(handler)
}

/// Adds a log handler; gives its fresh id.
pub fn add_run_log<E, C, L>(events: &mut InstanceEvents<E, C, L>, handler: L) -> (r: u64)
    requires
        old(events).run_log.wf(),
        old(events).run_log.next() < u64::MAX,
    ensures
        final(events).run_log.wf(),
        r == old(events).run_log.next(),
        !old(events).run_log.ids().contains(r),
        final(events).run_log.ids() == old(events).run_log.ids().push(r),
        final(events).run_log.next() == old(events).run_log.next() + 1,
        final(events).exit == old(events).exit,
        final(events).change == old(events).change,
{
    events.run_log.add_handler(handler)
}

/// The run logs of the instances, by instance id.
#[derive(Debug)]
pub struct RuntimeLogs {
    pub logs: KeyedCache<u128, GameRuntimeLog>,
}

/// The entries of an instance's run log, none where it has no log yet.
pub open spec fn entries_of(logs: Map<u128, GameRuntimeLog>, uuid: u128) -> Seq<GameLogItemObj> {
    match lookup(logs, uuid) {
        Some(l) => l.logs@,
        None => Seq::empty(),
    }
}

impl RuntimeLogs {
    /// No run log yet.
    pub fn new() -> (r: Self)
        ensures
            r.logs.wf(),
            r.logs@ == Map::<u128, GameRuntimeLog>::empty(),
    {
        RuntimeLogs { logs: KeyedCache::new() }
    }
}

/// Adds a message to an instance's run log, making the log where it has none. True
/// where the log was made by this call: only then is an add-log event due (a message
/// added to a log that already exists sends none).
pub fn add_game_log_item(store: &mut RuntimeLogs, uuid: u128, log: GameLog, time_millis: i64, offset_secs: i32) -> (r: bool)
    requires
        old(store).logs.wf(),
    ensures
        final(store).logs.wf(),
        r == !old(store).logs@.contains_key(uuid),
        final(store).logs@.dom() == old(store).logs@.dom().insert(uuid),
        forall|k: u128| k != uuid ==> lookup(#[trigger] final(store).logs@, k) == lookup(old(store).logs@, k),
        final(store).logs@[uuid].logs@ == spec_add_entry(
            entries_of(old(store).logs@, uuid),
            GameLogItemObj { time_millis, offset_secs, log },
        ),
{
    match store.logs.remove(&uuid) {
        Some(mut l) => {
            l.add_log_item(log, time_millis, offset_secs);
            store.logs.insert(uuid, l);
            false
        },
        None => {
            let mut l = GameRuntimeLog::new();
            l.add_log_item(log, time_millis, offset_secs);
            store.logs.insert(uuid, l);
            true
        },
    }
}

/// Empties an instance's run log, making an empty one where it has none; a clear-log
/// event is due either way.
pub fn clear_game_log(store: &mut RuntimeLogs, uuid: u128)
    requires
        old(store).logs.wf(),
    ensures
        final(store).logs.wf(),
        final(store).logs@.dom() == old(store).logs@.dom().insert(uuid),
        forall|k: u128| k != uuid ==> lookup(#[trigger] final(store).logs@, k) == lookup(old(store).logs@, k),
        final(store).logs@[uuid].logs@ == Seq::<GameLogItemObj>::empty(),
{
    match store.logs.remove(&uuid) {
        Some(mut l) => {
            l.clear();
            store.logs.insert(uuid, l);
        },
        None => {
            store.logs.insert(uuid, GameRuntimeLog::new());
        },
    }
}

/// The run log of an instance, where it has one.
pub fn get_runtime_log<'a>(store: &'a RuntimeLogs, uuid: u128) -> (r: Option<&'a GameRuntimeLog>)
    requires
        store.logs.wf(),
    ensures
        match r {
            Some(v) => lookup(store.logs@, uuid) == Some(*v),
            None => lookup(store.logs@, uuid) is None,
        },
{
    store.logs.get(&uuid)
}

/// Removes the exit handler of an id.
pub fn remove_exit<E, C, L>(events: &mut InstanceEvents<E, C, L>, id: u64)
    requires
        old(events).exit.wf(),
    ensures
        final(events).exit.wf(),
        final(events).exit.ids() == without_id(old(events).exit.ids(), id),
        final(events).exit.next() == old(events).exit.next(),
        final(events).change == old(events).change,
        final(events).run_log == old(events).run_log,
{
    events.exit.remove_handler(id);
}

/// Removes the change handler of an id.
pub fn remove_change<E, C, L>(events: &mut InstanceEvents<E, C, L>, id: u64)
    requires
        old(events).change.wf(),
    ensures
        final(events).change.wf(),
        final(events).change.ids() == without_id(old(events).change.ids(), id),
        final(events).change.next() == old(events).change.next(),
        final(events).exit == old(events).exit,
        final(events).run_log == old(events).run_log,
{
    events.change.remove_handler(id);
}

/// Removes the log handler of an id.
pub fn remove_run_log<E, C, L>(events: &mut InstanceEvents<E, C, L>, id: u64)
    requires
        old(events).run_log.wf(),
    ensures
        final(events).run_log.wf(),
        final(events).run_log.ids() == without_id(old(events).run_log.ids(), id),
        final(events).run_log.next() == old(events).run_log.next(),
        final(events).exit == old(events).exit,
        final(events).change == old(events).change,
{
    events.run_log.remove_handler(id);
}

/// A sequence with one more element holds what it held and that element.
proof fn lemma_push_contains_id(s: Seq<u64>, a: u64, y: u64)
    ensures
        s.push(a).contains(y) <==> (s.contains(y) || a == y),
{
    if s.push(a).contains(y) {
        let i = choose|i: int| 0 <= i < s.push(a).len() && s.push(a)[i] == y;
        if i < s.len() {
            assert(s[i] == y);
        }
    }
    if s.contains(y) {
        let i = choose|i: int| 0 <= i < s.len() && s[i] == y;
        assert(s.push(a)[i] == y);
    }
    if a == y {
        assert(s.push(a)[s.len() as int] == y);
    }
}

/// A removed handler's id is no longer held, and every other id stays.
pub proof fn law_remove_handler(ids: Seq<u64>, id: u64, other: u64)
    ensures
        !without_id(ids, id).contains(id),
        other != id ==> (ids.contains(other) <==> without_id(ids, id).contains(other)),
    decreases ids.len(),
{
    if ids.len() > 0 {
        let d = ids.drop_last();
        let a = ids.last();
        law_remove_handler(d, id, other);
        assert(ids =~= d.push(a));
        let w = without_id(d, id);
        lemma_push_contains_id(d, a, other);
        if a != id {
            lemma_push_contains_id(w, a, id);
            lemma_push_contains_id(w, a, other);
        }
    }
}


// ---------------------------------------------------------------------------
// Creating instances
// ---------------------------------------------------------------------------

/// An instance with what is kept beside it: its online file records and its custom
/// launch descriptions, by name.
#[derive(Debug)]
pub struct InstanceData {
    pub instance: InstanceSettingObj,
    pub online: KeyedCache<String, FileOnlineInfoObj>,
    pub custom: KeyedCache<String, CustomGameArgObj>,
}

/// What the user is asked while an instance is created under a taken name. Nothing is
/// promised of the answers.
pub trait IInstanceGui {
    /// Whether to take another name.
    fn name_replace(&self, name: &str) -> bool;
    /// Whether to overwrite the instance that has the name.
    fn overwrite(&self, obj: &InstanceSettingObj) -> bool;
}

/// What a copy of files reports as it goes.
pub trait ICopyGui {
    /// How far the copy is.
    fn update(&self, index: usize, count: usize);
    /// The file being copied.
    fn file(&self, file: &PathObj);
}

/// A name made of a base name and a number behind it.
pub open spec fn numbered(base: Seq<char>, k: nat) -> Seq<char> {
    base + spec_decimal(k)
}

/// The name an instance gets when its own is taken: the base name with the first number
/// from 1 on that makes a free name. Some number below `i32::MAX` must make one.
pub fn free_instance_name(reg: &InstanceRegistry, base: &str) -> (r: String)
    requires
        reg.wf(),
        exists|k: int|
            1 <= k < i32::MAX && !name_taken(reg.instances@, #[trigger] numbered(base@, k as nat)),
    ensures
        exists|k: int|
            #![trigger numbered(base@, k as nat)]
            1 <= k < i32::MAX && r@ == numbered(base@, k as nat) && !name_taken(
                reg.instances@,
                r@,
            ) && forall|j: int|
                1 <= j < k ==> name_taken(reg.instances@, #[trigger] numbered(base@, j as nat)),
{
    let mut a: i32 = 1;
    let mut name = copy_str(base);
    let d = decimal(1);
    push_str(&mut name, d.as_str());
    loop
        invariant
            reg.wf(),
            1 <= a <= i32::MAX,
            exists|k: int|
                1 <= k < i32::MAX && !name_taken(reg.instances@, #[trigger] numbered(base@, k as nat)),
            a == 1 ==> name@ == numbered(base@, 1),
            a > 1 ==> name@ == numbered(base@, (a - 1) as nat),
            forall|j: int|
                1 <= j < a - 1 ==> name_taken(reg.instances@, #[trigger] numbered(base@, j as nat)),
        decreases i32::MAX - a,
    {
        if !have_instance_name(reg, name.as_str()) {
            let ghost k: int = if a == 1 {
                1
            } else {
                a - 1
            };
            assert(name@ == numbered(base@, k as nat));
            assert(forall|j: int|
                1 <= j < k ==> name_taken(reg.instances@, #[trigger] numbered(base@, j as nat)));
            return name;
        }
        let mut next = copy_str(base);
        let d = decimal(a as u64);
        push_str(&mut next, d.as_str());
        name = next;
        assert(a + 1 <= i32::MAX) by {
            let k = choose|k: int|
                1 <= k < i32::MAX && !name_taken(reg.instances@, #[trigger] numbered(base@, k as nat));
            if a > 1 {
                assert(name_taken(reg.instances@, numbered(base@, (a - 1) as nat)));
            } else {
                assert(name_taken(reg.instances@, numbered(base@, 1)));
            }
            assert(k >= a);
        }
        a = a + 1;
    }
}

/// What creating an instance under a name comes to.
#[derive(Debug)]
pub enum CreatePlan {
    /// The user declined both to overwrite and to take another name.
    Cancel,
    /// The name is empty.
    EmptyName,
    /// Create under `name`, removing first the instance `remove`, where there is one.
    Create { name: String, remove: Option<u128> },
}

/// Decides how an instance is created under `name`. Where an instance has the name
/// (ASCII case aside), the user, where there is one to ask, is asked whether to
/// overwrite it and, where not, whether to take another name, and the creation is
/// cancelled where both are declined; otherwise the new instance takes the first free
/// numbered name (see `free_instance_name`) and the instance that had the name is
/// removed all the same. An empty name is refused.
pub fn plan_create<G: IInstanceGui>(reg: &InstanceRegistry, name: &str, gui: Option<&G>) -> (r:
    CreatePlan)
    requires
        reg.wf(),
        name_taken(reg.instances@, name@) ==> exists|k: int|
            1 <= k < i32::MAX && !name_taken(reg.instances@, #[trigger] numbered(name@, k as nat)),
    ensures
        !name_taken(reg.instances@, name@) ==> (if name@.len() == 0 {
            r is EmptyName
        } else {
            r matches CreatePlan::Create { name: n, remove: None } && n@ == name@
        }),
        name_taken(reg.instances@, name@) ==> match r {
            CreatePlan::Cancel => gui is Some,
            CreatePlan::EmptyName => false,
            CreatePlan::Create { name: n, remove } => remove matches Some(u) && reg.instances@.contains_key(u)
                && spec_eq_ignore_ascii_case(reg.instances@[u].name@, name@) && exists|k: int|
                #![trigger numbered(name@, k as nat)]
                1 <= k < i32::MAX && n@ == numbered(name@, k as nat) && !name_taken(
                    reg.instances@,
                    n@,
                ) && forall|j: int|
                    1 <= j < k ==> name_taken(reg.instances@, #[trigger] numbered(name@, j as nat)),
        },
{
    match get_instance_by_name(reg, name) {
        None => {
            proof {
                if name_taken(reg.instances@, name@) {
                    let k = choose|k: u128| #[trigger]
                        reg.instances@.contains_key(k) && spec_eq_ignore_ascii_case(reg.instances@[k].name@, name@);
                    assert(reg.instances@.contains_key(k));
                }
            }
            if name.is_empty() {
                CreatePlan::EmptyName
            } else {
                CreatePlan::Create { name: copy_str(name), remove: None }
            }
        },
        Some(old) => {
            assert(reg.instances@.contains_key(old.uuid));
            assert(name_taken(reg.instances@, name@));
            if let Some(g) = gui {
                let over = g.overwrite(old);
                if !over && !g.name_replace(name) {
                    return CreatePlan::Cancel;
                }
            }
            let new_name = free_instance_name(reg, name);
            CreatePlan::Create { name: new_name, remove: Some(old.uuid) }
        },
    }
}

/// The log encoding a new instance gets: GBK on Windows, else the one it has.
pub fn creation_encoding(os: Os, current: LogEncoding) -> (r: LogEncoding)
    ensures
        os == Os::Windows ==> r == LogEncoding::GBK,
        os != Os::Windows ==> r == current,
{
    if os == Os::Windows {
        LogEncoding::GBK
    } else {
        current
    }
}

/// Whether an online file record stays once the records are brought up to date: its
/// file is not there, nor, for a `jar`, the marker that it was switched off.
pub fn online_record_kept(file_exists: bool, is_jar: bool, disabled_exists: bool) -> (r: bool)
    ensures
        r == (!file_exists && !(is_jar && disabled_exists)),
{
    !file_exists && !(is_jar && disabled_exists)
}

/// A record is dropped: its file is on disk, or it is a jar whose switched-off marker is.
pub open spec fn record_dropped(state: (bool, bool, bool)) -> bool {
    !(!state.0 && !(state.1 && state.2))
}

/// The keys of the records that are dropped, by what the disk says of their files
/// (`flags[i]` for entry `i`: the file exists, it is a jar, its marker exists).
pub open spec fn dropped_keys(entries: Seq<(String, FileOnlineInfoObj)>, flags: Seq<(bool, bool, bool)>) -> Set<Seq<char>> {
    Set::new(
        |k: Seq<char>|
            exists|i: int| 0 <= i < entries.len() && #[trigger] entries[i].0@ == k && record_dropped(flags[i]),
    )
}

/// `k` is among the first `n` texts of `v`.
pub open spec fn among_first(v: Seq<String>, n: int, k: Seq<char>) -> bool {
    exists|j: int| 0 <= j < n && #[trigger] v[j]@ == k
}

/// Drops the online file records whose file is on disk, or whose file is a jar that
/// was switched off (its marker is on disk); the others stay. `flags[i]` says, of the
/// file of the record at entry `i`, whether it exists, whether it is a jar and whether
/// its marker exists.
pub fn update_online(online: &mut KeyedCache<String, FileOnlineInfoObj>, flags: &Vec<(bool, bool, bool)>)
    requires
        old(online).wf(),
        flags@.len() == old(online).entry_seq().len(),
    ensures
        final(online).wf(),
        final(online)@ == old(online)@.remove_keys(dropped_keys(old(online).entry_seq(), flags@)),
{
    let ghost entries = online.entry_seq();
    let ghost start = online@;
    let mut drop: Vec<String> = Vec::new();
    let n = online.len();
    let mut i: usize = 0;
    while i < n
        invariant
            n == entries.len(),
            entries == online.entry_seq(),
            flags@.len() == n,
            i <= n,
            forall|k: Seq<char>|
                among_first(drop@, drop@.len() as int, k) <==> exists|x: int|
                    0 <= x < i && #[trigger] entries[x].0@ == k && record_dropped(flags@[x]),
        decreases n - i,
    {
        let f = flags[i];
        if !online_record_kept(f.0, f.1, f.2) {
            let key = copy_str(online.key_at(i).as_str());
            let ghost before = drop@;
            assert(forall|k: Seq<char>|
                among_first(before, before.len() as int, k) <==> exists|x: int|
                    0 <= x < i && #[trigger] entries[x].0@ == k && record_dropped(flags@[x]));
            drop.push(key);
            assert forall|k: Seq<char>|
                among_first(drop@, drop@.len() as int, k) <==> exists|x: int|
                    0 <= x < i + 1 && #[trigger] entries[x].0@ == k && record_dropped(flags@[x]) by {
                if among_first(drop@, drop@.len() as int, k) {
                    let j = choose|j: int| 0 <= j < drop@.len() && #[trigger] drop@[j]@ == k;
                    if j < before.len() {
                        assert(before[j]@ == k);
                        assert(among_first(before, before.len() as int, k));
                    } else {
                        assert(entries[i as int].0@ == k);
                    }
                }
                if exists|x: int| 0 <= x < i + 1 && #[trigger] entries[x].0@ == k && record_dropped(flags@[x]) {
                    let x = choose|x: int| 0 <= x < i + 1 && #[trigger] entries[x].0@ == k && record_dropped(flags@[x]);
                    if x < i {
                        assert(exists|x2: int|
                            0 <= x2 < i && #[trigger] entries[x2].0@ == k && record_dropped(flags@[x2]));
                        assert(among_first(before, before.len() as int, k));
                        let j = choose|j: int| 0 <= j < before.len() && #[trigger] before[j]@ == k;
                        assert(drop@[j]@ == k);
                    } else {
                        assert(drop@[before.len() as int]@ == k);
                    }
                }
            }
        } else {
            assert forall|k: Seq<char>|
                among_first(drop@, drop@.len() as int, k) <==> exists|x: int|
                    0 <= x < i + 1 && #[trigger] entries[x].0@ == k && record_dropped(flags@[x]) by {
                if exists|x: int| 0 <= x < i + 1 && #[trigger] entries[x].0@ == k && record_dropped(flags@[x]) {
                    let x = choose|x: int| 0 <= x < i + 1 && #[trigger] entries[x].0@ == k && record_dropped(flags@[x]);
                    assert(x < i);
                }
            }
        }
        i = i + 1;
    }
    let mut j: usize = 0;
    while j < drop.len()
        invariant
            j <= drop@.len(),
            online.wf(),
            online@ == start.remove_keys(Set::new(|k: Seq<char>| among_first(drop@, j as int, k))),
        decreases drop@.len() - j,
    {
        let ghost before = online@;
        online.remove(&drop[j]);
        assert(online@ =~= start.remove_keys(Set::new(|k: Seq<char>| among_first(drop@, j + 1, k)))) by {
            assert forall|k: Seq<char>| among_first(drop@, j + 1, k) <==> (among_first(drop@, j as int, k) || k == drop@[j as int]@) by {
                if among_first(drop@, j + 1, k) {
                    let x = choose|x: int| 0 <= x < j + 1 && #[trigger] drop@[x]@ == k;
                    if x < j {
                        assert(among_first(drop@, j as int, k));
                    }
                }
                if k == drop@[j as int]@ {
                    assert(drop@[j as int]@ == k);
                }
                if among_first(drop@, j as int, k) {
                    let x = choose|x: int| 0 <= x < j && #[trigger] drop@[x]@ == k;
                    assert(drop@[x]@ == k);
                }
            }
        }
        j = j + 1;
    }
    assert(Set::new(|k: Seq<char>| among_first(drop@, drop@.len() as int, k)) =~= dropped_keys(entries, flags@));
}

/// Where an online file record's file lies: under the game directory, in its folder.
pub fn online_record_file(game_dir: &PathObj, info: &FileOnlineInfoObj) -> (r: PathObj)
    ensures
        r@ == game_dir@.push(info.path@).push(info.file@),
{
    game_dir.join(info.path.as_str()).join(info.file.as_str())
}

/// The marker that a mod file was switched off: `.disable` joined to its path.
pub fn disabled_marker(file: &PathObj) -> (r: PathObj)
    ensures
        r@ == file@.push(".disable"@),
{
    file.join(".disable")
}
} // verus!

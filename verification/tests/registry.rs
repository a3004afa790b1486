use mcml_game::launcher::game_setting_obj::InstanceSettingObj;
use mcml_game::{
    add_group, add_to_group, get_group, get_group_keys, get_instance, get_instance_by_name,
    get_instances, have_instance_name, is_free_uuid, move_group, remove_exit, remove_from_group,
    remove_group, remove_change, remove_run_log, EventHandlers, InstanceEvents, InstanceRegistry,
};

fn instance(uuid: u128, name: &str, group: Option<&str>) -> InstanceSettingObj {
    let mut obj = InstanceSettingObj::default();
    obj.uuid = uuid;
    obj.name = name.to_string();
    obj.group = group.map(|g| g.to_string());
    obj
}

fn sorted(mut v: Vec<String>) -> Vec<String> {
    v.sort();
    v
}

fn uuids(v: Vec<&InstanceSettingObj>) -> Vec<u128> {
    v.iter().map(|i| i.uuid).collect()
}

#[test]
fn new_registry_has_default_group() {
    let reg = InstanceRegistry::new();
    assert_eq!(get_group_keys(&reg), vec![String::new()]);
    assert!(get_instances(&reg).is_empty());
}

#[test]
fn add_group_once() {
    let mut reg = InstanceRegistry::new();
    assert!(add_group(&mut reg, "modded"));
    assert!(!add_group(&mut reg, "modded"));
    assert_eq!(sorted(get_group_keys(&reg)), vec![String::new(), "modded".to_string()]);
    assert!(get_group(&reg, "modded").is_empty());
    assert!(get_group(&reg, "missing").is_empty());
}

#[test]
fn add_and_find_instances() {
    let mut reg = InstanceRegistry::new();
    assert!(!is_free_uuid(&reg, 0));
    assert!(is_free_uuid(&reg, 1));
    add_to_group(&mut reg, instance(1, "Survival", None));
    add_to_group(&mut reg, instance(2, "Skyblock", Some("maps")));
    add_to_group(&mut reg, instance(3, "Creative", None));
    assert!(!is_free_uuid(&reg, 2));
    assert_eq!(uuids(get_group(&reg, "")), vec![1, 3]);
    assert_eq!(uuids(get_group(&reg, "maps")), vec![2]);
    let mut all = uuids(get_instances(&reg));
    all.sort();
    assert_eq!(all, vec![1, 2, 3]);
    assert_eq!(get_instance(&reg, 2).map(|i| i.name.clone()), Some("Skyblock".to_string()));
    assert!(get_instance(&reg, 9).is_none());
    assert_eq!(get_instance_by_name(&reg, "survival").map(|i| i.uuid), Some(1));
    assert!(have_instance_name(&reg, "SKYBLOCK"));
    assert!(!have_instance_name(&reg, "Hardcore"));
}

#[test]
fn remove_group_moves_to_default() {
    let mut reg = InstanceRegistry::new();
    add_to_group(&mut reg, instance(1, "A", None));
    add_to_group(&mut reg, instance(2, "B", Some("maps")));
    add_to_group(&mut reg, instance(3, "C", Some("maps")));
    assert!(remove_group(&mut reg, "maps"));
    assert!(!remove_group(&mut reg, "maps"));
    assert_eq!(uuids(get_group(&reg, "")), vec![1, 2, 3]);
    assert_eq!(get_group_keys(&reg), vec![String::new()]);
}

#[test]
fn move_group_changes_lists_and_settings() {
    let mut reg = InstanceRegistry::new();
    add_to_group(&mut reg, instance(1, "A", None));
    add_to_group(&mut reg, instance(2, "B", None));
    let moved = move_group(&mut reg, &vec![2, 42, 1], Some("pvp".to_string()));
    assert_eq!(moved, vec![2, 1]);
    assert!(get_group(&reg, "").is_empty());
    assert_eq!(uuids(get_group(&reg, "pvp")), vec![2, 1]);
    assert_eq!(get_instance(&reg, 1).unwrap().group, Some("pvp".to_string()));
    let back = move_group(&mut reg, &vec![1], None);
    assert_eq!(back, vec![1]);
    assert_eq!(uuids(get_group(&reg, "")), vec![1]);
    assert_eq!(uuids(get_group(&reg, "pvp")), vec![2]);
    assert_eq!(get_instance(&reg, 1).unwrap().group, None);
}

#[test]
fn remove_instance_leaves_groups() {
    let mut reg = InstanceRegistry::new();
    add_to_group(&mut reg, instance(1, "A", None));
    add_to_group(&mut reg, instance(2, "B", Some("maps")));
    remove_from_group(&mut reg, 2);
    assert!(get_instance(&reg, 2).is_none());
    assert!(get_group(&reg, "maps").is_empty());
    assert_eq!(sorted(get_group_keys(&reg)), vec![String::new(), "maps".to_string()]);
    assert_eq!(uuids(get_group(&reg, "")), vec![1]);
}

#[test]
fn event_handlers_by_id() {
    let mut events: InstanceEvents<&str, &str, &str> = InstanceEvents {
        exit: EventHandlers::new(),
        change: EventHandlers::new(),
        run_log: EventHandlers::new(),
    };
    let a = events.exit.add_handler("first");
    let b = events.exit.add_handler("second");
    assert_ne!(a, b);
    let c = events.change.add_handler("change");
    let d = events.run_log.add_handler("log");
    remove_exit(&mut events, a);
    let left: Vec<u64> = events.exit.handlers().iter().map(|e| e.0).collect();
    assert_eq!(left, vec![b]);
    remove_change(&mut events, c);
    assert!(events.change.handlers().is_empty());
    remove_run_log(&mut events, d + 100);
    assert_eq!(events.run_log.handlers().len(), 1);
    let e = events.exit.add_handler("third");
    assert!(e != a && e != b);
}

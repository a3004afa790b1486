use mcml_game::game_schematics::{
    litematic_header, read_create_size, read_dimensions_short, LitematicMeta, SchematicObj,
    SchematicType,
};
use mcml_game::file_item::{FileHash, PathObj};
use mcml_game::game_download::source_type_of;
use mcml_game::game_log::GameLog;
use mcml_game::game_saves::{
    change_data_pack, delete_datapack, import_dir_for, save_entry, save_from_level, trim_tar,
    LevelData, SaveDataPackObj,
};
use mcml_game::launcher::game_setting_obj::InstanceSettingObj;
use mcml_game::launcher::SourceType;
use mcml_game::launcher_path::assets_path::{
    asset_object_file, get_skin_from_url, index_file, skin_file_of_path, skin_save_file,
    AssetsPath,
};
use mcml_game::launcher_path::libraries_path::{
    build_nide8_item, cached_agent_step, fresh_agent_step, AgentStep, LibrariesPath,
};
use mcml_game::launcher_path::version_path::{
    add_optifine, get_optifine, version_update_step, OptifineInfos, VersionUpdate,
};
use mcml_game::loader::optifine_obj::OptifineObj;
use mcml_game::loader::LoaderType;
use mcml_game::mojang::version_obj::{VersionObj, VersionsObj};
use mcml_game::launcher_path::keyed_cache::KeyedCache;
use mcml_game::launcher::mod_info_obj::FileOnlineInfoObj;
use mcml_game::{
    add_game_log_item, clear_game_log, get_runtime_log, update_online, RuntimeLogs,
    add_change, add_exit, add_run_log, remove_exit, EventHandlers, InstanceChange, InstanceEvents,
    InstanceExit,
};

fn parts(p: &PathObj) -> Vec<String> {
    p.parts.clone()
}

#[test]
fn event_adders_give_fresh_ids() {
    let mut events: InstanceEvents<&str, &str, &str> = InstanceEvents {
        exit: EventHandlers::new(),
        change: EventHandlers::new(),
        run_log: EventHandlers::new(),
    };
    let a = add_exit(&mut events, "a");
    let b = add_exit(&mut events, "b");
    assert_eq!((a, b), (0, 1));
    assert_eq!(add_change(&mut events, "c"), 0);
    assert_eq!(add_run_log(&mut events, "l"), 0);
    remove_exit(&mut events, a);
    assert_eq!(add_exit(&mut events, "d"), 2);
    let ids: Vec<u64> = events.exit.handlers().iter().map(|e| e.0).collect();
    assert_eq!(ids, vec![1, 2]);
    let e = InstanceExit { uuid: 7, code: -1 };
    assert_eq!(e.code, -1);
    assert_eq!(InstanceChange::MoveGroup(7, None), InstanceChange::MoveGroup(7, None));
}

#[test]
fn world_paths_and_entries() {
    let dir = PathObj::from_str("/saves/w");
    let mut w = save_from_level(&None);
    w.path = dir.copy();
    assert_eq!(parts(&w.get_datapack_path()), vec!["/saves/w", "datapacks"]);
    assert_eq!(parts(&w.get_level_file()), vec!["/saves/w", "level.dat"]);
    let data = LevelData {
        last_played: Some(5),
        random_seed: Some(9),
        game_type: None,
        hardcore: Some(1),
        difficulty: None,
        level_name: Some("World".to_string()),
        world_gen_seed: None,
        gen_settings: None,
        generator_name: None,
    };
    let e = save_entry(&dir, &Some(data), true);
    assert_eq!(e.level_name, "World");
    assert_eq!(e.random_seed, 9);
    assert_eq!(parts(&e.path), vec!["/saves/w"]);
    assert_eq!(parts(e.icon.as_ref().unwrap()), vec!["/saves/w", "icon.png"]);
    let b = save_entry(&dir, &None, false);
    assert!(b.broken && b.icon.is_none());
}

#[test]
fn import_folder_names() {
    assert_eq!(trim_tar("world.tar"), "world");
    assert_eq!(trim_tar("world.tar.tar"), "world");
    assert_eq!(trim_tar("world.zip"), "world.zip");
    assert_eq!(trim_tar(".tar"), "");
    assert_eq!(trim_tar(&trim_tar("a.tar.tar")), trim_tar("a.tar.tar"));
    let saves = PathObj::from_str("/saves");
    assert_eq!(parts(&import_dir_for(&saves, true, &Some("x".to_string()))), vec!["/saves"]);
    assert_eq!(
        parts(&import_dir_for(&saves, false, &Some("my.tar".to_string()))),
        vec!["/saves", "my"]
    );
    assert_eq!(parts(&import_dir_for(&saves, false, &None)), vec!["/saves", "save"]);
}

#[test]
fn download_source_by_ids() {
    assert_eq!(source_type_of(false, false), SourceType::CurseForge);
    assert_eq!(source_type_of(true, false), SourceType::Modrinth);
    assert_eq!(source_type_of(false, true), SourceType::Modrinth);
}

fn optifine(version: &str, mc: &str) -> OptifineObj {
    let mut o = OptifineObj::default();
    o.version = version.to_string();
    o.mcversion = mc.to_string();
    o
}

#[test]
fn optifine_releases_by_version() {
    let mut infos = OptifineInfos::new();
    add_optifine(&mut infos, optifine("HD_U_I6", "1.20.1"));
    add_optifine(&mut infos, optifine("HD_U_I6", "1.20.2"));
    assert_eq!(get_optifine(&infos, "HD_U_I6").unwrap().mcversion, "1.20.2");
    assert!(get_optifine(&infos, "HD_U_I5").is_none());
    let mut inst = InstanceSettingObj::default();
    inst.loader_version = Some("HD_U_I6".to_string());
    assert!(inst.get_optifine(&infos).is_none());
    inst.loader = LoaderType::OptiFine;
    assert_eq!(inst.get_optifine(&infos).unwrap().mcversion, "1.20.2");
    inst.loader_version = None;
    assert!(inst.get_optifine(&infos).is_none());
}

fn listed(id: &str, sha1: &str) -> VersionsObj {
    let mut v = VersionsObj::default();
    v.id = id.to_string();
    v.sha1 = sha1.to_string();
    v
}

#[test]
fn version_update_steps() {
    let mut obj = VersionObj::default();
    obj.versions = vec![listed("1.20.1", "aa"), listed("1.20.2", "bb")];
    assert_eq!(version_update_step(&obj, "1.19", "aa"), VersionUpdate::NotFound);
    assert_eq!(version_update_step(&obj, "1.20.2", "bb"), VersionUpdate::UseLocal);
    assert_eq!(version_update_step(&obj, "1.20.2", "BB"), VersionUpdate::Fetch(1));
    assert_eq!(version_update_step(&obj, "1.20.1", ""), VersionUpdate::Fetch(0));
}

#[test]
fn nide8_download_item() {
    let libs = LibrariesPath {
        lib_dir: PathObj::from_str("/l"),
        native_dir: PathObj::from_str("/n"),
        authlib_file: None,
        nide8_file: None,
    };
    let item = build_nide8_item(&libs, "1.5", "abc", "https://n/jar");
    assert_eq!(item.name, "com.nide8.login2:nide8auth:1.5");
    assert_eq!(
        parts(&item.file),
        vec!["/l", "com", "nide8", "login2", "nide8auth", "1.5", "nide8auth-1.5.jar"]
    );
    assert_eq!(item.url, "https://n/jar");
    assert!(matches!(item.hash, FileHash::Sha1(ref h) if h == "abc"));
}

#[test]
fn asset_folders_and_skins() {
    let a = AssetsPath::init(&PathObj::from_str("/run"));
    assert_eq!(parts(&a.objects_dir), vec!["/run", "assets", "indexes"]);
    assert_eq!(parts(&a.index_dir), vec!["/run", "assets", "objects"]);
    assert_eq!(parts(&index_file(&a, "17")), vec!["/run", "assets", "objects", "17.json"]);
    assert_eq!(
        parts(&asset_object_file(&a, "abcdef")),
        vec!["/run", "assets", "indexes", "abcdef"]
    );
    assert_eq!(
        parts(&skin_save_file(&a, 1)),
        vec!["/run", "assets", "skins", "00000000-0000-0000-0000-000000000001_skin.png"]
    );
    assert_eq!(
        parts(&skin_file_of_path(&a, &Some("/textures/abc123".to_string()))),
        vec!["/run", "assets", "skins", "abc123"]
    );
    assert_eq!(
        parts(&get_skin_from_url(&a, "https://textures.minecraft.net/texture/ff00")),
        vec!["/run", "assets", "skins", "ff00"]
    );
    let nil = "00000000-0000-0000-0000-000000000000";
    assert_eq!(parts(&get_skin_from_url(&a, "not a url")), vec!["/run", "assets", "skins", nil]);
    assert_eq!(
        parts(&get_skin_from_url(&a, "https://example.com/dir/")),
        vec!["/run", "assets", "skins", nil]
    );
}

fn pack(name: &str) -> SaveDataPackObj {
    SaveDataPackObj {
        name: name.to_string(),
        path: PathObj::from_str("/d"),
        description: String::new(),
        pack_format: 0,
        enable: None,
    }
}

fn names(v: &[&str]) -> Option<Vec<Option<String>>> {
    Some(v.iter().map(|s| Some(s.to_string())).collect())
}

#[test]
fn data_pack_switch_plan() {
    let ens = names(&["vanilla", "file/a.zip", "file/b.zip"]);
    let dis = names(&["file/c.zip", "FILE/B.ZIP"]);
    let list = vec![pack("file/a.zip"), pack("file/b.zip"), pack("file/c.zip"), pack("file/d.zip")];
    let c = change_data_pack(&ens, &dis, &list).unwrap();
    assert_eq!(c.remove_enabled, vec![1]);
    assert_eq!(c.add_disabled, vec!["file/a.zip".to_string()]);
    assert_eq!(c.remove_disabled, vec![1, 0]);
    assert_eq!(c.add_enabled, vec!["file/d.zip".to_string()]);
    assert_eq!(change_data_pack(&None, &dis, &list).unwrap_err(), "Enabled");
    assert_eq!(change_data_pack(&ens, &None, &list).unwrap_err(), "Disabled");
}

#[test]
fn data_pack_delete_plan() {
    let ens = names(&["vanilla", "file/a.zip", "file/b.zip"]);
    let dis = names(&["file/b.zip"]);
    let list = vec![pack("file/a.zip"), pack("file/B.zip"), pack("file/x.zip")];
    let (e, d) = delete_datapack(&ens, &dis, &list).unwrap();
    assert_eq!(e, vec![2, 1]);
    assert_eq!(d, vec![0]);
    assert_eq!(delete_datapack(&None, &None, &list).unwrap_err(), "Enabled");
}

#[test]
fn runtime_log_events() {
    let mut store = RuntimeLogs::new();
    assert!(add_game_log_item(&mut store, 5, GameLog::JavaRedirect, 1, 0));
    assert!(!add_game_log_item(&mut store, 5, GameLog::Text("x".to_string()), 2, 0));
    assert_eq!(get_runtime_log(&store, 5).unwrap().logs.len(), 2);
    assert!(get_runtime_log(&store, 6).is_none());
    clear_game_log(&mut store, 5);
    assert_eq!(get_runtime_log(&store, 5).unwrap().logs.len(), 0);
    clear_game_log(&mut store, 6);
    assert!(get_runtime_log(&store, 6).is_some());
}

fn online(path: &str, file: &str) -> FileOnlineInfoObj {
    FileOnlineInfoObj {
        path: path.to_string(),
        name: String::new(),
        file: file.to_string(),
        sha1: String::new(),
        url: String::new(),
        modid: String::new(),
        fileid: String::new(),
    }
}

#[test]
fn online_records_cleanup() {
    let mut cache: KeyedCache<String, FileOnlineInfoObj> = KeyedCache::new();
    cache.insert("a".to_string(), online("mods", "a.jar"));
    cache.insert("b".to_string(), online("mods", "b.jar"));
    cache.insert("c".to_string(), online("mods", "c.jar"));
    cache.insert("d".to_string(), online("resourcepacks", "d.zip"));
    // a: on disk; b: missing, switched off; c: missing; d: missing, not a jar, marker on disk
    let flags = vec![(true, true, false), (false, true, true), (false, true, false), (false, false, true)];
    update_online(&mut cache, &flags);
    assert!(cache.get(&"a".to_string()).is_none());
    assert!(cache.get(&"b".to_string()).is_none());
    assert_eq!(cache.get(&"c".to_string()).unwrap().file, "c.jar");
    assert_eq!(cache.get(&"d".to_string()).unwrap().file, "d.zip");
}

#[test]
fn schematic_headers() {
    let mut obj = SchematicObj::default();
    read_dimensions_short(Some(3), None, Some(-2), &mut obj);
    assert_eq!((obj.height, obj.length, obj.width), (3, 0, -2));
    let mut c = SchematicObj::default();
    read_create_size(&Some(vec![Some(4), None, Some(6)]), &mut c);
    assert_eq!((c.width, c.height, c.length), (4, 0, 6));
    let mut d = SchematicObj::default();
    read_create_size(&Some(vec![Some(4), Some(5)]), &mut d);
    assert_eq!((d.width, d.height, d.length), (0, 0, 0));
    let meta = LitematicMeta {
        name: Some("House".to_string()),
        author: None,
        description: Some("d".to_string()),
        size_x: Some(10),
        size_y: Some(20),
        size_z: None,
        total_blocks: Some(-1),
    };
    let h = litematic_header(&meta);
    assert_eq!(h.schematic_type, SchematicType::Litematic);
    assert_eq!((h.name.as_str(), h.author.as_str(), h.description.as_str()), ("House", "", "d"));
    assert_eq!((h.height, h.length, h.width), (20, 10, 0));
    assert_eq!(h.block_count, u64::MAX);
}

#[test]
fn events_after_a_removal() {
    let mut events: InstanceEvents<&str, &str, &str> = InstanceEvents {
        exit: EventHandlers::new(),
        change: EventHandlers::new(),
        run_log: EventHandlers::new(),
    };
    let h = add_exit(&mut events, "h");
    let h2 = add_exit(&mut events, "h2");
    remove_exit(&mut events, h);
    assert_eq!(events.exit.receivers(), vec![h2]);
    remove_exit(&mut events, 99);
    assert_eq!(events.exit.receivers(), vec![h2]);
}

#[test]
fn libraries_folders_and_agents() {
    let libs = LibrariesPath::init(&PathObj::from_str("/run"), "Linux", "X86_64");
    assert_eq!(parts(&libs.lib_dir), vec!["/run", "libraries"]);
    assert_eq!(parts(&libs.native_dir), vec!["/run", "libraries", "natives", "linux", "x86_64"]);
    assert!(libs.authlib_file.is_none() && libs.nide8_file.is_none());
    let item = build_nide8_item(&libs, "1.5", "abc", "https://n/jar");
    match fresh_agent_step(item, true, "abc", "abc") {
        AgentStep::Ready(i) => assert_eq!(i.name, "com.nide8.login2:nide8auth:1.5"),
        AgentStep::Download(_) => panic!("ready expected"),
    }
    let item = build_nide8_item(&libs, "1.5", "abc", "https://n/jar");
    assert!(matches!(fresh_agent_step(item, true, "ABC", "abc"), AgentStep::Download(_)));
    let item = build_nide8_item(&libs, "1.5", "abc", "https://n/jar");
    assert!(matches!(fresh_agent_step(item, false, "abc", "abc"), AgentStep::Download(_)));
    let cached = build_nide8_item(&libs, "1.5", "abc", "https://n/jar");
    assert!(cached_agent_step(&cached, true, true).is_none());
    assert_eq!(cached_agent_step(&cached, false, true).unwrap().url, "https://n/jar");
    assert!(cached_agent_step(&cached, true, false).is_some());
}

use mcml_game::file_item::{FileHash, FileItemObj, PathObj};
use mcml_game::game_arg::GameLaunchObj;
use mcml_game::game_check::{
    lost_asset_item, lost_mods, missing_mod_item, AssetEntry, FileCheckConfig, FilePresence,
    ModFileObj,
};
use mcml_game::launcher::game_setting_obj::InstanceSettingObj;
use mcml_game::launcher::mod_info_obj::FileOnlineInfoObj;

fn info(path: &str, name: &str, file: &str, sha1: &str) -> FileOnlineInfoObj {
    let mut i = FileOnlineInfoObj::default();
    i.path = path.to_string();
    i.name = name.to_string();
    i.file = file.to_string();
    i.sha1 = sha1.to_string();
    i.url = format!("https://cdn.example/{}", file);
    i
}

fn mod_file(stem: Option<&str>, sha1: Option<&str>) -> ModFileObj {
    ModFileObj { stem: stem.map(|s| s.to_string()), sha1: sha1.map(|s| s.to_string()) }
}

fn names(v: &[FileItemObj]) -> Vec<String> {
    v.iter().map(|i| i.name.clone()).collect()
}

#[test]
fn mods_matched_by_stem() {
    let dir = PathObj::from_str("/game");
    let infos = vec![
        info("mods", "JEI", "JEI.jar", "abc"),
        info("config", "Cfg", "cfg.toml", "000"),
        info("mods", "Other", "other.jar", "111"),
    ];
    let stems = vec![Some("jei".to_string()), Some("cfg".to_string()), Some("other".to_string())];
    let files = vec![mod_file(Some("jei"), Some("x")), mod_file(Some("zzz"), None)];
    let lost = lost_mods(&dir, &infos, &stems, &files, false);
    assert_eq!(names(&lost), vec!["Other".to_string()]);
    assert_eq!(lost[0].file.display('/'), "/game/mods/other.jar");
    assert_eq!(lost[0].url, "https://cdn.example/other.jar");
    assert!(matches!(&lost[0].hash, FileHash::Sha1(h) if h == "111"));
}

#[test]
fn mods_checked_by_sha1() {
    let dir = PathObj::from_str("/game");
    let infos = vec![info("mods", "A", "jei.jar", "abc"), info("mods", "B", "jei.jar", "DEF")];
    let stems = vec![Some("jei".to_string()), Some("jei".to_string())];
    let files = vec![mod_file(Some("jei"), Some("ABC")), mod_file(Some("jei"), Some("def"))];
    // Checksums read now are compared ignoring ASCII case.
    assert!(lost_mods(&dir, &infos, &stems, &files, true).is_empty());
}

#[test]
fn mods_sha1_read_before_compared_exactly() {
    let dir = PathObj::from_str("/game");
    let infos = vec![info("mods", "A", "jei.jar", "zzz"), info("mods", "B", "jei.jar", "abc")];
    let stems = vec![Some("jei".to_string()), Some("jei".to_string())];
    let files = vec![mod_file(Some("jei"), Some("ABC"))];
    // The first entry reads the file's checksum; the second compares with it exactly.
    let lost = lost_mods(&dir, &infos, &stems, &files, true);
    assert_eq!(names(&lost), vec!["A".to_string(), "B".to_string()]);
}

#[test]
fn mods_one_file_per_entry() {
    let dir = PathObj::from_str("/game");
    let infos = vec![info("mods", "A", "jei.jar", ""), info("mods", "B", "jei.jar", "")];
    let stems = vec![Some("jei".to_string()), None];
    let files = vec![mod_file(Some("jei"), None), mod_file(Some("jei"), None)];
    let lost = lost_mods(&dir, &infos, &stems, &files, false);
    assert_eq!(names(&lost), vec!["B".to_string()]);
    let item = missing_mod_item(&dir, &infos[1]);
    assert_eq!(item.file.display('/'), "/game/mods/jei.jar");
}

#[test]
fn asset_item_in_objects_folder() {
    let item = lost_asset_item(&PathObj::from_str("/assets/objects"), "icon.png", "ab12cd");
    assert_eq!(item.file.display('/'), "/assets/objects/ab12cd");
    assert_eq!(item.url, "https://resources.download.minecraft.net/ab/ab12cd");
    assert_eq!(item.name, "icon.png");
}

#[test]
fn lost_files_in_order() {
    let mut obj = GameLaunchObj::new();
    obj.game_jar.name = "core".to_string();
    let mut log4j = FileItemObj::default();
    log4j.name = "log4j".to_string();
    obj.log4j_xml = Some(log4j);
    let mut lib = FileItemObj::default();
    lib.name = "lib-a".to_string();
    obj.game_libs.push(lib);
    let mut lib_b = FileItemObj::default();
    lib_b.name = "lib-b".to_string();
    obj.loader_libs.push(lib_b);
    let config = FileCheckConfig {
        core: true,
        core_sha1: false,
        assets: true,
        assets_sha1: false,
        lib: true,
        lib_sha1: false,
        game_mod: true,
        mod_sha1: false,
    };
    let presence = FilePresence {
        game_jar: false,
        log4j: true,
        assets: vec![true, false],
        game_libs: vec![false],
        loader_libs: vec![true],
        installer_libs: vec![],
    };
    let assets = vec![
        AssetEntry { name: "a".to_string(), hash: "aa".to_string() },
        AssetEntry { name: "b".to_string(), hash: "bb".to_string() },
    ];
    let mut setting = InstanceSettingObj::default();
    setting.is_modpack = true;
    let online = vec![info("mods", "M", "Mod.JAR", "")];
    let lost = setting.get_lost_game_file(
        &obj,
        &config,
        &presence,
        &PathObj::from_str("/objects"),
        &assets,
        &PathObj::from_str("/game"),
        &online,
        &vec![mod_file(Some("MOD"), None)],
    );
    assert_eq!(names(&lost), vec!["core".to_string(), "b".to_string(), "lib-a".to_string()]);

    setting.is_modpack = false;
    let lost = setting.get_lost_game_file(
        &obj,
        &config,
        &presence,
        &PathObj::from_str("/objects"),
        &assets,
        &PathObj::from_str("/game"),
        &online,
        &vec![],
    );
    assert_eq!(names(&lost), vec!["core".to_string(), "b".to_string(), "lib-a".to_string()]);

    setting.is_modpack = true;
    let lost = setting.get_lost_game_file(
        &obj,
        &config,
        &presence,
        &PathObj::from_str("/objects"),
        &assets,
        &PathObj::from_str("/game"),
        &online,
        &vec![],
    );
    assert_eq!(
        names(&lost),
        vec!["core".to_string(), "b".to_string(), "lib-a".to_string(), "M".to_string()]
    );
}

use mcml_game::custom_arg::{
    apply_custom_item, finish_custom_args, insert_java, launch_java_version, path_empty,
};
use mcml_game::file_item::{FileItemObj, PathObj};
use mcml_game::game_arg::GameLaunchObj;
use mcml_game::launcher::custom_game_arg_obj::CustomGameArgObj;
use mcml_game::launcher_path::libraries_path::LibrariesPath;
use mcml_game::launcher_path::version_path::VersionPath;
use mcml_game::mojang::game_arg_obj::{
    GameAssetIndexObj, GameDownloadItemObj, GameJavaVersionObj, LoggingObj,
};
use mcml_game::system_info::{ArchEnum, Os, SystemInfo};

fn libs_path() -> LibrariesPath {
    LibrariesPath {
        lib_dir: PathObj::from_str("/l"),
        native_dir: PathObj::from_str("/n"),
        authlib_file: None,
        nide8_file: None,
    }
}

fn linux() -> SystemInfo {
    SystemInfo { os: Os::Linux, system_arch: ArchEnum::X86_64, is_arm: false }
}

#[test]
fn java_versions_kept_once() {
    let mut v = vec![17];
    insert_java(&mut v, 17);
    insert_java(&mut v, 21);
    assert_eq!(v, vec![17, 21]);
    let mut obj = GameLaunchObj::new();
    assert_eq!(launch_java_version(&obj), 8);
    obj.java_versions = v;
    assert_eq!(launch_java_version(&obj), 17);
}

#[test]
fn empty_paths() {
    assert!(path_empty(&PathObj::empty()));
    assert!(path_empty(&PathObj::from_str("")));
    assert!(!path_empty(&PathObj::from_str("").join("a")));
}

#[test]
fn custom_item_read_into_launch() {
    let mut obj = GameLaunchObj::new();
    let mut item = CustomGameArgObj::default();
    item.base.downloads.client =
        GameDownloadItemObj { sha1: "c".to_string(), url: "https://x/client.jar".to_string() };
    item.minecraft_version = Some("1.12.2".to_string());
    item.base.asset_index =
        Some(GameAssetIndexObj { id: "1.12".to_string(), url: "https://x/1.12.json".to_string() });
    item.base.java_version = Some(GameJavaVersionObj { major_version: 8 });
    item.compatible_java_majors = Some(vec![8, 17]);
    item.base.main_class = "net.minecraft.launchwrapper.Launch".to_string();
    item.base.minecraft_arguments = Some("--username ${auth_player_name}".to_string());
    item.add_jvm_args = Some(vec!["-Dfoo=1".to_string()]);
    item.add_tweakers = Some(vec!["optifine.OptiFineTweaker".to_string()]);
    let mut named = FileItemObj::default();
    named.name = "lib".to_string();
    named.file = PathObj::from_str("/l").join("lib.jar");
    let libs = vec![FileItemObj::default(), named];
    apply_custom_item(&mut obj, &item, &libs, &libs_path(), &linux());

    assert_eq!(obj.game_jar.name, "1.12.2.jar");
    assert_eq!(
        obj.game_jar.file.parts,
        vec!["/l", "net", "minecraft", "client", "1.12.2", "client-1.12.2.jar"]
    );
    assert_eq!(obj.assets.id, "1.12");
    assert_eq!(obj.game_libs.len(), 1);
    assert_eq!(obj.game_libs[0].name, "lib");
    assert_eq!(obj.java_versions, vec![8, 17]);
    assert_eq!(obj.main_class, "net.minecraft.launchwrapper.Launch");
    assert_eq!(
        obj.game_args,
        vec!["--username", "${auth_player_name}", "--tweakClass", "optifine.OptiFineTweaker"]
    );
    assert_eq!(
        obj.jvm_args,
        vec!["-Djava.library.path=${natives_directory}", "-cp", "${classpath}", "-Dfoo=1"]
    );
}

#[test]
fn custom_main_jar_and_id() {
    let mut obj = GameLaunchObj::new();
    let mut item = CustomGameArgObj::default();
    item.base.id = "mycustom".to_string();
    item.base.downloads.client =
        GameDownloadItemObj { sha1: "c".to_string(), url: "https://x/client.jar".to_string() };
    apply_custom_item(&mut obj, &item, &vec![], &libs_path(), &linux());
    assert_eq!(obj.game_jar.name, "mycustom.jar");
    assert_eq!(obj.game_jar.file.parts, vec!["/l", "net", "minecraft", "client", "mycustom.jar"]);

    let mut main = CustomGameArgObj::default();
    main.main_jar.name = "com.mojang:minecraft:1.8.9:client".to_string();
    main.main_jar.downloads.artifact.url = "https://x/mc.jar".to_string();
    apply_custom_item(&mut obj, &main, &vec![], &libs_path(), &linux());
    assert_eq!(obj.game_jar.name, "com.mojang:minecraft:1.8.9:client");
    assert_eq!(
        obj.game_jar.file.parts,
        vec!["/l", "com/mojang/minecraft/1.8.9/minecraft-1.8.9-client.jar"]
    );
    assert_eq!(obj.game_jar.url, "https://x/mc.jar");
}

#[test]
fn custom_launch_finished() {
    let mut obj = GameLaunchObj::new();
    let mut with_log = CustomGameArgObj::default();
    let mut logging = LoggingObj::default();
    logging.client.argument = "-Dlog4j.configurationFile=${path}".to_string();
    with_log.base.logging = Some(logging);
    let items = vec![with_log, CustomGameArgObj::default()];
    let paths = VersionPath::new(PathObj::from_str("/v"));
    finish_custom_args(
        &mut obj,
        &items,
        &vec!["-Xmx2G".to_string()],
        &vec!["--demo".to_string()],
        &paths,
        '/',
    );
    assert_eq!(
        obj.jvm_args,
        vec![
            "-Djava.library.path=${natives_directory}",
            "-cp",
            "${classpath}",
            "-Xmx2G",
            "-Dlog4j.configurationFile=/v/log4j2/log4j2.xml",
        ]
    );
    assert_eq!(obj.game_args, vec!["--demo"]);
    assert_eq!(obj.log4j_xml.unwrap().name, "log4j2-xml");

    let mut plain = GameLaunchObj::new();
    plain.jvm_args.push("-a".to_string());
    finish_custom_args(&mut plain, &vec![], &vec![], &vec![], &paths, '/');
    assert_eq!(plain.jvm_args, vec!["-a"]);
    assert!(plain.log4j_xml.is_none());
}

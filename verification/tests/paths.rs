use mcml_game::loader::forge::{
    build_forge_installer, build_forge_launcher, build_forge_libs, build_forge_universal,
    build_neoforge_installer, old_forge_launch, ForgeOldLibraryObj,
};
use mcml_game::file_item::{FileHash, FileItemObj, LaterRun, PathObj};
use mcml_game::game_arg::GameLaunchObj;
use mcml_game::launcher::custom_loader_obj::CustomLoaderType;
use mcml_game::launcher::game_setting_obj::{CustomLoaderObj, InstanceSettingObj};
use mcml_game::launcher::game_time_obj::trim_trailing_zeros;
use mcml_game::launcher_path::keyed_cache::KeyedCache;
use mcml_game::launcher_path::libraies_path;
use mcml_game::launcher_path::libraries_path::{
    build_authlib_injector_item, get_game_file, get_native_dir, get_optifine_file, LibVersionObj,
    LibrariesPath,
};
use mcml_game::launcher_path::version_path::{
    add_custom_loader, add_forge, add_game, add_quilt, fabric_loader_file, find_version,
    forge_launch_file, game_arg_file, get_forge, get_forge_json_name, get_neoforge, get_quilt,
    get_version_dir, is_have_version_info, quilt_loader_file, VersionPath,
};
use mcml_game::loader::custom::{custom_library_item, custom_loader_downloads, custom_loader_name, starts_with};
use mcml_game::loader::forge::make_forge_libraries;
use mcml_game::loader::forge_launch_obj::{ForgeArgumentsObj, ForgeDownloadsObj, ForgeLaunchObj, ForgeLibrariesObj};
use mcml_game::loader::quilt_loader_obj::QuiltLoaderObj;
use mcml_game::loader::LoaderType;
use mcml_game::mojang::game_arg_obj::{ArtifactObj, GameArgObj};
use mcml_game::mojang::version_obj::{VersionObj, VersionsObj};

fn parts(p: &PathObj) -> Vec<String> {
    p.parts.clone()
}

fn libs() -> LibrariesPath {
    LibrariesPath {
        lib_dir: PathObj::from_str("/mc/libraries"),
        native_dir: PathObj::from_str("/mc/natives"),
        authlib_file: None,
        nide8_file: None,
    }
}

#[test]
fn path_display_joins_parts() {
    let p = PathObj::from_str("/a").join("b").join("c.jar");
    assert_eq!(p.display('/'), "/a/b/c.jar");
    assert_eq!(p.display('\\'), "/a\\b\\c.jar");
    assert_eq!(PathObj::empty().display('/'), "");
}

#[test]
fn forge_json_names() {
    assert_eq!(get_forge_json_name("1.20.1", "47.2.0", false, false), "forge-47.2.0.json");
    assert_eq!(get_forge_json_name("1.20.1", "47.2.0", false, true), "forge-47.2.0-install.json");
    assert_eq!(get_forge_json_name("1.20.4", "20.4.80", true, false), "neoforge-20.4.80.json");
    assert_eq!(get_forge_json_name("1.20.4", "20.4.80", true, true), "neoforge-20.4.80-install.json");
    assert_eq!(get_forge_json_name("1.20.1", "47.1.3", true, false), "forge-1.20.1-47.1.3.json");
    assert_eq!(get_forge_json_name("1.20.1", "47.1.3", true, true), "forge-1.20.1-47.1.3-install.json");
}

#[test]
fn version_folder_files() {
    let paths = VersionPath::new(PathObj::from_str("/mc/versions"));
    assert_eq!(parts(&get_version_dir(&paths)), vec!["/mc/versions"]);
    assert_eq!(parts(&game_arg_file(&paths, "1.20.1")), vec!["/mc/versions", "1.20.1.json"]);
    assert_eq!(
        parts(&forge_launch_file(&paths, "1.20.4", "20.4.80", true)),
        vec!["/mc/versions", "neoforged", "neoforge-20.4.80.json"]
    );
    assert_eq!(
        parts(&fabric_loader_file(&paths, "1.20.1", "0.15.0")),
        vec!["/mc/versions", "fabric", "fabric-loader-0.15.0-1.20.1.json"]
    );
    assert_eq!(
        parts(&quilt_loader_file(&paths, "1.20.1", "0.23.0")),
        vec!["/mc/versions", "quilt", "quilt-loader-0.23.0-1.20.1.json"]
    );
}

#[test]
fn loader_cache_reads_back() {
    let mut paths = VersionPath::new(PathObj::from_str("v"));
    assert!(get_forge(&paths, "1.20.1", "47.2.0").is_none());
    let mut forge = ForgeLaunchObj::default();
    forge.main_class = "first".to_string();
    let file = add_forge(&mut paths, forge, "1.20.1", "47.2.0", false);
    assert_eq!(parts(&file), vec!["v", "forge", "forge-47.2.0.json"]);
    // A later run reads the same file back.
    assert_eq!(parts(&file), parts(&forge_launch_file(&paths, "1.20.1", "47.2.0", false)));
    assert_eq!(get_forge(&paths, "1.20.1", "47.2.0").map(|f| f.main_class.clone()), Some("first".to_string()));
    assert!(get_neoforge(&paths, "1.20.1", "47.2.0").is_none());
    let mut again = ForgeLaunchObj::default();
    again.main_class = "second".to_string();
    add_forge(&mut paths, again, "1.20.1", "47.2.0", false);
    assert_eq!(get_forge(&paths, "1.20.1", "47.2.0").map(|f| f.main_class.clone()), Some("second".to_string()));
    let neo = add_forge(&mut paths, ForgeLaunchObj::default(), "1.20.4", "20.4.80", true);
    assert_eq!(parts(&neo), vec!["v", "neoforged", "neoforge-20.4.80.json"]);

    let mut quilt = QuiltLoaderObj::default();
    quilt.id = "quilt-loader-0.23.0-1.20.1".to_string();
    let qfile = add_quilt(&mut paths, quilt, "1.20.1", "0.23.0");
    assert_eq!(parts(&qfile), vec!["v", "quilt", "quilt-loader-0.23.0-1.20.1.json"]);
    assert_eq!(parts(&qfile), parts(&quilt_loader_file(&paths, "1.20.1", "0.23.0")));
    assert!(get_quilt(&paths, "1.20.1", "0.23.0").is_some());

    let versions = VersionsObj { id: "1.20.1".to_string(), version_type: "release".to_string(), url: String::new(), sha1: String::new() };
    let gfile = add_game(&mut paths, &versions, GameArgObj::default());
    assert_eq!(parts(&gfile), vec!["v", "1.20.1.json"]);
}

#[test]
fn keyed_cache_replaces_and_removes() {
    let mut cache: KeyedCache<String, i32> = KeyedCache::new();
    cache.insert("a".to_string(), 1);
    cache.insert("b".to_string(), 2);
    cache.insert("a".to_string(), 3);
    assert_eq!(cache.len(), 2);
    assert_eq!(cache.get(&"a".to_string()), Some(&3));
    assert_eq!(cache.remove(&"a".to_string()), Some(3));
    assert_eq!(cache.remove(&"a".to_string()), None);
    assert!(!cache.contains(&"a".to_string()));
    assert!(cache.contains(&"b".to_string()));
}

#[test]
fn version_type_of_instance() {
    let mut paths = VersionPath::new(PathObj::from_str("v"));
    let mut obj = InstanceSettingObj::default();
    obj.version = "1.20.1".to_string();
    assert!(!is_have_version_info(&paths));
    assert_eq!(obj.get_version_type(&paths), "");
    let mut list = VersionObj::default();
    list.versions.push(VersionsObj { id: "24w13a".to_string(), version_type: "snapshot".to_string(), url: String::new(), sha1: String::new() });
    list.versions.push(VersionsObj { id: "1.20.1".to_string(), version_type: "release".to_string(), url: String::new(), sha1: String::new() });
    assert_eq!(find_version(&list, "24W13A"), Some(0));
    assert_eq!(find_version(&list, "1.19"), None);
    paths.version = Some(list);
    assert!(is_have_version_info(&paths));
    assert_eq!(obj.get_version_type(&paths), "release");
}

#[test]
fn custom_loader_of_instance() {
    let mut paths = VersionPath::new(PathObj::from_str("v"));
    let mut obj = InstanceSettingObj::default();
    obj.uuid = 5;
    obj.loader = LoaderType::Custom;
    assert!(obj.get_custom_loader_game_args(&paths).is_empty());
    assert_eq!(obj.get_custom_loader_mainclass(&paths), "");
    let mut forge = ForgeLaunchObj::default();
    forge.main_class = "cpw.mods.bootstraplauncher.BootstrapLauncher".to_string();
    forge.minecraft_arguments = Some("--a b".to_string());
    forge.arguments = Some(ForgeArgumentsObj { game: vec!["--c".to_string()], jvm: vec!["-Dd=1".to_string()] });
    add_custom_loader(&mut paths, CustomLoaderType::ForgeLaunch(forge), 5);
    assert_eq!(obj.get_custom_loader_game_args(&paths), vec!["--a", "b", "--c"]);
    assert_eq!(obj.get_custom_loader_jvm_args(&paths), vec!["-Dd=1"]);
    assert_eq!(obj.get_custom_loader_mainclass(&paths), "cpw.mods.bootstraplauncher.BootstrapLauncher");
    assert!(obj.get_custom_loader(&paths).is_some());
}

#[test]
fn custom_loader_name_and_downloads() {
    assert!(starts_with("forge-1.2", "forge"));
    assert!(!starts_with("fo", "forge"));
    assert_eq!(custom_loader_name("forge", "1.20.1-47.2.0"), "forge-1.20.1-47.2.0");
    assert_eq!(custom_loader_name("forge", "forge-47.2.0"), "forge-47.2.0");
    let lib = |name: &str, url: &str| ForgeLibrariesObj {
        name: name.to_string(),
        downloads: ForgeDownloadsObj {
            artifact: ArtifactObj { path: format!("{name}.jar"), sha1: "abc".to_string(), url: url.to_string() },
        },
    };
    let libs = vec![lib("a", "http://x/a.jar"), lib("b", ""), lib("c", "http://x/c.jar"), lib("d", "http://x/d.jar")];
    let dir = PathObj::from_str("/lib");
    let items = custom_loader_downloads(&dir, &libs, &vec![false, false, true, false]);
    let names: Vec<String> = items.iter().map(|i| i.name.clone()).collect();
    assert_eq!(names, vec!["a", "d"]);
    let one = custom_library_item(&dir, &libs[0]);
    assert_eq!(parts(&one.file), vec!["/lib", "a.jar"]);
    assert!(matches!(one.hash, FileHash::Sha1(ref h) if h == "abc"));
}

#[test]
fn library_paths() {
    let l = libs();
    assert_eq!(
        parts(&get_game_file(&l, "1.20.1")),
        vec!["/mc/libraries", "net", "minecraft", "client", "1.20.1", "client-1.20.1.jar"]
    );
    assert_eq!(
        parts(&get_optifine_file(&l, "1.20.1", "HD_U_I6")),
        vec!["/mc/libraries", "optifine", "installer", "OptiFine-1.20.1-HD_U_I6.jar"]
    );
    assert_eq!(parts(&get_native_dir(&l, Some("1.20.1"))), vec!["/mc/natives", "1.20.1"]);
    assert_eq!(parts(&get_native_dir(&l, None)), vec!["/mc/natives"]);
    assert_eq!(parts(&libraies_path::get_base_dir(&l)), vec!["/mc/libraries"]);
    assert_eq!(
        parts(&libraies_path::get_game_file_with_custom(&l, &"custom".to_string())),
        vec!["/mc/libraries", "net", "minecraft", "client", "custom.jar"]
    );
    let item = build_authlib_injector_item(&l, "1.2.5", "https://example.org/a.jar", "ff");
    assert_eq!(item.name, "moe.yushi:authlibinjector:1.2.5");
    assert!(matches!(item.later, LaterRun::Nothing));
}

#[test]
fn lib_version_parts() {
    let a = LibVersionObj::new("org.lwjgl:lwjgl:3.3.1:natives-linux");
    assert_eq!(a.pack, "org.lwjgl");
    assert_eq!(a.name, "lwjgl");
    assert_eq!(a.version, "3.3.1");
    assert_eq!(a.extr, "natives-linux");
    let b = LibVersionObj::new("org.lwjgl:lwjgl:3.2.2:natives-linux");
    assert!(a.eq_without_version(&b));
    assert_eq!(a.key_without_version(), ("org.lwjgl".to_string(), "lwjgl".to_string(), "natives-linux".to_string()));
    let short = LibVersionObj::new("odd");
    assert_eq!(short.name, "odd");
    assert_eq!(short.pack, "");
}

#[test]
fn class_path_keeps_newest_library() {
    let item = |name: &str, file: &str| FileItemObj {
        name: name.to_string(),
        file: PathObj::from_str(file),
        url: String::new(),
        hash: FileHash::NoHash,
        later: LaterRun::Nothing,
    };
    let mut arg = GameLaunchObj::new();
    arg.game_libs.push(item("org.ow2.asm:asm:9.3", "asm-9.3.jar"));
    arg.game_libs.push(item("com.google:gson:2.10", "gson.jar"));
    arg.loader_libs.push(item("org.ow2.asm:asm:9.6", "asm-9.6.jar"));
    arg.game_jar = item("minecraft", "client.jar");
    // Without custom loader settings the game's libraries come too, the loader's newer
    // library in place of the game's one, and the core last.
    let obj = InstanceSettingObj::default();
    let files: Vec<Vec<String>> = obj.get_libs(&arg).iter().map(parts).collect();
    assert_eq!(
        files,
        vec![
            vec!["gson.jar".to_string()],
            vec!["asm-9.6.jar".to_string()],
            vec!["client.jar".to_string()]
        ]
    );
    // With them, the game's libraries come too, a newer loader library in place of the
    // game's one.
    let mut obj = InstanceSettingObj::default();
    obj.custom_loader = Some(CustomLoaderObj::default());
    let files: Vec<Vec<String>> = obj.get_libs(&arg).iter().map(parts).collect();
    assert!(files.contains(&vec!["asm-9.6.jar".to_string()]));
    assert!(!files.contains(&vec!["asm-9.3.jar".to_string()]));
    assert!(files.contains(&vec!["gson.jar".to_string()]));
    assert!(files.contains(&vec!["client.jar".to_string()]));
}

#[test]
fn forge_libraries_of_old_installers() {
    let lib = make_forge_libraries("net.minecraft:launchwrapper:1.12").unwrap();
    assert_eq!(lib.downloads.artifact.path, "net/minecraft/launchwrapper/1.12/launchwrapper-1.12.jar");
    assert_eq!(
        lib.downloads.artifact.url,
        "https://libraries.minecraft.net/net/minecraft/launchwrapper/1.12/launchwrapper-1.12.jar"
    );
    let forge = make_forge_libraries("net.minecraftforge:forge:1.12.2-14.23.5.2860").unwrap();
    assert_eq!(forge.downloads.artifact.path, "");
    assert!(make_forge_libraries("com.example:unknown:1.0").is_none());
    assert!(make_forge_libraries("single").is_none());
}

#[test]
fn trailing_zeros_trimmed() {
    assert_eq!(trim_trailing_zeros("00:16:49.9106400"), "00:16:49.91064");
    assert_eq!(trim_trailing_zeros("00:00:17.0000000"), "00:00:17.0");
    assert_eq!(trim_trailing_zeros("12"), "12");
}

#[test]
fn forge_files_and_plan() {
    let dir = PathObj::from_str("/lib");
    let installer = build_forge_installer(&dir, "1.12.2", "14.23.5.2860");
    assert_eq!(installer.name, "net.minecraftforge:1.12.2-14.23.5.2860-installer");
    assert_eq!(
        installer.url,
        "https://maven.minecraftforge.net/net/minecraftforge/forge/1.12.2-14.23.5.2860/forge-1.12.2-14.23.5.2860-installer.jar"
    );
    assert_eq!(
        parts(&installer.file),
        vec!["/lib", "net", "minecraftforge", "forge", "1.12.2-14.23.5.2860", "forge-1.12.2-14.23.5.2860-installer.jar"]
    );
    let neo = build_neoforge_installer(&dir, "1.20.4", "20.4.80");
    assert_eq!(neo.name, "net.neoforged:neoforge-20.4.80-installer");
    assert_eq!(
        neo.url,
        "https://maven.neoforged.net/releases/net/neoforged/neoforge/20.4.80/neoforge-20.4.80-installer.jar"
    );
    let old_neo = build_neoforge_installer(&dir, "1.20.1", "47.1.80");
    assert_eq!(old_neo.name, "net.neoforged:forge-1.20.1-47.1.80-installer");
    assert_eq!(parts(&old_neo.file)[3], "forge");

    let lib = |name: &str, path: &str| ForgeLibrariesObj {
        name: name.to_string(),
        downloads: ForgeDownloadsObj { artifact: ArtifactObj { path: path.to_string(), sha1: "h".to_string(), url: String::new() } },
    };
    let info = vec![
        lib("net.minecraftforge:forge:1.12.2-universal", "forge.jar"),
        lib("a:b:1", "a.jar"),
        lib("a:b:1", "a2.jar"),
        lib("skipped:lib:1", ""),
    ];
    let libs = build_forge_libs(
        &info, &dir, "1.12.2", false, true, true,
        build_forge_installer(&dir, "1.12.2", "x"),
        build_forge_universal(&dir, "1.12.2", "x"),
        build_forge_launcher(&dir, "1.12.2", "x"),
    );
    let mut names: Vec<String> = libs.iter().map(|i| i.name.clone()).collect();
    names.sort();
    assert_eq!(
        names,
        vec![
            "a:b:1".to_string(),
            "net.minecraftforge:1.12.2-x-installer".to_string(),
            "net.minecraftforge:1.12.2-x-launcher".to_string(),
            "net.minecraftforge:forge:1.12.2-universal".to_string(),
        ]
    );
    let a = libs.iter().find(|i| i.name == "a:b:1").unwrap();
    assert_eq!(parts(&a.file), vec!["/lib", "a2.jar"]);

    let launch = old_forge_launch(
        "net.minecraft.launchwrapper.Launch",
        "--tweakClass x",
        &vec![
            ForgeOldLibraryObj { name: "net.minecraft:launchwrapper:1.12".to_string(), url: String::new() },
            ForgeOldLibraryObj { name: "org.scala-lang:scala-library:2.11.1".to_string(), url: "https://maven.example.org/".to_string() },
            ForgeOldLibraryObj { name: "no:repo:1".to_string(), url: String::new() },
        ],
    );
    assert_eq!(launch.libraries.len(), 2);
    assert_eq!(
        launch.libraries[1].downloads.artifact.url,
        "https://maven.example.org/org/scala-lang/scala-library/2.11.1/scala-library-2.11.1.jar"
    );
    assert_eq!(launch.minecraft_arguments, Some("--tweakClass x".to_string()));
}

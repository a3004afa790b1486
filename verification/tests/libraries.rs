use mcml_game::file_item::{FileHash, LaterRun, PathObj};
use mcml_game::launcher_path::libraries_path::LibrariesPath;
use mcml_game::launcher_path::version_path::{put_version, VersionPath};
use mcml_game::mojang::game_arg_obj::{
    ArtifactObj, ClassifiersObj, GameArgObj, GameDownloadItemObj, GameLibrariesDownloadsObj,
    GameLibrariesObj, GameOsObj, GameRulesObj, LoggingObj,
};
use mcml_game::mojang::game_libraries::{
    arm_native_candidate, natives_without_arm, process_one_library, version_name_to_path,
    LibraryScan,
};
use mcml_game::mojang::{build_assets_item, build_game_item, build_log4j_item};
use mcml_game::system_info::{ArchEnum, Os, SystemInfo};

fn art(path: &str, sha1: &str, url: &str) -> ArtifactObj {
    ArtifactObj { path: path.to_string(), sha1: sha1.to_string(), url: url.to_string() }
}

fn lib(name: &str, artifact: ArtifactObj) -> GameLibrariesObj {
    GameLibrariesObj {
        downloads: GameLibrariesDownloadsObj { classifiers: None, artifact },
        name: name.to_string(),
        rules: Vec::new(),
        url: String::new(),
    }
}

fn windows64() -> SystemInfo {
    SystemInfo { os: Os::Windows, system_arch: ArchEnum::X86_64, is_arm: false }
}

#[test]
fn maven_paths() {
    assert_eq!(version_name_to_path("org.lwjgl:lwjgl:3.3.1"), "org/lwjgl/lwjgl/3.3.1/lwjgl-3.3.1.jar");
    assert_eq!(
        version_name_to_path("org.lwjgl:lwjgl:3.3.1:natives-linux"),
        "org/lwjgl/lwjgl/3.3.1/lwjgl-3.3.1-natives-linux.jar"
    );
    assert_eq!(version_name_to_path("broken:name"), "");
}

#[test]
fn scan_dedups_and_picks_natives() {
    let lib_dir = PathObj::from_str("/lib");
    let native_dir = PathObj::from_str("/natives");
    let sys = windows64();
    let mut scan = LibraryScan::new();
    let a = lib("com.google:gson:2.10", art("com/google/gson.jar", "s1", "https://libraries.minecraft.net/gson.jar"));
    process_one_library(&mut scan, &a, &sys, &native_dir, &lib_dir, &None, false);
    // The same checksum again is skipped.
    let b = lib("com.google:gson-copy:2.10", art("com/google/gson2.jar", "s1", "u"));
    process_one_library(&mut scan, &b, &sys, &native_dir, &lib_dir, &None, false);
    assert_eq!(scan.list.len(), 1);
    assert!(matches!(scan.list[0].hash, FileHash::Sha1(ref h) if h == "s1"));

    // A library left out by its rules adds nothing.
    let mut mac_only = lib("ca.weblite:java-objc-bridge:1.0", art("objc.jar", "s2", "u"));
    mac_only.rules.push(GameRulesObj {
        action: "allow".to_string(),
        os: Some(GameOsObj { name: "osx".to_string(), arch: String::new() }),
    });
    process_one_library(&mut scan, &mac_only, &sys, &native_dir, &lib_dir, &None, false);
    assert_eq!(scan.list.len(), 1);

    // Native builds: Windows takes the 64-bit one where there is no common one.
    let mut natives = lib("org.lwjgl.lwjgl:lwjgl-platform:2.9.4", art("", "", ""));
    natives.downloads.classifiers = Some(ClassifiersObj {
        natives_linux: art("linux.jar", "l", "u"),
        natives_osx: art("osx.jar", "o", "u"),
        natives_windows: art("", "", ""),
        natives_windows_32: art("w32.jar", "w32", "u"),
        natives_windows_64: art("w64.jar", "w64", "u"),
    });
    process_one_library(&mut scan, &natives, &sys, &native_dir, &lib_dir, &None, false);
    assert_eq!(scan.list.len(), 2);
    let item = &scan.list[1];
    assert_eq!(item.name, "org.lwjgl.lwjgl:lwjgl-platform:2.9.4-nativeWindows");
    assert_eq!(item.file.parts, vec!["/lib".to_string(), "w64.jar".to_string()]);
    assert!(matches!(item.later, LaterRun::UnpackNative(ref p) if p.parts == vec!["/natives".to_string()]));
    assert!(scan.natives.contains(&"org.lwjgl.lwjgl:lwjgl-platform:2.9.4".to_string()));
}

#[test]
fn scan_tracks_arm_natives_and_falls_back() {
    let lib_dir = PathObj::from_str("/lib");
    let native_dir = PathObj::from_str("/natives");
    let sys = SystemInfo { os: Os::Linux, system_arch: ArchEnum::Aarch64, is_arm: true };
    let mut scan = LibraryScan::new();
    let x86 = lib("org.lwjgl:lwjgl:3.3.1:natives-linux", art("x86.jar", "a1", "u"));
    let glfw = lib("org.lwjgl:lwjgl-glfw:3.3.1:natives-linux", art("glfw.jar", "a2", "u"));
    let arm = lib("org.lwjgl:lwjgl-glfw:3.3.1:natives-linux-arm64", art("arm.jar", "a3", "u"));
    for l in [&x86, &glfw, &arm] {
        process_one_library(&mut scan, l, &sys, &native_dir, &lib_dir, &None, false);
    }
    assert_eq!(scan.list.len(), 3);
    let left = natives_without_arm(&scan);
    assert_eq!(left, vec!["org.lwjgl:lwjgl:3.3.1".to_string()]);
    let (name, dir) = arm_native_candidate(&left[0], Os::Linux, "arm64");
    assert_eq!(name, "org.lwjgl:lwjgl:3.3.1:lwjgl-3.3.1-natives-linux-arm64");
    assert_eq!(dir, "org/lwjgl/lwjgl/3.3.1/lwjgl-3.3.1-natives-linux-arm64.jar");

    // A library with no download entry is looked for among old Forge libraries, then in
    // the instance.
    let game_dir = Some(PathObj::from_str("/instance/libraries"));
    let known = lib("net.minecraft:launchwrapper:1.12", art("", "", ""));
    process_one_library(&mut scan, &known, &sys, &native_dir, &lib_dir, &game_dir, false);
    assert_eq!(scan.list.len(), 4);
    assert_eq!(scan.list[3].url, "https://libraries.minecraft.net/net/minecraft/launchwrapper/1.12/launchwrapper-1.12.jar");
    let local = lib("my.mod:thing:1.0", art("", "", ""));
    process_one_library(&mut scan, &local, &sys, &native_dir, &lib_dir, &game_dir, false);
    assert_eq!(scan.list.len(), 4);
    process_one_library(&mut scan, &local, &sys, &native_dir, &lib_dir, &game_dir, true);
    assert_eq!(scan.list.len(), 5);
    assert_eq!(
        scan.list[4].file.parts,
        vec!["/instance/libraries".to_string(), "my/mod/thing/1.0/thing-1.0.jar".to_string()]
    );

    // A library of the oldest format is downloaded from its repository.
    let mut old = lib("net.sf.jopt-simple:jopt-simple:4.5", art("", "", ""));
    old.url = "https://maven.example.org/".to_string();
    process_one_library(&mut scan, &old, &sys, &native_dir, &lib_dir, &None, false);
    assert_eq!(scan.list[5].url, "https://maven.example.org/net/sf/jopt-simple/jopt-simple/4.5/jopt-simple-4.5.jar");
}

#[test]
fn whole_version_scan() {
    let mut game = GameArgObj::default();
    game.libraries = Some(vec![
        lib("a:b:1", art("a.jar", "h1", "u")),
        lib("c:d:1", art("c.jar", "h1", "u")),
        lib("e:f:1", art("e.jar", "h2", "u")),
    ]);
    let scan = game.build_game_libraries(
        &windows64(),
        &PathObj::from_str("/n"),
        &PathObj::from_str("/l"),
        &None,
        &vec![false, false, false],
    );
    let names: Vec<String> = scan.list.iter().map(|i| i.name.clone()).collect();
    assert_eq!(names, vec!["a:b:1", "e:f:1"]);
}

#[test]
fn mojang_items() {
    let paths = VersionPath::new(PathObj::from_str("/v"));
    let mut logging = LoggingObj::default();
    logging.client.file = GameDownloadItemObj { sha1: "s".to_string(), url: "https://x/log4j.xml".to_string() };
    let item = build_log4j_item(&paths, &logging);
    assert_eq!(item.name, "log4j2-xml");
    assert_eq!(item.file.parts, vec!["/v", "log4j2", "log4j2.xml"]);

    let asset = build_assets_item(&PathObj::from_str("/objects"), "icon.png", "bdf48ef6b5d0d23bbb02e17d04865216179f510a");
    assert_eq!(asset.file.parts, vec!["/objects", "bd", "bdf48ef6b5d0d23bbb02e17d04865216179f510a"]);
    assert_eq!(
        asset.url,
        "https://resources.download.minecraft.net/bd/bdf48ef6b5d0d23bbb02e17d04865216179f510a"
    );

    let mut paths = VersionPath::new(PathObj::from_str("/v"));
    let mut game = GameArgObj::default();
    game.downloads.client = GameDownloadItemObj { sha1: "c1".to_string(), url: "https://x/client.jar".to_string() };
    put_version(&mut paths, "1.20.1", game);
    let libs = LibrariesPath {
        lib_dir: PathObj::from_str("/l"),
        native_dir: PathObj::from_str("/n"),
        authlib_file: None,
        nide8_file: None,
    };
    let core = build_game_item(&paths, &libs, "1.20.1");
    assert_eq!(core.name, "minecraft-clinet-1.20.1.jar");
    assert_eq!(core.url, "https://x/client.jar");
    assert_eq!(core.file.parts.last().unwrap(), "client-1.20.1.jar");
}

#[test]
fn older_scan_unpacks_natives_as_archives() {
    let lib_dir = PathObj::from_str("/lib");
    let native_dir = PathObj::from_str("/natives");
    let sys = windows64();
    let mut natives = lib("org.lwjgl.lwjgl:lwjgl-platform:2.9.4", art("", "", ""));
    natives.downloads.classifiers = Some(ClassifiersObj {
        natives_linux: art("linux.jar", "l", "u"),
        natives_osx: art("osx.jar", "o", "u"),
        natives_windows: art("win.jar", "w", "u"),
        natives_windows_32: art("w32.jar", "w32", "u"),
        natives_windows_64: art("w64.jar", "w64", "u"),
    });
    let plain = lib("com.google:gson:2.10", art("gson.jar", "g", "u"));
    let mut game = GameArgObj::default();
    game.libraries = Some(vec![plain, natives]);
    let present = vec![false, false];
    let old = game.build_game_libs(&sys, &native_dir, &lib_dir, &None, &present);
    assert_eq!(old.list.len(), 2);
    assert!(matches!(old.list[1].later, LaterRun::Unpack(ref p) if p.parts == vec!["/natives".to_string()]));
    assert_eq!(old.list[1].file.parts, vec!["/lib".to_string(), "win.jar".to_string()]);
    let new = game.build_game_libraries(&sys, &native_dir, &lib_dir, &None, &present);
    assert!(matches!(new.list[1].later, LaterRun::UnpackNative(_)));
}

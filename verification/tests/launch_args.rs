use mcml_game::file_item::PathObj;
use mcml_game::game_arg::{
    make_loader_jvm_arg, make_loader_v1_game_arg, make_loader_v2_game_arg, make_v1_game_arg,
    make_v2_game_arg, make_v2_jvm_arg, v1_jvm_arg, AutoJoinType,
};
use mcml_game::launcher::config_obj::{RunArgObj, WindowSettingObj};
use mcml_game::launcher::game_setting_obj::{
    AdvanceJvmObj, InstanceSettingObj, ProxyHostObj, ServerObj,
};
use mcml_game::launcher_path::libraries_path::LibrariesPath;
use mcml_game::launcher::custom_loader_obj::CustomLoaderType;
use mcml_game::launcher_path::version_path::{
    add_custom_loader, add_fabric, add_forge, put_version, VersionPath,
};
use mcml_game::loader::fabric_loader_obj::FabricLoaderObj;
use mcml_game::loader::forge_launch_obj::{ForgeArgumentsObj, ForgeLaunchObj};
use mcml_game::loader::LoaderType;
use mcml_game::mojang::game_arg_obj::{
    ArgValue, Argument, GameArgObj, GameArgumentsObj, GameJvmObj, GameOsObj, GameRulesObj,
};
use mcml_game::system_info::{ArchEnum, Os, SystemInfo};

fn strings(v: &[&str]) -> Vec<String> {
    v.iter().map(|s| s.to_string()).collect()
}

fn linux() -> SystemInfo {
    SystemInfo { os: Os::Linux, system_arch: ArchEnum::X86_64, is_arm: false }
}

fn game_v1() -> GameArgObj {
    let mut game = GameArgObj::default();
    game.minecraft_arguments = Some("--username ${auth_player_name} --version ${version_name}".to_string());
    game
}

fn game_v2() -> GameArgObj {
    let mut game = GameArgObj::default();
    let rule = GameRulesObj {
        action: "allow".to_string(),
        os: Some(GameOsObj { name: "osx".to_string(), arch: String::new() }),
    };
    game.arguments = Some(GameArgumentsObj {
        game: vec![
            Argument::Plain("--username".to_string()),
            Argument::Conditional(GameJvmObj { rules: vec![], value: ArgValue::Single("--demo".to_string()) }),
            Argument::Plain("${auth_player_name}".to_string()),
        ],
        jvm: vec![
            Argument::Conditional(GameJvmObj {
                rules: vec![rule],
                value: ArgValue::Single("-XstartOnFirstThread".to_string()),
            }),
            Argument::Conditional(GameJvmObj {
                rules: vec![GameRulesObj { action: "allow".to_string(), os: None }],
                value: ArgValue::Multi(strings(&["-Da=1", "-Db=2"])),
            }),
            Argument::Plain("-cp".to_string()),
        ],
    });
    game.minimum_launcher_version = 21;
    game
}

fn instance(version: &str, loader: LoaderType, loader_version: Option<&str>) -> InstanceSettingObj {
    let mut obj = InstanceSettingObj::default();
    obj.uuid = 7;
    obj.version = version.to_string();
    obj.loader = loader;
    obj.loader_version = loader_version.map(|s| s.to_string());
    obj
}

#[test]
fn v1_game_arg_splits_on_spaces() {
    assert_eq!(
        make_v1_game_arg(&game_v1()),
        strings(&["--username", "${auth_player_name}", "--version", "${version_name}"])
    );
    assert_eq!(make_v1_game_arg(&GameArgObj::default()), Vec::<String>::new());
}

#[test]
fn v1_jvm_arg_is_fixed() {
    assert_eq!(
        v1_jvm_arg(),
        strings(&["-Djava.library.path=${natives_directory}", "-cp", "${classpath}"])
    );
}

#[test]
fn v2_game_arg_keeps_plain_arguments() {
    assert_eq!(make_v2_game_arg(&game_v2()), strings(&["--username", "${auth_player_name}"]));
}

#[test]
fn v2_jvm_arg_follows_rules() {
    assert_eq!(make_v2_jvm_arg(&game_v2(), &linux()), strings(&["-Da=1", "-Db=2", "-cp"]));
    let mac = SystemInfo { os: Os::MacOS, system_arch: ArchEnum::Aarch64, is_arm: true };
    assert_eq!(
        make_v2_jvm_arg(&game_v2(), &mac),
        strings(&["-XstartOnFirstThread", "-Da=1", "-Db=2", "-cp"])
    );
}

#[test]
fn loader_args_for_optifine() {
    let paths = VersionPath::new(PathObj::from_str("versions"));
    let obj = instance("1.12.2", LoaderType::OptiFine, Some("HD_U_G5"));
    assert_eq!(
        make_loader_v1_game_arg(&obj, &game_v1(), &paths),
        strings(&[
            "--username",
            "${auth_player_name}",
            "--version",
            "${version_name}",
            "--tweakClass",
            "optifine.OptiFineTweaker"
        ])
    );
    assert_eq!(
        make_loader_v2_game_arg(&obj, &paths),
        strings(&["--tweakClass", "optifine.OptiFineTweaker"])
    );
    let libs = LibrariesPath {
        lib_dir: PathObj::from_str("/mc/libraries"),
        native_dir: PathObj::from_str("/mc/natives"),
        authlib_file: None,
        nide8_file: None,
    };
    let installer = PathObj::from_str("unused");
    let args = make_loader_jvm_arg(false, &obj, &paths, &libs, &installer, '/');
    assert_eq!(
        args,
        strings(&[
            "-Dlibdir=/mc/libraries",
            "-Dgamecore=/mc/libraries/net/minecraft/client/1.12.2/client-1.12.2.jar",
            "-Doptifine=/mc/libraries/optifine/installer/OptiFine-1.12.2-HD_U_G5.jar",
        ])
    );
    assert_eq!(make_loader_jvm_arg(true, &obj, &paths, &libs, &installer, '/').len(), 11);
}

#[test]
fn loader_args_for_forge_and_fabric() {
    let mut paths = VersionPath::new(PathObj::from_str("versions"));
    let mut forge = ForgeLaunchObj::default();
    forge.main_class = "net.minecraft.launchwrapper.Launch".to_string();
    forge.minecraft_arguments = Some("--tweakClass net.minecraftforge.fml.common.launcher.FMLTweaker".to_string());
    forge.arguments = Some(ForgeArgumentsObj { game: strings(&["--fml.forgeVersion", "47.2.0"]), jvm: strings(&["-Dfml=1"]) });
    add_forge(&mut paths, forge, "1.20.1", "47.2.0", false);
    let obj = instance("1.20.1", LoaderType::Forge, Some("47.2.0"));
    assert_eq!(
        make_loader_v1_game_arg(&obj, &game_v1(), &paths),
        strings(&["--tweakClass", "net.minecraftforge.fml.common.launcher.FMLTweaker"])
    );
    assert_eq!(make_loader_v2_game_arg(&obj, &paths), strings(&["--fml.forgeVersion", "47.2.0"]));
    let libs = LibrariesPath {
        lib_dir: PathObj::from_str("/lib"),
        native_dir: PathObj::from_str("/nat"),
        authlib_file: None,
        nide8_file: None,
    };
    let installer = PathObj::from_str("/lib").join("forge-installer.jar");
    assert_eq!(
        make_loader_jvm_arg(true, &obj, &paths, &libs, &installer, '/'),
        strings(&[
            "-Dforgewrapper.librariesDir=/lib",
            "-Dforgewrapper.installer=/lib/forge-installer.jar",
            "-Dforgewrapper.minecraft=/lib/net/minecraft/client/1.20.1/client-1.20.1.jar",
            "-Dfml=1",
        ])
    );
    assert_eq!(make_loader_jvm_arg(false, &obj, &paths, &libs, &installer, '/'), Vec::<String>::new());

    let mut fabric = FabricLoaderObj::default();
    fabric.id = "fabric-loader-0.15.0-1.20.1".to_string();
    fabric.arguments.game = strings(&["--fabric"]);
    fabric.arguments.jvm = strings(&["-DFabricMcEmu=1"]);
    add_fabric(&mut paths, fabric, "1.20.1", "0.15.0");
    let obj = instance("1.20.1", LoaderType::Fabric, Some("0.15.0"));
    assert_eq!(
        make_loader_v1_game_arg(&obj, &game_v1(), &paths),
        strings(&["--username", "${auth_player_name}", "--version", "${version_name}", "--fabric"])
    );
    assert_eq!(make_loader_jvm_arg(true, &obj, &paths, &libs, &installer, '/'), strings(&["-DFabricMcEmu=1"]));
    // A loader version that was never read gives no arguments.
    let missing = instance("1.20.1", LoaderType::Fabric, Some("0.14.0"));
    assert_eq!(make_loader_v2_game_arg(&missing, &paths), Vec::<String>::new());
}

#[test]
fn game_arg_window_join_and_proxy() {
    let mut obj = instance("1.20.4", LoaderType::Normal, None);
    obj.window = Some(WindowSettingObj { full_screen: None, width: Some(1280), height: None });
    obj.proxy_host = Some(ProxyHostObj { ip: Some("127.0.0.1".to_string()), port: Some(1080), user: None, password: Some("pw".to_string()) });
    let mut run = RunArgObj::default();
    run.game_args = Some("--a\n--b".to_string());
    obj.jvm_arg = Some(run);
    let config = WindowSettingObj { full_screen: Some(false), width: Some(800), height: Some(600) };
    let server = AutoJoinType::Server(ServerObj { ip: Some("mc.example.org".to_string()), port: None });
    assert_eq!(
        obj.make_game_arg(&server, &config),
        strings(&[
            "--width", "1280", "--height", "600",
            "--quickPlayMultiplayer", "mc.example.org:25565",
            "--proxyHost", "127.0.0.1", "--proxyPort", "1080", "--proxyPass", "pw",
            "--a", "--b",
        ])
    );
    let old = instance("1.12.2", LoaderType::Normal, None);
    let server = AutoJoinType::Server(ServerObj { ip: Some("host".to_string()), port: Some(25566) });
    let full = WindowSettingObj { full_screen: Some(true), width: Some(800), height: Some(600) };
    assert_eq!(
        old.make_game_arg(&server, &full),
        strings(&["--fullscreen", "--server", "host", "--port", "25566"])
    );
    let save = AutoJoinType::Save("New World".to_string());
    assert_eq!(
        old.make_game_arg(&save, &WindowSettingObj::default()),
        strings(&["--quickPlaySingleplayer", "New World"])
    );
    let empty_ip = AutoJoinType::Server(ServerObj { ip: Some(String::new()), port: None });
    assert_eq!(old.make_game_arg(&empty_ip, &WindowSettingObj::default()), Vec::<String>::new());
}

#[test]
fn main_class_by_loader() {
    let mut paths = VersionPath::new(PathObj::from_str("versions"));
    let mut game = GameArgObj::default();
    game.main_class = "net.minecraft.client.main.Main".to_string();
    game.minimum_launcher_version = 21;
    put_version(&mut paths, "1.20.1", game);

    let normal = instance("1.20.1", LoaderType::Normal, None);
    assert_eq!(normal.make_mainclass(&paths), Some("net.minecraft.client.main.Main".to_string()));
    let forge = instance("1.20.1", LoaderType::Forge, Some("47.2.0"));
    assert_eq!(
        forge.make_mainclass(&paths),
        Some("io.github.zekerzhayard.forgewrapper.installer.Main".to_string())
    );
    let optifine = instance("1.20.1", LoaderType::OptiFine, Some("HD_U_I6"));
    assert_eq!(
        optifine.make_mainclass(&paths),
        Some("com.coloryr.optifinewrapper.OptifineWrapper".to_string())
    );
    let mut own = instance("1.20.1", LoaderType::Forge, Some("47.2.0"));
    own.advance_jvm = Some(AdvanceJvmObj { main_class: Some("my.Main".to_string()), class_path: None });
    assert_eq!(own.make_mainclass(&paths), Some("my.Main".to_string()));
    let unknown = instance("1.7.10", LoaderType::Normal, None);
    assert_eq!(unknown.make_mainclass(&paths), None);
}

#[test]
fn custom_loader_brings_its_jvm_args() {
    let mut paths = VersionPath::new(PathObj::from_str("/versions"));
    let mut forge = ForgeLaunchObj::default();
    forge.minecraft_arguments = Some("--tweak x".to_string());
    forge.arguments = Some(ForgeArgumentsObj {
        game: strings(&["--game"]),
        jvm: strings(&["-Dcustom=1"]),
    });
    add_custom_loader(&mut paths, CustomLoaderType::ForgeLaunch(forge), 7);
    let obj = instance("1.20.1", LoaderType::Custom, None);
    let libs = LibrariesPath {
        lib_dir: PathObj::from_str("/lib"),
        native_dir: PathObj::from_str("/nat"),
        authlib_file: None,
        nide8_file: None,
    };
    let installer = PathObj::from_str("/i.jar");
    for v2 in [false, true] {
        assert_eq!(make_loader_jvm_arg(v2, &obj, &paths, &libs, &installer, '/'), strings(&["-Dcustom=1"]));
    }
}

use mcml_game::auth::{AuthType, LoginObj};
use mcml_game::file_item::PathObj;
use mcml_game::game_arg::{
    build_vec_string, classpath_text, replace_all_value, GameLaunchObj, JvmArgEnv, ReplaceEnv,
};
use mcml_game::launcher::config_obj::{GCType, RunArgObj};
use mcml_game::launcher::game_setting_obj::InstanceSettingObj;
use mcml_game::launcher_path::libraries_path::LibrariesPath;
use mcml_game::launcher_path::version_path::VersionPath;
use mcml_game::loader::LoaderType;
use mcml_game::mojang::game_arg_obj::GameArgObj;
use mcml_game::system_info::{ArchEnum, Os, SystemInfo};

fn strings(v: &[&str]) -> Vec<String> {
    v.iter().map(|s| s.to_string()).collect()
}

fn env() -> JvmArgEnv {
    JvmArgEnv {
        colorasm_file: PathObj::from_str("/lib").join("colorasm.jar"),
        authlib_file: Some(PathObj::from_str("/lib").join("authlib.jar")),
        nide8_file: None,
        base_dir: PathObj::from_str("/mc"),
        game_dir: PathObj::from_str("/mc").join("game"),
        sep: '/',
    }
}

fn login(t: AuthType) -> LoginObj {
    LoginObj {
        auth_type: t,
        user_name: "Steve".to_string(),
        uuid: "0123".to_string(),
        access_token: String::new(),
        text1: Some("https://auth.example.org/api".to_string()),
    }
}

fn instance() -> InstanceSettingObj {
    let mut obj = InstanceSettingObj::default();
    obj.uuid = 0x0123456789abcdef0123456789abcdef;
    obj.name = "Pack".to_string();
    obj.version = "1.20.1".to_string();
    obj
}

#[test]
fn jvm_args_with_defaults_and_authlib() {
    let obj = instance();
    let mut config = RunArgObj::default();
    config.max_memory = Some(4096);
    config.jvm_args = Some(" -Dfoo=1 \n-Dbar=2".to_string());
    let args = obj.make_jvm_arg(&login(AuthType::AuthlibInjector), 17, None, &config, &env(), &Some("key".to_string()));
    assert_eq!(
        args,
        strings(&[
            "-XX:+UseG1GC",
            "-Xmx4096m",
            "-Dfoo=1",
            "-Dbar=2",
            "-javaagent:/lib/authlib.jar=https://auth.example.org/api",
            "-Dauthlibinjector.yggdrasil.prefetched=a2V5",
            "-Dauthlibinjector.side=client",
            "-Dcolormc.dir=/mc",
            "-Dcolormc.game.uuid=01234567-89ab-cdef-0123-456789abcdef",
            "-Dcolormc.game.name=Pack",
            "-Dcolormc.game.version=1.20.1",
            "-Dcolormc.game.dir=/mc/game",
        ])
    );
}

#[test]
fn jvm_args_with_instance_settings() {
    let mut obj = instance();
    let mut own = RunArgObj::default();
    own.gc_mode = Some(GCType::Auto);
    own.min_memory = Some(512);
    own.colorasm = Some(true);
    obj.jvm_arg = Some(own);
    let config = RunArgObj::default();
    let args = obj.make_jvm_arg(&login(AuthType::OAuth), 21, Some(25000), &config, &env(), &None);
    assert_eq!(args[0], "-Dcolormc.mixin.port=25000");
    assert_eq!(args[1], "-Dcolormc.mixin.uuid=01234567-89ab-cdef-0123-456789abcdef");
    assert_eq!(args[2], "-javaagent:/lib/colorasm.jar");
    assert_eq!(args[3], "-XX:+UseZGC");
    assert_eq!(args[4], "-Xms512m");
    assert_eq!(args[5], "-Dcolormc.dir=/mc");
    assert_eq!(args.len(), 10);

    let mut little = login(AuthType::LittleSkin);
    little.text1 = None;
    let args = obj.make_jvm_arg(&little, 8, None, &config, &env(), &Some("ab".to_string()));
    assert!(args.contains(&"-javaagent:/lib/authlib.jar=https://littleskin.cn/api/yggdrasil".to_string()));
    assert!(args.contains(&"-Dauthlibinjector.yggdrasil.prefetched=YWI=".to_string()));
}

#[test]
fn placeholders_replaced() {
    let mut obj = instance();
    obj.loader = LoaderType::Fabric;
    obj.loader_version = Some("0.15.0".to_string());
    assert_eq!(obj.version_name(), "fabric-1.20.1-0.15.0");
    let paths = VersionPath::new(PathObj::from_str("/v"));
    let renv = ReplaceEnv {
        assets_dir: PathObj::from_str("/mc/assets"),
        game_dir: PathObj::from_str("/mc/game"),
        lib_dir: PathObj::from_str("/mc/lib"),
        sep: '/',
        os: Os::Linux,
        launcher_name: "ColorMC".to_string(),
        launcher_version: "A1".to_string(),
    };
    let pairs = obj.replace_pairs(
        &login(AuthType::OAuth),
        "/a.jar:/b.jar",
        &PathObj::from_str("/nat"),
        &Some("zh_cn".to_string()),
        &None,
        &renv,
        &paths,
    );
    let mut args = strings(&[
        "--username",
        "${auth_player_name}",
        "-cp",
        "${classpath}",
        "${auth_access_token}",
        "${user_type}",
        "${assets_index_name}",
        "${user_properties}",
        "x${classpath_separator}y",
        "-Djava.library.path=${natives_directory}",
        "${unknown}",
    ]);
    replace_all_value(&mut args, &pairs);
    assert_eq!(
        args,
        strings(&[
            "--username",
            "Steve",
            "-cp",
            "/a.jar:/b.jar",
            "0",
            "msa",
            "legacy",
            "{\"language\":\"zh_cn\"}",
            "x:y",
            "-Djava.library.path=/nat",
            "${unknown}",
        ])
    );

    let mut launch = GameLaunchObj::new();
    launch.jvm_args = strings(&["-cp", "${classpath}"]);
    launch.game_args = strings(&["--version", "${version_name}"]);
    launch.main_class = "net.fabricmc.loader.impl.launch.knot.KnotClient".to_string();
    let run = obj.make_run_arg(&mut launch, &pairs);
    assert_eq!(
        run,
        strings(&[
            "-cp",
            "/a.jar:/b.jar",
            "net.fabricmc.loader.impl.launch.knot.KnotClient",
            "--version",
            "fabric-1.20.1-0.15.0",
        ])
    );
}

#[test]
fn classpath_and_user_arguments() {
    let libs = vec![PathObj::from_str("/l").join("a.jar"), PathObj::from_str("/l").join("b.jar")];
    assert_eq!(classpath_text(&libs, '/', ';'), "/l/a.jar;/l/b.jar");
    assert_eq!(classpath_text(&Vec::new(), '/', ';'), "");
    assert_eq!(build_vec_string(&strings(&["-Xmx1G", "-jar"])), "-Xmx1G -jar");

    let obj = instance();
    let replaced = obj.replace_arg(
        &PathObj::from_str("/java").join("bin").join("java"),
        &strings(&["-Xmx1G", "Main"]),
        "run %GAME_NAME% %GAME_UUID% in %GAME_DIR% with %JAVA_LOCAL% %JAVA_ARG%",
        &PathObj::from_str("/mc").join("game"),
        '/',
    );
    assert_eq!(
        replaced,
        "run Pack 01234567-89ab-cdef-0123-456789abcdef in /mc/game with /java/bin/java -Xmx1G Main"
    );
}

#[test]
fn environment_variables() {
    let mut obj = instance();
    let mut config = RunArgObj::default();
    config.jvm_env = Some("A=1\n B = 2\nFLAG\nA=3".to_string());
    let env = obj.make_env_arg(&config);
    assert_eq!(env.len(), 3);
    assert_eq!(env.get(&"A".to_string()), Some(&"3".to_string()));
    assert_eq!(env.get(&"B ".to_string()), Some(&" 2".to_string()));
    assert_eq!(env.get(&"FLAG".to_string()), Some(&String::new()));
    // Run settings of the instance without variables give none.
    obj.jvm_arg = Some(RunArgObj::default());
    assert_eq!(obj.make_env_arg(&config).len(), 0);
}

#[test]
fn normal_launch_arguments() {
    let mut obj = instance();
    obj.loader = LoaderType::Normal;
    let mut game = GameArgObj::default();
    game.minecraft_arguments = Some("--username ${auth_player_name}".to_string());
    let paths = VersionPath::new(PathObj::from_str("/v"));
    let libs = LibrariesPath {
        lib_dir: PathObj::from_str("/l"),
        native_dir: PathObj::from_str("/n"),
        authlib_file: None,
        nide8_file: None,
    };
    let sys = SystemInfo { os: Os::Linux, system_arch: ArchEnum::X86_64, is_arm: false };
    let mut launch = GameLaunchObj::new();
    obj.make_normal_args(
        &mut launch,
        &game,
        &sys,
        &paths,
        &libs,
        &PathObj::empty(),
        '/',
        &strings(&["-Xmx2G"]),
        &strings(&["--width", "800"]),
    );
    assert_eq!(
        launch.jvm_args,
        strings(&["-Djava.library.path=${natives_directory}", "-cp", "${classpath}", "-Xmx2G"])
    );
    assert_eq!(
        launch.game_args,
        strings(&["--username", "${auth_player_name}", "--width", "800"])
    );

    let mut removed = RunArgObj::default();
    removed.remove_jvm_arg = Some(true);
    removed.remove_game_arg = Some(true);
    obj.jvm_arg = Some(removed);
    let mut launch = GameLaunchObj::new();
    obj.make_normal_args(&mut launch, &game, &sys, &paths, &libs, &PathObj::empty(), '/', &strings(&["-Xmx2G"]), &Vec::new());
    assert_eq!(launch.jvm_args, strings(&["-Xmx2G"]));
    assert!(launch.game_args.is_empty());
}

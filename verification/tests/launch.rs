use mcml_game::auth::{AuthType, LoginObj};
use mcml_game::game_launch::{
    launch_next, LaunchStep,
    java_try_order, launch_log_args, offline_fallback, parse_cmd, should_download, ILaunchGui,
    LaunchError, LaunchState, ProcessRunType,
};
use mcml_game::launcher::config_obj::RunArgObj;
use mcml_game::launcher::game_setting_obj::InstanceSettingObj;
use mcml_game::loader::LoaderType;

fn strings(v: &[&str]) -> Vec<String> {
    v.iter().map(|s| s.to_string()).collect()
}

#[test]
fn launch_check_of_versions() {
    let mut obj = InstanceSettingObj::default();
    assert_eq!(obj.check_launch_versions(true), Err(LaunchError::VersionInfoError));
    obj.version = "1.20.1".to_string();
    obj.loader = LoaderType::Normal;
    assert_eq!(obj.check_launch_versions(false), Ok(()));
    obj.loader = LoaderType::Custom;
    assert_eq!(obj.check_launch_versions(true), Ok(()));
    assert_eq!(obj.check_launch_versions(false), Err(LaunchError::VersionInfoError));
    obj.loader = LoaderType::Forge;
    assert_eq!(obj.check_launch_versions(true), Err(LaunchError::VersionInfoError));
    obj.loader_version = Some(String::new());
    assert_eq!(obj.check_launch_versions(true), Err(LaunchError::VersionInfoError));
    obj.loader_version = Some("47.2.0".to_string());
    assert_eq!(obj.check_launch_versions(false), Ok(()));
}

#[test]
fn secrets_masked_in_log() {
    let args = strings(&["--username", "Steve", "--UUID", "1234", "--accessToken", "abc", "--uuid", "--x"]);
    let logged = launch_log_args(&args);
    assert_eq!(
        logged,
        strings(&[
            "--username",
            "Steve",
            "--UUID",
            "********************",
            "--accessToken",
            "********************",
            "--uuid",
            "********************",
        ])
    );
    assert!(launch_log_args(&vec![]).is_empty());
}

#[test]
fn run_hooks_planned() {
    let mut default = RunArgObj::default();
    default.launch_pre_run = Some(true);
    default.pre_run_arg = Some("echo pre".to_string());
    default.pre_run_with_game = Some(true);
    let obj = InstanceSettingObj::default();
    let pre = obj.pre_run_plan(&default).unwrap();
    assert_eq!(pre.cmd, "echo pre");
    assert!(pre.with_game);
    assert_eq!(pre.ask, ProcessRunType::PreLaunch);
    assert!(obj.post_run_plan(&default).is_none());

    // The instance's own settings take precedence; missing fields fall back.
    let mut own = InstanceSettingObj::default();
    let mut run = RunArgObj::default();
    run.launch_post_run = Some(true);
    run.post_run_arg = Some("echo post".to_string());
    run.launch_pre_run = Some(false);
    own.jvm_arg = Some(run);
    assert!(own.pre_run_plan(&default).is_none());
    let post = own.post_run_plan(&default).unwrap();
    assert_eq!(post.cmd, "echo post");
    assert!(!post.with_game);
    assert_eq!(post.ask, ProcessRunType::PreLaunch);

    let mut empty_cmd = RunArgObj::default();
    empty_cmd.launch_pre_run = Some(true);
    assert!(InstanceSettingObj::default().pre_run_plan(&empty_cmd).is_none());
}

struct Gui {
    download: bool,
}

impl ILaunchGui for Gui {
    fn update_state(&self, _setting: &InstanceSettingObj, _state: LaunchState) {}
    fn login_fail(&self, _auth: &LoginObj) -> bool {
        true
    }
    fn requesst_download_file(&self) -> bool {
        self.download
    }
    fn no_java(&self, _java: i32) {}
    fn launch_process(&self, _run_type: ProcessRunType) -> bool {
        true
    }
}

#[test]
fn launch_helpers() {
    assert_eq!(java_try_order(&vec![8, 21, 17, 21]), vec![21, 21, 17, 8]);
    assert!(java_try_order(&vec![]).is_empty());
    let (name, args) = parse_cmd(" run.sh \n --a \n\n  b\n");
    assert_eq!(name, "run.sh");
    assert_eq!(args, vec!["--a", "b"]);
    let (only, none) = parse_cmd("");
    assert_eq!(only, "");
    assert!(none.is_empty());
    let old = LoginObj {
        auth_type: AuthType::OAuth,
        user_name: "Steve".to_string(),
        uuid: "u".to_string(),
        access_token: "secret".to_string(),
        text1: Some("x".to_string()),
    };
    let off = offline_fallback(&old);
    assert_eq!(off.user_name, "Steve");
    assert_eq!(off.access_token, "");
    assert_eq!(off.auth_type, AuthType::Offline);
    let no: Option<&Gui> = None;
    assert!(should_download(false, no));
    assert!(should_download(true, Some(&Gui { download: false })));
    assert!(!should_download(false, Some(&Gui { download: false })));
}

#[test]
fn launch_steps_in_order() {
    let mut step = LaunchStep::CheckVersions;
    let mut seen = vec![step];
    while step != LaunchStep::Finished {
        step = launch_next(step, false, true).unwrap();
        seen.push(step);
    }
    assert_eq!(seen.len(), 10);
    assert_eq!(seen[7], LaunchStep::RunGame);
    assert_eq!(launch_next(LaunchStep::FindJava, false, false), Err(LaunchError::JavaNotFound));
    assert_eq!(launch_next(LaunchStep::FindJava, true, false), Err(LaunchError::TaskCancel));
    assert_eq!(launch_next(LaunchStep::Login, true, true), Err(LaunchError::TaskCancel));
    assert_eq!(launch_next(LaunchStep::CheckVersions, true, true), Ok(LaunchStep::Login));
    assert_eq!(launch_next(LaunchStep::RunGame, true, true), Ok(LaunchStep::PostRun));
}

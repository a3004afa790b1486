//! The decisions of a launch: the check it starts with, what the run log shows of the
//! arguments, and the commands run before and after the game.
use vstd::prelude::*;

use crate::auth::{AuthType, LoginObj};
use crate::file_item::PathObj;
use crate::launcher::config_obj::RunArgObj;
use crate::launcher::game_setting_obj::InstanceSettingObj;
use crate::launcher_path::keyed_cache::KeyedCache;
use crate::loader::custom::{spec_starts_with, starts_with};
use crate::loader::LoaderType;
use crate::text::{
    chars_of, copy_str, lowercase, push_string, spec_split, spec_trim, split_chars, string_of,
    strings_view, to_lower, trim_chars,
};

verus! {

/// Which command a launch asks the user about running.
#[derive(Debug, Clone, Copy, PartialEq, Eq, Structural)]
pub enum ProcessRunType {
    PreLaunch,
    PostLaunch,
}

/// The stage a launch has reached.
#[derive(Debug, Clone, Copy, PartialEq, Eq, Structural)]
pub enum LaunchState {
    Login,
    Check,
    ReadInfo,
    Download,
    Jvm,
    Pre,
    Post,
    End,
    LoadServerPack,
    CheckServerPack,
    DownloadServerPack,
    DownloadServerPackEnd,
}

/// The command a launch runs: the Java executable, the folder it runs in, its arguments
/// and its environment.
#[derive(Debug)]
pub struct LaunchCmd {
    pub java: PathObj,
    pub dir: PathObj,
    pub arg: Vec<String>,
    pub env: KeyedCache<String, String>,
}

/// Why a launch stops.
#[derive(Debug, Clone, Copy, PartialEq, Eq, Structural)]
pub enum LaunchError {
    /// The instance's versions are not in order.
    VersionInfoError,
    /// The launch was cancelled.
    TaskCancel,
    /// No Java suits the game.
    JavaNotFound,
}

impl InstanceSettingObj {
    /// The check a launch starts with: an instance is refused where it has no game
    /// version; where its loader is neither `Normal` nor `Custom` and it has no loader
    /// version, or an empty one; and where its loader is `Custom` and the loader's file
    /// is not on disk (`custom_file_exists`).
    pub fn check_launch_versions(&self, custom_file_exists: bool) -> (r: Result<(), LaunchError>)
        ensures
            r is Err ==> r == Err::<(), LaunchError>(LaunchError::VersionInfoError),
            r is Err <==> spec_launch_refused(*self, custom_file_exists),
    {
        if self.version.as_str().unicode_len() == 0 {
            return Err(LaunchError::VersionInfoError);
        }
        if self.loader != LoaderType::Normal && self.loader != LoaderType::Custom {
            match &self.loader_version {
                None => {
                    return Err(LaunchError::VersionInfoError);
                },
                Some(v) => {
                    if v.as_str().unicode_len() == 0 {
                        return Err(LaunchError::VersionInfoError);
                    }
                },
            }
        }
        if self.loader == LoaderType::Custom && !custom_file_exists {
            return Err(LaunchError::VersionInfoError);
        }
        Ok(())
    }
}

/// A launch of `obj` is refused by its first check (see `check_launch_versions`).
pub open spec fn spec_launch_refused(obj: InstanceSettingObj, custom_file_exists: bool) -> bool {
    ||| obj.version@.len() == 0
    ||| (obj.loader != LoaderType::Normal && obj.loader != LoaderType::Custom && match obj.loader_version {
        None => true,
        Some(v) => v@.len() == 0,
    })
    ||| (obj.loader == LoaderType::Custom && !custom_file_exists)
}

/// The steps of a launch, in the order they run: the version check, the login, the
/// server pack update, the file check (and download), the choice of Java, making the
/// arguments, the command before the game, starting the game, the command after it.
#[derive(Debug, Clone, Copy, PartialEq, Eq, Structural)]
pub enum LaunchStep {
    CheckVersions,
    Login,
    ServerPack,
    CheckFiles,
    FindJava,
    MakeArgs,
    PreRun,
    RunGame,
    PostRun,
    Finished,
}

/// What comes after a step that went through: the next step, or the error the launch
/// ends with. A launch cancelled by then ends with `TaskCancel` after each step from the
/// login to the command before the game; once the game runs, it is not cancelled. No
/// Java found ends it with `JavaNotFound` (after the check for a cancellation).
pub open spec fn spec_launch_next(done: LaunchStep, cancelled: bool, java_found: bool) -> Result<LaunchStep, LaunchError> {
    match done {
        LaunchStep::CheckVersions => Ok(LaunchStep::Login),
        LaunchStep::Login => if cancelled {
            Err(LaunchError::TaskCancel)
        } else {
            Ok(LaunchStep::ServerPack)
        },
        LaunchStep::ServerPack => if cancelled {
            Err(LaunchError::TaskCancel)
        } else {
            Ok(LaunchStep::CheckFiles)
        },
        LaunchStep::CheckFiles => if cancelled {
            Err(LaunchError::TaskCancel)
        } else {
            Ok(LaunchStep::FindJava)
        },
        LaunchStep::FindJava => if cancelled {
            Err(LaunchError::TaskCancel)
        } else if !java_found {
            Err(LaunchError::JavaNotFound)
        } else {
            Ok(LaunchStep::MakeArgs)
        },
        LaunchStep::MakeArgs => if cancelled {
            Err(LaunchError::TaskCancel)
        } else {
            Ok(LaunchStep::PreRun)
        },
        LaunchStep::PreRun => if cancelled {
            Err(LaunchError::TaskCancel)
        } else {
            Ok(LaunchStep::RunGame)
        },
        LaunchStep::RunGame => Ok(LaunchStep::PostRun),
        LaunchStep::PostRun => Ok(LaunchStep::Finished),
        LaunchStep::Finished => Ok(LaunchStep::Finished),
    }
}

/// The step after `done` (see `spec_launch_next`); the launch runner performs it and
/// asks again, and ends on an error, or on a failed step with that step's error.
pub fn launch_next(done: LaunchStep, cancelled: bool, java_found: bool) -> (r: Result<LaunchStep, LaunchError>)
    ensures
        r == spec_launch_next(done, cancelled, java_found),
{
    match done {
        LaunchStep::CheckVersions => Ok(LaunchStep::Login),
        LaunchStep::Login => if cancelled {
            Err(LaunchError::TaskCancel)
        } else {
            Ok(LaunchStep::ServerPack)
        },
        LaunchStep::ServerPack => if cancelled {
            Err(LaunchError::TaskCancel)
        } else {
            Ok(LaunchStep::CheckFiles)
        },
        LaunchStep::CheckFiles => if cancelled {
            Err(LaunchError::TaskCancel)
        } else {
            Ok(LaunchStep::FindJava)
        },
        LaunchStep::FindJava => if cancelled {
            Err(LaunchError::TaskCancel)
        } else if !java_found {
            Err(LaunchError::JavaNotFound)
        } else {
            Ok(LaunchStep::MakeArgs)
        },
        LaunchStep::MakeArgs => if cancelled {
            Err(LaunchError::TaskCancel)
        } else {
            Ok(LaunchStep::PreRun)
        },
        LaunchStep::PreRun => if cancelled {
            Err(LaunchError::TaskCancel)
        } else {
            Ok(LaunchStep::RunGame)
        },
        LaunchStep::RunGame => Ok(LaunchStep::PostRun),
        LaunchStep::PostRun => Ok(LaunchStep::Finished),
        LaunchStep::Finished => Ok(LaunchStep::Finished),
    }
}

/// The position of a step in the order of a launch.
pub open spec fn step_index(s: LaunchStep) -> int {
    match s {
        LaunchStep::CheckVersions => 0,
        LaunchStep::Login => 1,
        LaunchStep::ServerPack => 2,
        LaunchStep::CheckFiles => 3,
        LaunchStep::FindJava => 4,
        LaunchStep::MakeArgs => 5,
        LaunchStep::PreRun => 6,
        LaunchStep::RunGame => 7,
        LaunchStep::PostRun => 8,
        LaunchStep::Finished => 9,
    }
}

/// A launch goes through its steps in order, one at a time; a cancelled launch never
/// reaches the game once it has logged in, and the game is never started without Java.
pub proof fn law_launch_order(done: LaunchStep, cancelled: bool, java_found: bool)
    ensures
        done != LaunchStep::Finished ==> (spec_launch_next(done, cancelled, java_found) matches Ok(
            n,
        ) ==> step_index(n) == step_index(done) + 1),
        cancelled && 1 <= step_index(done) <= 6 ==> spec_launch_next(done, cancelled, java_found)
            == Err::<LaunchStep, LaunchError>(LaunchError::TaskCancel),
        spec_launch_next(done, cancelled, java_found) == Ok::<LaunchStep, LaunchError>(
            LaunchStep::MakeArgs,
        ) ==> java_found,
{
}

/// What the run log shows in place of a secret.
pub open spec fn secret_mask() -> Seq<char> {
    "********************"@
}

/// An argument after which the next one is a secret: in lower case, it starts with
/// `--uuid` or `--accesstoken`.
pub open spec fn hides_next(arg: Seq<char>) -> bool {
    spec_starts_with(lowercase(arg), "--uuid"@) || spec_starts_with(
        lowercase(arg),
        "--accesstoken"@,
    )
}

/// What the run log shows of argument `i`: the mask where the argument before it
/// hides it, else the argument.
pub open spec fn logged_arg(args: Seq<Seq<char>>, i: int) -> Seq<char> {
    if i > 0 && hides_next(args[i - 1]) {
        secret_mask()
    } else {
        args[i]
    }
}

/// What the run log shows of the launch arguments, one entry per argument (see
/// `logged_arg`).
pub fn launch_log_args(args: &Vec<String>) -> (r: Vec<String>)
    ensures
        strings_view(r@).len() == args@.len(),
        forall|i: int|
            0 <= i < args@.len() ==> #[trigger] strings_view(r@)[i] == logged_arg(
                strings_view(args@),
                i,
            ),
{
    let ghost av = strings_view(args@);
    let mut r: Vec<String> = Vec::new();
    let mut mask_next = false;
    let mut i: usize = 0;
    while i < args.len()
        invariant
            i <= args@.len(),
            av == strings_view(args@),
            strings_view(r@).len() == i,
            forall|j: int| 0 <= j < i ==> #[trigger] strings_view(r@)[j] == logged_arg(av, j),
            mask_next == (i > 0 && hides_next(av[i - 1])),
        decreases args@.len() - i,
    {
        let ghost r0 = strings_view(r@);
        if mask_next {
            push_string(&mut r, "********************");
        } else {
            push_string(&mut r, args[i].as_str());
        }
        assert(strings_view(r@) == r0.push(logged_arg(av, i as int)));
        let low = to_lower(args[i].as_str());
        mask_next = starts_with(low.as_str(), "--uuid") || starts_with(low.as_str(), "--accesstoken");
        i = i + 1;
    }
    r
}

/// A command to run around the game: the command, whether the game starts without
/// waiting for it, and what the user is asked about it.
#[derive(Debug)]
pub struct HookPlan {
    pub cmd: String,
    pub with_game: bool,
    pub ask: ProcessRunType,
}

/// The run settings that apply: the instance's own, else the launcher's.
pub open spec fn run_settings(obj: InstanceSettingObj, default: RunArgObj) -> RunArgObj {
    match obj.jvm_arg {
        Some(r) => r,
        None => default,
    }
}

/// A switch of the settings that apply, else of the launcher's, else off.
pub open spec fn flag_or(own: Option<bool>, default: Option<bool>) -> bool {
    match own {
        Some(b) => b,
        None => match default {
            Some(b) => b,
            None => false,
        },
    }
}

/// A command of the settings that apply, else of the launcher's, else empty.
pub open spec fn text_or(own: Option<String>, default: Option<String>) -> Seq<char> {
    match own {
        Some(t) => t@,
        None => match default {
            Some(t) => t@,
            None => Seq::empty(),
        },
    }
}

/// A switch of the settings that apply, else of the launcher's, else off.
fn pick_flag(own: Option<bool>, default: Option<bool>) -> (r: bool)
    ensures
        r == flag_or(own, default),
{
    match own {
        Some(b) => b,
        None => match default {
            Some(b) => b,
            None => false,
        },
    }
}

/// A command of the settings that apply, else of the launcher's, else empty.
fn pick_text(own: &Option<String>, default: &Option<String>) -> (r: String)
    ensures
        r@ == text_or(*own, *default),
{
    match own {
        Some(t) => copy_str(t.as_str()),
        None => match default {
            Some(t) => copy_str(t.as_str()),
            None => String::new(),
        },
    }
}

impl InstanceSettingObj {
    /// The command run before the game, where one is due: the pre-launch switch is on
    /// and the command is not empty (each taken from the instance's run settings, else
    /// from the launcher's `default`). The user is asked about a pre-launch run.
    pub fn pre_run_plan(&self, default: &RunArgObj) -> (r: Option<HookPlan>)
        ensures
            ({
                let run = run_settings(*self, *default);
                let due = flag_or(run.launch_pre_run, default.launch_pre_run) && text_or(
                    run.pre_run_arg,
                    default.pre_run_arg,
                ).len() > 0;
                match r {
                    Some(p) => due && p.cmd@ == text_or(run.pre_run_arg, default.pre_run_arg)
                        && p.with_game == flag_or(run.pre_run_with_game, default.pre_run_with_game)
                        && p.ask == ProcessRunType::PreLaunch,
                    None => !due,
                }
            }),
    {
        let run = match &self.jvm_arg {
            Some(r) => r,
            None => default,
        };
        let on = pick_flag(run.launch_pre_run, default.launch_pre_run);
        let cmd = pick_text(&run.pre_run_arg, &default.pre_run_arg);
        if on && !cmd.as_str().is_empty() {
            let with_game = pick_flag(run.pre_run_with_game, default.pre_run_with_game);
            Some(HookPlan { cmd, with_game, ask: ProcessRunType::PreLaunch })
        } else {
            None
        }
    }

    /// The command run once the game has started, where one is due: the post-launch
    /// switch is on and the command is not empty (each taken from the instance's run
    /// settings, else from the launcher's `default`). The launch waits for it, and the
    /// user is asked about it as about a pre-launch run.
    pub fn post_run_plan(&self, default: &RunArgObj) -> (r: Option<HookPlan>)
        ensures
            ({
                let run = run_settings(*self, *default);
                let due = flag_or(run.launch_post_run, default.launch_post_run) && text_or(
                    run.post_run_arg,
                    default.post_run_arg,
                ).len() > 0;
                match r {
                    Some(p) => due && p.cmd@ == text_or(run.post_run_arg, default.post_run_arg)
                        && !p.with_game && p.ask == ProcessRunType::PreLaunch,
                    None => !due,
                }
            }),
    {
        let run = match &self.jvm_arg {
            Some(r) => r,
            None => default,
        };
        let on = pick_flag(run.launch_post_run, default.launch_post_run);
        let cmd = pick_text(&run.post_run_arg, &default.post_run_arg);
        if on && !cmd.as_str().is_empty() {
            Some(HookPlan { cmd, with_game: false, ask: ProcessRunType::PreLaunch })
        } else {
            None
        }
    }
}


/// What a launch asks of, and tells, its user. Nothing is promised of the answers.
pub trait ILaunchGui {
    /// The launch has reached a stage.
    fn update_state(&self, setting: &InstanceSettingObj, state: LaunchState);
    /// Whether to go on offline once a login failed.
    fn login_fail(&self, auth: &LoginObj) -> bool;
    /// Whether to download the missing files.
    fn requesst_download_file(&self) -> bool;
    /// No Java of this major version was found.
    fn no_java(&self, java: i32);
    /// Whether to run a command around the game.
    fn launch_process(&self, run_type: ProcessRunType) -> bool;
}

/// The account a launch goes on with once its login failed and the user agreed: the
/// same name and id, offline, with nothing else.
pub fn offline_fallback(old: &LoginObj) -> (r: LoginObj)
    ensures
        r.user_name@ == old.user_name@,
        r.uuid@ == old.uuid@,
        r.access_token@.len() == 0,
        r.auth_type == AuthType::Offline,
        r.text1 is None,
{
    LoginObj {
        auth_type: AuthType::Offline,
        user_name: copy_str(old.user_name.as_str()),
        uuid: copy_str(old.uuid.as_str()),
        access_token: String::new(),
        text1: None,
    }
}

/// Whether the missing files of a launch are downloaded: without asking where downloads
/// are automatic or there is no user; else as the user answers.
pub fn should_download<G: ILaunchGui>(auto_download: bool, gui: Option<&G>) -> (r: bool)
    ensures
        auto_download || gui is None ==> r,
{
    if !auto_download {
        if let Some(g) = gui {
            return g.requesst_download_file();
        }
    }
    true
}

/// The list is in descending order.
pub open spec fn descending(s: Seq<i32>) -> bool {
    forall|i: int, j: int| 0 <= i < j < s.len() ==> s[i] >= s[j]
}

/// The Java major versions a launch tries, the greatest first.
pub fn java_try_order(versions: &Vec<i32>) -> (r: Vec<i32>)
    ensures
        descending(r@),
        r@.to_multiset() == versions@.to_multiset(),
{
    let mut r: Vec<i32> = Vec::new();
    let mut i: usize = 0;
    assert(versions@.take(0) =~= Seq::<i32>::empty());
    while i < versions.len()
        invariant
            i <= versions@.len(),
            descending(r@),
            r@.to_multiset() == versions@.take(i as int).to_multiset(),
        decreases versions@.len() - i,
    {
        let x = versions[i];
        let mut pos: usize = 0;
        while pos < r.len() && r[pos] >= x
            invariant
                pos <= r@.len(),
                forall|j: int| 0 <= j < pos ==> r@[j] >= x,
            decreases r@.len() - pos,
        {
            pos = pos + 1;
        }
        let ghost r0 = r@;
        r.insert(pos, x);
        assert(r@ == r0.insert(pos as int, x));
        assert forall|a: int, b: int| 0 <= a < b < r@.len() implies r@[a] >= r@[b] by {
            if b < pos {
            } else if b == pos {
                assert(r@[a] == r0[a]);
            } else if a < pos {
                assert(r@[b] == r0[b - 1]);
                assert(r0[a] >= r0[b - 1] || a == b - 1);
            } else if a == pos {
                assert(r@[b] == r0[b - 1]);
                assert(pos < r0.len());
                assert(!(r0[pos as int] >= x));
            } else {
                assert(r@[a] == r0[a - 1]);
                assert(r@[b] == r0[b - 1]);
            }
        }
        assert(versions@.take(i + 1) =~= versions@.take(i as int).push(x));
        proof {
            vstd::seq_lib::to_multiset_insert(r0, pos as int, x);
            vstd::seq_lib::to_multiset_build(versions@.take(i as int), x);
        }
        assert(r0.insert(pos as int, x).to_multiset() == r0.to_multiset().insert(x));
        assert(versions@.take(i as int).push(x).to_multiset() == versions@.take(
            i as int,
        ).to_multiset().insert(x));
        i = i + 1;
    }
    assert(versions@.take(i as int) =~= versions@);
    r
}

/// A command made of lines: the program is the first line, trimmed; its arguments are
/// the other lines, trimmed, the empty ones dropped.
pub open spec fn cmd_args_upto(lines: Seq<Seq<char>>, n: int) -> Seq<Seq<char>>
    decreases n,
{
    if n <= 1 {
        seq![]
    } else if spec_trim(lines[n - 1]).len() == 0 {
        cmd_args_upto(lines, n - 1)
    } else {
        cmd_args_upto(lines, n - 1).push(spec_trim(lines[n - 1]))
    }
}

/// The program and arguments of a command written one part per line (see
/// `cmd_args_upto`).
pub fn parse_cmd(cmd: &str) -> (r: (String, Vec<String>))
    ensures
        r.0@ == spec_trim(spec_split(cmd@, '\n')[0]),
        strings_view(r.1@) == cmd_args_upto(
            spec_split(cmd@, '\n'),
            spec_split(cmd@, '\n').len() as int,
        ),
{
    let chars = chars_of(cmd);
    let lines = split_chars(chars.as_slice(), '\n');
    let ghost lv = lines@.map_values(|x: Vec<char>| x@);
    proof {
        crate::text::lemma_split_nonempty(cmd@, '\n');
    }
    assert(lv == spec_split(cmd@, '\n'));
    let name_chars = trim_chars(lines[0].as_slice());
    let name = string_of(name_chars.as_slice());
    let mut args: Vec<String> = Vec::new();
    let mut i: usize = 1;
    while i < lines.len()
        invariant
            1 <= i <= lines@.len(),
            lv == lines@.map_values(|x: Vec<char>| x@),
            strings_view(args@) == cmd_args_upto(lv, i as int),
        decreases lines@.len() - i,
    {
        let t = trim_chars(lines[i].as_slice());
        assert(t@ == spec_trim(lv[i as int]));
        if t.len() > 0 {
            let ghost a0 = strings_view(args@);
            args.push(string_of(t.as_slice()));
            assert(strings_view(args@) =~= a0.push(t@));
        }
        i = i + 1;
    }
    (name, args)
}
} // verus!

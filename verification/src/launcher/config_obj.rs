//! Launch settings that an instance may override and the launcher configures by default.
use vstd::prelude::*;

verus! {

/// The garbage collector a game runs with.
#[derive(Debug, Clone, Copy, PartialEq, Eq, Structural)]
pub enum GCType {
    /// G1 before Java 21, ZGC from Java 21.
    Auto,
    G1GC,
    ZGC,
    /// No collector argument.
    NoGc,
}

/// Window settings of a game.
#[derive(Debug, Clone, Copy)]
pub struct WindowSettingObj {
    pub full_screen: Option<bool>,
    pub width: Option<u32>,
    pub height: Option<u32>,
}

impl Default for WindowSettingObj {
    fn default() -> (r: Self)
        ensures
            r.full_screen is None,
            r.width is None,
            r.height is None,
    {
        WindowSettingObj { full_screen: None, width: None, height: None }
    }
}

/// JVM and game argument settings.
#[derive(Debug)]
pub struct RunArgObj {
    /// Extra JVM arguments, one per line.
    pub jvm_args: Option<String>,
    /// Extra game arguments, one per line.
    pub game_args: Option<String>,
    pub gc_mode: Option<GCType>,
    /// Maximum heap in MiB.
    pub max_memory: Option<u32>,
    /// Initial heap in MiB.
    pub min_memory: Option<u32>,
    pub colorasm: Option<bool>,
    /// Leave out the JVM arguments of the version description.
    pub remove_jvm_arg: Option<bool>,
    /// Leave out the game arguments of the version description.
    pub remove_game_arg: Option<bool>,
    /// Environment variables of the game, one `NAME=value` per line.
    pub jvm_env: Option<String>,
    /// Run a command before the game starts.
    pub launch_pre_run: Option<bool>,
    /// The command run before the game starts.
    pub pre_run_arg: Option<String>,
    /// Start the game without waiting for the command run before it.
    pub pre_run_with_game: Option<bool>,
    /// Run a command once the game has started.
    pub launch_post_run: Option<bool>,
    /// The command run once the game has started.
    pub post_run_arg: Option<String>,
}

impl Default for RunArgObj {
    fn default() -> (r: Self)
        ensures
            r.jvm_args is None,
            r.game_args is None,
            r.gc_mode is None,
            r.max_memory is None,
            r.min_memory is None,
            r.colorasm is None,
            r.remove_jvm_arg is None,
            r.remove_game_arg is None,
            r.jvm_env is None,
            r.launch_pre_run is None,
            r.pre_run_arg is None,
            r.pre_run_with_game is None,
            r.launch_post_run is None,
            r.post_run_arg is None,
    {
        RunArgObj {
            jvm_args: None,
            game_args: None,
            gc_mode: None,
            max_memory: None,
            min_memory: None,
            colorasm: None,
            remove_jvm_arg: None,
            remove_game_arg: None,
            jvm_env: None,
            launch_pre_run: None,
            pre_run_arg: None,
            pre_run_with_game: None,
            launch_post_run: None,
            post_run_arg: None,
        }
    }
}

} // verus!

//! The launch arguments of a game.
use vstd::prelude::*;

use crate::file_item::{spec_display, FileItemObj, PathObj};
use crate::auth::{AuthType, LoginObj};
use crate::launcher::config_obj::{GCType, RunArgObj, WindowSettingObj};
use crate::launcher::game_setting_obj::{InstanceSettingObj, ProxyHostObj, ServerObj};
use crate::game_options::{cut_once, split_once, text_map};
use crate::launcher_path::keyed_cache::{lookup, KeyedCache};
use crate::launcher_path::libraries_path::{spec_game_file, spec_optifine_file, LibrariesPath};
use crate::launcher_path::version_path::{get_version, spec_version_type, VersionPath};
use crate::loader::custom::{spec_custom_game_args, spec_custom_jvm_args, spec_custom_mainclass};
use crate::loader::fabric_loader_obj::FabricLoaderObj;
use crate::loader::forge_launch_obj::ForgeLaunchObj;
use crate::loader::quilt_loader_obj::QuiltLoaderObj;
use crate::loader::{spec_loader_prefix, LoaderType};
use crate::mojang::game_arg_obj::{ArgValue, Argument, GameArgObj, GameAssetIndexObj};
use crate::mojang::version_checker::{is_game_version_120, spec_is_at_least, v120};
use crate::mojang::version_parse::version_fits;
use crate::mojang::{check_allow, spec_check_allow};
use crate::system_info::{Os, SystemInfo};
use crate::names::{
    ARG_GAME_BASE_DIR, ARG_GAME_DIR, ARG_GAME_NAME, ARG_GAME_UUID, ARG_JAVA_ARG, ARG_JAVA_LOCAL,
    LITTLE_SKIN_URL,
};
use crate::text::{inner_plain, key_shaped, keys_shaped, law_placeholder_replaced, no_dollar, values_plain, replace_str, spec_replace, keys_nonempty, replace_all, replace_each, replacements_view, base64, spec_base64, spec_trim, trim_chars, string_of, uuid_text, spec_uuid_text, seqs_of, copy_str, decimal, push_char, spec_decimal, extend_from_chars, extend_strings, push_owned, push_str, push_string, spec_split, split_str, strings_view};

verus! {

/// What a launch is put together from.
#[derive(Debug)]
pub struct GameLaunchObj {
    /// Libraries of the game.
    pub game_libs: Vec<FileItemObj>,
    /// Libraries of the loader.
    pub loader_libs: Vec<FileItemObj>,
    /// Libraries of the loader's installer.
    pub installer_libs: Vec<FileItemObj>,
    pub jvm_args: Vec<String>,
    pub game_args: Vec<String>,
    /// The Java major versions that suit the game (each once).
    pub java_versions: Vec<i32>,
    pub main_class: String,
    /// Where native libraries are unpacked.
    pub native_dir: PathObj,
    pub assets: GameAssetIndexObj,
    /// The game core.
    pub game_jar: FileItemObj,
    /// The safe log4j configuration.
    pub log4j_xml: Option<FileItemObj>,
    /// Whether the ColorASM agent is used.
    pub use_asm: bool,
}

impl GameLaunchObj {
    /// An empty launch.
    pub fn new() -> (r: Self)
        ensures
            r.game_libs@.len() == 0,
            r.loader_libs@.len() == 0,
            r.installer_libs@.len() == 0,
            r.jvm_args@.len() == 0,
            r.game_args@.len() == 0,
            r.java_versions@.len() == 0,
            r.main_class@ == Seq::<char>::empty(),
            r.native_dir@ == Seq::<Seq<char>>::empty(),
            r.assets.id@ == Seq::<char>::empty(),
            r.assets.url@ == Seq::<char>::empty(),
            r.game_jar.name@ == Seq::<char>::empty(),
            r.game_jar.file@ == Seq::<Seq<char>>::empty(),
            r.game_jar.url@ == Seq::<char>::empty(),
            r.game_jar.hash is NoHash,
            r.game_jar.later is Nothing,
            r.log4j_xml is None,
            !r.use_asm,
    {
        GameLaunchObj {
            game_libs: Vec::new(),
            loader_libs: Vec::new(),
            installer_libs: Vec::new(),
            jvm_args: Vec::new(),
            game_args: Vec::new(),
            java_versions: Vec::new(),
            main_class: String::new(),
            native_dir: PathObj::empty(),
            assets: GameAssetIndexObj::default(),
            game_jar: FileItemObj::default(),
            log4j_xml: None,
            use_asm: false,
        }
    }
}

/// The JVM arguments of a version described in the first argument format.
pub open spec fn spec_v1_jvm_arg() -> Seq<Seq<char>> {
    seq!["-Djava.library.path=${natives_directory}"@, "-cp"@, "${classpath}"@]
}

/// The JVM arguments of a version described in the first argument format.
pub fn v1_jvm_arg() -> (r: Vec<String>)
    ensures
        strings_view(r@) == spec_v1_jvm_arg(),
{
    let mut r: Vec<String> = Vec::new();
    push_string(&mut r, "-Djava.library.path=${natives_directory}");
    push_string(&mut r, "-cp");
    push_string(&mut r, "${classpath}");
    assert(strings_view(r@) =~= spec_v1_jvm_arg());
    r
}

/// The game arguments of the first argument format: the argument line split on spaces.
pub open spec fn spec_v1_game_arg(game: GameArgObj) -> Seq<Seq<char>> {
    match game.minecraft_arguments {
        None => Seq::empty(),
        Some(arg) => spec_split(arg@, ' '),
    }
}

/// The game arguments of a version in the first argument format.
pub fn make_v1_game_arg(game: &GameArgObj) -> (r: Vec<String>)
    ensures
        strings_view(r@) == spec_v1_game_arg(*game),
{
    let mut r: Vec<String> = Vec::new();
    assert(strings_view(r@) =~= Seq::<Seq<char>>::empty());
    if let Some(arg) = &game.minecraft_arguments {
        let parts = split_str(arg.as_str(), ' ');
        extend_from_chars(&mut r, &parts);
        assert(strings_view(r@) =~= spec_v1_game_arg(*game));
    }
    r
}

/// The plain arguments of a list, in order; conditional ones are left out.
pub open spec fn plain_args(args: Seq<Argument>) -> Seq<Seq<char>>
    decreases args.len(),
{
    if args.len() == 0 {
        Seq::empty()
    } else {
        let prev = plain_args(args.drop_last());
        match args.last() {
            Argument::Plain(s) => prev.push(s@),
            Argument::Conditional(_) => prev,
        }
    }
}

/// The game arguments of the second argument format: its plain game arguments.
pub open spec fn spec_v2_game_arg(game: GameArgObj) -> Seq<Seq<char>> {
    match game.arguments {
        None => Seq::empty(),
        Some(args) => plain_args(args.game@),
    }
}

/// The plain arguments of a list.
fn collect_plain(args: &Vec<Argument>) -> (r: Vec<String>)
    ensures
        strings_view(r@) == plain_args(args@),
{
    let mut r: Vec<String> = Vec::new();
    let mut i: usize = 0;
    assert(args@.take(0) =~= Seq::<Argument>::empty());
    assert(strings_view(r@) =~= Seq::<Seq<char>>::empty());
    while i < args.len()
        invariant
            i <= args@.len(),
            strings_view(r@) == plain_args(args@.take(i as int)),
        decreases args@.len() - i,
    {
        assert(args@.take(i + 1).drop_last() =~= args@.take(i as int));
        match &args[i] {
            Argument::Plain(text) => push_string(&mut r, text.as_str()),
            Argument::Conditional(_) => {},
        }
        i = i + 1;
    }
    assert(args@.take(i as int) =~= args@);
    r
}

/// The game arguments of a version in the second argument format.
pub fn make_v2_game_arg(game: &GameArgObj) -> (r: Vec<String>)
    ensures
        strings_view(r@) == spec_v2_game_arg(*game),
{
    match &game.arguments {
        None => {
            let r: Vec<String> = Vec::new();
            assert(strings_view(r@) =~= Seq::<Seq<char>>::empty());
            r
        },
        Some(args) => collect_plain(&args.game),
    }
}

/// The JVM arguments of a list that apply on `sys`: plain ones, and the values of the
/// conditional ones whose rules allow them.
pub open spec fn allowed_args(args: Seq<Argument>, sys: SystemInfo) -> Seq<Seq<char>>
    decreases args.len(),
{
    if args.len() == 0 {
        Seq::empty()
    } else {
        let prev = allowed_args(args.drop_last(), sys);
        match args.last() {
            Argument::Plain(s) => prev.push(s@),
            Argument::Conditional(c) => if spec_check_allow(c.rules@, sys) {
                match c.value {
                    ArgValue::Single(s) => prev.push(s@),
                    ArgValue::Multi(v) => prev + strings_view(v@),
                }
            } else {
                prev
            },
        }
    }
}

/// The JVM arguments of the second argument format on `sys`.
pub open spec fn spec_v2_jvm_arg(game: GameArgObj, sys: SystemInfo) -> Seq<Seq<char>> {
    match game.arguments {
        None => Seq::empty(),
        Some(args) => allowed_args(args.jvm@, sys),
    }
}

/// The JVM arguments of a version in the second argument format, on the system `sys`.
pub fn make_v2_jvm_arg(game: &GameArgObj, sys: &SystemInfo) -> (r: Vec<String>)
    ensures
        strings_view(r@) == spec_v2_jvm_arg(*game, *sys),
{
    let mut r: Vec<String> = Vec::new();
    assert(strings_view(r@) =~= Seq::<Seq<char>>::empty());
    let data = match &game.arguments {
        None => {
            return r;
        },
        Some(data) => data,
    };
    let args = &data.jvm;
    let mut i: usize = 0;
    assert(args@.take(0) =~= Seq::<Argument>::empty());
    while i < args.len()
        invariant
            i <= args@.len(),
            strings_view(r@) == allowed_args(args@.take(i as int), *sys),
        decreases args@.len() - i,
    {
        assert(args@.take(i + 1).drop_last() =~= args@.take(i as int));
        match &args[i] {
            Argument::Plain(text) => push_string(&mut r, text.as_str()),
            Argument::Conditional(obj) => {
                if check_allow(&obj.rules, sys) {
                    match &obj.value {
                        ArgValue::Single(text) => push_string(&mut r, text.as_str()),
                        ArgValue::Multi(items) => extend_strings(&mut r, items),
                    }
                }
            },
        }
        i = i + 1;
    }
    assert(args@.take(i as int) =~= args@);
    r
}

/// The Forge or NeoForge launch description of an instance's loader, as kept.
pub open spec fn forge_like_of(obj: InstanceSettingObj, paths: VersionPath) -> Option<
    ForgeLaunchObj,
> {
    match obj.loader_version {
        None => None,
        Some(lv) => if obj.loader == LoaderType::Forge {
            lookup(paths.forge_launchs@, (obj.version@, lv@))
        } else {
            lookup(paths.neoforge_launchs@, (obj.version@, lv@))
        },
    }
}

/// The Fabric loader description of an instance's loader, as kept.
pub open spec fn fabric_of(obj: InstanceSettingObj, paths: VersionPath) -> Option<FabricLoaderObj> {
    match obj.loader_version {
        None => None,
        Some(lv) => lookup(paths.fabric_loaders@, (obj.version@, lv@)),
    }
}

/// The Quilt loader description of an instance's loader, as kept.
pub open spec fn quilt_of(obj: InstanceSettingObj, paths: VersionPath) -> Option<QuiltLoaderObj> {
    match obj.loader_version {
        None => None,
        Some(lv) => lookup(paths.quilt_loaders@, (obj.version@, lv@)),
    }
}

/// The arguments that make OptiFine's tweaker load.
pub open spec fn optifine_tweak_args() -> Seq<Seq<char>> {
    seq!["--tweakClass"@, "optifine.OptiFineTweaker"@]
}

/// The game arguments of an instance's loader for a version in the first argument
/// format.
pub open spec fn spec_loader_v1_game_arg(
    obj: InstanceSettingObj,
    game: GameArgObj,
    paths: VersionPath,
) -> Seq<Seq<char>> {
    match obj.loader {
        LoaderType::Forge | LoaderType::NeoForge => match forge_like_of(obj, paths) {
            Some(forge) => match forge.minecraft_arguments {
                Some(line) => spec_split(line@, ' '),
                None => Seq::empty(),
            },
            None => Seq::empty(),
        },
        LoaderType::Normal => Seq::empty(),
        LoaderType::Fabric => match fabric_of(obj, paths) {
            Some(f) => spec_v1_game_arg(game) + strings_view(f.arguments.game@),
            None => Seq::empty(),
        },
        LoaderType::Quilt => match quilt_of(obj, paths) {
            Some(q) => spec_v1_game_arg(game) + strings_view(q.arguments.game@),
            None => Seq::empty(),
        },
        LoaderType::OptiFine => spec_v1_game_arg(game) + optifine_tweak_args(),
        LoaderType::Custom => spec_custom_game_args(paths, obj.uuid),
        LoaderType::LiteLoader => Seq::empty(),
    }
}

/// The Forge or NeoForge launch description of an instance's loader.
fn get_forge_like<'a>(obj: &InstanceSettingObj, paths: &'a VersionPath) -> (r: Option<
    &'a ForgeLaunchObj,
>)
    requires
        paths.wf(),
    ensures
        match r {
            Some(v) => forge_like_of(*obj, *paths) == Some(*v),
            None => forge_like_of(*obj, *paths) is None,
        },
{
    if obj.loader == LoaderType::Forge {
        obj.get_forge(paths)
    } else {
        obj.get_neoforge(paths)
    }
}

/// The game arguments of an instance's loader for a version in the first argument
/// format. LiteLoader instances have none that can be made.
pub fn make_loader_v1_game_arg(
    obj: &InstanceSettingObj,
    game: &GameArgObj,
    paths: &VersionPath,
) -> (r: Vec<String>)
    requires
        paths.wf(),
        obj.loader != LoaderType::LiteLoader,
    ensures
        strings_view(r@) == spec_loader_v1_game_arg(*obj, *game, *paths),
{
    let mut r: Vec<String> = Vec::new();
    assert(strings_view(r@) =~= Seq::<Seq<char>>::empty());
    match obj.loader {
        LoaderType::Forge | LoaderType::NeoForge => {
            if let Some(data) = get_forge_like(obj, paths) {
                if let Some(line) = &data.minecraft_arguments {
                    let parts = split_str(line.as_str(), ' ');
                    extend_from_chars(&mut r, &parts);
                    assert(strings_view(r@) =~= spec_split(line@, ' '));
                }
            }
            r
        },
        LoaderType::Normal => r,
        LoaderType::Fabric => {
            if let Some(data) = obj.get_fabric(paths) {
                let mut args = make_v1_game_arg(game);
                extend_strings(&mut args, &data.arguments.game);
                args
            } else {
                r
            }
        },
        LoaderType::Quilt => {
            if let Some(data) = obj.get_quilt(paths) {
                let mut args = make_v1_game_arg(game);
                extend_strings(&mut args, &data.arguments.game);
                args
            } else {
                r
            }
        },
        LoaderType::OptiFine => {
            let mut args = make_v1_game_arg(game);
            let ghost before = strings_view(args@);
            push_string(&mut args, "--tweakClass");
            push_string(&mut args, "optifine.OptiFineTweaker");
            assert(strings_view(args@) =~= before + optifine_tweak_args());
            args
        },
        LoaderType::Custom => obj.get_custom_loader_game_args(paths),
        LoaderType::LiteLoader => r,
    }
}

/// The game arguments of an instance's loader for a version in the second argument
/// format.
pub open spec fn spec_loader_v2_game_arg(obj: InstanceSettingObj, paths: VersionPath) -> Seq<
    Seq<char>,
> {
    match obj.loader {
        LoaderType::Forge | LoaderType::NeoForge => match forge_like_of(obj, paths) {
            Some(forge) => match forge.arguments {
                Some(args) => strings_view(args.game@),
                None => Seq::empty(),
            },
            None => Seq::empty(),
        },
        LoaderType::Normal => Seq::empty(),
        LoaderType::Fabric => match fabric_of(obj, paths) {
            Some(f) => strings_view(f.arguments.game@),
            None => Seq::empty(),
        },
        LoaderType::Quilt => match quilt_of(obj, paths) {
            Some(q) => strings_view(q.arguments.game@),
            None => Seq::empty(),
        },
        LoaderType::OptiFine => optifine_tweak_args(),
        LoaderType::Custom => spec_custom_game_args(paths, obj.uuid),
        LoaderType::LiteLoader => Seq::empty(),
    }
}

/// The game arguments of an instance's loader for a version in the second argument
/// format. LiteLoader instances have none that can be made.
pub fn make_loader_v2_game_arg(obj: &InstanceSettingObj, paths: &VersionPath) -> (r: Vec<String>)
    requires
        paths.wf(),
        obj.loader != LoaderType::LiteLoader,
    ensures
        strings_view(r@) == spec_loader_v2_game_arg(*obj, *paths),
{
    let mut r: Vec<String> = Vec::new();
    assert(strings_view(r@) =~= Seq::<Seq<char>>::empty());
    match obj.loader {
        LoaderType::Forge | LoaderType::NeoForge => {
            if let Some(data) = get_forge_like(obj, paths) {
                if let Some(args) = &data.arguments {
                    extend_strings(&mut r, &args.game);
                }
            }
            r
        },
        LoaderType::Normal => r,
        LoaderType::Fabric => {
            if let Some(data) = obj.get_fabric(paths) {
                extend_strings(&mut r, &data.arguments.game);
            }
            r
        },
        LoaderType::Quilt => {
            if let Some(data) = obj.get_quilt(paths) {
                extend_strings(&mut r, &data.arguments.game);
            }
            r
        },
        LoaderType::OptiFine => {
            push_string(&mut r, "--tweakClass");
            push_string(&mut r, "optifine.OptiFineTweaker");
            assert(strings_view(r@) =~= optifine_tweak_args());
            r
        },
        LoaderType::Custom => obj.get_custom_loader_game_args(paths),
        LoaderType::LiteLoader => r,
    }
}

/// The arguments that open the JDK's internals to OptiFine's wrapper.
pub open spec fn optifine_open_args() -> Seq<Seq<char>> {
    seq![
        "--add-opens"@,
        "java.base/java.lang=ALL-UNNAMED"@,
        "--add-opens"@,
        "java.base/java.util=ALL-UNNAMED"@,
        "--add-opens"@,
        "java.base/java.net=ALL-UNNAMED"@,
        "--add-opens"@,
        "java.base/jdk.internal.loader=ALL-UNNAMED"@,
    ]
}

/// The JVM arguments of an instance's loader. `installer` is the Forge or NeoForge
/// installer of the instance, and `sep` the separator of path parts on this system.
pub open spec fn spec_loader_jvm_arg(
    v2: bool,
    obj: InstanceSettingObj,
    paths: VersionPath,
    libs: LibrariesPath,
    installer: Seq<Seq<char>>,
    sep: char,
) -> Seq<Seq<char>> {
    match obj.loader {
        LoaderType::Normal => Seq::empty(),
        LoaderType::Forge | LoaderType::NeoForge => if !v2 {
            Seq::empty()
        } else {
            let head = seq![
                "-Dforgewrapper.librariesDir="@ + spec_display(libs.lib_dir@, sep),
                "-Dforgewrapper.installer="@ + spec_display(installer, sep),
                "-Dforgewrapper.minecraft="@ + spec_display(
                    spec_game_file(libs.lib_dir@, obj.version@),
                    sep,
                ),
            ];
            match forge_like_of(obj, paths) {
                Some(forge) => match forge.arguments {
                    Some(args) => head + strings_view(args.jvm@),
                    None => head,
                },
                None => head,
            }
        },
        LoaderType::Fabric => match fabric_of(obj, paths) {
            Some(f) => strings_view(f.arguments.jvm@),
            None => Seq::empty(),
        },
        LoaderType::Quilt => Seq::empty(),
        LoaderType::OptiFine => {
            let head = seq![
                "-Dlibdir="@ + spec_display(libs.lib_dir@, sep),
                "-Dgamecore="@ + spec_display(spec_game_file(libs.lib_dir@, obj.version@), sep),
                "-Doptifine="@ + spec_display(
                    spec_optifine_file(libs.lib_dir@, obj.version@, obj.loader_version.unwrap()@),
                    sep,
                ),
            ];
            if v2 {
                head + optifine_open_args()
            } else {
                head
            }
        },
        LoaderType::Custom => spec_custom_jvm_args(paths, obj.uuid),
        LoaderType::LiteLoader => Seq::empty(),
    }
}

/// `prefix` followed by the text of `path`.
fn prefixed_path(prefix: &str, path: &PathObj, sep: char) -> (r: String)
    ensures
        r@ == prefix@ + spec_display(path@, sep),
{
    let mut r = String::new();
    push_str(&mut r, prefix);
    let text = path.display(sep);
    push_str(&mut r, text.as_str());
    r
}

/// The JVM arguments of an instance's loader (see `spec_loader_jvm_arg`); a custom
/// loader contributes its own JVM arguments. LiteLoader instances have none that can
/// be made; OptiFine instances name their OptiFine version.
pub fn make_loader_jvm_arg(
    v2: bool,
    obj: &InstanceSettingObj,
    paths: &VersionPath,
    libs: &LibrariesPath,
    installer: &PathObj,
    sep: char,
) -> (r: Vec<String>)
    requires
        paths.wf(),
        obj.loader != LoaderType::LiteLoader,
        obj.loader == LoaderType::OptiFine ==> obj.loader_version is Some,
    ensures
        strings_view(r@) == spec_loader_jvm_arg(v2, *obj, *paths, *libs, installer@, sep),
{
    let mut r: Vec<String> = Vec::new();
    assert(strings_view(r@) =~= Seq::<Seq<char>>::empty());
    match obj.loader {
        LoaderType::Normal => r,
        LoaderType::Forge | LoaderType::NeoForge => {
            if !v2 {
                return r;
            }
            push_owned(&mut r, prefixed_path("-Dforgewrapper.librariesDir=", &libs.lib_dir, sep));
            push_owned(&mut r, prefixed_path("-Dforgewrapper.installer=", installer, sep));
            let game = obj.get_game_file(libs);
            push_owned(&mut r, prefixed_path("-Dforgewrapper.minecraft=", &game, sep));
            let ghost head = strings_view(r@);
            if let Some(data) = get_forge_like(obj, paths) {
                if let Some(args) = &data.arguments {
                    extend_strings(&mut r, &args.jvm);
                }
            }
            assert(strings_view(r@) =~= spec_loader_jvm_arg(
                v2,
                *obj,
                *paths,
                *libs,
                installer@,
                sep,
            ));
            r
        },
        LoaderType::Fabric => {
            if let Some(data) = obj.get_fabric(paths) {
                extend_strings(&mut r, &data.arguments.jvm);
            }
            r
        },
        LoaderType::Quilt => r,
        LoaderType::OptiFine => {
            push_owned(&mut r, prefixed_path("-Dlibdir=", &libs.lib_dir, sep));
            let game = obj.get_game_file(libs);
            push_owned(&mut r, prefixed_path("-Dgamecore=", &game, sep));
            let optifine = obj.get_optifine_file(libs);
            push_owned(&mut r, prefixed_path("-Doptifine=", &optifine, sep));
            if v2 {
                push_string(&mut r, "--add-opens");
                push_string(&mut r, "java.base/java.lang=ALL-UNNAMED");
                push_string(&mut r, "--add-opens");
                push_string(&mut r, "java.base/java.util=ALL-UNNAMED");
                push_string(&mut r, "--add-opens");
                push_string(&mut r, "java.base/java.net=ALL-UNNAMED");
                push_string(&mut r, "--add-opens");
                push_string(&mut r, "java.base/jdk.internal.loader=ALL-UNNAMED");
            }
            assert(strings_view(r@) =~= spec_loader_jvm_arg(
                v2,
                *obj,
                *paths,
                *libs,
                installer@,
                sep,
            ));
            r
        },
        LoaderType::Custom => obj.get_custom_loader_jvm_args(paths),
        LoaderType::LiteLoader => r,
    }
}

/// What a game does once started: nothing more, enter a world, or join a server.
#[derive(Debug)]
pub enum AutoJoinType {
    NoJoin,
    /// Enter the world of this name.
    Save(String),
    /// Join this server.
    Server(ServerObj),
}

/// The value an instance sets, else the one the launcher sets, else `d`.
pub open spec fn setting_or<T>(own: Option<T>, config: Option<T>, d: T) -> T {
    match own {
        Some(x) => x,
        None => match config {
            Some(y) => y,
            None => d,
        },
    }
}

/// The window arguments: full screen, or the width and height that are set.
pub open spec fn spec_window_args(full: bool, width: u32, height: u32) -> Seq<Seq<char>> {
    if full {
        seq!["--fullscreen"@]
    } else {
        (if width > 0 {
            seq!["--width"@, spec_decimal(width as nat)]
        } else {
            Seq::empty()
        }) + (if height > 0 {
            seq!["--height"@, spec_decimal(height as nat)]
        } else {
            Seq::empty()
        })
    }
}

/// The server to join has an address.
pub open spec fn joins_server(auto: AutoJoinType) -> bool {
    match auto {
        AutoJoinType::Server(server) => match server.ip {
            Some(ip) => ip@.len() > 0,
            None => false,
        },
        _ => false,
    }
}

/// The port a server is joined on: its own, else the default one.
pub open spec fn server_port(server: ServerObj) -> u16 {
    match server.port {
        Some(p) => p,
        None => 25565,
    }
}

/// The arguments of what the game does once started. `v120` tells whether the game is
/// 1.20 or later, which joins a server with its quick play argument.
pub open spec fn spec_auto_args(auto: AutoJoinType, v120: bool) -> Seq<Seq<char>> {
    match auto {
        AutoJoinType::NoJoin => Seq::empty(),
        AutoJoinType::Save(level) => seq!["--quickPlaySingleplayer"@, level@],
        AutoJoinType::Server(server) => if joins_server(auto) {
            let ip = server.ip.unwrap()@;
            let port = spec_decimal(server_port(server) as nat);
            if v120 {
                seq!["--quickPlayMultiplayer"@, ip + seq![':'] + port]
            } else {
                seq!["--server"@, ip, "--port"@, port]
            }
        } else {
            Seq::empty()
        },
    }
}

/// An argument name followed by a value, where the value is set.
pub open spec fn opt_pair(name: Seq<char>, value: Option<Seq<char>>) -> Seq<Seq<char>> {
    match value {
        Some(v) => seq![name, v],
        None => Seq::empty(),
    }
}

/// The text of a string that may be absent.
pub open spec fn opt_text(s: Option<String>) -> Option<Seq<char>> {
    match s {
        Some(t) => Some(t@),
        None => None,
    }
}

/// The decimal text of a port that may be absent.
pub open spec fn opt_port(p: Option<u16>) -> Option<Seq<char>> {
    match p {
        Some(n) => Some(spec_decimal(n as nat)),
        None => None,
    }
}

/// The proxy arguments: each part of the proxy that is set.
pub open spec fn spec_proxy_args(proxy: Option<ProxyHostObj>) -> Seq<Seq<char>> {
    match proxy {
        None => Seq::empty(),
        Some(p) => opt_pair("--proxyHost"@, opt_text(p.ip)) + opt_pair(
            "--proxyPort"@,
            opt_port(p.port),
        ) + opt_pair("--proxyUser"@, opt_text(p.user)) + opt_pair(
            "--proxyPass"@,
            opt_text(p.password),
        ),
    }
}

/// The extra game arguments of an instance, one per line.
pub open spec fn spec_extra_game_args(run: Option<RunArgObj>) -> Seq<Seq<char>> {
    match run {
        Some(a) => match a.game_args {
            Some(g) => spec_split(g@, '\n'),
            None => Seq::empty(),
        },
        None => Seq::empty(),
    }
}

/// The window setting of an instance.
pub open spec fn own_window(obj: InstanceSettingObj) -> WindowSettingObj {
    match obj.window {
        Some(w) => w,
        None => WindowSettingObj { full_screen: None, width: None, height: None },
    }
}

/// The game arguments an instance adds: window, what to do once started, proxy, and
/// its extra arguments. `config` holds the launcher's window settings.
pub open spec fn spec_make_game_arg(
    obj: InstanceSettingObj,
    auto: AutoJoinType,
    config: WindowSettingObj,
) -> Seq<Seq<char>> {
    let w = own_window(obj);
    spec_window_args(
        setting_or(w.full_screen, config.full_screen, false),
        setting_or(w.width, config.width, 0),
        setting_or(w.height, config.height, 0),
    ) + spec_auto_args(auto, spec_is_at_least(obj.version@, v120())) + spec_proxy_args(
        obj.proxy_host,
    ) + spec_extra_game_args(obj.jvm_arg)
}

/// The value an instance sets, else the one the launcher sets, else `d`.
fn pick<T: Copy>(own: Option<T>, config: Option<T>, d: T) -> (r: T)
    ensures
        r == setting_or(own, config, d),
{
    match own {
        Some(x) => x,
        None => match config {
            Some(y) => y,
            None => d,
        },
    }
}

/// Appends an argument name and the value, where the value is set.
fn push_opt_pair(args: &mut Vec<String>, name: &str, value: &Option<String>)
    ensures
        strings_view(final(args)@) == strings_view(old(args)@) + opt_pair(name@, opt_text(*value)),
{
    let ghost before = strings_view(args@);
    if let Some(v) = value {
        push_string(args, name);
        push_string(args, v.as_str());
    }
    assert(strings_view(args@) =~= before + opt_pair(name@, opt_text(*value)));
}

/// Appends the window arguments.
fn push_window_args(args: &mut Vec<String>, full_screen: bool, width: u32, height: u32)
    ensures
        strings_view(final(args)@) == strings_view(old(args)@) + spec_window_args(
            full_screen,
            width,
            height,
        ),
{
    let ghost before = strings_view(args@);
    if full_screen {
        push_string(args, "--fullscreen");
    } else {
        if width > 0 {
            push_string(args, "--width");
            push_owned(args, decimal(width as u64));
        }
        if height > 0 {
            push_string(args, "--height");
            push_owned(args, decimal(height as u64));
        }
    }
    assert(strings_view(args@) =~= before + spec_window_args(full_screen, width, height));
}

/// Whether the server to join has an address.
fn is_joining_server(auto: &AutoJoinType) -> (r: bool)
    ensures
        r == joins_server(*auto),
{
    match auto {
        AutoJoinType::Server(server) => match &server.ip {
            Some(ip) => !ip.as_str().is_empty(),
            None => false,
        },
        _ => false,
    }
}

/// Appends the arguments of what the game does once started.
fn push_auto_args(args: &mut Vec<String>, auto: &AutoJoinType, v120: bool)
    ensures
        strings_view(final(args)@) == strings_view(old(args)@) + spec_auto_args(*auto, v120),
{
    let ghost before = strings_view(args@);
    match auto {
        AutoJoinType::NoJoin => {},
        AutoJoinType::Save(level) => {
            push_string(args, "--quickPlaySingleplayer");
            push_string(args, level.as_str());
        },
        AutoJoinType::Server(server) => {
            if let Some(ip) = &server.ip {
                if !ip.as_str().is_empty() {
                    let port: u16 = match server.port {
                        Some(p) => p,
                        None => 25565,
                    };
                    assert(port == server_port(*server));
                    assert(joins_server(*auto));
                    if v120 {
                        push_string(args, "--quickPlayMultiplayer");
                        let mut target = copy_str(ip.as_str());
                        push_char(&mut target, ':');
                        let port_text = decimal(port as u64);
                        push_str(&mut target, port_text.as_str());
                        assert(target@ =~= ip@ + seq![':'] + spec_decimal(port as nat));
                        push_owned(args, target);
                        assert(strings_view(args@) =~= before + seq![
                            "--quickPlayMultiplayer"@,
                            ip@ + seq![':'] + spec_decimal(port as nat),
                        ]);
                    } else {
                        push_string(args, "--server");
                        push_string(args, ip.as_str());
                        push_string(args, "--port");
                        push_owned(args, decimal(port as u64));
                        assert(strings_view(args@) =~= before + seq![
                            "--server"@,
                            ip@,
                            "--port"@,
                            spec_decimal(port as nat),
                        ]);
                    }
                }
            }
        },
    }
    assert(strings_view(args@) =~= before + spec_auto_args(*auto, v120));
}

/// Appends the proxy arguments.
fn push_proxy_args(args: &mut Vec<String>, proxy: &Option<ProxyHostObj>)
    ensures
        strings_view(final(args)@) == strings_view(old(args)@) + spec_proxy_args(*proxy),
{
    let ghost before = strings_view(args@);
    if let Some(proxy) = proxy {
        push_opt_pair(args, "--proxyHost", &proxy.ip);
        let ghost mid = strings_view(args@);
        if let Some(port) = proxy.port {
            push_string(args, "--proxyPort");
            push_owned(args, decimal(port as u64));
        }
        assert(strings_view(args@) =~= mid + opt_pair("--proxyPort"@, opt_port(proxy.port)));
        push_opt_pair(args, "--proxyUser", &proxy.user);
        push_opt_pair(args, "--proxyPass", &proxy.password);
    }
    assert(strings_view(args@) =~= before + spec_proxy_args(*proxy));
}

/// Appends the extra game arguments, one per line.
fn push_extra_game_args(args: &mut Vec<String>, run: &Option<RunArgObj>)
    ensures
        strings_view(final(args)@) == strings_view(old(args)@) + spec_extra_game_args(*run),
{
    let ghost before = strings_view(args@);
    if let Some(run) = run {
        if let Some(extra) = &run.game_args {
            let lines = split_str(extra.as_str(), '\n');
            extend_from_chars(args, &lines);
        }
    }
    assert(strings_view(args@) =~= before + spec_extra_game_args(*run));
}

impl InstanceSettingObj {
    /// The game arguments the instance adds (see `spec_make_game_arg`); `config` holds
    /// the launcher's window settings.
    pub fn make_game_arg(&self, auto: &AutoJoinType, config: &WindowSettingObj) -> (r: Vec<
        String,
    >)
        requires
            joins_server(*auto) ==> version_fits(self.version@),
        ensures
            strings_view(r@) == spec_make_game_arg(*self, *auto, *config),
    {
        let mut args: Vec<String> = Vec::new();
        assert(strings_view(args@) =~= Seq::<Seq<char>>::empty());
        let own = match &self.window {
            Some(w) => *w,
            None => WindowSettingObj { full_screen: None, width: None, height: None },
        };
        let full_screen = pick(own.full_screen, config.full_screen, false);
        let width = pick(own.width, config.width, 0);
        let height = pick(own.height, config.height, 0);
        push_window_args(&mut args, full_screen, width, height);
        let at_least_120 = if is_joining_server(auto) {
            is_game_version_120(copy_str(self.version.as_str()))
        } else {
            false
        };
        assert(spec_auto_args(*auto, at_least_120) == spec_auto_args(
            *auto,
            spec_is_at_least(self.version@, v120()),
        ));
        push_auto_args(&mut args, auto, at_least_120);
        push_proxy_args(&mut args, &self.proxy_host);
        push_extra_game_args(&mut args, &self.jvm_arg);
        args
    }
}

/// The main class an instance sets itself, where it sets a non-empty one.
pub open spec fn own_main_class(obj: InstanceSettingObj) -> Option<Seq<char>> {
    match obj.advance_jvm {
        Some(a) => match a.main_class {
            Some(m) => if m@.len() > 0 {
                Some(m@)
            } else {
                None
            },
            None => None,
        },
        None => None,
    }
}

/// The main class of Forge and NeoForge launched through their wrapper.
pub open spec fn forge_wrapper_main() -> Seq<char> {
    "io.github.zekerzhayard.forgewrapper.installer.Main"@
}

/// The main class of OptiFine's wrapper.
pub open spec fn optifine_wrapper_main() -> Seq<char> {
    "com.coloryr.optifinewrapper.OptifineWrapper"@
}

/// The main class of an instance whose game description is `game`: the description's
/// own, the loader's, or that of the wrapper that launches the loader.
pub open spec fn loader_main_class(obj: InstanceSettingObj, game: GameArgObj, paths: VersionPath) -> Seq<
    char,
> {
    match obj.loader {
        LoaderType::Normal => game.main_class@,
        LoaderType::Forge | LoaderType::NeoForge => if game.minimum_launcher_version > 18 {
            forge_wrapper_main()
        } else {
            forge_like_of(obj, paths).unwrap().main_class@
        },
        LoaderType::Fabric => fabric_of(obj, paths).unwrap().main_class@,
        LoaderType::Quilt => quilt_of(obj, paths).unwrap().main_class@,
        LoaderType::OptiFine => optifine_wrapper_main(),
        LoaderType::Custom => spec_custom_mainclass(paths, obj.uuid),
        LoaderType::LiteLoader => Seq::empty(),
    }
}

/// The main class of an instance: the one it sets itself, else that of its loader;
/// none while the description of its game version has not been read.
pub open spec fn spec_mainclass(obj: InstanceSettingObj, paths: VersionPath) -> Option<Seq<char>> {
    match own_main_class(obj) {
        Some(m) => Some(m),
        None => match lookup(paths.game_args@, obj.version@) {
            None => None,
            Some(game) => Some(loader_main_class(obj, game, paths)),
        },
    }
}

/// The loader description that the main class is read from is kept, where one is read.
pub open spec fn mainclass_source_kept(obj: InstanceSettingObj, paths: VersionPath) -> bool {
    own_main_class(obj) is None ==> match lookup(paths.game_args@, obj.version@) {
        None => true,
        Some(game) => match obj.loader {
            LoaderType::Forge | LoaderType::NeoForge => game.minimum_launcher_version > 18
                || forge_like_of(obj, paths) is Some,
            LoaderType::Fabric => fabric_of(obj, paths) is Some,
            LoaderType::Quilt => quilt_of(obj, paths) is Some,
            LoaderType::LiteLoader => false,
            _ => true,
        },
    }
}

impl InstanceSettingObj {
    /// The main class of the instance (see `spec_mainclass`); `None` while the
    /// description of its game version has not been read.
    pub fn make_mainclass(&self, paths: &VersionPath) -> (r: Option<String>)
        requires
            paths.wf(),
            mainclass_source_kept(*self, *paths),
        ensures
            match r {
                Some(m) => spec_mainclass(*self, *paths) == Some(m@),
                None => spec_mainclass(*self, *paths) is None,
            },
    {
        if let Some(arg) = &self.advance_jvm {
            if let Some(main) = &arg.main_class {
                if !main.as_str().is_empty() {
                    return Some(copy_str(main.as_str()));
                }
            }
        }
        let version = match get_version(paths, self.version.as_str()) {
            None => {
                return None;
            },
            Some(v) => v,
        };
        let v2 = version.is_game_version_v2();
        let main = match self.loader {
            LoaderType::Normal => copy_str(version.main_class.as_str()),
            LoaderType::Forge | LoaderType::NeoForge => {
                if v2 {
                    copy_str("io.github.zekerzhayard.forgewrapper.installer.Main")
                } else {
                    match get_forge_like(self, paths) {
                        Some(forge) => copy_str(forge.main_class.as_str()),
                        None => String::new(),
                    }
                }
            },
            LoaderType::Fabric => match self.get_fabric(paths) {
                Some(f) => copy_str(f.main_class.as_str()),
                None => String::new(),
            },
            LoaderType::Quilt => match self.get_quilt(paths) {
                Some(q) => copy_str(q.main_class.as_str()),
                None => String::new(),
            },
            LoaderType::OptiFine => copy_str("com.coloryr.optifinewrapper.OptifineWrapper"),
            LoaderType::Custom => self.get_custom_loader_mainclass(paths),
            LoaderType::LiteLoader => String::new(),
        };
        Some(main)
    }
}

// ---------------------------------------------------------------------------
// JVM arguments of an instance
// ---------------------------------------------------------------------------

/// The arguments that select the ZGC collector.
pub open spec fn zgc_args() -> Seq<Seq<char>> {
    seq!["-XX:+UseZGC"@]
}

/// The arguments that select the G1 collector.
pub open spec fn g1gc_args() -> Seq<Seq<char>> {
    seq!["-XX:+UseG1GC"@]
}

/// The collector a game runs with: the one set, or for `Auto` ZGC from Java 21 on and
/// G1 before.
pub open spec fn effective_gc(gc: GCType, java: u8) -> GCType {
    if gc == GCType::Auto {
        if java >= 21 {
            GCType::ZGC
        } else {
            GCType::G1GC
        }
    } else {
        gc
    }
}

/// The collector arguments.
pub open spec fn spec_gc_args(gc: GCType, java: u8) -> Seq<Seq<char>> {
    match effective_gc(gc, java) {
        GCType::ZGC => zgc_args(),
        GCType::G1GC => g1gc_args(),
        _ => Seq::empty(),
    }
}

/// The heap arguments: the initial and the largest size, where set (in MiB).
pub open spec fn spec_memory_args(min: u32, max: u32) -> Seq<Seq<char>> {
    (if min > 0 {
        seq!["-Xms"@ + spec_decimal(min as nat) + "m"@]
    } else {
        Seq::empty()
    }) + (if max > 0 {
        seq!["-Xmx"@ + spec_decimal(max as nat) + "m"@]
    } else {
        Seq::empty()
    })
}

/// The extra JVM arguments: one per line, each trimmed.
pub open spec fn spec_extra_jvm_args(text: Seq<char>) -> Seq<Seq<char>> {
    if text.len() == 0 {
        Seq::empty()
    } else {
        spec_split(text, '\n').map_values(|l: Seq<char>| spec_trim(l))
    }
}

/// Where the launch finds the files and folders the JVM arguments name, and the
/// separator of path parts on this system.
#[derive(Debug)]
pub struct JvmArgEnv {
    /// The ColorASM agent.
    pub colorasm_file: PathObj,
    /// The authlib-injector agent, once ready.
    pub authlib_file: Option<PathObj>,
    /// The Nide8 agent, once ready.
    pub nide8_file: Option<PathObj>,
    /// The launcher's folder.
    pub base_dir: PathObj,
    /// The instance's game folder.
    pub game_dir: PathObj,
    pub sep: char,
}

/// The login type fetches a key from its server for the launch.
pub open spec fn needs_key(t: AuthType) -> bool {
    t == AuthType::AuthlibInjector || t == AuthType::LittleSkin || t == AuthType::SelfLittleSkin
}

/// What a login needs to be passed to the game: the agent of its type, its server where
/// the type names one, and its key where the type fetches one.
pub open spec fn login_ready(auth: LoginObj, env: JvmArgEnv, key: Option<String>) -> bool {
    match auth.auth_type {
        AuthType::Nide8 => env.nide8_file is Some && auth.text1 is Some,
        AuthType::AuthlibInjector => env.authlib_file is Some && auth.text1 is Some && key is Some,
        AuthType::LittleSkin => env.authlib_file is Some && key is Some,
        AuthType::SelfLittleSkin => env.authlib_file is Some && auth.text1 is Some && key is Some,
        _ => true,
    }
}

/// The agent argument of a login: the agent and the server it is pointed at.
pub open spec fn spec_login_args(auth: LoginObj, env: JvmArgEnv) -> Seq<Seq<char>> {
    match auth.auth_type {
        AuthType::Nide8 => seq![
            "-javaagent:"@ + spec_display(env.nide8_file.unwrap()@, env.sep) + "="@
                + auth.text1.unwrap()@,
        ],
        AuthType::AuthlibInjector => seq![
            "-javaagent:"@ + spec_display(env.authlib_file.unwrap()@, env.sep) + "="@
                + auth.text1.unwrap()@,
        ],
        AuthType::LittleSkin => seq![
            "-javaagent:"@ + spec_display(env.authlib_file.unwrap()@, env.sep) + "="@
                + LITTLE_SKIN_URL@ + "api/yggdrasil"@,
        ],
        AuthType::SelfLittleSkin => seq![
            "-javaagent:"@ + spec_display(env.authlib_file.unwrap()@, env.sep) + "="@
                + auth.text1.unwrap()@,
        ],
        _ => Seq::empty(),
    }
}

/// The key of a login handed to the agent, Base64 encoded, where its type fetches one.
pub open spec fn spec_key_args(auth: LoginObj, key: Option<String>) -> Seq<Seq<char>> {
    if needs_key(auth.auth_type) {
        seq![
            "-Dauthlibinjector.yggdrasil.prefetched="@ + spec_base64(
                vstd::utf8::encode_utf8(key.unwrap()@),
            ),
            "-Dauthlibinjector.side=client"@,
        ]
    } else {
        Seq::empty()
    }
}

/// The properties that tell the game of the launcher and the instance.
pub open spec fn spec_launcher_props(obj: InstanceSettingObj, env: JvmArgEnv) -> Seq<Seq<char>> {
    seq![
        "-Dcolormc.dir="@ + spec_display(env.base_dir@, env.sep),
        "-Dcolormc.game.uuid="@ + spec_uuid_text(obj.uuid),
        "-Dcolormc.game.name="@ + obj.name@,
        "-Dcolormc.game.version="@ + obj.version@,
        "-Dcolormc.game.dir="@ + spec_display(env.game_dir@, env.sep),
    ]
}

/// The ColorASM agent and its connection, where ColorASM is on and has a port.
pub open spec fn spec_colorasm_args(
    obj: InstanceSettingObj,
    colorasm: bool,
    mixin: Option<u16>,
    env: JvmArgEnv,
) -> Seq<Seq<char>> {
    if colorasm && mixin is Some {
        seq![
            "-Dcolormc.mixin.port="@ + spec_decimal(mixin.unwrap() as nat),
            "-Dcolormc.mixin.uuid="@ + spec_uuid_text(obj.uuid),
            "-javaagent:"@ + spec_display(env.colorasm_file@, env.sep),
        ]
    } else {
        Seq::empty()
    }
}

/// A run setting of an instance, else of the launcher.
pub open spec fn own_run(obj: InstanceSettingObj) -> RunArgObj {
    match obj.jvm_arg {
        Some(r) => r,
        None => RunArgObj {
            jvm_args: None,
            game_args: None,
            gc_mode: None,
            max_memory: None,
            min_memory: None,
            colorasm: None,
            remove_jvm_arg: None,
            remove_game_arg: None,
            jvm_env: None,
            launch_pre_run: None,
            pre_run_arg: None,
            pre_run_with_game: None,
            launch_post_run: None,
            post_run_arg: None,
        },
    }
}

/// The text of a setting that may be absent.
pub open spec fn text_or_empty(own: Option<String>, config: Option<String>) -> Seq<char> {
    match own {
        Some(t) => t@,
        None => match config {
            Some(t) => t@,
            None => Seq::empty(),
        },
    }
}

/// The JVM arguments the launcher adds for an instance: ColorASM, the collector, the
/// heap, the extra arguments, the login and the launcher's properties. Each setting is
/// the instance's, else the launcher's (`config`).
pub open spec fn spec_make_jvm_arg(
    obj: InstanceSettingObj,
    auth: LoginObj,
    java: u8,
    mixin: Option<u16>,
    config: RunArgObj,
    env: JvmArgEnv,
    key: Option<String>,
) -> Seq<Seq<char>> {
    let own = own_run(obj);
    spec_colorasm_args(obj, setting_or(own.colorasm, config.colorasm, false), mixin, env)
        + spec_gc_args(setting_or(own.gc_mode, config.gc_mode, GCType::Auto), java)
        + spec_memory_args(
        setting_or(own.min_memory, config.min_memory, 0),
        setting_or(own.max_memory, config.max_memory, 0),
    ) + spec_extra_jvm_args(text_or_empty(own.jvm_args, config.jvm_args)) + spec_login_args(
        auth,
        env,
    ) + spec_key_args(auth, key) + spec_launcher_props(obj, env)
}

/// Appends `prefix` followed by `value`.
fn push_prefixed(args: &mut Vec<String>, prefix: &str, value: &str)
    ensures
        strings_view(final(args)@) == strings_view(old(args)@).push(prefix@ + value@),
{
    let mut s = copy_str(prefix);
    push_str(&mut s, value);
    push_owned(args, s);
}

/// Appends the collector arguments.
fn push_gc_args(args: &mut Vec<String>, gc: GCType, java: u8)
    ensures
        strings_view(final(args)@) == strings_view(old(args)@) + spec_gc_args(gc, java),
{
    let ghost before = strings_view(args@);
    let mut chosen = gc;
    if gc == GCType::Auto {
        if java >= 21 {
            chosen = GCType::ZGC;
        } else {
            chosen = GCType::G1GC;
        }
    }
    if chosen == GCType::ZGC {
        push_string(args, "-XX:+UseZGC");
    } else if chosen == GCType::G1GC {
        push_string(args, "-XX:+UseG1GC");
    }
    assert(strings_view(args@) =~= before + spec_gc_args(gc, java));
}

/// Appends the heap arguments.
fn push_memory_args(args: &mut Vec<String>, min: u32, max: u32)
    ensures
        strings_view(final(args)@) == strings_view(old(args)@) + spec_memory_args(min, max),
{
    let ghost before = strings_view(args@);
    if min > 0 {
        let mut s = copy_str("-Xms");
        let n = decimal(min as u64);
        push_str(&mut s, n.as_str());
        push_str(&mut s, "m");
        push_owned(args, s);
    }
    let ghost mid = strings_view(args@);
    if max > 0 {
        let mut s = copy_str("-Xmx");
        let n = decimal(max as u64);
        push_str(&mut s, n.as_str());
        push_str(&mut s, "m");
        push_owned(args, s);
    }
    assert(strings_view(args@) =~= before + spec_memory_args(min, max));
}

/// Appends the extra JVM arguments, one per line, each trimmed.
fn push_extra_jvm_args(args: &mut Vec<String>, text: &str)
    ensures
        strings_view(final(args)@) == strings_view(old(args)@) + spec_extra_jvm_args(text@),
{
    let ghost before = strings_view(args@);
    if text.is_empty() {
        assert(strings_view(args@) =~= before + spec_extra_jvm_args(text@));
        return;
    }
    let lines = split_str(text, '\n');
    let mut i: usize = 0;
    while i < lines.len()
        invariant
            seqs_of(lines@) == spec_split(text@, '\n'),
            i <= lines@.len(),
            strings_view(args@) == before + spec_split(text@, '\n').map_values(
                |l: Seq<char>| spec_trim(l),
            ).take(i as int),
        decreases lines@.len() - i,
    {
        let t = trim_chars(lines[i].as_slice());
        assert(lines@[i as int]@ == spec_split(text@, '\n')[i as int]);
        push_owned(args, string_of(t.as_slice()));
        assert(spec_split(text@, '\n').map_values(|l: Seq<char>| spec_trim(l)).take(i + 1)
            =~= spec_split(text@, '\n').map_values(|l: Seq<char>| spec_trim(l)).take(
            i as int,
        ).push(spec_trim(spec_split(text@, '\n')[i as int])));
        i = i + 1;
    }
    assert(spec_split(text@, '\n').map_values(|l: Seq<char>| spec_trim(l)).take(i as int)
        =~= spec_split(text@, '\n').map_values(|l: Seq<char>| spec_trim(l)));
}

/// Appends the agent argument of a login.
fn push_login_args(args: &mut Vec<String>, auth: &LoginObj, env: &JvmArgEnv, key: &Option<String>)
    requires
        login_ready(*auth, *env, *key),
    ensures
        strings_view(final(args)@) == strings_view(old(args)@) + spec_login_args(*auth, *env)
            + spec_key_args(*auth, *key),
{
    let ghost before = strings_view(args@);
    match auth.auth_type {
        AuthType::Nide8 => {
            let target = copy_text(&auth.text1);
            push_agent(args, &env.nide8_file, target.as_str(), env.sep);
        },
        AuthType::AuthlibInjector => {
            let target = copy_text(&auth.text1);
            push_agent(args, &env.authlib_file, target.as_str(), env.sep);
        },
        AuthType::LittleSkin => {
            let mut target = copy_str(LITTLE_SKIN_URL);
            push_str(&mut target, "api/yggdrasil");
            push_agent(args, &env.authlib_file, target.as_str(), env.sep);
            assert("-javaagent:"@ + spec_display(env.authlib_file.unwrap()@, env.sep) + "="@
                + target@ =~= "-javaagent:"@ + spec_display(env.authlib_file.unwrap()@, env.sep)
                + "="@ + LITTLE_SKIN_URL@ + "api/yggdrasil"@);
        },
        AuthType::SelfLittleSkin => {
            let target = copy_text(&auth.text1);
            push_agent(args, &env.authlib_file, target.as_str(), env.sep);
        },
        _ => {},
    }
    assert(strings_view(args@) =~= before + spec_login_args(*auth, *env));
    let ghost mid = strings_view(args@);
    if auth.auth_type == AuthType::AuthlibInjector || auth.auth_type == AuthType::LittleSkin
        || auth.auth_type == AuthType::SelfLittleSkin {
        match key {
            Some(k) => {
                let encoded = base64(k.as_str().as_bytes());
                push_prefixed(args, "-Dauthlibinjector.yggdrasil.prefetched=", encoded.as_str());
                push_string(args, "-Dauthlibinjector.side=client");
            },
            None => {},
        }
    }
    assert(strings_view(args@) =~= mid + spec_key_args(*auth, *key));
}

/// Appends the agent argument: the agent and the server it is pointed at.
fn push_agent(args: &mut Vec<String>, file: &Option<PathObj>, target: &str, sep: char)
    requires
        file is Some,
    ensures
        strings_view(final(args)@) == strings_view(old(args)@).push(
            "-javaagent:"@ + spec_display(file.unwrap()@, sep) + "="@ + target@,
        ),
{
    match file {
        Some(f) => {
            let mut s = prefixed_path("-javaagent:", f, sep);
            push_str(&mut s, "=");
            push_str(&mut s, target);
            push_owned(args, s);
        },
        None => {},
    }
}

/// The text of a string that may be absent; empty where it is.
fn copy_text(s: &Option<String>) -> (r: String)
    ensures
        s is Some ==> r@ == s.unwrap()@,
{
    match s {
        Some(t) => copy_str(t.as_str()),
        None => String::new(),
    }
}

/// The text of a setting, the instance's else the launcher's; empty where neither is set.
fn setting_text(own: &Option<String>, config: &Option<String>) -> (r: String)
    ensures
        r@ == text_or_empty(*own, *config),
{
    match own {
        Some(t) => copy_str(t.as_str()),
        None => match config {
            Some(t) => copy_str(t.as_str()),
            None => String::new(),
        },
    }
}

impl InstanceSettingObj {
    /// The JVM arguments the launcher adds for the instance (see `spec_make_jvm_arg`):
    /// `java` is the Java major version, `mixin` the port of the ColorASM connection,
    /// `config` the launcher's run settings and `key` the key fetched for the login.
    pub fn make_jvm_arg(
        &self,
        auth: &LoginObj,
        java: u8,
        mixin: Option<u16>,
        config: &RunArgObj,
        env: &JvmArgEnv,
        key: &Option<String>,
    ) -> (r: Vec<String>)
        requires
            login_ready(*auth, *env, *key),
        ensures
            strings_view(r@) == spec_make_jvm_arg(*self, *auth, java, mixin, *config, *env, *key),
    {
        let mut args: Vec<String> = Vec::new();
        assert(strings_view(args@) =~= Seq::<Seq<char>>::empty());
        let (jvm_text, gc, max, min, colorasm) = match &self.jvm_arg {
            Some(run) => (
                setting_text(&run.jvm_args, &config.jvm_args),
                pick(run.gc_mode, config.gc_mode, GCType::Auto),
                pick(run.max_memory, config.max_memory, 0),
                pick(run.min_memory, config.min_memory, 0),
                pick(run.colorasm, config.colorasm, false),
            ),
            None => (
                setting_text(&None, &config.jvm_args),
                pick(None, config.gc_mode, GCType::Auto),
                pick(None, config.max_memory, 0),
                pick(None, config.min_memory, 0),
                pick(None, config.colorasm, false),
            ),
        };
        let ghost start = strings_view(args@);
        if colorasm {
            if let Some(port) = mixin {
                let p = decimal(port as u64);
                push_prefixed(&mut args, "-Dcolormc.mixin.port=", p.as_str());
                let u = uuid_text(self.uuid);
                push_prefixed(&mut args, "-Dcolormc.mixin.uuid=", u.as_str());
                push_owned(&mut args, prefixed_path("-javaagent:", &env.colorasm_file, env.sep));
            }
        }
        assert(strings_view(args@) =~= start + spec_colorasm_args(*self, colorasm, mixin, *env));
        push_gc_args(&mut args, gc, java);
        push_memory_args(&mut args, min, max);
        push_extra_jvm_args(&mut args, jvm_text.as_str());
        push_login_args(&mut args, auth, env, key);
        let ghost before_props = strings_view(args@);
        push_owned(&mut args, prefixed_path("-Dcolormc.dir=", &env.base_dir, env.sep));
        let u = uuid_text(self.uuid);
        push_prefixed(&mut args, "-Dcolormc.game.uuid=", u.as_str());
        push_prefixed(&mut args, "-Dcolormc.game.name=", self.name.as_str());
        push_prefixed(&mut args, "-Dcolormc.game.version=", self.version.as_str());
        push_owned(&mut args, prefixed_path("-Dcolormc.game.dir=", &env.game_dir, env.sep));
        assert(strings_view(args@) =~= before_props + spec_launcher_props(*self, *env));
        args
    }
}

// ---------------------------------------------------------------------------
// Placeholders of the launch arguments
// ---------------------------------------------------------------------------

/// The folders and names the placeholders of the launch arguments stand for, besides
/// what the instance and the login give.
#[derive(Debug)]
pub struct ReplaceEnv {
    pub assets_dir: PathObj,
    pub game_dir: PathObj,
    pub lib_dir: PathObj,
    /// The separator of path parts on this system.
    pub sep: char,
    pub os: Os,
    pub launcher_name: String,
    pub launcher_version: String,
}

/// The name a game version is launched under: the version itself, `custom` for a
/// custom loader, else the loader's name, the version and the loader version.
pub open spec fn spec_version_name(obj: InstanceSettingObj) -> Seq<char> {
    match obj.loader {
        LoaderType::Normal => obj.version@,
        LoaderType::Custom => "custom"@,
        _ => spec_loader_prefix(obj.loader) + "-"@ + obj.version@ + "-"@ + obj.loader_version.unwrap()@,
    }
}

/// The separator of class path entries: `;` on Windows, `:` elsewhere.
pub open spec fn classpath_sep(os: Os) -> char {
    if os == Os::Windows {
        ';'
    } else {
        ':'
    }
}

/// The placeholders of the launch arguments and what each is replaced by, in order.
pub open spec fn spec_replace_pairs(
    obj: InstanceSettingObj,
    auth: LoginObj,
    classpath: Seq<char>,
    native: Seq<Seq<char>>,
    lang: Option<String>,
    assets: Option<String>,
    env: ReplaceEnv,
    version_type: Seq<char>,
) -> Seq<(Seq<char>, Seq<char>)> {
    seq![
        ("${auth_player_name}"@, auth.user_name@),
        ("${version_name}"@, spec_version_name(obj)),
        ("${game_directory}"@, spec_display(env.game_dir@, env.sep)),
        ("${assets_root}"@, spec_display(env.assets_dir@, env.sep)),
        ("${assets_index_name}"@, match assets {
            Some(a) => a@,
            None => "legacy"@,
        }),
        ("${auth_uuid}"@, auth.uuid@),
        ("${auth_access_token}"@, if auth.access_token@.len() == 0 {
            "0"@
        } else {
            auth.access_token@
        }),
        ("${user_properties}"@, match lang {
            Some(l) => "{\"language\":\""@ + l@ + "\"}"@,
            None => "{}"@,
        }),
        ("${user_type}"@, if auth.auth_type == AuthType::OAuth {
            "msa"@
        } else {
            "mojang"@
        }),
        ("${version_type}"@, version_type),
        ("${natives_directory}"@, spec_display(native, env.sep)),
        ("${library_directory}"@, spec_display(env.lib_dir@, env.sep)),
        ("${classpath_separator}"@, seq![classpath_sep(env.os)]),
        ("${launcher_name}"@, env.launcher_name@),
        ("${launcher_version}"@, env.launcher_version@),
        ("${classpath}"@, classpath),
    ]
}

/// The launch placeholders are placeholder keys (`$`, a name, `}`), no two alike.
pub proof fn law_launch_keys(
    obj: InstanceSettingObj,
    auth: LoginObj,
    classpath: Seq<char>,
    native: Seq<Seq<char>>,
    lang: Option<String>,
    assets: Option<String>,
    env: ReplaceEnv,
    version_type: Seq<char>,
)
    ensures
        ({
            let pairs = spec_replace_pairs(obj, auth, classpath, native, lang, assets, env, version_type);
            &&& keys_shaped(pairs)
            &&& forall|i: int, j: int| 0 <= i < j < pairs.len() ==> pairs[i].0 != pairs[j].0
        }),
{
    reveal_strlit("${auth_player_name}");
    reveal_strlit("${version_name}");
    reveal_strlit("${game_directory}");
    reveal_strlit("${assets_root}");
    reveal_strlit("${assets_index_name}");
    reveal_strlit("${auth_uuid}");
    reveal_strlit("${auth_access_token}");
    reveal_strlit("${user_properties}");
    reveal_strlit("${user_type}");
    reveal_strlit("${version_type}");
    reveal_strlit("${natives_directory}");
    reveal_strlit("${library_directory}");
    reveal_strlit("${classpath_separator}");
    reveal_strlit("${launcher_name}");
    reveal_strlit("${launcher_version}");
    reveal_strlit("${classpath}");
    reveal_with_fuel(inner_plain, 22);
    let pairs = spec_replace_pairs(obj, auth, classpath, native, lang, assets, env, version_type);
    assert forall|i: int| 0 <= i < pairs.len() implies key_shaped(#[trigger] pairs[i].0) by {
        if i == 0 {
            assert(key_shaped("${auth_player_name}"@));
        } else if i == 1 {
            assert(key_shaped("${version_name}"@));
        } else if i == 2 {
            assert(key_shaped("${game_directory}"@));
        } else if i == 3 {
            assert(key_shaped("${assets_root}"@));
        } else if i == 4 {
            assert(key_shaped("${assets_index_name}"@));
        } else if i == 5 {
            assert(key_shaped("${auth_uuid}"@));
        } else if i == 6 {
            assert(key_shaped("${auth_access_token}"@));
        } else if i == 7 {
            assert(key_shaped("${user_properties}"@));
        } else if i == 8 {
            assert(key_shaped("${user_type}"@));
        } else if i == 9 {
            assert(key_shaped("${version_type}"@));
        } else if i == 10 {
            assert(key_shaped("${natives_directory}"@));
        } else if i == 11 {
            assert(key_shaped("${library_directory}"@));
        } else if i == 12 {
            assert(key_shaped("${classpath_separator}"@));
        } else if i == 13 {
            assert(key_shaped("${launcher_name}"@));
        } else if i == 14 {
            assert(key_shaped("${launcher_version}"@));
        } else if i == 15 {
            assert(key_shaped("${classpath}"@));
        }
    }
    assert("${auth_player_name}"@[2] != "${launcher_version}"@[2]);
    assert("${version_name}"@[10] != "${version_type}"@[10]);
    assert("${assets_index_name}"@[3] != "${auth_access_token}"@[3]);
    assert("${assets_index_name}"@[2] != "${natives_directory}"@[2]);
    assert("${assets_index_name}"@[2] != "${library_directory}"@[2]);
    assert("${auth_access_token}"@[2] != "${natives_directory}"@[2]);
    assert("${auth_access_token}"@[2] != "${library_directory}"@[2]);
    assert("${natives_directory}"@[2] != "${library_directory}"@[2]);
    assert("${auth_uuid}"@[2] != "${user_type}"@[2]);
    assert("${auth_uuid}"@[2] != "${classpath}"@[2]);
    assert("${user_type}"@[2] != "${classpath}"@[2]);
}

/// An argument holding one launch placeholder between text without `$` comes out with
/// that placeholder's value in its place, where no value has a `$` (see
/// `law_placeholder_replaced`); so no handled placeholder is left in it.
pub proof fn law_launch_placeholder_replaced(
    obj: InstanceSettingObj,
    auth: LoginObj,
    classpath: Seq<char>,
    native: Seq<Seq<char>>,
    lang: Option<String>,
    assets: Option<String>,
    env: ReplaceEnv,
    version_type: Seq<char>,
    i: int,
    p: Seq<char>,
    q: Seq<char>,
)
    requires
        values_plain(spec_replace_pairs(obj, auth, classpath, native, lang, assets, env, version_type)),
        0 <= i < spec_replace_pairs(obj, auth, classpath, native, lang, assets, env, version_type).len(),
        no_dollar(p),
        no_dollar(q),
    ensures
        ({
            let pairs = spec_replace_pairs(obj, auth, classpath, native, lang, assets, env, version_type);
            replace_each(p + pairs[i].0 + q, pairs) == p + pairs[i].1 + q
        }),
{
    let pairs = spec_replace_pairs(obj, auth, classpath, native, lang, assets, env, version_type);
    law_launch_keys(obj, auth, classpath, native, lang, assets, env, version_type);
    assert forall|j: int| 0 <= j < i implies (#[trigger] pairs[j]).0 != pairs[i].0 by {}
    law_placeholder_replaced(pairs, i, p, q);
}

/// Each launch placeholder stands for the field it names: the player's name for
/// `${auth_player_name}`, the account's id for `${auth_uuid}`, its token (or `0`) for
/// `${auth_access_token}`, the game, assets, natives and libraries folders, the class
/// path and its separator, the launcher's name and version, and so on, wherever the
/// placeholder stands among the pairs.
pub proof fn law_launch_values(
    obj: InstanceSettingObj,
    auth: LoginObj,
    classpath: Seq<char>,
    native: Seq<Seq<char>>,
    lang: Option<String>,
    assets: Option<String>,
    env: ReplaceEnv,
    version_type: Seq<char>,
)
    ensures
        forall|i: int|
            #![trigger spec_replace_pairs(obj, auth, classpath, native, lang, assets, env, version_type)[i]]
            0 <= i < spec_replace_pairs(obj, auth, classpath, native, lang, assets, env, version_type).len() ==> {
            let pairs = spec_replace_pairs(obj, auth, classpath, native, lang, assets, env, version_type);
            &&& (pairs[i].0 == "${auth_player_name}"@ ==> pairs[i].1 == auth.user_name@)
            &&& (pairs[i].0 == "${version_name}"@ ==> pairs[i].1 == spec_version_name(obj))
            &&& (pairs[i].0 == "${game_directory}"@ ==> pairs[i].1 == spec_display(env.game_dir@, env.sep))
            &&& (pairs[i].0 == "${assets_root}"@ ==> pairs[i].1 == spec_display(env.assets_dir@, env.sep))
            &&& (pairs[i].0 == "${assets_index_name}"@ ==> pairs[i].1 == (match assets { Some(a) => a@, None => "legacy"@ }))
            &&& (pairs[i].0 == "${auth_uuid}"@ ==> pairs[i].1 == auth.uuid@)
            &&& (pairs[i].0 == "${auth_access_token}"@ ==> pairs[i].1 == (if auth.access_token@.len() == 0 { "0"@ } else { auth.access_token@ }))
            &&& (pairs[i].0 == "${user_properties}"@ ==> pairs[i].1 == (match lang { Some(l) => "{\"language\":\""@ + l@ + "\"}"@, None => "{}"@ }))
            &&& (pairs[i].0 == "${user_type}"@ ==> pairs[i].1 == (if auth.auth_type == AuthType::OAuth { "msa"@ } else { "mojang"@ }))
            &&& (pairs[i].0 == "${version_type}"@ ==> pairs[i].1 == version_type)
            &&& (pairs[i].0 == "${natives_directory}"@ ==> pairs[i].1 == spec_display(native, env.sep))
            &&& (pairs[i].0 == "${library_directory}"@ ==> pairs[i].1 == spec_display(env.lib_dir@, env.sep))
            &&& (pairs[i].0 == "${classpath_separator}"@ ==> pairs[i].1 == seq![classpath_sep(env.os)])
            &&& (pairs[i].0 == "${launcher_name}"@ ==> pairs[i].1 == env.launcher_name@)
            &&& (pairs[i].0 == "${launcher_version}"@ ==> pairs[i].1 == env.launcher_version@)
            &&& (pairs[i].0 == "${classpath}"@ ==> pairs[i].1 == classpath)
        },
{
    let pairs = spec_replace_pairs(obj, auth, classpath, native, lang, assets, env, version_type);
    law_launch_keys(obj, auth, classpath, native, lang, assets, env, version_type);
    assert forall|i: int| 0 <= i < pairs.len() implies {
                &&& (pairs[i].0 == "${auth_player_name}"@ ==> pairs[i].1 == auth.user_name@)
                &&& (pairs[i].0 == "${version_name}"@ ==> pairs[i].1 == spec_version_name(obj))
                &&& (pairs[i].0 == "${game_directory}"@ ==> pairs[i].1 == spec_display(env.game_dir@, env.sep))
                &&& (pairs[i].0 == "${assets_root}"@ ==> pairs[i].1 == spec_display(env.assets_dir@, env.sep))
                &&& (pairs[i].0 == "${assets_index_name}"@ ==> pairs[i].1 == (match assets { Some(a) => a@, None => "legacy"@ }))
                &&& (pairs[i].0 == "${auth_uuid}"@ ==> pairs[i].1 == auth.uuid@)
                &&& (pairs[i].0 == "${auth_access_token}"@ ==> pairs[i].1 == (if auth.access_token@.len() == 0 { "0"@ } else { auth.access_token@ }))
                &&& (pairs[i].0 == "${user_properties}"@ ==> pairs[i].1 == (match lang { Some(l) => "{\"language\":\""@ + l@ + "\"}"@, None => "{}"@ }))
                &&& (pairs[i].0 == "${user_type}"@ ==> pairs[i].1 == (if auth.auth_type == AuthType::OAuth { "msa"@ } else { "mojang"@ }))
                &&& (pairs[i].0 == "${version_type}"@ ==> pairs[i].1 == version_type)
                &&& (pairs[i].0 == "${natives_directory}"@ ==> pairs[i].1 == spec_display(native, env.sep))
                &&& (pairs[i].0 == "${library_directory}"@ ==> pairs[i].1 == spec_display(env.lib_dir@, env.sep))
                &&& (pairs[i].0 == "${classpath_separator}"@ ==> pairs[i].1 == seq![classpath_sep(env.os)])
                &&& (pairs[i].0 == "${launcher_name}"@ ==> pairs[i].1 == env.launcher_name@)
                &&& (pairs[i].0 == "${launcher_version}"@ ==> pairs[i].1 == env.launcher_version@)
                &&& (pairs[i].0 == "${classpath}"@ ==> pairs[i].1 == classpath)
    } by {
        assert forall|j: int| 0 <= j < pairs.len() && j != i implies pairs[i].0 != pairs[j].0 by {
            if i < j {
                assert(pairs[i].0 != pairs[j].0);
            } else {
                assert(pairs[j].0 != pairs[i].0);
            }
        }
        assert(pairs[0].0 == "${auth_player_name}"@);
        assert(pairs[1].0 == "${version_name}"@);
        assert(pairs[2].0 == "${game_directory}"@);
        assert(pairs[3].0 == "${assets_root}"@);
        assert(pairs[4].0 == "${assets_index_name}"@);
        assert(pairs[5].0 == "${auth_uuid}"@);
        assert(pairs[6].0 == "${auth_access_token}"@);
        assert(pairs[7].0 == "${user_properties}"@);
        assert(pairs[8].0 == "${user_type}"@);
        assert(pairs[9].0 == "${version_type}"@);
        assert(pairs[10].0 == "${natives_directory}"@);
        assert(pairs[11].0 == "${library_directory}"@);
        assert(pairs[12].0 == "${classpath_separator}"@);
        assert(pairs[13].0 == "${launcher_name}"@);
        assert(pairs[14].0 == "${launcher_version}"@);
        assert(pairs[15].0 == "${classpath}"@);
    }
}

/// The argument `${auth_uuid}` comes out as the account's id, and
/// `${auth_player_name}` as the player's name, where no value has a `$`.
pub proof fn law_launch_account_args(
    obj: InstanceSettingObj,
    auth: LoginObj,
    classpath: Seq<char>,
    native: Seq<Seq<char>>,
    lang: Option<String>,
    assets: Option<String>,
    env: ReplaceEnv,
    version_type: Seq<char>,
)
    requires
        values_plain(spec_replace_pairs(obj, auth, classpath, native, lang, assets, env, version_type)),
    ensures
        replace_each("${auth_uuid}"@, spec_replace_pairs(obj, auth, classpath, native, lang, assets, env, version_type))
            == auth.uuid@,
        replace_each("${auth_player_name}"@, spec_replace_pairs(obj, auth, classpath, native, lang, assets, env, version_type))
            == auth.user_name@,
{
    let pairs = spec_replace_pairs(obj, auth, classpath, native, lang, assets, env, version_type);
    let e = Seq::<char>::empty();
    law_launch_placeholder_replaced(obj, auth, classpath, native, lang, assets, env, version_type, 5, e, e);
    law_launch_placeholder_replaced(obj, auth, classpath, native, lang, assets, env, version_type, 0, e, e);
    assert(e + pairs[5].0 + e =~= pairs[5].0);
    assert(e + pairs[5].1 + e =~= pairs[5].1);
    assert(e + pairs[0].0 + e =~= pairs[0].0);
    assert(e + pairs[0].1 + e =~= pairs[0].1);
}

/// Appends a placeholder and what it is replaced by.
fn push_pair(pairs: &mut Vec<(String, String)>, key: &str, value: String)
    ensures
        replacements_view(final(pairs)@) == replacements_view(old(pairs)@).push((key@, value@)),
{
    let ghost before = pairs@;
    let ghost v = value@;
    pairs.push((copy_str(key), value));
    assert(replacements_view(pairs@) =~= replacements_view(before).push((key@, v)));
}

impl InstanceSettingObj {
    /// The name the instance's game version is launched under (see `spec_version_name`).
    pub fn version_name(&self) -> (r: String)
        requires
            self.loader != LoaderType::Normal && self.loader != LoaderType::Custom
                ==> self.loader_version is Some,
        ensures
            r@ == spec_version_name(*self),
    {
        match self.loader {
            LoaderType::Normal => copy_str(self.version.as_str()),
            LoaderType::Custom => copy_str("custom"),
            _ => {
                let mut r = copy_str(self.loader.prefix());
                push_str(&mut r, "-");
                push_str(&mut r, self.version.as_str());
                push_str(&mut r, "-");
                match &self.loader_version {
                    Some(v) => push_str(&mut r, v.as_str()),
                    None => {},
                }
                r
            },
        }
    }

    /// The placeholders of the launch arguments and what each is replaced by (see
    /// `spec_replace_pairs`); the version type is read from the list of versions.
    pub fn replace_pairs(
        &self,
        auth: &LoginObj,
        classpath: &str,
        native: &PathObj,
        lang: &Option<String>,
        assets: &Option<String>,
        env: &ReplaceEnv,
        paths: &VersionPath,
    ) -> (r: Vec<(String, String)>)
        requires
            self.loader != LoaderType::Normal && self.loader != LoaderType::Custom
                ==> self.loader_version is Some,
        ensures
            replacements_view(r@) == spec_replace_pairs(
                *self,
                *auth,
                classpath@,
                native@,
                *lang,
                *assets,
                *env,
                spec_version_type(paths.version, self.version@),
            ),
            keys_nonempty(replacements_view(r@)),
    {
        proof {
            reveal_strlit("${auth_player_name}");
            reveal_strlit("${version_name}");
            reveal_strlit("${game_directory}");
            reveal_strlit("${assets_root}");
            reveal_strlit("${assets_index_name}");
            reveal_strlit("${auth_uuid}");
            reveal_strlit("${auth_access_token}");
            reveal_strlit("${user_properties}");
            reveal_strlit("${user_type}");
            reveal_strlit("${version_type}");
            reveal_strlit("${natives_directory}");
            reveal_strlit("${library_directory}");
            reveal_strlit("${classpath_separator}");
            reveal_strlit("${launcher_name}");
            reveal_strlit("${launcher_version}");
            reveal_strlit("${classpath}");
        }
        let mut pairs: Vec<(String, String)> = Vec::new();
        assert(replacements_view(pairs@) =~= Seq::<(Seq<char>, Seq<char>)>::empty());
        push_pair(&mut pairs, "${auth_player_name}", copy_str(auth.user_name.as_str()));
        push_pair(&mut pairs, "${version_name}", self.version_name());
        push_pair(&mut pairs, "${game_directory}", env.game_dir.display(env.sep));
        push_pair(&mut pairs, "${assets_root}", env.assets_dir.display(env.sep));
        let index = match assets {
            Some(a) => copy_str(a.as_str()),
            None => copy_str("legacy"),
        };
        push_pair(&mut pairs, "${assets_index_name}", index);
        push_pair(&mut pairs, "${auth_uuid}", copy_str(auth.uuid.as_str()));
        let token = if auth.access_token.as_str().is_empty() {
            copy_str("0")
        } else {
            copy_str(auth.access_token.as_str())
        };
        push_pair(&mut pairs, "${auth_access_token}", token);
        let props = match lang {
            Some(l) => {
                let mut t = copy_str("{\"language\":\"");
                push_str(&mut t, l.as_str());
                push_str(&mut t, "\"}");
                t
            },
            None => copy_str("{}"),
        };
        push_pair(&mut pairs, "${user_properties}", props);
        let user_type = if auth.auth_type == AuthType::OAuth {
            copy_str("msa")
        } else {
            copy_str("mojang")
        };
        push_pair(&mut pairs, "${user_type}", user_type);
        push_pair(&mut pairs, "${version_type}", self.get_version_type(paths));
        push_pair(&mut pairs, "${natives_directory}", native.display(env.sep));
        push_pair(&mut pairs, "${library_directory}", env.lib_dir.display(env.sep));
        let mut sep = String::new();
        push_char(&mut sep, if env.os == Os::Windows {
            ';'
        } else {
            ':'
        });
        push_pair(&mut pairs, "${classpath_separator}", sep);
        push_pair(&mut pairs, "${launcher_name}", copy_str(env.launcher_name.as_str()));
        push_pair(&mut pairs, "${launcher_version}", copy_str(env.launcher_version.as_str()));
        push_pair(&mut pairs, "${classpath}", copy_str(classpath));
        assert(replacements_view(pairs@) =~= spec_replace_pairs(
            *self,
            *auth,
            classpath@,
            native@,
            *lang,
            *assets,
            *env,
            spec_version_type(paths.version, self.version@),
        ));
        pairs
    }
}

/// Each argument with the replacements of `pairs` made in turn.
pub open spec fn replaced_args(args: Seq<Seq<char>>, pairs: Seq<(Seq<char>, Seq<char>)>) -> Seq<Seq<char>> {
    args.map_values(|a: Seq<char>| replace_each(a, pairs))
}

/// Makes the replacements of `pairs`, in turn, in each argument.
pub fn replace_all_value(args: &mut Vec<String>, pairs: &Vec<(String, String)>)
    requires
        keys_nonempty(replacements_view(pairs@)),
    ensures
        strings_view(final(args)@) == replaced_args(strings_view(old(args)@), replacements_view(pairs@)),
{
    let ghost start = strings_view(args@);
    let mut out: Vec<String> = Vec::new();
    let mut i: usize = 0;
    assert(strings_view(out@) =~= replaced_args(start, replacements_view(pairs@)).take(0));
    while i < args.len()
        invariant
            strings_view(args@) == start,
            i <= args@.len(),
            keys_nonempty(replacements_view(pairs@)),
            strings_view(out@) == replaced_args(start, replacements_view(pairs@)).take(i as int),
        decreases args@.len() - i,
    {
        let ghost before = out@;
        let t = replace_all(args[i].as_str(), pairs);
        out.push(t);
        assert(strings_view(out@) =~= strings_view(before).push(t@));
        assert(start[i as int] == args@[i as int]@);
        assert(replaced_args(start, replacements_view(pairs@)).take(i + 1) =~= replaced_args(
            start,
            replacements_view(pairs@),
        ).take(i as int).push(t@));
        i = i + 1;
    }
    assert(replaced_args(start, replacements_view(pairs@)).take(i as int) =~= replaced_args(
        start,
        replacements_view(pairs@),
    ));
    *args = out;
}

/// The class path: the texts of the libraries joined by `cp_sep`.
pub open spec fn spec_classpath(libs: Seq<Seq<Seq<char>>>, sep: char, cp_sep: char) -> Seq<char>
    decreases libs.len(),
{
    if libs.len() == 0 {
        Seq::empty()
    } else if libs.len() == 1 {
        spec_display(libs[0], sep)
    } else {
        spec_classpath(libs.drop_last(), sep, cp_sep) + seq![cp_sep] + spec_display(libs.last(), sep)
    }
}

/// The class path of the libraries, `sep` separating path parts and `cp_sep` entries.
pub fn classpath_text(libs: &Vec<PathObj>, sep: char, cp_sep: char) -> (r: String)
    ensures
        r@ == spec_classpath(libs@.map_values(|p: PathObj| p@), sep, cp_sep),
{
    let ghost v = libs@.map_values(|p: PathObj| p@);
    let mut r = String::new();
    let mut i: usize = 0;
    assert(v.take(0) =~= Seq::<Seq<Seq<char>>>::empty());
    while i < libs.len()
        invariant
            v == libs@.map_values(|p: PathObj| p@),
            i <= libs@.len(),
            r@ == spec_classpath(v.take(i as int), sep, cp_sep),
        decreases libs@.len() - i,
    {
        if i > 0 {
            push_char(&mut r, cp_sep);
        }
        let t = libs[i].display(sep);
        push_str(&mut r, t.as_str());
        assert(v.take(i + 1).drop_last() =~= v.take(i as int));
        i = i + 1;
    }
    assert(v.take(i as int) =~= v);
    r
}

impl InstanceSettingObj {
    /// The launch arguments: the JVM arguments, the main class and the game arguments,
    /// with the replacements of `pairs` made in the JVM and game arguments (which are
    /// left replaced in `obj`).
    pub fn make_run_arg(&self, obj: &mut GameLaunchObj, pairs: &Vec<(String, String)>) -> (r: Vec<
        String,
    >)
        requires
            keys_nonempty(replacements_view(pairs@)),
        ensures
            strings_view(final(obj).jvm_args@) == replaced_args(
                strings_view(old(obj).jvm_args@),
                replacements_view(pairs@),
            ),
            strings_view(final(obj).game_args@) == replaced_args(
                strings_view(old(obj).game_args@),
                replacements_view(pairs@),
            ),
            final(obj).main_class == old(obj).main_class,
            strings_view(r@) == strings_view(final(obj).jvm_args@).push(old(obj).main_class@)
                + strings_view(final(obj).game_args@),
    {
        replace_all_value(&mut obj.jvm_args, pairs);
        replace_all_value(&mut obj.game_args, pairs);
        let mut args: Vec<String> = Vec::new();
        assert(strings_view(args@) =~= Seq::<Seq<char>>::empty());
        extend_strings(&mut args, &obj.jvm_args);
        push_string(&mut args, obj.main_class.as_str());
        extend_strings(&mut args, &obj.game_args);
        args
    }
}

/// Arguments as one text: joined by spaces.
pub open spec fn spec_join_spaces(args: Seq<Seq<char>>) -> Seq<char>
    decreases args.len(),
{
    if args.len() == 0 {
        Seq::empty()
    } else if args.len() == 1 {
        args[0]
    } else {
        spec_join_spaces(args.drop_last()) + seq![' '] + args.last()
    }
}

/// Arguments as one text, joined by spaces.
pub fn build_vec_string(args: &Vec<String>) -> (r: String)
    ensures
        r@ == spec_join_spaces(strings_view(args@)),
{
    let ghost v = strings_view(args@);
    let mut r = String::new();
    let mut i: usize = 0;
    assert(v.take(0) =~= Seq::<Seq<char>>::empty());
    while i < args.len()
        invariant
            v == strings_view(args@),
            i <= args@.len(),
            r@ == spec_join_spaces(v.take(i as int)),
        decreases args@.len() - i,
    {
        if i > 0 {
            push_char(&mut r, ' ');
        }
        push_str(&mut r, args[i].as_str());
        assert(v.take(i + 1).drop_last() =~= v.take(i as int));
        i = i + 1;
    }
    assert(v.take(i as int) =~= v);
    r
}

/// A user argument with its placeholders replaced: the instance's name and id, its game
/// folder (for both the game and the base folder), the Java executable and the launch
/// arguments.
pub open spec fn spec_replace_arg(
    obj: InstanceSettingObj,
    jvm: Seq<char>,
    args: Seq<Seq<char>>,
    item: Seq<char>,
    game_dir: Seq<char>,
) -> Seq<char> {
    let a = spec_replace(item, ARG_GAME_NAME@, obj.name@);
    let b = spec_replace(a, ARG_GAME_UUID@, spec_uuid_text(obj.uuid));
    let c = spec_replace(b, ARG_GAME_DIR@, game_dir);
    let d = spec_replace(c, ARG_GAME_BASE_DIR@, game_dir);
    let e = spec_replace(d, ARG_JAVA_LOCAL@, jvm);
    spec_replace(e, ARG_JAVA_ARG@, spec_join_spaces(args))
}

/// The environment variables of a game: one `NAME=value` per line, each trimmed, a line
/// without `=` naming an empty variable; a later line wins.
pub open spec fn env_upto(lines: Seq<Seq<char>>, n: int) -> Map<Seq<char>, Seq<char>>
    decreases n,
{
    if n <= 0 {
        Map::empty()
    } else {
        let (k, v) = split_once(spec_trim(lines[n - 1]), '=');
        env_upto(lines, n - 1).insert(k, v)
    }
}

/// The environment settings of an instance: its own where it has run settings (none
/// where those set none), else the launcher's.
pub open spec fn env_text(obj: InstanceSettingObj, config: RunArgObj) -> Seq<char> {
    match obj.jvm_arg {
        Some(r) => match r.jvm_env {
            Some(t) => t@,
            None => Seq::empty(),
        },
        None => match config.jvm_env {
            Some(t) => t@,
            None => Seq::empty(),
        },
    }
}

/// The environment variables of an instance's game.
pub open spec fn spec_env_arg(obj: InstanceSettingObj, config: RunArgObj) -> Map<Seq<char>, Seq<char>> {
    let text = env_text(obj, config);
    if text.len() == 0 {
        Map::empty()
    } else {
        env_upto(spec_split(text, '\n'), spec_split(text, '\n').len() as int)
    }
}

impl InstanceSettingObj {
    /// A user argument with its placeholders replaced (see `spec_replace_arg`); `sep`
    /// separates path parts on this system.
    pub fn replace_arg(
        &self,
        jvm: &PathObj,
        arg: &Vec<String>,
        item: &str,
        game_dir: &PathObj,
        sep: char,
    ) -> (r: String)
        ensures
            r@ == spec_replace_arg(
                *self,
                spec_display(jvm@, sep),
                strings_view(arg@),
                item@,
                spec_display(game_dir@, sep),
            ),
    {
        proof {
            reveal_strlit("%GAME_NAME%");
            reveal_strlit("%GAME_UUID%");
            reveal_strlit("%GAME_DIR%");
            reveal_strlit("%GAME_BASE_DIR%");
            reveal_strlit("%JAVA_LOCAL%");
            reveal_strlit("%JAVA_ARG%");
        }
        let dir = game_dir.display(sep);
        let uuid = uuid_text(self.uuid);
        let java = jvm.display(sep);
        let joined = build_vec_string(arg);
        let a = replace_str(item, ARG_GAME_NAME, self.name.as_str());
        let b = replace_str(a.as_str(), ARG_GAME_UUID, uuid.as_str());
        let c = replace_str(b.as_str(), ARG_GAME_DIR, dir.as_str());
        let d = replace_str(c.as_str(), ARG_GAME_BASE_DIR, dir.as_str());
        let e = replace_str(d.as_str(), ARG_JAVA_LOCAL, java.as_str());
        replace_str(e.as_str(), ARG_JAVA_ARG, joined.as_str())
    }

    /// The environment variables of the instance's game (see `spec_env_arg`); `config`
    /// holds the launcher's run settings.
    pub fn make_env_arg(&self, config: &RunArgObj) -> (r: KeyedCache<String, String>)
        ensures
            r.wf(),
            text_map(r@) == spec_env_arg(*self, *config),
    {
        let text = match &self.jvm_arg {
            Some(run) => match &run.jvm_env {
                Some(t) => copy_str(t.as_str()),
                None => String::new(),
            },
            None => match &config.jvm_env {
                Some(t) => copy_str(t.as_str()),
                None => String::new(),
            },
        };
        let mut env: KeyedCache<String, String> = KeyedCache::new();
        assert(text_map(env@) =~= Map::<Seq<char>, Seq<char>>::empty());
        if text.as_str().is_empty() {
            return env;
        }
        let lines = split_str(text.as_str(), '\n');
        let mut i: usize = 0;
        while i < lines.len()
            invariant
                seqs_of(lines@) == spec_split(text@, '\n'),
                text@ == env_text(*self, *config),
                i <= lines@.len(),
                env.wf(),
                text_map(env@) == env_upto(spec_split(text@, '\n'), i as int),
            decreases lines@.len() - i,
        {
            let t = trim_chars(lines[i].as_slice());
            assert(lines@[i as int]@ == spec_split(text@, '\n')[i as int]);
            let (key, value) = cut_once(t.as_slice(), '=');
            let ghost before = env@;
            let ghost kv = (key@, value@);
            env.insert(key, value);
            assert(text_map(env@) =~= text_map(before).insert(kv.0, kv.1));
            i = i + 1;
        }
        env
    }
}

// ---------------------------------------------------------------------------
// The arguments of a launch from a version description
// ---------------------------------------------------------------------------

/// A run setting that removes arguments is on.
pub open spec fn removes(flag: Option<bool>) -> bool {
    match flag {
        Some(b) => b,
        None => false,
    }
}

/// The JVM arguments of a launch from a version description: unless the instance leaves
/// them out, those of the description (by its argument format) and of the loader; then
/// the launcher's own (`own`).
pub open spec fn spec_normal_jvm_args(
    v2: bool,
    obj: InstanceSettingObj,
    game: GameArgObj,
    sys: SystemInfo,
    paths: VersionPath,
    libs: LibrariesPath,
    installer: Seq<Seq<char>>,
    sep: char,
    own: Seq<Seq<char>>,
) -> Seq<Seq<char>> {
    let described = if removes(own_run(obj).remove_jvm_arg) {
        Seq::empty()
    } else {
        (if v2 {
            spec_v2_jvm_arg(game, sys)
        } else {
            spec_v1_jvm_arg()
        }) + spec_loader_jvm_arg(v2, obj, paths, libs, installer, sep)
    };
    described + own
}

/// The game arguments of a launch from a version description: unless the instance leaves
/// them out, those of the description and of the loader (for the first format, the
/// loader's stand in for the description's where there is a loader); then the
/// instance's own (`own`).
pub open spec fn spec_normal_game_args(
    v2: bool,
    obj: InstanceSettingObj,
    game: GameArgObj,
    paths: VersionPath,
    own: Seq<Seq<char>>,
) -> Seq<Seq<char>> {
    let described = if removes(own_run(obj).remove_game_arg) {
        Seq::empty()
    } else if v2 {
        spec_v2_game_arg(game) + spec_loader_v2_game_arg(obj, paths)
    } else if obj.loader != LoaderType::Normal {
        spec_loader_v1_game_arg(obj, game, paths)
    } else {
        spec_v1_game_arg(game)
    };
    described + own
}

impl InstanceSettingObj {
    /// Puts together the JVM and game arguments of a launch from the version description
    /// `game` (see `spec_normal_jvm_args` and `spec_normal_game_args`): `jvm_own` are the
    /// launcher's JVM arguments and `game_own` the instance's game arguments.
    pub fn make_normal_args(
        &self,
        obj: &mut GameLaunchObj,
        game: &GameArgObj,
        sys: &SystemInfo,
        paths: &VersionPath,
        libs: &LibrariesPath,
        installer: &PathObj,
        sep: char,
        jvm_own: &Vec<String>,
        game_own: &Vec<String>,
    )
        requires
            paths.wf(),
            self.loader != LoaderType::LiteLoader,
            self.loader == LoaderType::OptiFine ==> self.loader_version is Some,
        ensures
            strings_view(final(obj).jvm_args@) == strings_view(old(obj).jvm_args@)
                + spec_normal_jvm_args(
                game.minimum_launcher_version > 18,
                *self,
                *game,
                *sys,
                *paths,
                *libs,
                installer@,
                sep,
                strings_view(jvm_own@),
            ),
            strings_view(final(obj).game_args@) == strings_view(old(obj).game_args@)
                + spec_normal_game_args(
                game.minimum_launcher_version > 18,
                *self,
                *game,
                *paths,
                strings_view(game_own@),
            ),
            final(obj).main_class == old(obj).main_class,
    {
        let v2 = game.is_game_version_v2();
        let remove_jvm = match &self.jvm_arg {
            Some(r) => match r.remove_jvm_arg {
                Some(b) => b,
                None => false,
            },
            None => false,
        };
        let remove_game = match &self.jvm_arg {
            Some(r) => match r.remove_game_arg {
                Some(b) => b,
                None => false,
            },
            None => false,
        };
        let ghost jvm0 = strings_view(obj.jvm_args@);
        if !remove_jvm {
            if v2 {
                let a = make_v2_jvm_arg(game, sys);
                extend_strings(&mut obj.jvm_args, &a);
            } else {
                let a = v1_jvm_arg();
                extend_strings(&mut obj.jvm_args, &a);
            }
            let l = make_loader_jvm_arg(v2, self, paths, libs, installer, sep);
            extend_strings(&mut obj.jvm_args, &l);
        }
        extend_strings(&mut obj.jvm_args, jvm_own);
        assert(strings_view(obj.jvm_args@) =~= jvm0 + spec_normal_jvm_args(
            v2,
            *self,
            *game,
            *sys,
            *paths,
            *libs,
            installer@,
            sep,
            strings_view(jvm_own@),
        ));
        let ghost game0 = strings_view(obj.game_args@);
        if !remove_game {
            if v2 {
                let a = make_v2_game_arg(game);
                extend_strings(&mut obj.game_args, &a);
                let l = make_loader_v2_game_arg(self, paths);
                extend_strings(&mut obj.game_args, &l);
            } else if self.loader != LoaderType::Normal {
                let l = make_loader_v1_game_arg(self, game, paths);
                extend_strings(&mut obj.game_args, &l);
            } else {
                let a = make_v1_game_arg(game);
                extend_strings(&mut obj.game_args, &a);
            }
        }
        extend_strings(&mut obj.game_args, game_own);
        assert(strings_view(obj.game_args@) =~= game0 + spec_normal_game_args(
            v2,
            *self,
            *game,
            *paths,
            strings_view(game_own@),
        ));
    }
}

} // verus!

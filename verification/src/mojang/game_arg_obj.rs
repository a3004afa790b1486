//! The launch description of a game version (the version JSON) and its parts.
use vstd::prelude::*;

verus! {

/// Operating system condition of a rule.
#[derive(Debug, Clone)]
pub struct GameOsObj {
    pub name: String,
    pub arch: String,
}

impl Default for GameOsObj {
    fn default() -> (r: Self)
        ensures
            r.name@ == Seq::<char>::empty(),
            r.arch@ == Seq::<char>::empty(),
    {
        Self {
            name: String::new(),
            arch: String::new(),
        }
    }
}

/// A rule that allows or forbids an item on some systems.
#[derive(Debug, Clone)]
pub struct GameRulesObj {
    pub action: String,
    pub os: Option<GameOsObj>,
}

impl Default for GameRulesObj {
    fn default() -> (r: Self)
        ensures
            r.action@ == Seq::<char>::empty(),
            r.os is None,
    {
        Self {
            action: String::new(),
            os: None,
        }
    }
}

/// A downloadable file: its path under the libraries folder, hash and address.
#[derive(Debug, Clone)]
pub struct ArtifactObj {
    pub path: String,
    pub sha1: String,
    pub url: String,
}

impl Default for ArtifactObj {
    fn default() -> (r: Self)
        ensures
            r.path@ == Seq::<char>::empty(),
            r.sha1@ == Seq::<char>::empty(),
            r.url@ == Seq::<char>::empty(),
    {
        Self {
            path: String::new(),
            sha1: String::new(),
            url: String::new(),
        }
    }
}

/// Native library files per operating system.
#[derive(Debug, Clone)]
pub struct ClassifiersObj {
    pub natives_linux: ArtifactObj,
    pub natives_osx: ArtifactObj,
    pub natives_windows: ArtifactObj,
    pub natives_windows_32: ArtifactObj,
    pub natives_windows_64: ArtifactObj,
}

impl Default for ClassifiersObj {
    fn default() -> (r: Self) {
        Self {
            natives_linux: ArtifactObj::default(),
            natives_osx: ArtifactObj::default(),
            natives_windows: ArtifactObj::default(),
            natives_windows_32: ArtifactObj::default(),
            natives_windows_64: ArtifactObj::default(),
        }
    }
}

/// Download entries of a library.
#[derive(Debug, Clone)]
pub struct GameLibrariesDownloadsObj {
    pub classifiers: Option<ClassifiersObj>,
    pub artifact: ArtifactObj,
}

impl Default for GameLibrariesDownloadsObj {
    fn default() -> (r: Self)
        ensures
            r.classifiers is None,
    {
        Self {
            classifiers: None,
            artifact: ArtifactObj::default(),
        }
    }
}

/// A JVM argument value: one text or several.
#[derive(Debug, Clone)]
pub enum ArgValue {
    Single(String),
    Multi(Vec<String>),
}

impl Default for ArgValue {
    fn default() -> (r: Self)
        ensures
            r is Single && r->Single_0@ == Seq::<char>::empty(),
    {
        ArgValue::Single(String::new())
    }
}

/// A conditional launch argument.
#[derive(Debug)]
pub struct GameJvmObj {
    pub rules: Vec<GameRulesObj>,
    pub value: ArgValue,
}

impl Default for GameJvmObj {
    fn default() -> (r: Self)
        ensures
            r.rules@.len() == 0,
            r.value is Single && r.value->Single_0@ == Seq::<char>::empty(),
    {
        Self {
            rules: Vec::new(),
            value: ArgValue::default(),
        }
    }
}

/// A launch argument: plain text, or a value that applies under rules.
#[derive(Debug)]
pub enum Argument {
    Plain(String),
    Conditional(GameJvmObj),
}

/// Game and JVM arguments of the second argument format.
#[derive(Debug)]
pub struct GameArgumentsObj {
    pub game: Vec<Argument>,
    pub jvm: Vec<Argument>,
}

impl Default for GameArgumentsObj {
    fn default() -> (r: Self)
        ensures
            r.game@.len() == 0,
            r.jvm@.len() == 0,
    {
        Self {
            game: Vec::new(),
            jvm: Vec::new(),
        }
    }
}

/// The asset index of a version.
#[derive(Debug, Clone)]
pub struct GameAssetIndexObj {
    pub id: String,
    pub url: String,
}

impl Default for GameAssetIndexObj {
    fn default() -> (r: Self)
        ensures
            r.id@ == Seq::<char>::empty(),
            r.url@ == Seq::<char>::empty(),
    {
        Self {
            id: String::new(),
            url: String::new(),
        }
    }
}

/// A downloadable file: hash and address.
#[derive(Debug)]
pub struct GameDownloadItemObj {
    pub sha1: String,
    pub url: String,
}

impl Default for GameDownloadItemObj {
    fn default() -> (r: Self)
        ensures
            r.sha1@ == Seq::<char>::empty(),
            r.url@ == Seq::<char>::empty(),
    {
        Self {
            sha1: String::new(),
            url: String::new(),
        }
    }
}

/// Downloads of a version.
#[derive(Debug)]
pub struct GameDownloadsObj {
    pub client: GameDownloadItemObj,
}

impl Default for GameDownloadsObj {
    fn default() -> (r: Self) {
        Self {
            client: GameDownloadItemObj::default(),
        }
    }
}

/// The Java major version a game version needs.
#[derive(Debug)]
pub struct GameJavaVersionObj {
    pub major_version: i32,
}

impl Default for GameJavaVersionObj {
    fn default() -> (r: Self)
        ensures
            r.major_version == 0,
    {
        Self {
            major_version: 0,
        }
    }
}

/// A library of a game version.
#[derive(Debug, Clone)]
pub struct GameLibrariesObj {
    pub downloads: GameLibrariesDownloadsObj,
    pub name: String,
    pub rules: Vec<GameRulesObj>,
    pub url: String,
}

impl Default for GameLibrariesObj {
    fn default() -> (r: Self)
        ensures
            r.name@ == Seq::<char>::empty(),
            r.rules@.len() == 0,
            r.url@ == Seq::<char>::empty(),
    {
        Self {
            downloads: GameLibrariesDownloadsObj::default(),
            name: String::new(),
            rules: Vec::new(),
            url: String::new(),
        }
    }
}

/// Client logging configuration.
#[derive(Debug)]
pub struct ClientObj {
    pub argument: String,
    pub file: GameDownloadItemObj,
}

impl Default for ClientObj {
    fn default() -> (r: Self)
        ensures
            r.argument@ == Seq::<char>::empty(),
    {
        Self {
            argument: String::new(),
            file: GameDownloadItemObj::default(),
        }
    }
}

/// Logging configuration.
#[derive(Debug)]
pub struct LoggingObj {
    pub client: ClientObj,
}

impl Default for LoggingObj {
    fn default() -> (r: Self) {
        Self {
            client: ClientObj::default(),
        }
    }
}

/// The launch description of a game version.
#[derive(Debug)]
pub struct GameArgObj {
    pub asset_index: Option<GameAssetIndexObj>,
    pub downloads: GameDownloadsObj,
    pub id: String,
    pub java_version: Option<GameJavaVersionObj>,
    pub libraries: Option<Vec<GameLibrariesObj>>,
    pub logging: Option<LoggingObj>,
    pub main_class: String,
    pub minecraft_arguments: Option<String>,
    pub minimum_launcher_version: i32,
    pub release_time: String,
    pub arguments: Option<GameArgumentsObj>,
}

impl Default for GameArgObj {
    fn default() -> (r: Self)
        ensures
            r.asset_index is None,
            r.id@ == Seq::<char>::empty(),
            r.java_version is None,
            r.libraries is None,
            r.logging is None,
            r.main_class@ == Seq::<char>::empty(),
            r.minecraft_arguments is None,
            r.minimum_launcher_version == 0,
            r.release_time@ == Seq::<char>::empty(),
            r.arguments is None,
    {
        Self {
            asset_index: None,
            downloads: GameDownloadsObj::default(),
            id: String::new(),
            java_version: None,
            libraries: None,
            logging: None,
            main_class: String::new(),
            minecraft_arguments: None,
            minimum_launcher_version: 0,
            release_time: String::new(),
            arguments: None,
        }
    }
}

} // verus!

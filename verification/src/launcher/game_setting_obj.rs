//! The settings of a game instance.
use vstd::prelude::*;

use crate::launcher::config_obj::{RunArgObj, WindowSettingObj};
use crate::launcher::{LogEncoding, SourceType};
use crate::loader::LoaderType;
use crate::mojang::GameType;

verus! {

/// The server to join on start.
#[derive(Debug)]
pub struct ServerObj {
    pub ip: Option<String>,
    pub port: Option<u16>,
}

impl Default for ServerObj {
    fn default() -> (r: Self)
        ensures
            r.ip is None,
            r.port is None,
    {
        ServerObj { ip: None, port: None }
    }
}

/// The proxy the game connects through.
#[derive(Debug)]
pub struct ProxyHostObj {
    pub ip: Option<String>,
    pub port: Option<u16>,
    pub user: Option<String>,
    pub password: Option<String>,
}

impl Default for ProxyHostObj {
    fn default() -> (r: Self)
        ensures
            r.ip is None,
            r.port is None,
            r.user is None,
            r.password is None,
    {
        ProxyHostObj { ip: None, port: None, user: None, password: None }
    }
}

/// Advanced JVM settings.
#[derive(Debug)]
pub struct AdvanceJvmObj {
    /// A main class to use in place of the loader's.
    pub main_class: Option<String>,
    /// Extra class path entries, separated by `;`.
    pub class_path: Option<String>,
}

impl Default for AdvanceJvmObj {
    fn default() -> (r: Self)
        ensures
            r.main_class is None,
            r.class_path is None,
    {
        AdvanceJvmObj { main_class: None, class_path: None }
    }
}

/// Settings of a custom mod loader.
#[derive(Debug, Clone, Copy)]
pub struct CustomLoaderObj {
    /// Place the game's own libraries after the loader's.
    pub off_list: bool,
    /// Leave out the game's own libraries.
    pub remove_lib: bool,
    /// Launch from the instance's own launch descriptions.
    pub custom_json: bool,
    /// Remove the launch descriptions the instance had before.
    pub remove_json: bool,
}

impl Default for CustomLoaderObj {
    fn default() -> (r: Self)
        ensures
            !r.off_list,
            !r.remove_lib,
            !r.custom_json,
            !r.remove_json,
    {
        CustomLoaderObj { off_list: false, remove_lib: false, custom_json: false, remove_json: false }
    }
}

/// The settings of a game instance; the identifier is the instance UUID as a number.
#[derive(Debug)]
pub struct InstanceSettingObj {
    pub uuid: u128,
    pub name: String,
    pub group: Option<String>,
    pub dir: String,
    pub version: String,
    pub loader: LoaderType,
    pub loader_version: Option<String>,
    pub jvm_arg: Option<RunArgObj>,
    pub jvm_name: Option<String>,
    pub jvm_local: Option<String>,
    pub window: Option<WindowSettingObj>,
    pub start_server: Option<ServerObj>,
    pub proxy_host: Option<ProxyHostObj>,
    pub advance_jvm: Option<AdvanceJvmObj>,
    pub is_modpack: bool,
    pub source_type: SourceType,
    pub game_type: GameType,
    pub pid: Option<String>,
    pub fid: Option<String>,
    pub icon: Option<String>,
    pub server_url: Option<String>,
    pub custom_loader: Option<CustomLoaderObj>,
    pub encoding: LogEncoding,
}

/// The settings of a game instance (the earlier name of `InstanceSettingObj`).
pub type GameSettingObj = InstanceSettingObj;

impl Default for InstanceSettingObj {
    fn default() -> (r: Self)
        ensures
            r.uuid == 0,
            r.name@ == Seq::<char>::empty(),
            r.group is None,
            r.dir@ == Seq::<char>::empty(),
            r.version@ == Seq::<char>::empty(),
            r.loader == LoaderType::Normal,
            r.loader_version is None,
            r.jvm_arg is None,
            r.custom_loader is None,
            r.source_type == SourceType::NoSource,
            r.game_type == GameType::Release,
            r.encoding == LogEncoding::UTF8,
            !r.is_modpack,
    {
        InstanceSettingObj {
            uuid: 0,
            name: String::new(),
            group: None,
            dir: String::new(),
            version: String::new(),
            loader: LoaderType::Normal,
            loader_version: None,
            jvm_arg: None,
            jvm_name: None,
            jvm_local: None,
            window: None,
            start_server: None,
            proxy_host: None,
            advance_jvm: None,
            is_modpack: false,
            source_type: SourceType::NoSource,
            game_type: GameType::Release,
            pid: None,
            fid: None,
            icon: None,
            server_url: None,
            custom_loader: None,
            encoding: LogEncoding::UTF8,
        }
    }
}

} // verus!

//! A launch description that an instance brings itself (MultiMC-style components).
use vstd::prelude::*;

use crate::mojang::game_arg_obj::{GameArgObj, GameLibrariesObj};

verus! {

/// A custom launch description: a version description with extra fields.
#[derive(Debug)]
pub struct CustomGameArgObj {
    pub base: GameArgObj,
    pub compatible_java_majors: Option<Vec<i32>>,
    pub name: String,
    pub order: i32,
    pub uid: String,
    pub add_tweakers: Option<Vec<String>>,
    pub add_jvm_args: Option<Vec<String>>,
    pub version: String,
    pub main_jar: GameLibrariesObj,
    pub minecraft_version: Option<String>,
}

impl Default for CustomGameArgObj {
    fn default() -> (r: Self)
        ensures
            r.compatible_java_majors is None,
            r.name@ == Seq::<char>::empty(),
            r.order == 0,
            r.uid@ == Seq::<char>::empty(),
            r.add_tweakers is None,
            r.add_jvm_args is None,
            r.version@ == Seq::<char>::empty(),
            r.minecraft_version is None,
    {
        CustomGameArgObj {
            base: GameArgObj::default(),
            compatible_java_majors: None,
            name: String::new(),
            order: 0,
            uid: String::new(),
            add_tweakers: None,
            add_jvm_args: None,
            version: String::new(),
            main_jar: GameLibrariesObj::default(),
            minecraft_version: None,
        }
    }
}

} // verus!
